//! The decisions of an API-traffic logger and endpoint-uptime monitor.
//!
//! The scheduler of the monitors, the check loop of each target and the
//! live-tail session of each streaming client are state machines here: they
//! take what happened and say what has to be done. Around them stand the
//! rules on API keys, on the rows of the stores and on the charts that are
//! cut from them. Waiting, sending and storing are left to the caller.

pub mod cli;
pub mod credentials;
pub mod digest;
pub mod heartbeat;
pub mod method;
pub mod monitor;
pub mod queries;
pub mod requests;
pub mod scheduler;
pub mod session;
pub mod settings;
pub mod stats;
pub mod text;
pub mod timestamps;
