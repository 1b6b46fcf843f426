//! The arguments of the command line.

use crate::text::str_equal;
use vstd::prelude::*;

verus! {

/// What the command line asks for.
#[derive(Debug)]
pub enum CliCommand {
    /// Serve, with or without asking for API keys, after printing the notice
    /// where there is one.
    Serve { require_auth: bool, notice: Option<&'static str> },
    /// Make a key for a client, store it with the description, and leave.
    Keygen { client_id: String, description: String },
    /// Say whether a key has this stored form, and leave.
    Verify { api_key: String, hashed_key: String },
    /// The command lacks the two values that it takes.
    Incomplete,
}

/// What a `CliCommand` holds, with its strings as sequences.
pub enum CliCommandView {
    Serve { require_auth: bool, notice: Option<Seq<char>> },
    Keygen { client_id: Seq<char>, description: Seq<char> },
    Verify { api_key: Seq<char>, hashed_key: Seq<char> },
    Incomplete,
}

impl View for CliCommand {
    type V = CliCommandView;

    open spec fn view(&self) -> CliCommandView {
        match self {
            CliCommand::Serve { require_auth, notice } => CliCommandView::Serve {
                require_auth: *require_auth,
                notice: match notice {
                    Some(text) => Some(text@),
                    None => None,
                },
            },
            CliCommand::Keygen { client_id, description } => CliCommandView::Keygen {
                client_id: client_id@,
                description: description@,
            },
            CliCommand::Verify { api_key, hashed_key } => CliCommandView::Verify {
                api_key: api_key@,
                hashed_key: hashed_key@,
            },
            CliCommand::Incomplete => CliCommandView::Incomplete,
        }
    }
}

/// What a command line asks for. The first argument is the name of the
/// program; the second names the command, and the two behind it are the
/// values of `--keygen` and `--verify`. Without a second argument the
/// server runs and asks for keys; `--no-auth` runs it without; any other
/// word is passed over with a notice.
pub open spec fn spec_parse_args(args: Seq<Seq<char>>) -> CliCommandView {
    if args.len() < 2 {
        CliCommandView::Serve { require_auth: true, notice: None }
    } else if args[1] == "--keygen"@ {
        if args.len() < 4 {
            CliCommandView::Incomplete
        } else {
            CliCommandView::Keygen { client_id: args[2], description: args[3] }
        }
    } else if args[1] == "--verify"@ {
        if args.len() < 4 {
            CliCommandView::Incomplete
        } else {
            CliCommandView::Verify { api_key: args[2], hashed_key: args[3] }
        }
    } else if args[1] == "--no-auth"@ {
        CliCommandView::Serve { require_auth: false, notice: Some("Skipping authorization"@) }
    } else {
        CliCommandView::Serve { require_auth: true, notice: Some("Invalid argument, ignoring"@) }
    }
}

/// The arguments by their views.
pub open spec fn arg_views(args: Seq<String>) -> Seq<Seq<char>> {
    args.map_values(|arg: String| arg@)
}

/// Reads what the command line asks for.
pub fn parse_args(args: &Vec<String>) -> (command: CliCommand)
    ensures
        command@ == spec_parse_args(arg_views(args@)),
{
    if args.len() < 2 {
        return CliCommand::Serve { require_auth: true, notice: None };
    }
    let word = args[1].as_str();
    if str_equal(word, "--keygen") {
        if args.len() < 4 {
            CliCommand::Incomplete
        } else {
            CliCommand::Keygen { client_id: args[2].clone(), description: args[3].clone() }
        }
    } else if str_equal(word, "--verify") {
        if args.len() < 4 {
            CliCommand::Incomplete
        } else {
            CliCommand::Verify { api_key: args[2].clone(), hashed_key: args[3].clone() }
        }
    } else if str_equal(word, "--no-auth") {
        CliCommand::Serve { require_auth: false, notice: Some("Skipping authorization") }
    } else {
        CliCommand::Serve { require_auth: true, notice: Some("Invalid argument, ignoring") }
    }
}

} // verus!
