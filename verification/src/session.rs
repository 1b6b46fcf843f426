//! The live-tail session of one streaming client, as a state machine.
//!
//! The connection itself is served outside: frames are received and sent
//! there, the credential check and the read of the log store are made there.
//! What the session does at each frame, answer and timer tick is decided
//! here.

use crate::credentials::{parse_token, spec_parse_token};
use crate::requests::{log_views, RequestLog, RequestLogView};
use vstd::prelude::*;

verus! {

/// Milliseconds between two timer ticks of a session.
pub const HEARTBEAT_INTERVAL_MS: u64 = 100;

/// Milliseconds without a sign of life after which a session that has not
/// authenticated is closed.
pub const CLIENT_TIMEOUT_MS: u64 = 5000;

/// The number of failed authentications that closes a session.
pub const MAX_AUTH_ATTEMPTS: usize = 3;

/// The reason given to a client whose session is closed for failed
/// authentications. The close code that goes with it is the normal one.
pub const AUTH_CLOSE_REASON: &'static str = "Internal error";

/// Where a session stands.
#[derive(Clone, Copy, Debug, PartialEq, Eq, Structural)]
pub enum Phase {
    Unauthenticated,
    Authenticated,
    Closed,
}

/// What happened on the connection of a session.
#[derive(Debug)]
pub enum SessionEvent {
    /// A text frame came in.
    Text(String),
    /// The credential check that the session asked for has ended.
    CredentialsChecked { valid: bool },
    /// A ping came in at this time.
    Ping { payload: Vec<u8>, now_ms: u64 },
    /// A pong came in at this time.
    Pong { now_ms: u64 },
    /// A binary frame came in.
    Binary,
    /// A continuation frame came in.
    Continuation,
    /// A frame without content came in.
    Nop,
    /// The client has sent a close frame.
    Close,
    /// The stream of frames has failed.
    StreamError,
    /// The stream of frames has ended.
    StreamEnded,
    /// The timer has ticked at this time.
    Tick { now_ms: u64 },
    /// The read of the log store that the session asked for has ended, with
    /// the entries in ascending order of time, or with nothing where the
    /// store failed.
    Entries(Option<Vec<RequestLog>>),
}

/// What a `SessionEvent` holds, with its strings and lists as sequences.
pub enum EventView {
    Text(Seq<char>),
    CredentialsChecked { valid: bool },
    Ping { payload: Seq<u8>, now_ms: u64 },
    Pong { now_ms: u64 },
    Binary,
    Continuation,
    Nop,
    Close,
    StreamError,
    StreamEnded,
    Tick { now_ms: u64 },
    Entries(Option<Seq<RequestLogView>>),
}

impl View for SessionEvent {
    type V = EventView;

    open spec fn view(&self) -> EventView {
        match self {
            SessionEvent::Text(text) => EventView::Text(text@),
            SessionEvent::CredentialsChecked { valid } => EventView::CredentialsChecked {
                valid: *valid,
            },
            SessionEvent::Ping { payload, now_ms } => EventView::Ping {
                payload: payload@,
                now_ms: *now_ms,
            },
            SessionEvent::Pong { now_ms } => EventView::Pong { now_ms: *now_ms },
            SessionEvent::Binary => EventView::Binary,
            SessionEvent::Continuation => EventView::Continuation,
            SessionEvent::Nop => EventView::Nop,
            SessionEvent::Close => EventView::Close,
            SessionEvent::StreamError => EventView::StreamError,
            SessionEvent::StreamEnded => EventView::StreamEnded,
            SessionEvent::Tick { now_ms } => EventView::Tick { now_ms: *now_ms },
            SessionEvent::Entries(entries) => EventView::Entries(
                match entries {
                    Some(list) => Some(log_views(list@)),
                    None => None,
                },
            ),
        }
    }
}

/// What has to be done on the connection of a session.
#[derive(Debug)]
pub enum SessionAction {
    /// Check whether the key is the key of the client, and report the
    /// outcome.
    VerifyCredentials { api_key: String, client: String },
    /// Read the entries of the log store from this time on, and report them.
    Query { since_ms: u64 },
    /// Send the entries to the client, as one list.
    Push { entries: Vec<RequestLog> },
    /// Send a ping.
    Ping,
    /// Answer a ping with its payload.
    Pong { payload: Vec<u8> },
    /// Close the connection, with this reason where there is one.
    Close { reason: Option<String> },
}

/// What a `SessionAction` holds, with its strings and lists as sequences.
pub enum SessionActionView {
    VerifyCredentials { api_key: Seq<char>, client: Seq<char> },
    Query { since_ms: u64 },
    Push { entries: Seq<RequestLogView> },
    Ping,
    Pong { payload: Seq<u8> },
    Close { reason: Option<Seq<char>> },
}

impl View for SessionAction {
    type V = SessionActionView;

    open spec fn view(&self) -> SessionActionView {
        match self {
            SessionAction::VerifyCredentials { api_key, client } => {
                SessionActionView::VerifyCredentials { api_key: api_key@, client: client@ }
            },
            SessionAction::Query { since_ms } => SessionActionView::Query { since_ms: *since_ms },
            SessionAction::Push { entries } => SessionActionView::Push {
                entries: log_views(entries@),
            },
            SessionAction::Ping => SessionActionView::Ping,
            SessionAction::Pong { payload } => SessionActionView::Pong { payload: payload@ },
            SessionAction::Close { reason } => SessionActionView::Close {
                reason: match reason {
                    Some(text) => Some(text@),
                    None => None,
                },
            },
        }
    }
}

/// The views of a sequence of session actions.
pub open spec fn session_action_views(actions: Seq<SessionAction>) -> Seq<SessionActionView> {
    actions.map_values(|action: SessionAction| action@)
}

/// The state of a session.
pub struct SessionState {
    /// When the client connected.
    pub connected_at_ms: u64,
    pub phase: Phase,
    /// How many authentications have failed.
    pub auth_attempts: nat,
    /// When the client last gave a sign of life: at its last ping or pong,
    /// or when it connected.
    pub last_heartbeat_ms: u64,
    /// The latest entry of the list that was last sent to the client.
    pub last_pushed: Option<RequestLogView>,
    /// Whether a credential check was asked for and has not ended.
    pub checking: bool,
    /// Whether a read of the log store was asked for and has not ended.
    pub querying: bool,
}

/// The state of a session whose client has just connected.
pub open spec fn spec_connect(now_ms: u64) -> SessionState {
    SessionState {
        connected_at_ms: now_ms,
        phase: Phase::Unauthenticated,
        auth_attempts: 0,
        last_heartbeat_ms: now_ms,
        last_pushed: None,
        checking: false,
        querying: false,
    }
}

/// The state after one more authentication has failed, and what has to be
/// done: nothing, until the failures reach their limit; then the session is
/// closed with a reason.
pub open spec fn spec_failed_attempt(state: SessionState) -> (SessionState, Seq<SessionActionView>) {
    let attempts = state.auth_attempts + 1;
    if attempts >= MAX_AUTH_ATTEMPTS {
        (
            SessionState {
                phase: Phase::Closed,
                auth_attempts: attempts,
                checking: false,
                ..state
            },
            seq![SessionActionView::Close { reason: Some(AUTH_CLOSE_REASON@) }],
        )
    } else {
        (SessionState { auth_attempts: attempts, checking: false, ..state }, seq![])
    }
}

/// Whether a session that has not authenticated has been without a sign of
/// life for too long at the time `now_ms`.
pub open spec fn spec_timed_out(state: SessionState, now_ms: u64) -> bool {
    state.phase is Unauthenticated && now_ms - state.last_heartbeat_ms > CLIENT_TIMEOUT_MS
}

/// Whether the entries that were read have to be sent: there are some, and
/// the latest of them is not the latest that was sent.
pub open spec fn spec_must_push(state: SessionState, entries: Option<Seq<RequestLogView>>) -> bool {
    entries matches Some(list) && list.len() > 0 && state.last_pushed != Some(list.last())
}

/// The state after an event, and what has to be done on the connection, in
/// this order.
pub open spec fn spec_step(state: SessionState, event: EventView) -> (
    SessionState,
    Seq<SessionActionView>,
) {
    if state.phase is Closed {
        (state, seq![])
    } else {
        match event {
            EventView::Text(text) => {
                if state.phase is Authenticated || state.checking {
                    (state, seq![])
                } else {
                    match spec_parse_token(text) {
                        Some((api_key, client)) => (
                            SessionState { checking: true, ..state },
                            seq![SessionActionView::VerifyCredentials { api_key, client }],
                        ),
                        None => spec_failed_attempt(state),
                    }
                }
            },
            EventView::CredentialsChecked { valid } => {
                if !state.checking {
                    (state, seq![])
                } else if valid {
                    (
                        SessionState { phase: Phase::Authenticated, checking: false, ..state },
                        seq![],
                    )
                } else {
                    spec_failed_attempt(state)
                }
            },
            EventView::Ping { payload, now_ms } => (
                SessionState { last_heartbeat_ms: now_ms, ..state },
                seq![SessionActionView::Pong { payload }],
            ),
            EventView::Pong { now_ms } => (
                SessionState { last_heartbeat_ms: now_ms, ..state },
                seq![],
            ),
            EventView::Binary => (state, seq![]),
            EventView::Continuation => (state, seq![]),
            EventView::Nop => (state, seq![]),
            EventView::Close => (
                SessionState { phase: Phase::Closed, ..state },
                seq![SessionActionView::Close { reason: None }],
            ),
            EventView::StreamError => (
                SessionState { phase: Phase::Closed, ..state },
                seq![SessionActionView::Close { reason: None }],
            ),
            EventView::StreamEnded => (
                SessionState { phase: Phase::Closed, ..state },
                seq![SessionActionView::Close { reason: None }],
            ),
            EventView::Tick { now_ms } => {
                if spec_timed_out(state, now_ms) {
                    (
                        SessionState { phase: Phase::Closed, ..state },
                        seq![SessionActionView::Close { reason: None }],
                    )
                } else {
                    (
                        SessionState { querying: true, ..state },
                        seq![SessionActionView::Query { since_ms: state.connected_at_ms }],
                    )
                }
            },
            EventView::Entries(entries) => {
                if !state.querying {
                    (state, seq![])
                } else if spec_must_push(state, entries) {
                    (
                        SessionState {
                            last_pushed: Some(entries->0.last()),
                            querying: false,
                            ..state
                        },
                        seq![
                            SessionActionView::Push { entries: entries->0 },
                            SessionActionView::Ping,
                        ],
                    )
                } else {
                    (SessionState { querying: false, ..state }, seq![SessionActionView::Ping])
                }
            },
        }
    }
}

/// The state after a run of events.
pub open spec fn state_after(state: SessionState, events: Seq<EventView>) -> SessionState
    decreases events.len(),
{
    if events.len() == 0 {
        state
    } else {
        spec_step(state_after(state, events.drop_last()), events.last()).0
    }
}

/// The live-tail session of one client.
#[derive(Debug)]
pub struct LiveTailSession {
    connected_at_ms: u64,
    phase: Phase,
    auth_attempts: usize,
    last_heartbeat_ms: u64,
    last_pushed: Option<RequestLog>,
    checking: bool,
    querying: bool,
}

impl View for LiveTailSession {
    type V = SessionState;

    closed spec fn view(&self) -> SessionState {
        SessionState {
            connected_at_ms: self.connected_at_ms,
            phase: self.phase,
            auth_attempts: self.auth_attempts as nat,
            last_heartbeat_ms: self.last_heartbeat_ms,
            last_pushed: match self.last_pushed {
                Some(entry) => Some(entry@),
                None => None,
            },
            checking: self.checking,
            querying: self.querying,
        }
    }
}

impl LiveTailSession {
    /// What holds of every session: the failures that are counted have not
    /// passed their limit.
    #[verifier::type_invariant]
    spec fn attempts_within_limit(&self) -> bool {
        self.auth_attempts <= MAX_AUTH_ATTEMPTS && (self.auth_attempts == MAX_AUTH_ATTEMPTS
            ==> self.phase is Closed)
    }

    /// The session of a client that connected at the time `now_ms`.
    pub fn new(now_ms: u64) -> (session: LiveTailSession)
        ensures
            session@ == spec_connect(now_ms),
    {
        LiveTailSession {
            connected_at_ms: now_ms,
            phase: Phase::Unauthenticated,
            auth_attempts: 0,
            last_heartbeat_ms: now_ms,
            last_pushed: None,
            checking: false,
            querying: false,
        }
    }

    /// Where the session stands.
    pub fn phase(&self) -> (phase: Phase)
        ensures
            phase == self@.phase,
    {
        self.phase
    }

    /// Whether the client has authenticated.
    pub fn is_authenticated(&self) -> (authenticated: bool)
        ensures
            authenticated == (self@.phase is Authenticated),
    {
        match self.phase {
            Phase::Authenticated => true,
            _ => false,
        }
    }

    /// Whether the session is closed.
    pub fn is_closed(&self) -> (closed: bool)
        ensures
            closed == (self@.phase is Closed),
    {
        match self.phase {
            Phase::Closed => true,
            _ => false,
        }
    }

    /// How many authentications have failed.
    pub fn auth_attempts(&self) -> (attempts: usize)
        ensures
            attempts == self@.auth_attempts,
            attempts <= MAX_AUTH_ATTEMPTS,
    {
        proof {
            use_type_invariant(self);
        }
        self.auth_attempts
    }

    /// When the client connected.
    pub fn connected_at(&self) -> (at_ms: u64)
        ensures
            at_ms == self@.connected_at_ms,
    {
        self.connected_at_ms
    }

    /// When the client last gave a sign of life.
    pub fn last_heartbeat_at(&self) -> (at_ms: u64)
        ensures
            at_ms == self@.last_heartbeat_ms,
    {
        self.last_heartbeat_ms
    }

    /// The latest entry of the list that was last sent to the client.
    pub fn last_pushed(&self) -> (entry: &Option<RequestLog>)
        ensures
            self@.last_pushed == match *entry {
                Some(entry) => Some(entry@),
                None => None,
            },
    {
        &self.last_pushed
    }

    /// Counts one more failed authentication.
    fn fail_attempt(&mut self) -> (actions: Vec<SessionAction>)
        requires
            !(old(self)@.phase is Closed),
        ensures
            final(self)@ == spec_failed_attempt(old(self)@).0,
            session_action_views(actions@) == spec_failed_attempt(old(self)@).1,
    {
        proof {
            use_type_invariant(&*self);
        }
        let mut actions: Vec<SessionAction> = Vec::new();
        let attempts = self.auth_attempts + 1;
        self.checking = false;
        if attempts >= MAX_AUTH_ATTEMPTS {
            self.phase = Phase::Closed;
            self.auth_attempts = attempts;
            actions.push(SessionAction::Close { reason: Some(AUTH_CLOSE_REASON.to_owned()) });
        } else {
            self.auth_attempts = attempts;
        }
        assert(session_action_views(actions@) =~= spec_failed_attempt(old(self)@).1);
        actions
    }

    /// Takes one event, and says what has to be done on the connection, in
    /// this order.
    pub fn handle_event(&mut self, event: SessionEvent) -> (actions: Vec<SessionAction>)
        ensures
            final(self)@ == spec_step(old(self)@, event@).0,
            session_action_views(actions@) == spec_step(old(self)@, event@).1,
    {
        proof {
            use_type_invariant(&*self);
        }
        let mut actions: Vec<SessionAction> = Vec::new();
        if self.is_closed() {
            assert(session_action_views(actions@) =~= Seq::<SessionActionView>::empty());
            return actions;
        }
        match event {
            SessionEvent::Text(text) => {
                if self.is_authenticated() || self.checking {
                } else {
                    match parse_token(text.as_str()) {
                        Some((api_key, client)) => {
                            self.checking = true;
                            actions.push(SessionAction::VerifyCredentials { api_key, client });
                        },
                        None => {
                            return self.fail_attempt();
                        },
                    }
                }
            },
            SessionEvent::CredentialsChecked { valid } => {
                if !self.checking {
                } else if valid {
                    self.checking = false;
                    self.phase = Phase::Authenticated;
                } else {
                    return self.fail_attempt();
                }
            },
            SessionEvent::Ping { payload, now_ms } => {
                self.last_heartbeat_ms = now_ms;
                actions.push(SessionAction::Pong { payload });
            },
            SessionEvent::Pong { now_ms } => {
                self.last_heartbeat_ms = now_ms;
            },
            SessionEvent::Binary => {},
            SessionEvent::Continuation => {},
            SessionEvent::Nop => {},
            SessionEvent::Close => {
                self.phase = Phase::Closed;
                actions.push(SessionAction::Close { reason: None });
            },
            SessionEvent::StreamError => {
                self.phase = Phase::Closed;
                actions.push(SessionAction::Close { reason: None });
            },
            SessionEvent::StreamEnded => {
                self.phase = Phase::Closed;
                actions.push(SessionAction::Close { reason: None });
            },
            SessionEvent::Tick { now_ms } => {
                if !self.is_authenticated() && now_ms > self.last_heartbeat_ms && now_ms
                    - self.last_heartbeat_ms > CLIENT_TIMEOUT_MS {
                    self.phase = Phase::Closed;
                    actions.push(SessionAction::Close { reason: None });
                } else {
                    self.querying = true;
                    actions.push(SessionAction::Query { since_ms: self.connected_at_ms });
                }
            },
            SessionEvent::Entries(entries) => {
                if !self.querying {
                } else {
                    self.querying = false;
                    match entries {
                        Some(list) => {
                            if list.len() > 0 {
                                let latest = &list[list.len() - 1];
                                let fresh = match &self.last_pushed {
                                    Some(sent) => !sent.same_as(latest),
                                    None => true,
                                };
                                if fresh {
                                    self.last_pushed = Some(latest.clone());
                                    actions.push(SessionAction::Push { entries: list });
                                }
                            }
                        },
                        None => {},
                    }
                    actions.push(SessionAction::Ping);
                }
            },
        }
        assert(session_action_views(actions@) =~= spec_step(old(self)@, event@).1);
        actions
    }
}

/// The state after two runs of events, one after the other.
pub proof fn lemma_state_after_concat(
    state: SessionState,
    first: Seq<EventView>,
    second: Seq<EventView>,
)
    ensures
        state_after(state, first + second) == state_after(state_after(state, first), second),
    decreases second.len(),
{
    if second.len() == 0 {
        assert(first + second =~= first);
    } else {
        lemma_state_after_concat(state, first, second.drop_last());
        assert((first + second).drop_last() =~= first + second.drop_last());
        assert((first + second).last() == second.last());
    }
}

/// The state after one and after two events.
pub proof fn lemma_state_after_few(state: SessionState, first: EventView, second: EventView)
    ensures
        state_after(state, seq![first]) == spec_step(state, first).0,
        state_after(state, seq![first, second]) == spec_step(
            spec_step(state, first).0,
            second,
        ).0,
{
    let one = seq![first];
    let two = seq![first, second];
    assert(one.drop_last() =~= Seq::<EventView>::empty());
    assert(state_after(state, one.drop_last()) == state);
    assert(two.drop_last() =~= one);
}

/// What happens on the connection when a client sends a credential frame
/// that is not valid: the text frame, and the failed check of the
/// credentials where the frame names any.
pub open spec fn invalid_frame(text: Seq<char>) -> Seq<EventView> {
    if spec_parse_token(text) is Some {
        seq![EventView::Text(text), EventView::CredentialsChecked { valid: false }]
    } else {
        seq![EventView::Text(text)]
    }
}

/// What happens on the connection when a client sends a valid credential
/// frame: the text frame, and the check that its credentials pass.
pub open spec fn valid_frame(text: Seq<char>) -> Seq<EventView> {
    seq![EventView::Text(text), EventView::CredentialsChecked { valid: true }]
}

/// Whether the session waits for a credential frame: it has not
/// authenticated and is not closed, and no check is under way.
pub open spec fn awaits_credentials(state: SessionState) -> bool {
    state.phase is Unauthenticated && !state.checking
}

/// A credential frame that is not valid counts as one failed
/// authentication, whether it names no credentials or wrong ones.
pub proof fn lemma_invalid_frame_counts(state: SessionState, text: Seq<char>)
    requires
        awaits_credentials(state),
    ensures
        state_after(state, invalid_frame(text)) == spec_failed_attempt(state).0,
{
    lemma_state_after_few(
        state,
        EventView::Text(text),
        EventView::CredentialsChecked { valid: false },
    );
    let failed = spec_failed_attempt(state).0;
    let checking = SessionState { checking: true, ..state };
    assert(spec_failed_attempt(checking).0 == failed);
}

/// Three credential frames in a row that are not valid close a session: it
/// stays open for the first two, and is closed at the third.
pub proof fn lemma_three_invalid_frames_close(
    state: SessionState,
    first: Seq<char>,
    second: Seq<char>,
    third: Seq<char>,
)
    requires
        awaits_credentials(state),
        state.auth_attempts == 0,
    ensures
        awaits_credentials(state_after(state, invalid_frame(first))),
        awaits_credentials(state_after(state, invalid_frame(first) + invalid_frame(second))),
        state_after(
            state,
            invalid_frame(first) + invalid_frame(second) + invalid_frame(third),
        ).phase is Closed,
{
    let one = state_after(state, invalid_frame(first));
    lemma_invalid_frame_counts(state, first);
    lemma_state_after_concat(state, invalid_frame(first), invalid_frame(second));
    let two = state_after(one, invalid_frame(second));
    lemma_invalid_frame_counts(one, second);
    lemma_state_after_concat(
        state,
        invalid_frame(first) + invalid_frame(second),
        invalid_frame(third),
    );
    lemma_invalid_frame_counts(two, third);
}

/// A valid credential frame authenticates a session that waits for one,
/// however many of the frames before it were not valid.
pub proof fn lemma_valid_frame_authenticates(state: SessionState, text: Seq<char>)
    requires
        awaits_credentials(state),
        spec_parse_token(text) is Some,
    ensures
        state_after(state, valid_frame(text)).phase is Authenticated,
        state_after(state, valid_frame(text)).auth_attempts == state.auth_attempts,
        !state_after(state, valid_frame(text)).checking,
{
    lemma_state_after_few(
        state,
        EventView::Text(text),
        EventView::CredentialsChecked { valid: true },
    );
}

/// A valid credential frame as the first, or after one that was not valid,
/// authenticates a new session.
pub proof fn lemma_valid_frame_on_early_attempt(now_ms: u64, wrong: Seq<char>, right: Seq<char>)
    requires
        spec_parse_token(right) is Some,
    ensures
        state_after(spec_connect(now_ms), valid_frame(right)).phase is Authenticated,
        state_after(
            spec_connect(now_ms),
            invalid_frame(wrong) + valid_frame(right),
        ).phase is Authenticated,
{
    let fresh = spec_connect(now_ms);
    lemma_valid_frame_authenticates(fresh, right);
    lemma_invalid_frame_counts(fresh, wrong);
    lemma_state_after_concat(fresh, invalid_frame(wrong), valid_frame(right));
    lemma_valid_frame_authenticates(state_after(fresh, invalid_frame(wrong)), right);
}

/// A session that has authenticated checks no more credentials: a text frame
/// changes nothing and asks for nothing.
pub proof fn lemma_authenticated_checks_nothing(state: SessionState, text: Seq<char>)
    requires
        state.phase is Authenticated,
    ensures
        spec_step(state, EventView::Text(text)) == (state, Seq::<SessionActionView>::empty()),
{
}

/// Whether an event is neither a sign of life of the client nor a
/// successful authentication: it is no ping, no pong, and no credential
/// check that the client passes.
pub open spec fn gives_no_life(event: EventView) -> bool {
    !(event is Ping) && !(event is Pong) && !(event matches EventView::CredentialsChecked {
        valid: true,
    })
}

/// While the client gives no sign of life and does not authenticate, a new
/// session stays unauthenticated, with the time of its connection as the
/// last sign of life, or is closed.
pub proof fn lemma_lifeless_client_stays(connected_at_ms: u64, events: Seq<EventView>)
    requires
        forall|i: int| 0 <= i < events.len() ==> gives_no_life(#[trigger] events[i]),
    ensures
        ({
            let state = state_after(spec_connect(connected_at_ms), events);
            state.phase is Closed || (state.phase is Unauthenticated && state.last_heartbeat_ms
                == connected_at_ms)
        }),
    decreases events.len(),
{
    if events.len() > 0 {
        let before = events.drop_last();
        assert forall|i: int| 0 <= i < before.len() implies gives_no_life(
            #[trigger] before[i],
        ) by {
            assert(before[i] == events[i]);
        }
        lemma_lifeless_client_stays(connected_at_ms, before);
        assert(gives_no_life(events[events.len() - 1]));
    }
}

/// A session whose client does not authenticate is closed when its time is
/// up, even where the client sends no frame at all: at the first tick later
/// than the timeout after the connection, the session is closed, whatever
/// came before, unless the client gave a sign of life or authenticated.
pub proof fn lemma_lifeless_client_times_out(
    connected_at_ms: u64,
    events: Seq<EventView>,
    now_ms: u64,
)
    requires
        forall|i: int| 0 <= i < events.len() ==> gives_no_life(#[trigger] events[i]),
        now_ms - connected_at_ms > CLIENT_TIMEOUT_MS,
    ensures
        state_after(
            spec_connect(connected_at_ms),
            events.push(EventView::Tick { now_ms }),
        ).phase is Closed,
{
    lemma_lifeless_client_stays(connected_at_ms, events);
    let all = events.push(EventView::Tick { now_ms });
    assert(all.drop_last() =~= events);
}

/// One round of the timer: the tick, and the entries that the store gave to
/// the read that the tick asked for.
pub open spec fn poll(now_ms: u64, entries: Seq<RequestLogView>) -> Seq<EventView> {
    seq![EventView::Tick { now_ms }, EventView::Entries(Some(entries))]
}

/// What is sent to the client in one round of the timer, where the session
/// is not closed by the tick.
pub open spec fn sent_in_round(state: SessionState, now_ms: u64, entries: Seq<RequestLogView>) -> Seq<
    SessionActionView,
> {
    spec_step(spec_step(state, EventView::Tick { now_ms }).0, EventView::Entries(Some(entries))).1
}

/// Entries are sent once for each latest entry. In a round of the timer the
/// whole list that was read is sent where its latest entry is not the one
/// that was sent last, and the latest entry is remembered. So a second round
/// that reads a list with the same latest entry sends a ping and no entries,
/// and a round that reads a list with a new latest entry sends that list,
/// once.
pub proof fn lemma_push_once_per_tail(
    state: SessionState,
    first_ms: u64,
    entries: Seq<RequestLogView>,
    second_ms: u64,
    again: Seq<RequestLogView>,
)
    requires
        state.phase is Authenticated,
        entries.len() > 0,
        again.len() > 0,
    ensures
        sent_in_round(state, first_ms, entries) == if state.last_pushed == Some(entries.last()) {
            seq![SessionActionView::Ping]
        } else {
            seq![SessionActionView::Push { entries }, SessionActionView::Ping]
        },
        state_after(state, poll(first_ms, entries)).last_pushed == Some(entries.last()),
        state_after(state, poll(first_ms, entries)).phase is Authenticated,
        sent_in_round(state_after(state, poll(first_ms, entries)), second_ms, again) == if again.last()
            == entries.last() {
            seq![SessionActionView::Ping]
        } else {
            seq![SessionActionView::Push { entries: again }, SessionActionView::Ping]
        },
{
    lemma_state_after_few(
        state,
        EventView::Tick { now_ms: first_ms },
        EventView::Entries(Some(entries)),
    );
}

/// A round of the timer that reads no entries, or fails to read, sends a
/// ping and nothing else, and leaves the latest entry that was sent as it
/// was.
pub proof fn lemma_nothing_read_nothing_pushed(
    state: SessionState,
    now_ms: u64,
    entries: Option<Seq<RequestLogView>>,
)
    requires
        !(state.phase is Closed),
        !spec_timed_out(state, now_ms),
        entries is None || entries->0.len() == 0,
    ensures
        ({
            let asked = spec_step(state, EventView::Tick { now_ms }).0;
            &&& spec_step(asked, EventView::Entries(entries)).1 == seq![SessionActionView::Ping]
            &&& spec_step(asked, EventView::Entries(entries)).0.last_pushed == state.last_pushed
        }),
{
}

} // verus!
