use api_monitor::requests::RequestLog;
use api_monitor::session::{
    LiveTailSession, Phase, SessionAction, SessionEvent, AUTH_CLOSE_REASON, CLIENT_TIMEOUT_MS,
    HEARTBEAT_INTERVAL_MS, MAX_AUTH_ATTEMPTS,
};

fn entry(endpoint: &str, date: i64) -> RequestLog {
    RequestLog {
        method: "GET".to_string(),
        endpoint: endpoint.to_string(),
        params: String::new(),
        req_headers: "{}".to_string(),
        res_headers: "{}".to_string(),
        date,
        status: 200,
        req_body: None,
        res_body: Some("{\"ok\":true}".to_string()),
        res_time: 12,
    }
}

fn authenticated(now_ms: u64) -> LiveTailSession {
    let mut session = LiveTailSession::new(now_ms);
    session.handle_event(SessionEvent::Text("key:client".to_string()));
    session.handle_event(SessionEvent::CredentialsChecked { valid: true });
    assert_eq!(session.phase(), Phase::Authenticated);
    session
}

/// One round of the timer: the tick and the entries read for it. Gives back
/// the lists that were pushed and whether a ping was sent.
fn round(
    session: &mut LiveTailSession,
    now_ms: u64,
    entries: Option<Vec<RequestLog>>,
) -> (Vec<Vec<RequestLog>>, bool) {
    let asked = session.handle_event(SessionEvent::Tick { now_ms });
    assert_eq!(asked.len(), 1);
    match &asked[0] {
        SessionAction::Query { since_ms } => assert_eq!(*since_ms, session.connected_at()),
        other => panic!("unexpected action {:?}", other),
    }
    let mut pushed = Vec::new();
    let mut pinged = false;
    for action in session.handle_event(SessionEvent::Entries(entries)) {
        match action {
            SessionAction::Push { entries } => pushed.push(entries),
            SessionAction::Ping => pinged = true,
            other => panic!("unexpected action {:?}", other),
        }
    }
    (pushed, pinged)
}

/// Sends a credential frame and the answer of the credential check.
fn credential_frame(session: &mut LiveTailSession, text: &str, valid: bool) -> Vec<SessionAction> {
    let mut actions = session.handle_event(SessionEvent::Text(text.to_string()));
    let asked = actions.iter().any(|a| matches!(a, SessionAction::VerifyCredentials { .. }));
    if asked {
        actions.extend(session.handle_event(SessionEvent::CredentialsChecked { valid }));
    }
    actions
}

#[test]
fn constants_are_as_documented() {
    assert_eq!(HEARTBEAT_INTERVAL_MS, 100);
    assert_eq!(CLIENT_TIMEOUT_MS, 5000);
    assert_eq!(MAX_AUTH_ATTEMPTS, 3);
}

#[test]
fn new_session_is_unauthenticated() {
    let session = LiveTailSession::new(42);
    assert_eq!(session.phase(), Phase::Unauthenticated);
    assert!(!session.is_authenticated());
    assert!(!session.is_closed());
    assert_eq!(session.auth_attempts(), 0);
    assert_eq!(session.connected_at(), 42);
    assert_eq!(session.last_heartbeat_at(), 42);
    assert!(session.last_pushed().is_none());
}

#[test]
fn text_frame_asks_for_a_credential_check() {
    let mut session = LiveTailSession::new(0);
    let actions = session.handle_event(SessionEvent::Text("secret:alice".to_string()));
    assert_eq!(actions.len(), 1);
    match &actions[0] {
        SessionAction::VerifyCredentials { api_key, client } => {
            assert_eq!(api_key, "secret");
            assert_eq!(client, "alice");
        }
        other => panic!("unexpected action {:?}", other),
    }
    assert_eq!(session.phase(), Phase::Unauthenticated);
    assert_eq!(session.auth_attempts(), 0);
}

#[test]
fn token_with_more_colons_names_the_first_two_parts() {
    let mut session = LiveTailSession::new(0);
    let actions = session.handle_event(SessionEvent::Text("k:c:rest:more".to_string()));
    match &actions[0] {
        SessionAction::VerifyCredentials { api_key, client } => {
            assert_eq!(api_key, "k");
            assert_eq!(client, "c");
        }
        other => panic!("unexpected action {:?}", other),
    }
}

#[test]
fn valid_credentials_authenticate() {
    let mut session = LiveTailSession::new(0);
    let actions = credential_frame(&mut session, "key:client", true);
    assert_eq!(actions.len(), 1);
    assert_eq!(session.phase(), Phase::Authenticated);
    assert_eq!(session.auth_attempts(), 0);
}

#[test]
fn three_invalid_frames_close_the_session() {
    let mut session = LiveTailSession::new(0);
    credential_frame(&mut session, "a:b", false);
    assert_eq!(session.phase(), Phase::Unauthenticated);
    assert_eq!(session.auth_attempts(), 1);
    credential_frame(&mut session, "a:b", false);
    assert_eq!(session.phase(), Phase::Unauthenticated);
    assert_eq!(session.auth_attempts(), 2);
    let actions = credential_frame(&mut session, "a:b", false);
    assert_eq!(session.phase(), Phase::Closed);
    assert_eq!(session.auth_attempts(), 3);
    match actions.last() {
        Some(SessionAction::Close { reason }) => {
            assert_eq!(reason.as_deref(), Some(AUTH_CLOSE_REASON));
            assert_eq!(reason.as_deref(), Some("Internal error"));
        }
        other => panic!("unexpected action {:?}", other),
    }
}

#[test]
fn malformed_frames_count_as_failed_attempts() {
    let mut session = LiveTailSession::new(0);
    assert!(session.handle_event(SessionEvent::Text("no colon here".to_string())).is_empty());
    assert_eq!(session.auth_attempts(), 1);
    assert!(session.handle_event(SessionEvent::Text(String::new())).is_empty());
    assert_eq!(session.auth_attempts(), 2);
    let actions = session.handle_event(SessionEvent::Text("still none".to_string()));
    assert_eq!(actions.len(), 1);
    assert!(matches!(&actions[0], SessionAction::Close { reason: Some(_) }));
    assert!(session.is_closed());
}

#[test]
fn valid_frame_on_first_attempt_authenticates() {
    let mut session = LiveTailSession::new(0);
    credential_frame(&mut session, "k:c", true);
    assert!(session.is_authenticated());
}

#[test]
fn valid_frame_on_second_attempt_authenticates() {
    let mut session = LiveTailSession::new(0);
    credential_frame(&mut session, "k:wrong", false);
    credential_frame(&mut session, "k:c", true);
    assert!(session.is_authenticated());
    assert_eq!(session.auth_attempts(), 1);
}

#[test]
fn valid_frame_on_third_attempt_authenticates() {
    let mut session = LiveTailSession::new(0);
    credential_frame(&mut session, "k:wrong", false);
    credential_frame(&mut session, "broken", false);
    credential_frame(&mut session, "k:c", true);
    assert!(session.is_authenticated());
    assert_eq!(session.auth_attempts(), 2);
}

#[test]
fn authenticated_session_checks_no_more_credentials() {
    let mut session = authenticated(0);
    for text in ["k:c", "broken", "other:client"] {
        let actions = session.handle_event(SessionEvent::Text(text.to_string()));
        assert!(actions.is_empty());
    }
    assert!(session.handle_event(SessionEvent::CredentialsChecked { valid: false }).is_empty());
    assert!(session.is_authenticated());
    assert_eq!(session.auth_attempts(), 0);
}

#[test]
fn answer_without_a_check_is_passed_over() {
    let mut session = LiveTailSession::new(0);
    assert!(session.handle_event(SessionEvent::CredentialsChecked { valid: true }).is_empty());
    assert_eq!(session.phase(), Phase::Unauthenticated);
    assert!(session.handle_event(SessionEvent::CredentialsChecked { valid: false }).is_empty());
    assert_eq!(session.auth_attempts(), 0);
}

#[test]
fn silent_client_is_closed_after_the_timeout() {
    let mut session = LiveTailSession::new(1_000);
    let mut now_ms = 1_000;
    while now_ms <= 1_000 + CLIENT_TIMEOUT_MS {
        let (pushed, pinged) = round(&mut session, now_ms, Some(Vec::new()));
        assert!(pushed.is_empty());
        assert!(pinged);
        now_ms += HEARTBEAT_INTERVAL_MS;
    }
    assert_eq!(now_ms, 6_100);
    let actions = session.handle_event(SessionEvent::Tick { now_ms });
    assert_eq!(actions.len(), 1);
    assert!(matches!(&actions[0], SessionAction::Close { reason: None }));
    assert!(session.is_closed());
}

#[test]
fn tick_at_exactly_the_timeout_keeps_the_session() {
    let mut session = LiveTailSession::new(1_000);
    let actions = session.handle_event(SessionEvent::Tick { now_ms: 6_000 });
    assert!(matches!(&actions[0], SessionAction::Query { since_ms: 1_000 }));
    assert!(!session.is_closed());
    session.handle_event(SessionEvent::Entries(None));
    let actions = session.handle_event(SessionEvent::Tick { now_ms: 6_001 });
    assert!(matches!(&actions[0], SessionAction::Close { reason: None }));
}

#[test]
fn pong_refreshes_the_heartbeat() {
    let mut session = LiveTailSession::new(0);
    assert!(session.handle_event(SessionEvent::Pong { now_ms: 4_000 }).is_empty());
    assert_eq!(session.last_heartbeat_at(), 4_000);
    let actions = session.handle_event(SessionEvent::Tick { now_ms: 8_000 });
    assert!(matches!(&actions[0], SessionAction::Query { .. }));
    session.handle_event(SessionEvent::Entries(None));
    let actions = session.handle_event(SessionEvent::Tick { now_ms: 9_001 });
    assert!(matches!(&actions[0], SessionAction::Close { reason: None }));
}

#[test]
fn ping_is_answered_with_its_payload() {
    let mut session = LiveTailSession::new(0);
    let actions =
        session.handle_event(SessionEvent::Ping { payload: vec![1, 2, 3], now_ms: 77 });
    assert_eq!(actions.len(), 1);
    match &actions[0] {
        SessionAction::Pong { payload } => assert_eq!(payload, &vec![1, 2, 3]),
        other => panic!("unexpected action {:?}", other),
    }
    assert_eq!(session.last_heartbeat_at(), 77);
}

#[test]
fn authenticated_session_never_times_out() {
    let mut session = authenticated(0);
    let actions = session.handle_event(SessionEvent::Tick { now_ms: 1_000_000 });
    assert!(matches!(&actions[0], SessionAction::Query { since_ms: 0 }));
    assert!(session.is_authenticated());
}

#[test]
fn close_frame_closes_without_reason() {
    let mut session = authenticated(0);
    let actions = session.handle_event(SessionEvent::Close);
    assert_eq!(actions.len(), 1);
    assert!(matches!(&actions[0], SessionAction::Close { reason: None }));
    assert!(session.is_closed());
}

#[test]
fn stream_error_and_end_close_the_session() {
    let mut failed = LiveTailSession::new(0);
    let actions = failed.handle_event(SessionEvent::StreamError);
    assert!(matches!(&actions[0], SessionAction::Close { reason: None }));
    assert!(failed.is_closed());
    let mut ended = authenticated(0);
    let actions = ended.handle_event(SessionEvent::StreamEnded);
    assert!(matches!(&actions[0], SessionAction::Close { reason: None }));
    assert!(ended.is_closed());
}

#[test]
fn other_frames_are_passed_over() {
    let mut session = LiveTailSession::new(0);
    assert!(session.handle_event(SessionEvent::Binary).is_empty());
    assert!(session.handle_event(SessionEvent::Continuation).is_empty());
    assert!(session.handle_event(SessionEvent::Nop).is_empty());
    assert_eq!(session.phase(), Phase::Unauthenticated);
    assert_eq!(session.auth_attempts(), 0);
}

#[test]
fn closed_session_does_nothing() {
    let mut session = LiveTailSession::new(0);
    session.handle_event(SessionEvent::Close);
    assert!(session.handle_event(SessionEvent::Tick { now_ms: 10 }).is_empty());
    assert!(session.handle_event(SessionEvent::Text("k:c".to_string())).is_empty());
    assert!(session.handle_event(SessionEvent::Ping { payload: vec![], now_ms: 5 }).is_empty());
    assert!(session.handle_event(SessionEvent::Entries(Some(vec![entry("/a", 1)]))).is_empty());
    assert!(session.is_closed());
    assert_eq!(session.last_heartbeat_at(), 0);
}

#[test]
fn push_correctness() {
    let mut session = authenticated(0);
    let a = entry("/a", 10);
    let b = entry("/b", 20);
    let c = entry("/c", 30);
    // Entries A and B were inserted after the connection: both are pushed.
    let (pushed, pinged) = round(&mut session, 100, Some(vec![a.clone(), b.clone()]));
    assert!(pinged);
    assert_eq!(pushed.len(), 1);
    assert_eq!(pushed[0].len(), 2);
    assert!(pushed[0][0].same_as(&a));
    assert!(pushed[0][1].same_as(&b));
    assert!(session.last_pushed().as_ref().unwrap().same_as(&b));
    // Nothing new: no push, round after round.
    for tick in 2..10 {
        let (pushed, pinged) = round(&mut session, tick * 100, Some(vec![a.clone(), b.clone()]));
        assert!(pushed.is_empty());
        assert!(pinged);
    }
    // Entry C is inserted: the list is pushed, once.
    let all = vec![a.clone(), b.clone(), c.clone()];
    let (pushed, _) = round(&mut session, 1_000, Some(all.clone()));
    assert_eq!(pushed.len(), 1);
    assert_eq!(pushed[0].len(), 3);
    assert!(pushed[0][2].same_as(&c));
    let (pushed, pinged) = round(&mut session, 1_100, Some(all));
    assert!(pushed.is_empty());
    assert!(pinged);
}

#[test]
fn empty_or_failed_read_pushes_nothing() {
    let mut session = authenticated(0);
    let (pushed, pinged) = round(&mut session, 100, Some(Vec::new()));
    assert!(pushed.is_empty());
    assert!(pinged);
    let (pushed, pinged) = round(&mut session, 200, None);
    assert!(pushed.is_empty());
    assert!(pinged);
    assert!(session.last_pushed().is_none());
}

#[test]
fn unauthenticated_session_is_pushed_to_within_the_timeout() {
    let mut session = LiveTailSession::new(0);
    let (pushed, _) = round(&mut session, 100, Some(vec![entry("/a", 10)]));
    assert_eq!(pushed.len(), 1);
}

#[test]
fn entries_without_a_read_are_passed_over() {
    let mut session = authenticated(0);
    let actions = session.handle_event(SessionEvent::Entries(Some(vec![entry("/a", 10)])));
    assert!(actions.is_empty());
    assert!(session.last_pushed().is_none());
}

#[test]
fn tail_with_other_content_is_pushed_again() {
    let mut session = authenticated(0);
    let first = entry("/a", 10);
    let mut changed = entry("/a", 10);
    changed.status = 500;
    let (pushed, _) = round(&mut session, 100, Some(vec![first]));
    assert_eq!(pushed.len(), 1);
    let (pushed, _) = round(&mut session, 200, Some(vec![changed]));
    assert_eq!(pushed.len(), 1);
}
