use api_monitor::method::Method;
use api_monitor::scheduler::{restart_uptime_service, TaskAction, UptimeActor, UptimePingMessage};
use api_monitor::settings::UptimeSetting;

fn target(url: &str, interval: Option<usize>) -> UptimeSetting {
    UptimeSetting {
        url: url.to_string(),
        interval,
        method: Some(Method::GET),
        enabled: Some(true),
        name: "site".to_string(),
    }
}

fn urls(actor: &UptimeActor) -> Vec<String> {
    actor.settings().iter().map(|s| s.url.clone()).collect()
}

/// Carries the task actions out on a list of running loops, as the caller of
/// the scheduler does.
fn run(tasks: &mut Vec<UptimeSetting>, actions: Vec<TaskAction>) {
    for action in actions {
        match action {
            TaskAction::Stop { url } => tasks.retain(|t| t.url != url),
            TaskAction::Start { setting } => tasks.push(setting),
        }
    }
}

#[test]
fn new_scheduler_is_empty() {
    let actor = UptimeActor::new();
    assert!(!actor.is_running());
    assert!(actor.settings().is_empty());
    assert!(!actor.is_enabled("http://x"));
}

#[test]
fn enable_starts_one_loop() {
    let mut actor = UptimeActor::new();
    let actions = actor.enable(target("http://x", Some(1)));
    assert_eq!(actions.len(), 1);
    match &actions[0] {
        TaskAction::Start { setting } => {
            assert_eq!(setting.url, "http://x");
            assert_eq!(setting.interval, Some(1));
            assert_eq!(setting.method, Some(Method::GET));
        }
        other => panic!("unexpected action {:?}", other),
    }
    assert!(actor.is_enabled("http://x"));
    assert!(actor.is_running());
    assert_eq!(urls(&actor), vec!["http://x".to_string()]);
}

#[test]
fn enable_twice_leaves_one_loop() {
    let mut actor = UptimeActor::new();
    let mut tasks = Vec::new();
    run(&mut tasks, actor.enable(target("http://x", Some(1))));
    run(&mut tasks, actor.enable(target("http://x", Some(1))));
    assert_eq!(tasks.len(), 1);
    assert_eq!(actor.settings().len(), 1);
    assert!(tasks[0].same_as(&target("http://x", Some(1))));
}

#[test]
fn enable_again_stops_the_old_loop_first() {
    let mut actor = UptimeActor::new();
    actor.enable(target("http://x", Some(60)));
    let actions = actor.enable(target("http://x", Some(5)));
    assert_eq!(actions.len(), 2);
    match &actions[0] {
        TaskAction::Stop { url } => assert_eq!(url, "http://x"),
        other => panic!("unexpected action {:?}", other),
    }
    match &actions[1] {
        TaskAction::Start { setting } => assert_eq!(setting.interval, Some(5)),
        other => panic!("unexpected action {:?}", other),
    }
    assert_eq!(actor.settings().len(), 1);
    assert_eq!(actor.settings()[0].interval, Some(5));
}

#[test]
fn replaced_target_moves_to_the_end() {
    let mut actor = UptimeActor::new();
    actor.enable(target("http://a", None));
    actor.enable(target("http://b", None));
    actor.enable(target("http://a", Some(7)));
    assert_eq!(urls(&actor), vec!["http://b".to_string(), "http://a".to_string()]);
}

#[test]
fn disable_stops_the_loop() {
    let mut actor = UptimeActor::new();
    let mut tasks = Vec::new();
    run(&mut tasks, actor.enable(target("http://x", Some(1))));
    run(&mut tasks, actor.enable(target("http://y", Some(1))));
    let actions = actor.disable("http://x");
    assert_eq!(actions.len(), 1);
    match &actions[0] {
        TaskAction::Stop { url } => assert_eq!(url, "http://x"),
        other => panic!("unexpected action {:?}", other),
    }
    run(&mut tasks, actions);
    assert_eq!(tasks.len(), 1);
    assert_eq!(tasks[0].url, "http://y");
    assert!(!actor.is_enabled("http://x"));
    assert!(actor.is_enabled("http://y"));
    assert!(!actor.is_running());
}

#[test]
fn disable_of_unknown_url_does_nothing() {
    let mut actor = UptimeActor::new();
    actor.enable(target("http://x", Some(1)));
    let actions = actor.disable("http://nowhere");
    assert!(actions.is_empty());
    assert_eq!(urls(&actor), vec!["http://x".to_string()]);
}

#[test]
fn running_loops_follow_the_targets() {
    let mut actor = UptimeActor::new();
    let mut tasks = Vec::new();
    run(&mut tasks, actor.enable(target("http://a", Some(1))));
    run(&mut tasks, actor.enable(target("http://b", Some(2))));
    run(&mut tasks, actor.enable(target("http://a", Some(3))));
    run(&mut tasks, actor.disable("http://c"));
    run(&mut tasks, actor.disable("http://b"));
    run(&mut tasks, actor.enable(target("http://c", None)));
    assert_eq!(tasks.len(), actor.settings().len());
    for (task, setting) in tasks.iter().zip(actor.settings().iter()) {
        assert!(task.same_as(setting));
    }
    assert_eq!(urls(&actor), vec!["http://a".to_string(), "http://c".to_string()]);
    assert_eq!(actor.settings()[0].interval, Some(3));
}

#[test]
fn handle_enable_message() {
    let mut actor = UptimeActor::new();
    let message = UptimePingMessage {
        msg: "enable",
        settings: Some(target("http://x", Some(1))),
        url: None,
        db_path: Some("db.sqlite".to_string()),
    };
    assert!(message.is_complete());
    let reply = actor.handle(message);
    assert!(reply.value);
    assert_eq!(reply.actions.len(), 1);
    assert!(actor.is_enabled("http://x"));
}

#[test]
fn handle_is_enabled_message() {
    let mut actor = UptimeActor::new();
    actor.enable(target("http://x", Some(1)));
    let known = actor.handle(UptimePingMessage {
        msg: "is_enabled",
        settings: None,
        url: Some("http://x".to_string()),
        db_path: None,
    });
    assert!(known.value);
    assert!(known.actions.is_empty());
    let unknown = actor.handle(UptimePingMessage {
        msg: "is_enabled",
        settings: None,
        url: Some("http://y".to_string()),
        db_path: None,
    });
    assert!(!unknown.value);
    assert_eq!(actor.settings().len(), 1);
}

#[test]
fn handle_disable_message() {
    let mut actor = UptimeActor::new();
    actor.enable(target("http://x", Some(1)));
    let reply = actor.handle(UptimePingMessage {
        msg: "disable",
        settings: None,
        url: Some("http://x".to_string()),
        db_path: None,
    });
    assert!(!reply.value);
    assert_eq!(reply.actions.len(), 1);
    assert!(!actor.is_enabled("http://x"));
}

#[test]
fn handle_ping_mailbox_changes_nothing() {
    let mut actor = UptimeActor::new();
    actor.enable(target("http://x", Some(1)));
    let reply = actor.handle(UptimePingMessage {
        msg: "ping_mailbox",
        settings: None,
        url: None,
        db_path: None,
    });
    assert!(reply.value);
    assert!(reply.actions.is_empty());
    assert_eq!(actor.settings().len(), 1);
}

#[test]
fn incomplete_messages_are_told_apart() {
    let no_target =
        UptimePingMessage { msg: "enable", settings: None, url: None, db_path: None };
    assert!(!no_target.is_complete());
    let no_url = UptimePingMessage { msg: "disable", settings: None, url: None, db_path: None };
    assert!(!no_url.is_complete());
    let query = UptimePingMessage { msg: "is_enabled", settings: None, url: None, db_path: None };
    assert!(!query.is_complete());
    let other = UptimePingMessage { msg: "anything", settings: None, url: None, db_path: None };
    assert!(other.is_complete());
}

#[test]
fn restart_enables_only_enabled_targets() {
    let mut actor = UptimeActor::new();
    let mut off = target("http://off", Some(1));
    off.enabled = Some(false);
    let mut unset = target("http://unset", Some(1));
    unset.enabled = None;
    let stored = vec![target("http://a", Some(1)), off, unset, target("http://b", Some(2))];
    let actions = restart_uptime_service(&mut actor, stored);
    assert_eq!(actions.len(), 2);
    assert_eq!(urls(&actor), vec!["http://a".to_string(), "http://b".to_string()]);
    assert!(actor.is_running());
}

#[test]
fn restart_with_nothing_stored_changes_nothing() {
    let mut actor = UptimeActor::new();
    let actions = restart_uptime_service(&mut actor, Vec::new());
    assert!(actions.is_empty());
    assert!(actor.settings().is_empty());
    assert!(!actor.is_running());
}
