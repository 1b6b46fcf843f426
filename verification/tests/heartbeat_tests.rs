use api_monitor::heartbeat::{
    classify, HeartbeatAction, HeartbeatEvent, HeartbeatRecord, HeartbeatTask, Status,
    PROBE_TIMEOUT_SECS,
};
use api_monitor::method::Method;
use api_monitor::scheduler::{TaskAction, UptimeActor};
use api_monitor::settings::UptimeSetting;

fn target(url: &str, interval: Option<usize>, method: Option<Method>) -> UptimeSetting {
    UptimeSetting {
        url: url.to_string(),
        interval,
        method,
        enabled: Some(true),
        name: "site".to_string(),
    }
}

/// Drives a loop over the given wake-up times, answering every request at
/// once, and gives back the records that it wrote.
fn drive(task: &mut HeartbeatTask, ticks: &[u64], completed: bool) -> Vec<HeartbeatRecord> {
    let mut records = Vec::new();
    for now_ms in ticks {
        if let HeartbeatAction::Probe(_) = task.step(HeartbeatEvent::Tick { now_ms: *now_ms }) {
            match task.step(HeartbeatEvent::ProbeFinished { now_ms: *now_ms, completed }) {
                HeartbeatAction::Record(record) => records.push(record),
                other => panic!("unexpected action {:?}", other),
            }
        }
    }
    records
}

#[test]
fn classify_goes_by_completion_only() {
    assert_eq!(classify(true), Status::Up);
    assert_eq!(classify(false), Status::Down);
    assert_eq!(Status::Up.as_str(), "up");
    assert_eq!(Status::Down.as_str(), "down");
}

#[test]
fn first_tick_probes_at_once() {
    let mut task = HeartbeatTask::new(target("http://x", Some(1), Some(Method::POST)));
    match task.step(HeartbeatEvent::Tick { now_ms: 10 }) {
        HeartbeatAction::Probe(request) => {
            assert_eq!(request.url, "http://x");
            assert_eq!(request.method, Method::POST);
            assert_eq!(request.timeout_secs, PROBE_TIMEOUT_SECS);
        }
        other => panic!("unexpected action {:?}", other),
    }
}

#[test]
fn probe_defaults_to_get() {
    let mut task = HeartbeatTask::new(target("http://x", None, None));
    match task.step(HeartbeatEvent::Tick { now_ms: 0 }) {
        HeartbeatAction::Probe(request) => assert_eq!(request.method, Method::GET),
        other => panic!("unexpected action {:?}", other),
    }
}

#[test]
fn period_is_the_interval_in_milliseconds() {
    assert_eq!(HeartbeatTask::new(target("u", Some(1), None)).period_millis(), 1_000);
    assert_eq!(HeartbeatTask::new(target("u", Some(30), None)).period_millis(), 30_000);
    assert_eq!(HeartbeatTask::new(target("u", None, None)).period_millis(), 60_000);
}

#[test]
fn period_is_never_under_one_second() {
    assert_eq!(HeartbeatTask::new(target("u", Some(0), None)).period_millis(), 1_000);
}

#[test]
fn period_stops_at_the_largest_time() {
    let task = HeartbeatTask::new(target("u", Some(usize::MAX), None));
    assert_eq!(task.period_millis(), (usize::MAX as u64).saturating_mul(1000));
}

#[test]
fn record_carries_time_url_and_status() {
    let mut task = HeartbeatTask::new(target("http://x", Some(1), None));
    task.step(HeartbeatEvent::Tick { now_ms: 100 });
    match task.step(HeartbeatEvent::ProbeFinished { now_ms: 140, completed: true }) {
        HeartbeatAction::Record(record) => {
            assert_eq!(record.timestamp_ms, 140);
            assert_eq!(record.url, "http://x");
            assert_eq!(record.status, Status::Up);
        }
        other => panic!("unexpected action {:?}", other),
    }
}

#[test]
fn failed_probe_is_recorded_as_down_and_the_loop_goes_on() {
    let mut task = HeartbeatTask::new(target("http://x", Some(1), None));
    let records = drive(&mut task, &[0, 1_000, 2_000], false);
    assert_eq!(records.len(), 3);
    assert!(records.iter().all(|r| r.status == Status::Down));
    assert!(!task.is_cancelled());
}

#[test]
fn tick_before_the_period_waits_for_the_rest() {
    let mut task = HeartbeatTask::new(target("http://x", Some(2), None));
    drive(&mut task, &[1_000], true);
    match task.step(HeartbeatEvent::Tick { now_ms: 1_500 }) {
        HeartbeatAction::Wait { millis } => assert_eq!(millis, 1_500),
        other => panic!("unexpected action {:?}", other),
    }
    match task.step(HeartbeatEvent::Tick { now_ms: 3_000 }) {
        HeartbeatAction::Probe(_) => {}
        other => panic!("unexpected action {:?}", other),
    }
}

#[test]
fn events_out_of_turn_are_passed_over() {
    let mut task = HeartbeatTask::new(target("http://x", Some(1), None));
    match task.step(HeartbeatEvent::ProbeFinished { now_ms: 5, completed: true }) {
        HeartbeatAction::Idle => {}
        other => panic!("unexpected action {:?}", other),
    }
    task.step(HeartbeatEvent::Tick { now_ms: 10 });
    match task.step(HeartbeatEvent::Tick { now_ms: 5_000 }) {
        HeartbeatAction::Idle => {}
        other => panic!("unexpected action {:?}", other),
    }
}

#[test]
fn cancelled_loop_only_exits() {
    let mut task = HeartbeatTask::new(target("http://x", Some(1), None));
    task.step(HeartbeatEvent::Tick { now_ms: 0 });
    match task.step(HeartbeatEvent::Cancelled) {
        HeartbeatAction::Exit => {}
        other => panic!("unexpected action {:?}", other),
    }
    assert!(task.is_cancelled());
    for event in [
        HeartbeatEvent::ProbeFinished { now_ms: 10, completed: true },
        HeartbeatEvent::Tick { now_ms: 1_000 },
        HeartbeatEvent::Tick { now_ms: 100_000 },
        HeartbeatEvent::Cancelled,
    ] {
        match task.step(event) {
            HeartbeatAction::Exit => {}
            other => panic!("unexpected action {:?}", other),
        }
    }
}

#[test]
fn probes_are_spaced_by_the_period() {
    let mut task = HeartbeatTask::new(target("http://x", Some(2), None));
    let ticks: Vec<u64> = (0..100).map(|i| i * 100).collect();
    let records = drive(&mut task, &ticks, true);
    let times: Vec<u64> = records.iter().map(|r| r.timestamp_ms).collect();
    assert_eq!(times, vec![0, 2_000, 4_000, 6_000, 8_000]);
}

#[test]
fn changed_interval_spaces_the_new_loop() {
    let mut actor = UptimeActor::new();
    actor.enable(target("http://x", Some(10), None));
    let actions = actor.enable(target("http://x", Some(1), None));
    let started = actions
        .into_iter()
        .find_map(|action| match action {
            TaskAction::Start { setting } => Some(setting),
            TaskAction::Stop { .. } => None,
        })
        .expect("a loop is started");
    let mut task = HeartbeatTask::new(started);
    assert_eq!(task.period_millis(), 1_000);
    let ticks: Vec<u64> = (0..=30).map(|i| i * 100).collect();
    let records = drive(&mut task, &ticks, true);
    let times: Vec<u64> = records.iter().map(|r| r.timestamp_ms).collect();
    assert_eq!(times, vec![0, 1_000, 2_000, 3_000]);
}

#[test]
fn scenario_enable_then_disable() {
    let mut actor = UptimeActor::new();
    let mut store: Vec<HeartbeatRecord> = Vec::new();
    let actions = actor.enable(target("http://x", Some(1), Some(Method::GET)));
    let mut task = match actions.into_iter().next() {
        Some(TaskAction::Start { setting }) => HeartbeatTask::new(setting),
        other => panic!("unexpected action {:?}", other),
    };
    // About three seconds pass, the loop waking up every 100 ms.
    let ticks: Vec<u64> = (0..=30).map(|i| i * 100).collect();
    store.extend(drive(&mut task, &ticks, true));
    let for_x = store.iter().filter(|r| r.url == "http://x").count();
    assert!(for_x >= 2);
    // The target is disabled: its loop is cancelled.
    let stop = actor.disable("http://x");
    assert_eq!(stop.len(), 1);
    task.step(HeartbeatEvent::Cancelled);
    let later: Vec<u64> = (31..=100).map(|i| i * 100).collect();
    for now_ms in later {
        match task.step(HeartbeatEvent::Tick { now_ms }) {
            HeartbeatAction::Exit => {}
            other => panic!("unexpected action {:?}", other),
        }
    }
    assert_eq!(store.iter().filter(|r| r.url == "http://x").count(), for_x);
}

#[test]
fn record_time_is_written_as_rfc3339() {
    let record = HeartbeatRecord {
        timestamp_ms: 1_704_067_200_123,
        url: "http://x".to_string(),
        status: Status::Up,
    };
    assert_eq!(record.timestamp_text(), Some("2024-01-01T00:00:00.123+00:00".to_string()));
    let whole = HeartbeatRecord {
        timestamp_ms: 1_704_067_200_000,
        url: "http://x".to_string(),
        status: Status::Up,
    };
    assert_eq!(whole.timestamp_text(), Some("2024-01-01T00:00:00+00:00".to_string()));
}

#[test]
fn record_time_beyond_all_dates_is_not_written() {
    let record =
        HeartbeatRecord { timestamp_ms: u64::MAX, url: "u".to_string(), status: Status::Down };
    assert_eq!(record.timestamp_text(), None);
    let far = HeartbeatRecord {
        timestamp_ms: i64::MAX as u64,
        url: "u".to_string(),
        status: Status::Down,
    };
    assert_eq!(far.timestamp_text(), None);
}
