//! The check loop of one target, as a state machine.
//!
//! The loop itself runs outside: it waits, sends the request and writes the
//! record. What it does next is decided here, one event at a time.

use crate::method::Method;
use crate::settings::{SettingView, UptimeSetting};
use crate::timestamps::{rfc3339_text, write_rfc3339};
use vstd::prelude::*;

verus! {

/// Seconds after which a health-check request is given up.
pub const PROBE_TIMEOUT_SECS: u64 = 5;

/// The outcome of one health check.
#[derive(Clone, Copy, Debug, PartialEq, Eq, Structural)]
pub enum Status {
    Up,
    Down,
}

impl Status {
    /// The word under which the status is stored.
    pub open spec fn spec_name(self) -> Seq<char> {
        match self {
            Status::Up => "up"@,
            Status::Down => "down"@,
        }
    }

    /// The word under which the status is stored.
    pub fn as_str(&self) -> (name: &'static str)
        ensures
            name@ == self.spec_name(),
    {
        match self {
            Status::Up => "up",
            Status::Down => "down",
        }
    }
}

/// The status that a request gives: up where it came back with a response,
/// whatever the response says; down where it failed to or ran out of time.
pub open spec fn spec_classify(completed: bool) -> Status {
    if completed {
        Status::Up
    } else {
        Status::Down
    }
}

/// The status that a request gives: up where it came back with a response,
/// whatever the response says; down where it failed to or ran out of time.
pub fn classify(completed: bool) -> (status: Status)
    ensures
        status == spec_classify(completed),
{
    if completed {
        Status::Up
    } else {
        Status::Down
    }
}

/// One health check and its outcome.
#[derive(Debug)]
pub struct HeartbeatRecord {
    /// When the outcome was known, in milliseconds since the epoch.
    pub timestamp_ms: u64,
    pub url: String,
    pub status: Status,
}

/// The time of a record as it is stored: in RFC 3339 text. `None` where the
/// time is beyond what can be written.
pub open spec fn spec_timestamp_text(timestamp_ms: u64) -> Option<Seq<char>> {
    if timestamp_ms > i64::MAX {
        None
    } else {
        rfc3339_text(timestamp_ms as i64)
    }
}

impl HeartbeatRecord {
    /// The time of the record as it is stored.
    pub fn timestamp_text(&self) -> (text: Option<String>)
        ensures
            match text {
                Some(written) => spec_timestamp_text(self.timestamp_ms) == Some(written@),
                None => spec_timestamp_text(self.timestamp_ms) is None,
            },
    {
        if self.timestamp_ms > 0x7fff_ffff_ffff_ffff {
            None
        } else {
            write_rfc3339(self.timestamp_ms as i64)
        }
    }
}

/// The request of one health check.
#[derive(Debug)]
pub struct ProbeRequest {
    pub method: Method,
    pub url: String,
    pub timeout_secs: u64,
}

/// What happened to a check loop.
#[derive(Clone, Copy, Debug)]
pub enum HeartbeatEvent {
    /// The loop woke up at this time.
    Tick { now_ms: u64 },
    /// The request that the loop was told to send has ended at this time,
    /// with a response or without.
    ProbeFinished { now_ms: u64, completed: bool },
    /// The scheduler has cancelled the loop.
    Cancelled,
}

/// What a check loop has to do next.
#[derive(Debug)]
pub enum HeartbeatAction {
    /// Send this request, and report how it ended.
    Probe(ProbeRequest),
    /// Write this record.
    Record(HeartbeatRecord),
    /// Sleep for so many milliseconds, unless cancelled before.
    Wait { millis: u64 },
    /// Nothing: the event came out of turn.
    Idle,
    /// End the loop.
    Exit,
}

/// What a `HeartbeatAction` holds, with its strings as sequences.
pub enum ActionView {
    Probe { method: Method, url: Seq<char>, timeout_secs: u64 },
    Record { timestamp_ms: u64, url: Seq<char>, status: Status },
    Wait { millis: u64 },
    Idle,
    Exit,
}

impl View for HeartbeatAction {
    type V = ActionView;

    open spec fn view(&self) -> ActionView {
        match self {
            HeartbeatAction::Probe(request) => ActionView::Probe {
                method: request.method,
                url: request.url@,
                timeout_secs: request.timeout_secs,
            },
            HeartbeatAction::Record(record) => ActionView::Record {
                timestamp_ms: record.timestamp_ms,
                url: record.url@,
                status: record.status,
            },
            HeartbeatAction::Wait { millis } => ActionView::Wait { millis: *millis },
            HeartbeatAction::Idle => ActionView::Idle,
            HeartbeatAction::Exit => ActionView::Exit,
        }
    }
}

/// The state of a check loop.
pub struct TaskState {
    /// The target that the loop was started for.
    pub setting: SettingView,
    /// The earliest time of the next request.
    pub next_due_ms: u64,
    /// Whether a request was sent whose end is not yet known.
    pub probing: bool,
    /// Whether the loop was cancelled.
    pub cancelled: bool,
}

/// The sum of two times, or the largest time where the sum is beyond it.
pub open spec fn spec_add_saturating(a: u64, b: u64) -> u64 {
    if a + b > u64::MAX {
        u64::MAX
    } else {
        (a + b) as u64
    }
}

/// The period of the loop of a target, in milliseconds: its interval, never
/// under one second, and the largest time where the interval is beyond it.
pub open spec fn spec_period_millis(setting: SettingView) -> u64 {
    if setting.period_secs() * 1000 > u64::MAX {
        u64::MAX
    } else {
        (setting.period_secs() * 1000) as u64
    }
}

/// The state in which a loop starts: its first request is due at once.
pub open spec fn spec_start(setting: SettingView) -> TaskState {
    TaskState { setting, next_due_ms: 0, probing: false, cancelled: false }
}

/// The state after an event, and what the loop has to do.
pub open spec fn spec_step(state: TaskState, event: HeartbeatEvent) -> (TaskState, ActionView) {
    if state.cancelled {
        (state, ActionView::Exit)
    } else {
        match event {
            HeartbeatEvent::Cancelled => (
                TaskState { cancelled: true, ..state },
                ActionView::Exit,
            ),
            HeartbeatEvent::Tick { now_ms } => {
                if state.probing {
                    (state, ActionView::Idle)
                } else if now_ms >= state.next_due_ms {
                    (
                        TaskState {
                            next_due_ms: spec_add_saturating(
                                now_ms,
                                spec_period_millis(state.setting),
                            ),
                            probing: true,
                            ..state
                        },
                        ActionView::Probe {
                            method: state.setting.method_or_default(),
                            url: state.setting.url,
                            timeout_secs: PROBE_TIMEOUT_SECS,
                        },
                    )
                } else {
                    (state, ActionView::Wait { millis: (state.next_due_ms - now_ms) as u64 })
                }
            },
            HeartbeatEvent::ProbeFinished { now_ms, completed } => {
                if state.probing {
                    (
                        TaskState { probing: false, ..state },
                        ActionView::Record {
                            timestamp_ms: now_ms,
                            url: state.setting.url,
                            status: spec_classify(completed),
                        },
                    )
                } else {
                    (state, ActionView::Idle)
                }
            },
        }
    }
}

/// The state after a run of events.
pub open spec fn state_after(state: TaskState, events: Seq<HeartbeatEvent>) -> TaskState
    decreases events.len(),
{
    if events.len() == 0 {
        state
    } else {
        spec_step(state_after(state, events.drop_last()), events.last()).0
    }
}

/// What the loop was told to do at each event of a run.
pub open spec fn actions_during(state: TaskState, events: Seq<HeartbeatEvent>) -> Seq<ActionView>
    decreases events.len(),
{
    if events.len() == 0 {
        seq![]
    } else {
        actions_during(state, events.drop_last()).push(
            spec_step(state_after(state, events.drop_last()), events.last()).1,
        )
    }
}

/// The check loop of one target.
#[derive(Debug)]
pub struct HeartbeatTask {
    setting: UptimeSetting,
    next_due_ms: u64,
    probing: bool,
    cancelled: bool,
}

impl View for HeartbeatTask {
    type V = TaskState;

    closed spec fn view(&self) -> TaskState {
        TaskState {
            setting: self.setting@,
            next_due_ms: self.next_due_ms,
            probing: self.probing,
            cancelled: self.cancelled,
        }
    }
}

impl HeartbeatTask {
    /// A loop for a target, whose first request is due at once.
    pub fn new(setting: UptimeSetting) -> (task: HeartbeatTask)
        ensures
            task@ == spec_start(setting@),
    {
        HeartbeatTask { setting, next_due_ms: 0, probing: false, cancelled: false }
    }

    /// The target that the loop was started for.
    pub fn setting(&self) -> (setting: &UptimeSetting)
        ensures
            setting@ == self@.setting,
    {
        &self.setting
    }

    /// Whether the loop was cancelled.
    pub fn is_cancelled(&self) -> (cancelled: bool)
        ensures
            cancelled == self@.cancelled,
    {
        self.cancelled
    }

    /// The period of the loop in milliseconds.
    pub fn period_millis(&self) -> (millis: u64)
        ensures
            millis == spec_period_millis(self@.setting),
            millis >= 1000,
    {
        let secs = self.setting.period_secs();
        if secs > u64::MAX / 1000 {
            u64::MAX
        } else {
            secs * 1000
        }
    }

    /// Takes one event, and says what the loop has to do next.
    pub fn step(&mut self, event: HeartbeatEvent) -> (action: HeartbeatAction)
        ensures
            final(self)@ == spec_step(old(self)@, event).0,
            action@ == spec_step(old(self)@, event).1,
    {
        if self.cancelled {
            return HeartbeatAction::Exit;
        }
        match event {
            HeartbeatEvent::Cancelled => {
                self.cancelled = true;
                HeartbeatAction::Exit
            },
            HeartbeatEvent::Tick { now_ms } => {
                if self.probing {
                    HeartbeatAction::Idle
                } else if now_ms >= self.next_due_ms {
                    let period = self.period_millis();
                    self.next_due_ms = if now_ms > u64::MAX - period {
                        u64::MAX
                    } else {
                        now_ms + period
                    };
                    self.probing = true;
                    HeartbeatAction::Probe(
                        ProbeRequest {
                            method: self.setting.method_or_default(),
                            url: self.setting.url.clone(),
                            timeout_secs: PROBE_TIMEOUT_SECS,
                        },
                    )
                } else {
                    HeartbeatAction::Wait { millis: self.next_due_ms - now_ms }
                }
            },
            HeartbeatEvent::ProbeFinished { now_ms, completed } => {
                if self.probing {
                    self.probing = false;
                    HeartbeatAction::Record(
                        HeartbeatRecord {
                            timestamp_ms: now_ms,
                            url: self.setting.url.clone(),
                            status: classify(completed),
                        },
                    )
                } else {
                    HeartbeatAction::Idle
                }
            },
        }
    }
}

/// A cancelled loop stays as it is, whatever happens to it.
pub proof fn lemma_cancelled_loop_stays(state: TaskState, events: Seq<HeartbeatEvent>)
    requires
        state.cancelled,
    ensures
        state_after(state, events) == state,
    decreases events.len(),
{
    if events.len() > 0 {
        lemma_cancelled_loop_stays(state, events.drop_last());
    }
}

/// A cancelled loop does nothing more: whatever happens to it and however
/// long it is kept, it is only ever told to end, so it sends no request and
/// writes no record.
pub proof fn lemma_cancelled_loop_is_silent(state: TaskState, events: Seq<HeartbeatEvent>, i: int)
    requires
        state.cancelled,
        0 <= i < events.len(),
    ensures
        actions_during(state, events).len() == events.len(),
        actions_during(state, events)[i] == ActionView::Exit,
        state_after(state, events) == state,
{
    lemma_action_at(state, events, i);
    lemma_cancelled_loop_stays(state, events.take(i));
    lemma_cancelled_loop_stays(state, events);
}

/// Cancelling ends a loop for good: from the cancellation on, whatever the
/// loop did before and whatever happens after, no request is sent and no
/// record is written.
pub proof fn lemma_no_record_after_cancel(
    state: TaskState,
    before: Seq<HeartbeatEvent>,
    after: Seq<HeartbeatEvent>,
    i: int,
)
    requires
        0 <= i < after.len(),
    ensures
        actions_during(
            state_after(state, before.push(HeartbeatEvent::Cancelled)),
            after,
        )[i] == ActionView::Exit,
{
    let events = before.push(HeartbeatEvent::Cancelled);
    assert(events.drop_last() =~= before);
    assert(state_after(state, events).cancelled);
    lemma_cancelled_loop_is_silent(state_after(state, events), after, i);
}

/// As many actions come out of a run as events go in, and a run of events
/// only ever moves the time of the next request forward.
pub proof fn lemma_next_due_grows(state: TaskState, events: Seq<HeartbeatEvent>)
    ensures
        actions_during(state, events).len() == events.len(),
        state_after(state, events).next_due_ms >= state.next_due_ms,
        state_after(state, events).setting == state.setting,
    decreases events.len(),
{
    if events.len() > 0 {
        lemma_next_due_grows(state, events.drop_last());
    }
}

/// Requests are spaced by the period of the loop: where the loop was told to
/// send a request at two of its events, the later of the two is a wake-up at
/// least one period after the wake-up of the earlier (or at the end of time,
/// where one period later is beyond it).
pub proof fn lemma_probes_are_spaced(
    state: TaskState,
    events: Seq<HeartbeatEvent>,
    i: int,
    j: int,
)
    requires
        0 <= i < j < events.len(),
        actions_during(state, events)[i] is Probe,
        actions_during(state, events)[j] is Probe,
    ensures
        events[i] is Tick,
        events[j] is Tick,
        events[j]->Tick_now_ms >= spec_add_saturating(
            events[i]->Tick_now_ms,
            spec_period_millis(state.setting),
        ),
{
    lemma_action_at(state, events, i);
    lemma_action_at(state, events, j);
    let upto_i = events.take(i + 1);
    let between = events.subrange(i + 1, j);
    assert(upto_i.drop_last() =~= events.take(i));
    assert(upto_i.last() == events[i]);
    lemma_next_due_grows(state, events.take(i));
    lemma_state_after_concat(state, upto_i, between);
    assert(upto_i + between =~= events.take(j));
    lemma_next_due_grows(state_after(state, upto_i), between);
}

/// The action at one event of a run is the step from the state that the
/// events before it lead to.
pub proof fn lemma_action_at(state: TaskState, events: Seq<HeartbeatEvent>, i: int)
    requires
        0 <= i < events.len(),
    ensures
        actions_during(state, events).len() == events.len(),
        actions_during(state, events)[i] == spec_step(
            state_after(state, events.take(i)),
            events[i],
        ).1,
    decreases events.len(),
{
    let before = events.drop_last();
    lemma_next_due_grows(state, events);
    lemma_next_due_grows(state, before);
    if i < before.len() {
        lemma_action_at(state, before, i);
        assert(before.take(i) =~= events.take(i));
    } else {
        assert(events.take(i) =~= before);
    }
}

/// The state after two runs of events, one after the other.
pub proof fn lemma_state_after_concat(
    state: TaskState,
    first: Seq<HeartbeatEvent>,
    second: Seq<HeartbeatEvent>,
)
    ensures
        state_after(state, first + second) == state_after(state_after(state, first), second),
    decreases second.len(),
{
    if second.len() == 0 {
        assert(first + second =~= first);
    } else {
        lemma_state_after_concat(state, first, second.drop_last());
        assert((first + second).drop_last() =~= first + second.drop_last());
        assert((first + second).last() == second.last());
    }
}

/// Each record answers one request: a record is written only at the end of a
/// request that the loop was told to send, and carries the URL of the target
/// and the status that the end of the request gives.
pub proof fn lemma_record_follows_probe(state: TaskState, event: HeartbeatEvent)
    requires
        spec_step(state, event).1 is Record,
    ensures
        state.probing,
        !state.cancelled,
        event is ProbeFinished,
        spec_step(state, event).1 == (ActionView::Record {
            timestamp_ms: event->ProbeFinished_now_ms,
            url: state.setting.url,
            status: spec_classify(event->completed),
        }),
        !spec_step(state, event).0.probing,
{
}

} // verus!
