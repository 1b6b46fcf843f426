//! The scheduler and its check loops together, as a model.
//!
//! The scheduler decides which loops run; each loop decides what it does.
//! This module states what the two give together when the task actions of
//! the scheduler are carried out: a stop cancels every loop of its URL, a
//! start adds a new loop for its target. Nothing here runs: it is what the
//! code around the library has to keep to, and what then holds.

use crate::heartbeat::{spec_start, spec_step, ActionView, HeartbeatEvent, Status, TaskState};
use crate::scheduler::{
    actions_of, distinct_urls, has_url, lemma_actions_follow_command,
    lemma_command_keeps_urls_distinct, lemma_filter_last, other_url, run_actions,
    targets_after, without_url, Command, TaskActionView,
};
use crate::settings::SettingView;
use vstd::prelude::*;

verus! {

/// One written record.
pub struct RecordView {
    pub timestamp_ms: u64,
    pub url: Seq<char>,
    pub status: Status,
}

/// The scheduler with the loops that were started for it, cancelled ones
/// too, and the records that the loops have written.
pub struct Monitor {
    pub targets: Seq<SettingView>,
    pub loops: Seq<TaskState>,
    pub records: Seq<RecordView>,
}

/// What happens to a monitor: a command to its scheduler, or an event to
/// one of its loops.
pub enum Happening {
    Command(Command),
    Loop { index: int, event: HeartbeatEvent },
}

/// A monitor without targets, loops and records.
pub open spec fn empty_monitor() -> Monitor {
    Monitor { targets: seq![], loops: seq![], records: seq![] }
}

/// The loops after every loop for `url` was cancelled.
pub open spec fn cancel_url(loops: Seq<TaskState>, url: Seq<char>) -> Seq<TaskState> {
    loops.map_values(
        |task: TaskState|
            if task.setting.url == url {
                TaskState { cancelled: true, ..task }
            } else {
                task
            },
    )
}

/// The loops after one task action was carried out.
pub open spec fn carry_out(loops: Seq<TaskState>, action: TaskActionView) -> Seq<TaskState> {
    match action {
        TaskActionView::Stop { url } => cancel_url(loops, url),
        TaskActionView::Start { setting } => loops.push(spec_start(setting)),
    }
}

/// The loops after the task actions were carried out in order.
pub open spec fn carry_out_all(loops: Seq<TaskState>, actions: Seq<TaskActionView>) -> Seq<
    TaskState,
>
    decreases actions.len(),
{
    if actions.len() == 0 {
        loops
    } else {
        carry_out(carry_out_all(loops, actions.drop_last()), actions.last())
    }
}

/// The records with the one that an action writes, if it writes one.
pub open spec fn with_record(records: Seq<RecordView>, action: ActionView) -> Seq<RecordView> {
    match action {
        ActionView::Record { timestamp_ms, url, status } => records.push(
            RecordView { timestamp_ms, url, status },
        ),
        _ => records,
    }
}

/// The monitor after something happened to it. A command changes the
/// targets, and its task actions are carried out on the loops. An event
/// goes to the loop that it names, which may write a record. Loops are
/// cancelled by the scheduler only: a cancellation from elsewhere changes
/// nothing, nor does an event for a loop that is not there.
pub open spec fn monitor_step(monitor: Monitor, happening: Happening) -> Monitor {
    match happening {
        Happening::Command(command) => Monitor {
            targets: targets_after(monitor.targets, command),
            loops: carry_out_all(monitor.loops, actions_of(monitor.targets, command)),
            records: monitor.records,
        },
        Happening::Loop { index, event } => {
            if 0 <= index < monitor.loops.len() && !(event is Cancelled) {
                let (next, action) = spec_step(monitor.loops[index], event);
                Monitor {
                    targets: monitor.targets,
                    loops: monitor.loops.update(index, next),
                    records: with_record(monitor.records, action),
                }
            } else {
                monitor
            }
        },
    }
}

/// The monitor after a run of happenings.
pub open spec fn monitor_after(monitor: Monitor, happenings: Seq<Happening>) -> Monitor
    decreases happenings.len(),
{
    if happenings.len() == 0 {
        monitor
    } else {
        monitor_step(monitor_after(monitor, happenings.drop_last()), happenings.last())
    }
}

/// The targets of the loops that are not cancelled, in the order in which
/// the loops were started.
pub open spec fn live_settings(loops: Seq<TaskState>) -> Seq<SettingView>
    decreases loops.len(),
{
    if loops.len() == 0 {
        seq![]
    } else if loops.last().cancelled {
        live_settings(loops.drop_last())
    } else {
        live_settings(loops.drop_last()).push(loops.last().setting)
    }
}

/// Whether the loops that run are the loops of the targets: the loops that
/// are not cancelled were started for exactly the targets that the scheduler
/// holds, one for each, and no two targets are for one URL.
pub open spec fn consistent(monitor: Monitor) -> bool {
    live_settings(monitor.loops) == monitor.targets && distinct_urls(monitor.targets)
}

/// Whether every loop for `url` is cancelled.
pub open spec fn silent_for(loops: Seq<TaskState>, url: Seq<char>) -> bool {
    forall|i: int| 0 <= i < loops.len() && (#[trigger] loops[i]).setting.url == url ==> loops[i].cancelled
}

/// The test that a record is for `url`.
pub open spec fn record_of(url: Seq<char>) -> spec_fn(RecordView) -> bool {
    |record: RecordView| record.url == url
}

/// The records for `url`, in the order in which they were written.
pub open spec fn records_for(records: Seq<RecordView>, url: Seq<char>) -> Seq<RecordView> {
    records.filter(record_of(url))
}

/// Whether a happening enables `url`.
pub open spec fn enables(happening: Happening, url: Seq<char>) -> bool {
    happening matches Happening::Command(Command::Enable(setting)) && setting.url == url
}

/// The live targets after a loop was added.
proof fn lemma_live_push(loops: Seq<TaskState>, task: TaskState)
    ensures
        live_settings(loops.push(task)) == if task.cancelled {
            live_settings(loops)
        } else {
            live_settings(loops).push(task.setting)
        },
{
    assert(loops.push(task).drop_last() =~= loops);
}

/// Cancelling the loops of a URL takes its target out of the live ones.
proof fn lemma_live_cancel(loops: Seq<TaskState>, url: Seq<char>)
    ensures
        live_settings(cancel_url(loops, url)) == without_url(live_settings(loops), url),
        cancel_url(loops, url).len() == loops.len(),
    decreases loops.len(),
{
    reveal(Seq::filter);
    let after = cancel_url(loops, url);
    if loops.len() == 0 {
        assert(without_url(Seq::<SettingView>::empty(), url) =~= Seq::<SettingView>::empty());
    } else {
        let front = loops.drop_last();
        let last = loops.last();
        lemma_live_cancel(front, url);
        assert(after.drop_last() =~= cancel_url(front, url));
        if !last.cancelled {
            let live = live_settings(front).push(last.setting);
            assert(live.drop_last() =~= live_settings(front));
            lemma_filter_last(live, other_url(url));
        }
    }
}

/// Carrying out task actions on the loops changes the live targets as the
/// actions say.
proof fn lemma_live_carry_out(loops: Seq<TaskState>, actions: Seq<TaskActionView>)
    ensures
        live_settings(carry_out_all(loops, actions)) == run_actions(
            live_settings(loops),
            actions,
        ),
    decreases actions.len(),
{
    if actions.len() > 0 {
        let before = carry_out_all(loops, actions.drop_last());
        lemma_live_carry_out(loops, actions.drop_last());
        match actions.last() {
            TaskActionView::Stop { url } => {
                lemma_live_cancel(before, url);
            },
            TaskActionView::Start { setting } => {
                lemma_live_push(before, spec_start(setting));
            },
        }
    }
}

/// A loop that is replaced by one with the same target, cancelled or not as
/// it was, leaves the live targets as they were.
proof fn lemma_live_update(loops: Seq<TaskState>, index: int, next: TaskState)
    requires
        0 <= index < loops.len(),
        next.setting == loops[index].setting,
        next.cancelled == loops[index].cancelled,
    ensures
        live_settings(loops.update(index, next)) == live_settings(loops),
    decreases loops.len(),
{
    let after = loops.update(index, next);
    if index == loops.len() - 1 {
        assert(after.drop_last() =~= loops.drop_last());
    } else {
        lemma_live_update(loops.drop_last(), index, next);
        assert(after.drop_last() =~= loops.drop_last().update(index, next));
    }
}

/// An event that does not cancel leaves a loop with its target, and
/// cancelled or not as it was.
proof fn lemma_step_keeps_loop(state: TaskState, event: HeartbeatEvent)
    requires
        !(event is Cancelled),
    ensures
        spec_step(state, event).0.setting == state.setting,
        spec_step(state, event).0.cancelled == state.cancelled,
        state.cancelled ==> !(spec_step(state, event).1 is Record),
        spec_step(state, event).1 matches ActionView::Record { url, .. } ==> url
            == state.setting.url,
{
}

/// The loops that run stay the loops of the targets, whatever happens: a
/// command starts and cancels loops so that exactly its targets have one,
/// and no event makes a loop run for another target or end on its own.
pub proof fn lemma_monitor_stays_consistent(monitor: Monitor, happening: Happening)
    requires
        consistent(monitor),
    ensures
        consistent(monitor_step(monitor, happening)),
{
    match happening {
        Happening::Command(command) => {
            lemma_live_carry_out(monitor.loops, actions_of(monitor.targets, command));
            lemma_actions_follow_command(monitor.targets, command);
            lemma_command_keeps_urls_distinct(monitor.targets, command);
        },
        Happening::Loop { index, event } => {
            if 0 <= index < monitor.loops.len() && !(event is Cancelled) {
                lemma_step_keeps_loop(monitor.loops[index], event);
                lemma_live_update(monitor.loops, index, spec_step(monitor.loops[index], event).0);
            }
        },
    }
}

/// At every moment the loops that run are the loops of the targets: from a
/// monitor without targets and loops, whatever commands and events follow,
/// each target has one loop that is not cancelled, started for its latest
/// settings, and no other loop runs.
pub proof fn lemma_monitor_is_consistent(happenings: Seq<Happening>)
    ensures
        consistent(monitor_after(empty_monitor(), happenings)),
    decreases happenings.len(),
{
    if happenings.len() > 0 {
        lemma_monitor_is_consistent(happenings.drop_last());
        lemma_monitor_stays_consistent(
            monitor_after(empty_monitor(), happenings.drop_last()),
            happenings.last(),
        );
    }
}

/// A live target for a URL is among the live targets.
proof fn lemma_live_has_url(loops: Seq<TaskState>, i: int)
    requires
        0 <= i < loops.len(),
        !loops[i].cancelled,
    ensures
        has_url(live_settings(loops), loops[i].setting.url),
    decreases loops.len(),
{
    let live = live_settings(loops);
    if i == loops.len() - 1 {
        assert(live[live.len() - 1].url == loops[i].setting.url);
    } else {
        let front = loops.drop_last();
        lemma_live_has_url(front, i);
        let k = choose|k: int|
            0 <= k < live_settings(front).len() && live_settings(front)[k].url
                == loops[i].setting.url;
        assert(live[k].url == loops[i].setting.url);
    }
}

/// Carrying out task actions that start no loop for a URL leaves its loops
/// cancelled where they all were.
proof fn lemma_carry_out_keeps_silent(
    loops: Seq<TaskState>,
    actions: Seq<TaskActionView>,
    url: Seq<char>,
)
    requires
        silent_for(loops, url),
        forall|i: int|
            0 <= i < actions.len() ==> !(#[trigger] actions[i] matches TaskActionView::Start {
                setting,
            } && setting.url == url),
    ensures
        silent_for(carry_out_all(loops, actions), url),
    decreases actions.len(),
{
    if actions.len() > 0 {
        let front = actions.drop_last();
        assert forall|i: int| 0 <= i < front.len() implies !(#[trigger] front[i]
            matches TaskActionView::Start { setting } && setting.url == url) by {
            assert(front[i] == actions[i]);
        }
        lemma_carry_out_keeps_silent(loops, front, url);
        let before = carry_out_all(loops, front);
        let after = carry_out(before, actions.last());
        assert(actions[actions.len() - 1] == actions.last());
        assert forall|i: int| 0 <= i < after.len() && (#[trigger] after[i]).setting.url
            == url implies after[i].cancelled by {
            match actions.last() {
                TaskActionView::Stop { url: stopped } => {
                    assert(before[i].setting.url == url);
                },
                TaskActionView::Start { setting } => {
                    if i < before.len() {
                        assert(before[i].setting.url == url);
                    }
                },
            }
        }
    }
}

/// Something that does not enable a URL leaves its loops cancelled where
/// they all were, and writes no record for it.
proof fn lemma_silent_step(monitor: Monitor, happening: Happening, url: Seq<char>)
    requires
        silent_for(monitor.loops, url),
        !enables(happening, url),
    ensures
        silent_for(monitor_step(monitor, happening).loops, url),
        records_for(monitor_step(monitor, happening).records, url) == records_for(
            monitor.records,
            url,
        ),
{
    match happening {
        Happening::Command(command) => {
            let actions = actions_of(monitor.targets, command);
            assert forall|i: int| 0 <= i < actions.len() implies !(#[trigger] actions[i]
                matches TaskActionView::Start { setting } && setting.url == url) by {}
            lemma_carry_out_keeps_silent(monitor.loops, actions, url);
        },
        Happening::Loop { index, event } => {
            if 0 <= index < monitor.loops.len() && !(event is Cancelled) {
                let state = monitor.loops[index];
                let (next, action) = spec_step(state, event);
                lemma_step_keeps_loop(state, event);
                let after = monitor.loops.update(index, next);
                assert forall|i: int| 0 <= i < after.len() && (#[trigger] after[i]).setting.url
                    == url implies after[i].cancelled by {
                    assert(monitor.loops[i].setting.url == url);
                }
                if action is Record {
                    let written = with_record(monitor.records, action);
                    assert(written.drop_last() =~= monitor.records);
                    reveal(Seq::filter);
                    assert(written.last().url == state.setting.url);
                    assert(!state.cancelled);
                    assert(state.setting.url != url);
                }
            }
        },
    }
}

/// Disabling a URL cancels every loop for it.
proof fn lemma_disable_silences(monitor: Monitor, url: Seq<char>)
    requires
        consistent(monitor),
    ensures
        silent_for(monitor_step(monitor, Happening::Command(Command::Disable(url))).loops, url),
{
    let actions = actions_of(monitor.targets, Command::Disable(url));
    let after = carry_out_all(monitor.loops, actions);
    if has_url(monitor.targets, url) {
        assert(actions.drop_last() =~= Seq::<TaskActionView>::empty());
        assert(carry_out_all(monitor.loops, actions.drop_last()) == monitor.loops);
        assert(after == cancel_url(monitor.loops, url));
    } else {
        assert(after == monitor.loops);
        assert forall|i: int| 0 <= i < after.len() && (#[trigger] after[i]).setting.url
            == url implies after[i].cancelled by {
            if !after[i].cancelled {
                lemma_live_has_url(monitor.loops, i);
            }
        }
    }
}

/// No record is written for a URL after it was disabled, however much time
/// goes by and whatever happens: as long as the URL is not enabled again,
/// the records for it stay those that were written before.
pub proof fn lemma_no_record_after_disable(
    monitor: Monitor,
    url: Seq<char>,
    later: Seq<Happening>,
)
    requires
        consistent(monitor),
        forall|i: int| 0 <= i < later.len() ==> !enables(#[trigger] later[i], url),
    ensures
        records_for(
            monitor_after(
                monitor_step(monitor, Happening::Command(Command::Disable(url))),
                later,
            ).records,
            url,
        ) == records_for(monitor.records, url),
        silent_for(
            monitor_after(
                monitor_step(monitor, Happening::Command(Command::Disable(url))),
                later,
            ).loops,
            url,
        ),
    decreases later.len(),
{
    let disabled = monitor_step(monitor, Happening::Command(Command::Disable(url)));
    if later.len() == 0 {
        lemma_disable_silences(monitor, url);
    } else {
        let before = later.drop_last();
        assert forall|i: int| 0 <= i < before.len() implies !enables(#[trigger] before[i], url) by {
            assert(before[i] == later[i]);
        }
        lemma_no_record_after_disable(monitor, url, before);
        assert(!enables(later[later.len() - 1], url));
        lemma_silent_step(monitor_after(disabled, before), later.last(), url);
    }
}

} // verus!
