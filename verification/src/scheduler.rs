//! The monitor scheduler: the one owner of the set of active targets.
//!
//! The scheduler decides; it starts and stops nothing itself. Each command
//! answers with the task actions that its caller has to carry out, in order:
//! stop the check loop of a URL, start one for a target.

use crate::settings::{SettingView, UptimeSetting};
use crate::text::str_equal;
use vstd::prelude::*;

verus! {

/// What the caller of the scheduler has to do to the check loops.
#[derive(Debug)]
pub enum TaskAction {
    /// Cancel the check loop that runs for this URL.
    Stop { url: String },
    /// Start a check loop for this target.
    Start { setting: UptimeSetting },
}

/// What a `TaskAction` holds, with its strings as sequences.
pub enum TaskActionView {
    Stop { url: Seq<char> },
    Start { setting: SettingView },
}

impl View for TaskAction {
    type V = TaskActionView;

    open spec fn view(&self) -> TaskActionView {
        match self {
            TaskAction::Stop { url } => TaskActionView::Stop { url: url@ },
            TaskAction::Start { setting } => TaskActionView::Start { setting: setting@ },
        }
    }
}

/// The views of a sequence of task actions.
pub open spec fn action_views(actions: Seq<TaskAction>) -> Seq<TaskActionView> {
    actions.map_values(|action: TaskAction| action@)
}

/// The views of a sequence of targets.
pub open spec fn setting_views(settings: Seq<UptimeSetting>) -> Seq<SettingView> {
    settings.map_values(|setting: UptimeSetting| setting@)
}

/// The test that a target is for another URL than `url`.
pub open spec fn other_url(url: Seq<char>) -> spec_fn(SettingView) -> bool {
    |target: SettingView| target.url != url
}

/// Whether one of the targets is for `url`.
pub open spec fn has_url(targets: Seq<SettingView>, url: Seq<char>) -> bool {
    exists|i: int| 0 <= i < targets.len() && #[trigger] targets[i].url == url
}

/// Whether no two of the targets are for the same URL.
pub open spec fn distinct_urls(targets: Seq<SettingView>) -> bool {
    forall|i: int, j: int|
        0 <= i < j < targets.len() ==> #[trigger] targets[i].url != #[trigger] targets[j].url
}

/// The targets without the one for `url`, in their order.
pub open spec fn without_url(targets: Seq<SettingView>, url: Seq<char>) -> Seq<SettingView> {
    targets.filter(other_url(url))
}

/// The targets after `setting` was enabled: it takes the place of a target
/// for the same URL, and comes last.
pub open spec fn spec_enable(targets: Seq<SettingView>, setting: SettingView) -> Seq<SettingView> {
    without_url(targets, setting.url).push(setting)
}

/// The task actions that enabling `setting` asks for: start its check loop,
/// after stopping the one that ran for its URL.
pub open spec fn enable_actions(targets: Seq<SettingView>, setting: SettingView) -> Seq<
    TaskActionView,
> {
    if has_url(targets, setting.url) {
        seq![TaskActionView::Stop { url: setting.url }, TaskActionView::Start { setting }]
    } else {
        seq![TaskActionView::Start { setting }]
    }
}

/// The task actions that disabling `url` asks for.
pub open spec fn disable_actions(targets: Seq<SettingView>, url: Seq<char>) -> Seq<
    TaskActionView,
> {
    if has_url(targets, url) {
        seq![TaskActionView::Stop { url }]
    } else {
        seq![]
    }
}

/// The check loops that run after one task action was carried out, each
/// named by the target it was started for.
pub open spec fn run_action(tasks: Seq<SettingView>, action: TaskActionView) -> Seq<SettingView> {
    match action {
        TaskActionView::Stop { url } => without_url(tasks, url),
        TaskActionView::Start { setting } => tasks.push(setting),
    }
}

/// The check loops that run after the task actions were carried out in order.
pub open spec fn run_actions(tasks: Seq<SettingView>, actions: Seq<TaskActionView>) -> Seq<
    SettingView,
>
    decreases actions.len(),
{
    if actions.len() == 0 {
        tasks
    } else {
        run_action(run_actions(tasks, actions.drop_last()), actions.last())
    }
}

/// A command to the scheduler.
pub enum Command {
    Enable(SettingView),
    Disable(Seq<char>),
    IsEnabled(Seq<char>),
    PingMailbox,
}

/// The targets after a command.
pub open spec fn targets_after(targets: Seq<SettingView>, command: Command) -> Seq<SettingView> {
    match command {
        Command::Enable(setting) => spec_enable(targets, setting),
        Command::Disable(url) => without_url(targets, url),
        Command::IsEnabled(_) => targets,
        Command::PingMailbox => targets,
    }
}

/// The task actions that a command asks for.
pub open spec fn actions_of(targets: Seq<SettingView>, command: Command) -> Seq<TaskActionView> {
    match command {
        Command::Enable(setting) => enable_actions(targets, setting),
        Command::Disable(url) => disable_actions(targets, url),
        Command::IsEnabled(_) => seq![],
        Command::PingMailbox => seq![],
    }
}

/// The running flag after a command: set by an enable, cleared by a disable.
pub open spec fn running_after(running: bool, command: Command) -> bool {
    match command {
        Command::Enable(_) => true,
        Command::Disable(_) => false,
        Command::IsEnabled(_) => running,
        Command::PingMailbox => running,
    }
}

/// The answer to a command: whether the URL is active for a query, the
/// running flag after the command for the others.
pub open spec fn answer_of(targets: Seq<SettingView>, running: bool, command: Command) -> bool {
    match command {
        Command::IsEnabled(url) => has_url(targets, url),
        _ => running_after(running, command),
    }
}

/// The targets after a run of commands that began with none.
pub open spec fn targets_after_all(commands: Seq<Command>) -> Seq<SettingView>
    decreases commands.len(),
{
    if commands.len() == 0 {
        seq![]
    } else {
        targets_after(targets_after_all(commands.drop_last()), commands.last())
    }
}

/// The check loops that run after a run of commands that began with none,
/// where the task actions of each command were carried out.
pub open spec fn tasks_after_all(commands: Seq<Command>) -> Seq<SettingView>
    decreases commands.len(),
{
    if commands.len() == 0 {
        seq![]
    } else {
        run_actions(
            tasks_after_all(commands.drop_last()),
            actions_of(targets_after_all(commands.drop_last()), commands.last()),
        )
    }
}

/// The settings that `url` was last enabled with, unless it was disabled
/// since.
pub open spec fn latest_setting(commands: Seq<Command>, url: Seq<char>) -> Option<SettingView>
    decreases commands.len(),
{
    if commands.len() == 0 {
        None
    } else {
        match commands.last() {
            Command::Enable(setting) if setting.url == url => Some(setting),
            Command::Disable(disabled) if disabled == url => None,
            _ => latest_setting(commands.drop_last(), url),
        }
    }
}

/// The test that a target is for `url`.
pub open spec fn same_url(url: Seq<char>) -> spec_fn(SettingView) -> bool {
    |target: SettingView| target.url == url
}

/// The check loops among `tasks` that run for `url`.
pub open spec fn tasks_for(tasks: Seq<SettingView>, url: Seq<char>) -> Seq<SettingView> {
    tasks.filter(same_url(url))
}

/// How a filter goes over the last element of a sequence.
pub proof fn lemma_filter_last(targets: Seq<SettingView>, keep: spec_fn(SettingView) -> bool)
    requires
        targets.len() > 0,
    ensures
        targets.filter(keep) == if keep(targets.last()) {
            targets.drop_last().filter(keep).push(targets.last())
        } else {
            targets.drop_last().filter(keep)
        },
{
    reveal(Seq::filter);
}

/// Every target that is left when a URL is taken out was there before, and
/// is for another URL.
pub proof fn lemma_without_url_members(targets: Seq<SettingView>, url: Seq<char>, i: int)
    requires
        0 <= i < without_url(targets, url).len(),
    ensures
        without_url(targets, url)[i].url != url,
        exists|j: int| 0 <= j < targets.len() && targets[j] == without_url(targets, url)[i],
    decreases targets.len(),
{
    reveal(Seq::filter);
    if targets.len() > 0 {
        let front = targets.drop_last();
        lemma_filter_last(targets, other_url(url));
        if i < without_url(front, url).len() {
            lemma_without_url_members(front, url, i);
            let j = choose|j: int| 0 <= j < front.len() && front[j] == without_url(front, url)[i];
            assert(targets[j] == without_url(targets, url)[i]);
        } else {
            assert(targets[targets.len() - 1] == without_url(targets, url)[i]);
        }
    }
}

/// Taking a URL out leaves no target for it.
pub proof fn lemma_without_url_absent(targets: Seq<SettingView>, url: Seq<char>)
    ensures
        !has_url(without_url(targets, url), url),
{
    let kept = without_url(targets, url);
    if has_url(kept, url) {
        let i = choose|i: int| 0 <= i < kept.len() && kept[i].url == url;
        lemma_without_url_members(targets, url, i);
    }
}

/// Taking out a URL that has no target changes nothing.
pub proof fn lemma_without_url_unchanged(targets: Seq<SettingView>, url: Seq<char>)
    requires
        !has_url(targets, url),
    ensures
        without_url(targets, url) == targets,
    decreases targets.len(),
{
    reveal(Seq::filter);
    if targets.len() > 0 {
        let front = targets.drop_last();
        lemma_filter_last(targets, other_url(url));
        if has_url(front, url) {
            let i = choose|i: int| 0 <= i < front.len() && front[i].url == url;
            assert(targets[i].url == url);
        }
        assert(targets[targets.len() - 1].url != url);
        lemma_without_url_unchanged(front, url);
        assert(front.push(targets.last()) =~= targets);
    }
}

/// Taking a URL out keeps the URLs of the others distinct.
pub proof fn lemma_without_url_distinct(targets: Seq<SettingView>, url: Seq<char>)
    requires
        distinct_urls(targets),
    ensures
        distinct_urls(without_url(targets, url)),
    decreases targets.len(),
{
    reveal(Seq::filter);
    if targets.len() > 0 {
        let front = targets.drop_last();
        let kept = without_url(targets, url);
        let kept_front = without_url(front, url);
        lemma_filter_last(targets, other_url(url));
        assert forall|i: int, j: int| 0 <= i < j < front.len() implies front[i].url
            != front[j].url by {
            assert(targets[i].url != targets[j].url);
        }
        lemma_without_url_distinct(front, url);
        assert forall|i: int, j: int| 0 <= i < j < kept.len() implies kept[i].url
            != kept[j].url by {
            if j < kept_front.len() {
                assert(kept_front[i].url != kept_front[j].url);
            } else {
                lemma_without_url_members(front, url, i);
                let k = choose|k: int| 0 <= k < front.len() && front[k] == kept_front[i];
                assert(targets[k].url != targets[targets.len() - 1].url);
            }
        }
    }
}

/// Taking a URL out removes its check loops and leaves those of every other
/// URL as they were.
pub proof fn lemma_tasks_for_without(targets: Seq<SettingView>, url: Seq<char>, other: Seq<char>)
    ensures
        tasks_for(without_url(targets, url), other) == if other == url {
            Seq::<SettingView>::empty()
        } else {
            tasks_for(targets, other)
        },
    decreases targets.len(),
{
    reveal(Seq::filter);
    if targets.len() > 0 {
        let front = targets.drop_last();
        let last = targets.last();
        lemma_tasks_for_without(front, url, other);
        lemma_filter_last(targets, other_url(url));
        lemma_filter_last(targets, same_url(other));
        if last.url != url {
            let kept = without_url(targets, url);
            assert(kept.drop_last() =~= without_url(front, url));
            assert(kept.last() == last);
            lemma_filter_last(kept, same_url(other));
        }
    }
}

/// The check loops for a URL after a target was added at the end.
pub proof fn lemma_tasks_for_push(tasks: Seq<SettingView>, setting: SettingView, url: Seq<char>)
    ensures
        tasks_for(tasks.push(setting), url) == if setting.url == url {
            tasks_for(tasks, url).push(setting)
        } else {
            tasks_for(tasks, url)
        },
{
    let next = tasks.push(setting);
    assert(next.drop_last() =~= tasks);
    lemma_filter_last(next, same_url(url));
}

/// Carrying out the task actions of a command leaves exactly the check loops
/// of the targets that the command leaves, in their order.
pub proof fn lemma_actions_follow_command(targets: Seq<SettingView>, command: Command)
    ensures
        run_actions(targets, actions_of(targets, command)) == targets_after(targets, command),
{
    let actions = actions_of(targets, command);
    lemma_run_actions_unfold(targets, actions);
    match command {
        Command::Enable(setting) => {
            if !has_url(targets, setting.url) {
                lemma_without_url_unchanged(targets, setting.url);
            }
        },
        Command::Disable(url) => {
            if !has_url(targets, url) {
                lemma_without_url_unchanged(targets, url);
            }
        },
        _ => {},
    }
}

/// What `run_actions` does for no, one and two actions.
proof fn lemma_run_actions_unfold(tasks: Seq<SettingView>, actions: Seq<TaskActionView>)
    ensures
        actions.len() == 0 ==> run_actions(tasks, actions) == tasks,
        actions.len() == 1 ==> run_actions(tasks, actions) == run_action(tasks, actions[0]),
        actions.len() == 2 ==> run_actions(tasks, actions) == run_action(
            run_action(tasks, actions[0]),
            actions[1],
        ),
{
    if actions.len() >= 1 {
        let front = actions.drop_last();
        assert(run_actions(tasks, actions) == run_action(run_actions(tasks, front), actions.last()));
        if actions.len() == 2 {
            assert(run_actions(tasks, front) == run_action(
                run_actions(tasks, front.drop_last()),
                front.last(),
            ));
            assert(front.last() == actions[0]);
        }
    }
}

/// A command keeps the URLs of the targets distinct.
pub proof fn lemma_command_keeps_urls_distinct(targets: Seq<SettingView>, command: Command)
    requires
        distinct_urls(targets),
    ensures
        distinct_urls(targets_after(targets, command)),
{
    match command {
        Command::Enable(setting) => {
            lemma_without_url_distinct(targets, setting.url);
            let kept = without_url(targets, setting.url);
            let next = kept.push(setting);
            assert forall|i: int, j: int| 0 <= i < j < next.len() implies next[i].url
                != next[j].url by {
                if j < kept.len() {
                    assert(kept[i].url != kept[j].url);
                } else {
                    lemma_without_url_members(targets, setting.url, i);
                }
            }
        },
        Command::Disable(url) => {
            lemma_without_url_distinct(targets, url);
        },
        _ => {},
    }
}

/// After a command, the check loops for a URL are: the one for the new
/// settings where the command enabled the URL, none where it disabled it, and
/// those that ran before in every other case.
pub proof fn lemma_tasks_for_after(targets: Seq<SettingView>, command: Command, url: Seq<char>)
    ensures
        tasks_for(targets_after(targets, command), url) == match command {
            Command::Enable(setting) if setting.url == url => seq![setting],
            Command::Disable(disabled) if disabled == url => seq![],
            _ => tasks_for(targets, url),
        },
{
    match command {
        Command::Enable(setting) => {
            let kept = without_url(targets, setting.url);
            lemma_tasks_for_without(targets, setting.url, url);
            lemma_tasks_for_push(kept, setting, url);
            if setting.url == url {
                assert(Seq::<SettingView>::empty().push(setting) =~= seq![setting]);
            }
        },
        Command::Disable(disabled) => {
            lemma_tasks_for_without(targets, disabled, url);
        },
        _ => {},
    }
}

/// At every moment each URL has at most one check loop, and that loop runs
/// with the settings that the URL was last enabled with: whatever commands
/// the scheduler was given, the loops that run for a URL are the one for its
/// latest settings, or none where the URL was never enabled or was disabled
/// since. The targets that the scheduler holds are exactly the running
/// loops.
pub proof fn lemma_one_loop_per_url(commands: Seq<Command>, url: Seq<char>)
    ensures
        tasks_after_all(commands) == targets_after_all(commands),
        distinct_urls(targets_after_all(commands)),
        tasks_for(tasks_after_all(commands), url) == match latest_setting(commands, url) {
            Some(setting) => seq![setting],
            None => seq![],
        },
    decreases commands.len(),
{
    if commands.len() == 0 {
        reveal(Seq::filter);
        assert(tasks_for(Seq::<SettingView>::empty(), url) =~= Seq::<SettingView>::empty());
    } else {
        let before = commands.drop_last();
        lemma_one_loop_per_url(before, url);
        lemma_actions_follow_command(targets_after_all(before), commands.last());
        lemma_command_keeps_urls_distinct(targets_after_all(before), commands.last());
        lemma_tasks_for_after(targets_after_all(before), commands.last(), url);
    }
}

/// Enabling the same settings twice in a row leaves one check loop for the
/// URL, not two, and the same targets as enabling them once.
pub proof fn lemma_enable_twice(targets: Seq<SettingView>, setting: SettingView)
    ensures
        ({
            let once = run_actions(targets, enable_actions(targets, setting));
            let twice = run_actions(once, enable_actions(once, setting));
            &&& twice == once
            &&& once == spec_enable(targets, setting)
            &&& tasks_for(twice, setting.url) == seq![setting]
        }),
{
    let enable = Command::Enable(setting);
    lemma_actions_follow_command(targets, enable);
    let once = spec_enable(targets, setting);
    lemma_actions_follow_command(once, enable);
    lemma_tasks_for_after(once, enable, setting.url);
    let kept = without_url(targets, setting.url);
    lemma_without_url_absent(targets, setting.url);
    lemma_without_url_unchanged(kept, setting.url);
    assert(once.drop_last() =~= kept);
    lemma_filter_last(once, other_url(setting.url));
}

/// Enabling a URL again with other settings stops the loop that ran with the
/// old ones and starts one with the new: the only loop left for the URL runs
/// with the new settings.
pub proof fn lemma_replacement(targets: Seq<SettingView>, setting: SettingView)
    requires
        has_url(targets, setting.url),
    ensures
        enable_actions(targets, setting) == seq![
            TaskActionView::Stop { url: setting.url },
            TaskActionView::Start { setting },
        ],
        tasks_for(run_actions(targets, enable_actions(targets, setting)), setting.url) == seq![
            setting,
        ],
{
    lemma_actions_follow_command(targets, Command::Enable(setting));
    lemma_tasks_for_after(targets, Command::Enable(setting), setting.url);
}

/// Disabling a URL leaves no check loop for it.
pub proof fn lemma_disable_stops(targets: Seq<SettingView>, url: Seq<char>)
    ensures
        tasks_for(run_actions(targets, disable_actions(targets, url)), url) == Seq::<
            SettingView,
        >::empty(),
        has_url(targets, url) ==> disable_actions(targets, url) == seq![
            TaskActionView::Stop { url },
        ],
{
    lemma_actions_follow_command(targets, Command::Disable(url));
    lemma_tasks_for_after(targets, Command::Disable(url), url);
}

/// The targets after every enabled one of the stored settings was enabled,
/// in the order in which they are stored.
pub open spec fn targets_after_restore(targets: Seq<SettingView>, stored: Seq<SettingView>) -> Seq<
    SettingView,
>
    decreases stored.len(),
{
    if stored.len() == 0 {
        targets
    } else {
        let before = targets_after_restore(targets, stored.drop_last());
        if stored.last().is_enabled() {
            spec_enable(before, stored.last())
        } else {
            before
        }
    }
}

/// The task actions that enabling every enabled one of the stored settings
/// asks for.
pub open spec fn restore_actions(targets: Seq<SettingView>, stored: Seq<SettingView>) -> Seq<
    TaskActionView,
>
    decreases stored.len(),
{
    if stored.len() == 0 {
        seq![]
    } else {
        let before = targets_after_restore(targets, stored.drop_last());
        let earlier = restore_actions(targets, stored.drop_last());
        if stored.last().is_enabled() {
            earlier + enable_actions(before, stored.last())
        } else {
            earlier
        }
    }
}

/// Whether one of the stored settings is enabled.
pub open spec fn any_enabled(stored: Seq<SettingView>) -> bool {
    exists|i: int| 0 <= i < stored.len() && (#[trigger] stored[i]).is_enabled()
}

/// A message to the scheduler, as its callers write it: the command by name
/// in `msg`, with the field that the command reads.
#[derive(Debug)]
pub struct UptimePingMessage {
    pub msg: &'static str,
    pub settings: Option<UptimeSetting>,
    pub url: Option<String>,
    pub db_path: Option<String>,
}

impl UptimePingMessage {
    /// Whether the message holds the field that its command reads: the
    /// target of an enable, the URL of a disable or a query.
    pub open spec fn complete(self) -> bool {
        &&& self.msg@ == "enable"@ ==> self.settings is Some
        &&& self.msg@ == "disable"@ || self.msg@ == "is_enabled"@ ==> self.url is Some
    }

    /// The command that the message stands for. A name that is none of the
    /// three changes nothing, like a ping of the mailbox.
    pub open spec fn command(self) -> Command {
        if self.msg@ == "disable"@ {
            Command::Disable(self.url->0@)
        } else if self.msg@ == "enable"@ {
            Command::Enable(self.settings->0@)
        } else if self.msg@ == "is_enabled"@ {
            Command::IsEnabled(self.url->0@)
        } else {
            Command::PingMailbox
        }
    }

    /// Whether the message holds the field that its command reads.
    pub fn is_complete(&self) -> (complete: bool)
        ensures
            complete == self.complete(),
    {
        proof {
            lemma_command_names_differ();
        }
        if str_equal(self.msg, "enable") {
            self.settings.is_some()
        } else if str_equal(self.msg, "disable") || str_equal(self.msg, "is_enabled") {
            self.url.is_some()
        } else {
            true
        }
    }
}

/// The three command names are three different strings.
pub proof fn lemma_command_names_differ()
    ensures
        "enable"@ != "disable"@,
        "enable"@ != "is_enabled"@,
        "disable"@ != "is_enabled"@,
{
    reveal_strlit("enable");
    reveal_strlit("disable");
    reveal_strlit("is_enabled");
    assert("enable"@.len() == 6 && "disable"@.len() == 7 && "is_enabled"@.len() == 10);
}

/// What the scheduler answers to a command.
#[derive(Debug)]
pub struct Reply {
    /// The answer: whether the URL is active for a query, the running flag
    /// for the other commands.
    pub value: bool,
    /// What the caller has to do to the check loops, in this order.
    pub actions: Vec<TaskAction>,
}

/// The scheduler's state: the active targets, at most one for each URL.
#[derive(Debug)]
pub struct UptimeActor {
    is_running: bool,
    settings: Vec<UptimeSetting>,
}

impl UptimeActor {
    /// The active targets, in the order in which they were last enabled.
    pub closed spec fn targets(&self) -> Seq<SettingView> {
        setting_views(self.settings@)
    }

    /// The running flag: set by the last enable, cleared by the last disable.
    pub closed spec fn running(&self) -> bool {
        self.is_running
    }

    /// What holds of every scheduler: no URL has two targets.
    #[verifier::type_invariant]
    spec fn one_target_per_url(&self) -> bool {
        distinct_urls(setting_views(self.settings@))
    }

    /// A scheduler without targets.
    pub fn new() -> (actor: UptimeActor)
        ensures
            actor.targets() == Seq::<SettingView>::empty(),
            !actor.running(),
    {
        let actor = UptimeActor { is_running: false, settings: Vec::new() };
        assert(actor.targets() =~= Seq::<SettingView>::empty());
        actor
    }

    /// The running flag.
    pub fn is_running(&self) -> (running: bool)
        ensures
            running == self.running(),
    {
        self.is_running
    }

    /// The active targets.
    pub fn settings(&self) -> (settings: &Vec<UptimeSetting>)
        ensures
            setting_views(settings@) == self.targets(),
            distinct_urls(self.targets()),
    {
        proof {
            use_type_invariant(self);
        }
        &self.settings
    }

    /// Whether a target for `url` is active.
    pub fn is_enabled(&self, url: &str) -> (enabled: bool)
        ensures
            enabled == has_url(self.targets(), url@),
    {
        let mut at: usize = 0;
        while at < self.settings.len()
            invariant
                at <= self.settings.len(),
                forall|i: int| 0 <= i < at ==> (#[trigger] self.targets()[i]).url != url@,
            decreases self.settings.len() - at,
        {
            if str_equal(self.settings[at].url.as_str(), url) {
                assert(self.targets()[at as int].url == url@);
                return true;
            }
            at = at + 1;
        }
        false
    }

    /// The targets without the one for `url`, and whether there was one.
    fn others(&self, url: &str) -> (kept: (Vec<UptimeSetting>, bool))
        ensures
            setting_views(kept.0@) == without_url(self.targets(), url@),
            distinct_urls(setting_views(kept.0@)),
            kept.1 == has_url(self.targets(), url@),
    {
        let mut kept: Vec<UptimeSetting> = Vec::new();
        let mut found = false;
        let mut at: usize = 0;
        let ghost before = self.targets();
        assert(before.take(0) =~= Seq::<SettingView>::empty());
        assert(setting_views(kept@) =~= Seq::<SettingView>::empty());
        while at < self.settings.len()
            invariant
                at <= self.settings.len(),
                self.targets() == before,
                before.len() == self.settings.len(),
                setting_views(kept@) == without_url(before.take(at as int), url@),
                found == has_url(before.take(at as int), url@),
            decreases self.settings.len() - at,
        {
            let ghost seen = before.take(at as int);
            let ghost next = before.take(at + 1);
            proof {
                assert(next.drop_last() =~= seen);
                assert(next.last() == before[at as int]);
                lemma_filter_last(next, other_url(url@));
            }
            if str_equal(self.settings[at].url.as_str(), url) {
                found = true;
                assert(next[at as int].url == url@);
            } else {
                let ghost kept_before = kept@;
                kept.push(self.settings[at].clone());
                assert(setting_views(kept@) =~= setting_views(kept_before).push(before[at as int]));
                proof {
                    if has_url(next, url@) {
                        let i = choose|i: int| 0 <= i < next.len() && next[i].url == url@;
                        assert(seen[i].url == url@);
                    }
                    if has_url(seen, url@) {
                        let i = choose|i: int| 0 <= i < seen.len() && seen[i].url == url@;
                        assert(next[i].url == url@);
                    }
                }
            }
            at = at + 1;
        }
        proof {
            assert(before.take(at as int) =~= before);
            use_type_invariant(self);
            lemma_without_url_distinct(before, url@);
        }
        (kept, found)
    }

    /// Enables a target. It takes the place of the target that was active
    /// for its URL, whose check loop is stopped; a check loop for the new
    /// settings is started in either case.
    pub fn enable(&mut self, setting: UptimeSetting) -> (actions: Vec<TaskAction>)
        ensures
            final(self).targets() == spec_enable(old(self).targets(), setting@),
            final(self).running(),
            action_views(actions@) == enable_actions(old(self).targets(), setting@),
    {
        let mut actions: Vec<TaskAction> = Vec::new();
        let (mut kept, found) = self.others(setting.url.as_str());
        if found {
            actions.push(TaskAction::Stop { url: setting.url.clone() });
        }
        actions.push(TaskAction::Start { setting: setting.clone() });
        let ghost others = setting_views(kept@);
        kept.push(setting);
        proof {
            let next = others.push(setting@);
            assert(setting_views(kept@) =~= next);
            assert forall|i: int, j: int| 0 <= i < j < next.len() implies next[i].url
                != next[j].url by {
                if j < others.len() {
                    assert(others[i].url != others[j].url);
                } else {
                    lemma_without_url_members(old(self).targets(), setting@.url, i);
                }
            }
            assert(action_views(actions@) =~= enable_actions(old(self).targets(), setting@));
        }
        self.settings = kept;
        self.is_running = true;
        actions
    }

    /// Disables the target for `url`: it is taken out and its check loop is
    /// stopped. Nothing is changed where no target is active for `url`.
    pub fn disable(&mut self, url: &str) -> (actions: Vec<TaskAction>)
        ensures
            final(self).targets() == without_url(old(self).targets(), url@),
            !final(self).running(),
            action_views(actions@) == disable_actions(old(self).targets(), url@),
    {
        let mut actions: Vec<TaskAction> = Vec::new();
        let (kept, found) = self.others(url);
        if found {
            actions.push(TaskAction::Stop { url: url.to_owned() });
        }
        assert(action_views(actions@) =~= disable_actions(old(self).targets(), url@));
        self.settings = kept;
        self.is_running = false;
        actions
    }

    /// Handles one message. The message must hold the field that its command
    /// reads.
    pub fn handle(&mut self, message: UptimePingMessage) -> (reply: Reply)
        requires
            message.complete(),
        ensures
            final(self).targets() == targets_after(old(self).targets(), message.command()),
            final(self).running() == running_after(old(self).running(), message.command()),
            reply.value == answer_of(old(self).targets(), old(self).running(), message.command()),
            action_views(reply.actions@) == actions_of(old(self).targets(), message.command()),
    {
        proof {
            lemma_command_names_differ();
        }
        if str_equal(message.msg, "disable") {
            let url = message.url.unwrap();
            let actions = self.disable(url.as_str());
            Reply { value: false, actions }
        } else if str_equal(message.msg, "enable") {
            let actions = self.enable(message.settings.unwrap());
            Reply { value: true, actions }
        } else if str_equal(message.msg, "is_enabled") {
            let url = message.url.unwrap();
            let actions: Vec<TaskAction> = Vec::new();
            assert(action_views(actions@) =~= Seq::<TaskActionView>::empty());
            Reply { value: self.is_enabled(url.as_str()), actions }
        } else {
            let actions: Vec<TaskAction> = Vec::new();
            assert(action_views(actions@) =~= Seq::<TaskActionView>::empty());
            Reply { value: self.is_running, actions }
        }
    }
}

/// Brings the scheduler back to the stored settings, as at the start of the
/// process: every stored target that says it is enabled is enabled, in the
/// order in which they are stored. The others are passed over.
pub fn restart_uptime_service(actor: &mut UptimeActor, stored: Vec<UptimeSetting>) -> (actions:
    Vec<TaskAction>)
    ensures
        final(actor).targets() == targets_after_restore(
            old(actor).targets(),
            setting_views(stored@),
        ),
        final(actor).running() == (old(actor).running() || any_enabled(setting_views(stored@))),
        action_views(actions@) == restore_actions(old(actor).targets(), setting_views(stored@)),
{
    let mut actions: Vec<TaskAction> = Vec::new();
    let mut at: usize = 0;
    let ghost all = setting_views(stored@);
    let ghost start = actor.targets();
    assert(all.take(0) =~= Seq::<SettingView>::empty());
    assert(action_views(actions@) =~= Seq::<TaskActionView>::empty());
    while at < stored.len()
        invariant
            at <= stored.len(),
            all == setting_views(stored@),
            actor.targets() == targets_after_restore(start, all.take(at as int)),
            actor.running() == (old(actor).running() || any_enabled(all.take(at as int))),
            action_views(actions@) == restore_actions(start, all.take(at as int)),
        decreases stored.len() - at,
    {
        let ghost seen = all.take(at as int);
        let ghost next = all.take(at + 1);
        proof {
            assert(next.drop_last() =~= seen);
            assert(next.last() == all[at as int]);
            if any_enabled(seen) {
                let i = choose|i: int| 0 <= i < seen.len() && (#[trigger] seen[i]).is_enabled();
                assert(next[i].is_enabled());
            }
            if any_enabled(next) && !stored[at as int]@.is_enabled() {
                let i = choose|i: int| 0 <= i < next.len() && (#[trigger] next[i]).is_enabled();
                assert(seen[i].is_enabled());
            }
        }
        if stored[at].is_enabled() {
            let ghost earlier = action_views(actions@);
            let mut more = actor.enable(stored[at].clone());
            let ghost added = action_views(more@);
            actions.append(&mut more);
            assert(action_views(actions@) =~= earlier + added);
            assert(next[at as int].is_enabled());
        }
        at = at + 1;
    }
    assert(all.take(at as int) =~= all);
    actions
}

} // verus!
