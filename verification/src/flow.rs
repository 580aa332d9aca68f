//! Setting a wallpaper, step by step.
//!
//! Setting a wallpaper interleaves outside work (listing monitors, stopping and starting
//! processes, saving the state) with decisions. The decisions live here: a runner creates a
//! `SetFlow`, performs each `SetAction` that `set_step` hands it and answers with the
//! `SetEvent` the action produced. A failed action ends the run with its error.
use vstd::prelude::*;
use crate::backends::model::Backend;
use crate::backends::awww::{apply_command, apply_instant_command, apply_args, instant_args};
use crate::backends::hyprpaper::{apply_commands, apply_commands_spec};
use crate::backends::swaybg::{start_command, start_args};
use crate::cli::{
    copy_strings, target_monitor_plans, plans_for_targets, targeted_pids, owned_live_pids_for_monitors,
    static_entries_with_pid, last_set_command, set_command_text,
};
use crate::command::CommandSpec;
use crate::config::Config;
use crate::orchestrator::{SetPlan, target_names};
use crate::state::{State, merged_state, entry_texts};
use crate::text::{texts, str_eq, cat, cat3, decimal, decimal_string, owned, join_seq};
use crate::backends::model::backend_name;

verus! {

/// Where a run stands: the outside step it waits for.
#[derive(Debug, Clone, Copy, PartialEq, Eq, Structural)]
pub enum SetStage {
    Start,
    /// `awww` makes sure its daemon runs before anything else.
    DaemonFirst,
    ListingMonitors,
    StoppingSwaybg,
    EnsuringDaemon,
    Applying,
    StoppingLive,
    StoppingOmarchySwaybg,
    Spawning,
    /// `swaybg` was started; the run checks that it is still running.
    CheckingAlive,
    /// A named monitor was set; the run asks whether it is the primary one.
    FindingPrimary,
    UpdatingOmarchyLink,
    StartingLive,
    StoppingPreviousLive,
    Saving,
    Finished,
}

/// The outside step a runner performs next.
#[derive(Debug)]
pub enum SetAction {
    /// List the active monitors; answer `Monitors`.
    ListMonitors,
    /// Make sure the hyprpaper daemon answers, starting it when it does not; answer `Done`.
    EnsureHyprpaperDaemon,
    /// Make sure the awww daemon answers, starting it when it does not; answer `Done`.
    EnsureAwwwDaemon,
    /// Stop the `swaybg` processes recorded for these monitors and forget them in the saved
    /// state; answer `Done`.
    StopOwnedSwaybg(Vec<String>),
    /// Stop the `mpvpaper` processes recorded for these monitors and forget them in the saved
    /// state; answer `Done`.
    StopOwnedLive(Vec<String>),
    /// Run each command in turn; answer `Done`.
    RunAll(Vec<CommandSpec>),
    /// Terminate the `swaybg` that Omarchy itself started; answer `Done`.
    StopOmarchySwaybg,
    /// Start a detached process; answer `Spawned` with its id.
    Spawn(CommandSpec),
    /// Look, a moment after its start, whether this process still runs; answer `Alive`.
    CheckAlive(u32),
    /// Find the primary (first active) monitor; answer `PrimaryMonitor`, with `None` when it
    /// cannot be told.
    FindPrimaryMonitor,
    /// Point Omarchy's current background link at this wallpaper; answer `Done`.
    UpdateOmarchyLink(String),
    /// The run fails with this error; nothing more is done.
    Fail(String),
    /// Start one `mpvpaper` per plan and wait until each shows video; answer `LiveStarted`
    /// with the `(monitor, pid)` of each.
    StartLive(Vec<SetPlan>),
    /// Terminate these processes; answer `Done`.
    Terminate(Vec<u32>),
    /// Save this state; answer `Done`.
    Save(State),
    /// The run is over: print these lines.
    Finish(Vec<String>),
}

/// What the last action produced.
#[derive(Debug)]
pub enum SetEvent {
    Begin,
    Done,
    Monitors(Vec<String>),
    Spawned(u32),
    Alive(bool),
    PrimaryMonitor(Option<String>),
    LiveStarted(Vec<(String, Option<u32>)>),
}

/// A run of a set plan: the plan, the state saved before the run, the monitors it expands to,
/// the live processes it started, and where it stands.
#[derive(Debug)]
pub struct SetFlow {
    pub plan: SetPlan,
    pub existing: Option<State>,
    pub monitors: Vec<String>,
    pub entries: Vec<(String, Option<u32>)>,
    /// The `swaybg` the run started.
    pub spawned: Option<u32>,
    pub stage: SetStage,
}

/// The event each stage waits for.
pub open spec fn accepts(stage: SetStage, event: SetEvent) -> bool {
    match stage {
        SetStage::Start => event is Begin,
        SetStage::ListingMonitors => event matches SetEvent::Monitors(m) && m@.len() > 0,
        SetStage::Spawning => event is Spawned,
        SetStage::CheckingAlive => event is Alive,
        SetStage::FindingPrimary => event is PrimaryMonitor,
        SetStage::StartingLive => event is LiveStarted,
        SetStage::Finished => false,
        _ => event is Done,
    }
}

impl SetFlow {
    /// The saved state, when there is one, is well formed.
    pub open spec fn wf(&self) -> bool {
        self.existing matches Some(e) ==> e.monitors.wf() && e.collections.wf()
    }

    /// The monitors the plan sets.
    pub open spec fn targets(&self) -> Seq<Seq<char>> {
        target_names(self.plan, texts(self.monitors@))
    }

    /// The `mpvpaper` processes recorded, before the run, for the target monitors.
    pub open spec fn previous_live(&self) -> Seq<u32> {
        match self.existing {
            Some(e) => targeted_pids(e.monitors, Backend::Mpvpaper, self.targets()),
            None => seq![],
        }
    }

    /// A static wallpaper replaces a live one: `awww` then switches without a transition.
    pub open spec fn live_to_static(&self) -> bool {
        self.previous_live().len() > 0
    }

    /// A new run of `plan` over the state saved before it.
    pub fn new(plan: SetPlan, existing: Option<State>) -> (f: SetFlow)
        requires
            existing matches Some(e) ==> e.monitors.wf() && e.collections.wf(),
        ensures
            f.wf(),
            f.plan == plan,
            f.existing == existing,
            f.monitors@.len() == 0,
            f.entries@.len() == 0,
            f.spawned is None,
            f.stage == SetStage::Start,
    {
        SetFlow { plan, existing, monitors: Vec::new(), entries: Vec::new(), spawned: None, stage: SetStage::Start }
    }

    /// Whether `event` is the answer the current stage waits for.
    pub fn accepts(&self, event: &SetEvent) -> (r: bool)
        ensures
            r == accepts(self.stage, *event),
    {
        match self.stage {
            SetStage::Start => matches!(event, SetEvent::Begin),
            SetStage::ListingMonitors => match event {
                SetEvent::Monitors(m) => m.len() > 0,
                _ => false,
            },
            SetStage::Spawning => matches!(event, SetEvent::Spawned(_)),
            SetStage::CheckingAlive => matches!(event, SetEvent::Alive(_)),
            SetStage::FindingPrimary => matches!(event, SetEvent::PrimaryMonitor(_)),
            SetStage::StartingLive => matches!(event, SetEvent::LiveStarted(_)),
            SetStage::Finished => false,
            _ => matches!(event, SetEvent::Done),
        }
    }
}

/// The `(monitor, pid)` entries of a static run: each target monitor with `pid`.
pub open spec fn static_entries_spec(plan: SetPlan, monitors: Seq<Seq<char>>, pid: Option<u32>) -> Seq<
    (Seq<char>, Option<u32>),
> {
    target_names(plan, monitors).map_values(|m: Seq<char>| (m, pid))
}

/// `set <wallpaper> on <monitor> using <backend>`.
pub open spec fn set_line(plan: SetPlan) -> Seq<char> {
    "set "@ + plan.wallpaper@ + " on "@ + plan.monitor@ + " using "@ + backend_name(plan.backend)
}

/// `started <wallpaper> on <monitor> using <backend> with pid <pid|unknown>`.
pub open spec fn started_line(plan: SetPlan, monitor: Seq<char>, pid: Option<u32>) -> Seq<char> {
    "started "@ + plan.wallpaper@ + " on "@ + monitor + " using "@ + backend_name(plan.backend)
        + " with pid "@ + match pid {
        Some(p) => decimal(p as nat),
        None => "unknown"@,
    }
}

/// What a run prints when it is over: one line per started `mpvpaper`, else one line.
pub open spec fn finish_lines(f: SetFlow) -> Seq<Seq<char>> {
    if f.plan.backend == Backend::Mpvpaper {
        entry_texts(f.entries@).map_values(
            |e: (Seq<char>, Option<u32>)| started_line(f.plan, e.0, e.1),
        )
    } else {
        seq![set_line(f.plan)]
    }
}

/// `n`, `a`: stop the owned `swaybg` of the target monitors.
pub open spec fn stopping_swaybg(n: SetFlow, a: SetAction) -> bool {
    n.stage == SetStage::StoppingSwaybg && (a matches SetAction::StopOwnedSwaybg(v) && texts(v@)
        == n.targets())
}

/// `n`, `a`: stop the owned `mpvpaper` of the target monitors.
pub open spec fn stopping_live(n: SetFlow, a: SetAction) -> bool {
    n.stage == SetStage::StoppingLive && (a matches SetAction::StopOwnedLive(v) && texts(v@)
        == n.targets())
}

/// `n`, `a`: save the state that the run of `f` leaves with these entries, the set command
/// recorded as the last one.
pub open spec fn saving(f: SetFlow, n: SetFlow, a: SetAction, entries: Seq<(Seq<char>, Option<u32>)>) -> bool {
    n.stage == SetStage::Saving && (a matches SetAction::Save(s) && merged_state(
        s,
        f.existing,
        f.plan,
        entries,
    ) && (s.last_command matches Some(c) && c@ == set_command_text(f.plan)))
}

/// The error of a `swaybg` gone straight after its start.
pub open spec fn swaybg_exited_message() -> Seq<char> {
    "swaybg exited immediately after start"@
}

/// A `swaybg` run covers every monitor: Omarchy's own `swaybg` is then replaced, and Omarchy's
/// current background becomes the run's wallpaper. A run on a named monitor leaves Omarchy's
/// `swaybg` alone, and moves the background link only when that monitor is the primary one.
pub open spec fn covers_all(f: SetFlow) -> bool {
    f.plan.monitor@ == "all"@
}

/// `n`, `a`: start `swaybg` for the plan.
pub open spec fn spawning(f: SetFlow, n: SetFlow, a: SetAction) -> bool {
    n.stage == SetStage::Spawning && (a matches SetAction::Spawn(c) && c.program@ == "swaybg"@ && texts(c.args@)
        == start_args(f.plan))
}

/// `n`, `a`: point Omarchy's background link at the plan's wallpaper.
pub open spec fn updating_link(f: SetFlow, n: SetFlow, a: SetAction) -> bool {
    n.stage == SetStage::UpdatingOmarchyLink && (a matches SetAction::UpdateOmarchyLink(w) && w@ == f.plan.wallpaper@)
}

/// `n`, `a` once the monitors are settled: list them for `all`, else take the plan's own.
pub open spec fn begun(f: SetFlow, n: SetFlow, a: SetAction) -> bool {
    if f.plan.monitor@ == "all"@ {
        n.stage == SetStage::ListingMonitors && a is ListMonitors && n.monitors == f.monitors
    } else {
        texts(n.monitors@) == seq![f.plan.monitor@] && stopping_swaybg(n, a)
    }
}

/// The step from `f` on `event` to `n`, handing out `a`.
pub open spec fn step_ok(f: SetFlow, config: Config, event: SetEvent, n: SetFlow, a: SetAction) -> bool {
    let b = f.plan.backend;
    &&& n.plan == f.plan
    &&& n.existing == f.existing
    &&& f.stage != SetStage::StartingLive ==> n.entries == f.entries
    &&& f.stage != SetStage::Spawning ==> n.spawned == f.spawned
    &&& match f.stage {
        SetStage::Start => if b == Backend::Awww {
            n.stage == SetStage::DaemonFirst && a is EnsureAwwwDaemon && n.monitors == f.monitors
        } else {
            begun(f, n, a)
        },
        SetStage::DaemonFirst => begun(f, n, a),
        SetStage::ListingMonitors => event matches SetEvent::Monitors(m) && n.monitors@ == m@
            && stopping_swaybg(n, a),
        SetStage::StoppingSwaybg => n.monitors == f.monitors && match b {
            Backend::Hyprpaper => n.stage == SetStage::EnsuringDaemon && a is EnsureHyprpaperDaemon,
            Backend::Awww => n.stage == SetStage::Applying && (a matches SetAction::RunAll(cmds)
                && cmds@.len() == 1 && cmds@[0].program@ == "awww"@ && texts(cmds@[0].args@) == if f.live_to_static() {
                instant_args(f.plan)
            } else {
                apply_args(f.plan, config.awww)
            }),
            Backend::Swaybg => stopping_live(n, a),
            Backend::Mpvpaper => n.stage == SetStage::StartingLive && (a matches SetAction::StartLive(plans)
                && plans_for_targets(plans@, f.plan, f.targets())),
        },
        SetStage::EnsuringDaemon => n.monitors == f.monitors && n.stage == SetStage::Applying
            && (a matches SetAction::RunAll(cmds) && apply_commands_spec(
            cmds@,
            f.plan,
            texts(f.monitors@),
            config.hyprpaper,
        )),
        SetStage::Applying => n.monitors == f.monitors && stopping_live(n, a),
        SetStage::StoppingLive => n.monitors == f.monitors && if b == Backend::Swaybg {
            if covers_all(f) {
                n.stage == SetStage::StoppingOmarchySwaybg && a is StopOmarchySwaybg
            } else {
                spawning(f, n, a)
            }
        } else {
            saving(f, n, a, static_entries_spec(f.plan, texts(f.monitors@), None))
        },
        SetStage::StoppingOmarchySwaybg => n.monitors == f.monitors && spawning(f, n, a),
        SetStage::Spawning => event matches SetEvent::Spawned(pid) && n.monitors == f.monitors && n.spawned
            == Some(pid) && n.stage == SetStage::CheckingAlive && (a matches SetAction::CheckAlive(p) && p == pid),
        SetStage::CheckingAlive => event matches SetEvent::Alive(alive) && n.monitors == f.monitors && if !alive {
            n.stage == SetStage::Finished && (a matches SetAction::Fail(m) && m@ == swaybg_exited_message())
        } else if covers_all(f) {
            updating_link(f, n, a)
        } else {
            n.stage == SetStage::FindingPrimary && a is FindPrimaryMonitor
        },
        SetStage::FindingPrimary => event matches SetEvent::PrimaryMonitor(p) && n.monitors == f.monitors && if (
        p matches Some(m) && m@ == f.plan.monitor@) {
            updating_link(f, n, a)
        } else {
            saving(f, n, a, static_entries_spec(f.plan, texts(f.monitors@), f.spawned))
        },
        SetStage::UpdatingOmarchyLink => n.monitors == f.monitors && saving(
            f,
            n,
            a,
            static_entries_spec(f.plan, texts(f.monitors@), f.spawned),
        ),
        SetStage::StartingLive => event matches SetEvent::LiveStarted(e) && n.monitors == f.monitors
            && n.entries@ == e@ && n.stage == SetStage::StoppingPreviousLive && (a matches SetAction::Terminate(
            p,
        ) && p@ == f.previous_live()),
        SetStage::StoppingPreviousLive => n.monitors == f.monitors && saving(
            f,
            n,
            a,
            entry_texts(f.entries@),
        ),
        SetStage::Saving => n.monitors == f.monitors && n.stage == SetStage::Finished && (a matches SetAction::Finish(
            lines,
        ) && texts(lines@) == finish_lines(f)),
        SetStage::Finished => false,
    }
}

/// A run ends the previous live wallpaper's processes only after the new ones have started and
/// shown video: the one step that hands out `Terminate` is the answer to `StartLive`.
pub proof fn lemma_previous_live_ended_after_start(
    f: SetFlow,
    config: Config,
    event: SetEvent,
    n: SetFlow,
    a: SetAction,
)
    requires
        step_ok(f, config, event, n, a),
        a is Terminate,
    ensures
        f.stage == SetStage::StartingLive,
        event is LiveStarted,
{
}

/// The stages a run of a plan on backend `b` passes through.
pub open spec fn reachable_stage(b: Backend, stage: SetStage) -> bool {
    match stage {
        SetStage::Start | SetStage::ListingMonitors | SetStage::StoppingSwaybg | SetStage::Saving
        | SetStage::Finished => true,
        SetStage::DaemonFirst => b == Backend::Awww,
        SetStage::EnsuringDaemon => b == Backend::Hyprpaper,
        SetStage::Applying => b == Backend::Hyprpaper || b == Backend::Awww,
        SetStage::StoppingLive => b != Backend::Mpvpaper,
        SetStage::StoppingOmarchySwaybg | SetStage::Spawning | SetStage::CheckingAlive
        | SetStage::FindingPrimary | SetStage::UpdatingOmarchyLink => b == Backend::Swaybg,
        SetStage::StartingLive | SetStage::StoppingPreviousLive => b == Backend::Mpvpaper,
    }
}

/// Every step keeps a run among the stages of its backend (a new run starts at `Start`).
pub proof fn lemma_step_keeps_reachable(f: SetFlow, config: Config, event: SetEvent, n: SetFlow, a: SetAction)
    requires
        step_ok(f, config, event, n, a),
        reachable_stage(f.plan.backend, f.stage),
    ensures
        reachable_stage(n.plan.backend, n.stage),
{
}

/// A `swaybg` run saves its state only once the started `swaybg` was seen running; one whose
/// `swaybg` is gone fails with that error and saves nothing, for nothing follows the failure.
pub proof fn lemma_swaybg_saved_only_when_alive(f: SetFlow, config: Config, event: SetEvent, n: SetFlow, a: SetAction)
    requires
        step_ok(f, config, event, n, a),
        reachable_stage(f.plan.backend, f.stage),
        f.plan.backend == Backend::Swaybg,
    ensures
        a is Save ==> f.stage == SetStage::FindingPrimary || f.stage == SetStage::UpdatingOmarchyLink,
        f.stage == SetStage::CheckingAlive && event == SetEvent::Alive(false) ==> a is Fail && n.stage
            == SetStage::Finished,
        n.stage == SetStage::Finished ==> forall|e: SetEvent| !accepts(n.stage, e),
{
}

/// Omarchy's own `swaybg` is stopped only by a `swaybg` run over every monitor, and Omarchy's
/// background link is moved only by a `swaybg` run over every monitor or over the primary one.
pub proof fn lemma_omarchy_touched_only_for_all_or_primary(
    f: SetFlow,
    config: Config,
    event: SetEvent,
    n: SetFlow,
    a: SetAction,
)
    requires
        step_ok(f, config, event, n, a),
        reachable_stage(f.plan.backend, f.stage),
    ensures
        a is StopOmarchySwaybg ==> covers_all(f) && f.plan.backend == Backend::Swaybg,
        a is UpdateOmarchyLink ==> f.plan.backend == Backend::Swaybg && (covers_all(f) || (event matches SetEvent::PrimaryMonitor(
            p,
        ) && p matches Some(m) && m@ == f.plan.monitor@)),
{
}

fn target_list(plan: &SetPlan, monitors: &Vec<String>) -> (r: Vec<String>)
    ensures
        texts(r@) == target_names(*plan, texts(monitors@)),
{
    if str_eq(plan.monitor.as_str(), "all") {
        copy_strings(monitors.as_slice())
    } else {
        let mut v: Vec<String> = Vec::new();
        v.push(plan.monitor.clone());
        assert(texts(v@) =~= seq![plan.monitor@]);
        v
    }
}

fn previous_live_pids(f: &SetFlow) -> (r: Vec<u32>)
    requires
        f.wf(),
    ensures
        r@ == f.previous_live(),
{
    let targets = target_list(&f.plan, &f.monitors);
    match &f.existing {
        Some(e) => owned_live_pids_for_monitors(e, targets.as_slice()),
        None => Vec::new(),
    }
}

fn saved_state(f: &SetFlow, entries: Vec<(String, Option<u32>)>) -> (s: State)
    requires
        f.wf(),
    ensures
        merged_state(s, f.existing, f.plan, entry_texts(entries@)),
        (s.last_command matches Some(c) && c@ == set_command_text(f.plan)),
{
    let existing = match &f.existing {
        Some(e) => Some(e),
        None => None,
    };
    let mut s = State::merged_with_monitor_entries(existing, &f.plan, entries);
    s.record_last_command(last_set_command(&f.plan));
    s
}

fn static_saved_state(f: &SetFlow, pid: Option<u32>) -> (s: State)
    requires
        f.wf(),
    ensures
        merged_state(s, f.existing, f.plan, static_entries_spec(f.plan, texts(f.monitors@), pid)),
        (s.last_command matches Some(c) && c@ == set_command_text(f.plan)),
{
    let entries = static_entries_with_pid(&f.plan, f.monitors.as_slice(), pid);
    saved_state(f, entries)
}

fn set_line_exec(plan: &SetPlan) -> (s: String)
    ensures
        s@ == set_line(*plan),
{
    let a = cat3("set ", plan.wallpaper.as_str(), " on ");
    let b = cat3(a.as_str(), plan.monitor.as_str(), " using ");
    let name = plan.backend.to_string();
    cat(b.as_str(), name.as_str())
}

fn started_line_exec(plan: &SetPlan, monitor: &str, pid: Option<u32>) -> (s: String)
    ensures
        s@ == started_line(*plan, monitor@, pid),
{
    let a = cat3("started ", plan.wallpaper.as_str(), " on ");
    let b = cat3(a.as_str(), monitor, " using ");
    let name = plan.backend.to_string();
    let c = cat3(b.as_str(), name.as_str(), " with pid ");
    let p = match pid {
        Some(p) => decimal_string(p as u64),
        None => owned("unknown"),
    };
    cat(c.as_str(), p.as_str())
}

fn finish_lines_exec(f: &SetFlow) -> (r: Vec<String>)
    ensures
        texts(r@) == finish_lines(*f),
{
    let mut out: Vec<String> = Vec::new();
    if f.plan.backend == Backend::Mpvpaper {
        let mut i: usize = 0;
        while i < f.entries.len()
            invariant
                f.plan.backend == Backend::Mpvpaper,
                0 <= i <= f.entries@.len(),
                out@.len() == i,
                forall|k: int|
                    0 <= k < i ==> (#[trigger] out@[k])@ == started_line(
                        f.plan,
                        f.entries@[k].0@,
                        f.entries@[k].1,
                    ),
            decreases f.entries.len() - i,
        {
            out.push(started_line_exec(&f.plan, f.entries[i].0.as_str(), f.entries[i].1));
            i += 1;
        }
        assert(texts(out@) =~= finish_lines(*f));
    } else {
        out.push(set_line_exec(&f.plan));
        assert(texts(out@) =~= finish_lines(*f));
    }
    out
}

/// The lines a run of `mpvpaper` prints: one `started` line per `(monitor, pid)` entry.
pub fn started_lines(plan: &SetPlan, entries: &[(String, Option<u32>)]) -> (r: Vec<String>)
    ensures
        texts(r@) == entry_texts(entries@).map_values(
            |e: (Seq<char>, Option<u32>)| started_line(*plan, e.0, e.1),
        ),
{
    let mut out: Vec<String> = Vec::new();
    let mut i: usize = 0;
    while i < entries.len()
        invariant
            0 <= i <= entries@.len(),
            texts(out@) == entry_texts(entries@).take(i as int).map_values(
                |e: (Seq<char>, Option<u32>)| started_line(*plan, e.0, e.1),
            ),
        decreases entries.len() - i,
    {
        let ghost before = texts(out@);
        let line = started_line_exec(plan, entries[i].0.as_str(), entries[i].1);
        out.push(line);
        assert(texts(out@) =~= before.push(line@));
        assert(entry_texts(entries@)[i as int] == (entries@[i as int].0@, entries@[i as int].1));
        assert(entry_texts(entries@).take(i + 1) =~= entry_texts(entries@).take(i as int).push(
            entry_texts(entries@)[i as int],
        ));
        assert(texts(out@) =~= entry_texts(entries@).take(i + 1).map_values(
            |e: (Seq<char>, Option<u32>)| started_line(*plan, e.0, e.1),
        ));
        i += 1;
    }
    assert(entry_texts(entries@).take(entries@.len() as int) =~= entry_texts(entries@));
    out
}

/// The step of a run on `event`: the run's next stage and the action to perform.
pub fn set_step(f: SetFlow, config: &Config, event: SetEvent) -> (r: (SetFlow, SetAction))
    requires
        f.wf(),
        accepts(f.stage, event),
    ensures
        r.0.wf(),
        step_ok(f, *config, event, r.0, r.1),
{
    let ghost old_f = f;
    let mut n = f;
    let b = n.plan.backend;
    let all = str_eq(n.plan.monitor.as_str(), "all");
    match n.stage {
        SetStage::Start | SetStage::DaemonFirst => {
            if n.stage == SetStage::Start && b == Backend::Awww {
                n.stage = SetStage::DaemonFirst;
                return (n, SetAction::EnsureAwwwDaemon);
            }
            if all {
                n.stage = SetStage::ListingMonitors;
                return (n, SetAction::ListMonitors);
            }
            let mut m: Vec<String> = Vec::new();
            m.push(n.plan.monitor.clone());
            assert(texts(m@) =~= seq![n.plan.monitor@]);
            n.monitors = m;
            n.stage = SetStage::StoppingSwaybg;
            let t = target_list(&n.plan, &n.monitors);
            (n, SetAction::StopOwnedSwaybg(t))
        },
        SetStage::ListingMonitors => {
            match event {
                SetEvent::Monitors(m) => {
                    n.monitors = m;
                },
                _ => {},
            }
            n.stage = SetStage::StoppingSwaybg;
            let t = target_list(&n.plan, &n.monitors);
            (n, SetAction::StopOwnedSwaybg(t))
        },
        SetStage::StoppingSwaybg => {
            match b {
                Backend::Hyprpaper => {
                    n.stage = SetStage::EnsuringDaemon;
                    (n, SetAction::EnsureHyprpaperDaemon)
                },
                Backend::Awww => {
                    let previous = previous_live_pids(&n);
                    let c = if previous.len() > 0 {
                        apply_instant_command(&n.plan)
                    } else {
                        apply_command(&n.plan, &config.awww)
                    };
                    let mut cmds: Vec<CommandSpec> = Vec::new();
                    cmds.push(c);
                    n.stage = SetStage::Applying;
                    (n, SetAction::RunAll(cmds))
                },
                Backend::Swaybg => {
                    n.stage = SetStage::StoppingLive;
                    let t = target_list(&n.plan, &n.monitors);
                    (n, SetAction::StopOwnedLive(t))
                },
                Backend::Mpvpaper => {
                    let plans = target_monitor_plans(&n.plan, n.monitors.as_slice());
                    n.stage = SetStage::StartingLive;
                    (n, SetAction::StartLive(plans))
                },
            }
        },
        SetStage::EnsuringDaemon => {
            let cmds = apply_commands(&n.plan, n.monitors.as_slice(), &config.hyprpaper);
            n.stage = SetStage::Applying;
            (n, SetAction::RunAll(cmds))
        },
        SetStage::Applying => {
            n.stage = SetStage::StoppingLive;
            let t = target_list(&n.plan, &n.monitors);
            (n, SetAction::StopOwnedLive(t))
        },
        SetStage::StoppingLive => {
            if b == Backend::Swaybg {
                if all {
                    n.stage = SetStage::StoppingOmarchySwaybg;
                    (n, SetAction::StopOmarchySwaybg)
                } else {
                    let c = start_command(&n.plan);
                    n.stage = SetStage::Spawning;
                    (n, SetAction::Spawn(c))
                }
            } else {
                let s = static_saved_state(&n, None);
                n.stage = SetStage::Saving;
                (n, SetAction::Save(s))
            }
        },
        SetStage::StoppingOmarchySwaybg => {
            let c = start_command(&n.plan);
            n.stage = SetStage::Spawning;
            (n, SetAction::Spawn(c))
        },
        SetStage::Spawning => {
            let pid = match event {
                SetEvent::Spawned(p) => p,
                _ => 0,
            };
            n.spawned = Some(pid);
            n.stage = SetStage::CheckingAlive;
            (n, SetAction::CheckAlive(pid))
        },
        SetStage::CheckingAlive => {
            let alive = match event {
                SetEvent::Alive(a) => a,
                _ => false,
            };
            if !alive {
                n.stage = SetStage::Finished;
                return (n, SetAction::Fail(owned("swaybg exited immediately after start")));
            }
            if all {
                let w = n.plan.wallpaper.clone();
                n.stage = SetStage::UpdatingOmarchyLink;
                (n, SetAction::UpdateOmarchyLink(w))
            } else {
                n.stage = SetStage::FindingPrimary;
                (n, SetAction::FindPrimaryMonitor)
            }
        },
        SetStage::FindingPrimary => {
            let primary = match &event {
                SetEvent::PrimaryMonitor(Some(m)) => str_eq(m.as_str(), n.plan.monitor.as_str()),
                _ => false,
            };
            if primary {
                let w = n.plan.wallpaper.clone();
                n.stage = SetStage::UpdatingOmarchyLink;
                (n, SetAction::UpdateOmarchyLink(w))
            } else {
                let s = static_saved_state(&n, n.spawned);
                n.stage = SetStage::Saving;
                (n, SetAction::Save(s))
            }
        },
        SetStage::UpdatingOmarchyLink => {
            let s = static_saved_state(&n, n.spawned);
            n.stage = SetStage::Saving;
            (n, SetAction::Save(s))
        },
        SetStage::StartingLive => {
            let previous = previous_live_pids(&n);
            match event {
                SetEvent::LiveStarted(e) => {
                    n.entries = e;
                },
                _ => {},
            }
            n.stage = SetStage::StoppingPreviousLive;
            (n, SetAction::Terminate(previous))
        },
        SetStage::StoppingPreviousLive => {
            let mut copy: Vec<(String, Option<u32>)> = Vec::new();
            let mut i: usize = 0;
            while i < n.entries.len()
                invariant
                    0 <= i <= n.entries@.len(),
                    copy@.len() == i,
                    forall|k: int|
                        0 <= k < i ==> (#[trigger] copy@[k]).0@ == n.entries@[k].0@ && copy@[k].1
                            == n.entries@[k].1,
                decreases n.entries.len() - i,
            {
                copy.push((n.entries[i].0.clone(), n.entries[i].1));
                i += 1;
            }
            assert(entry_texts(copy@) =~= entry_texts(n.entries@));
            let s = saved_state(&n, copy);
            n.stage = SetStage::Saving;
            (n, SetAction::Save(s))
        },
        SetStage::Saving => {
            let lines = finish_lines_exec(&n);
            n.stage = SetStage::Finished;
            (n, SetAction::Finish(lines))
        },
        SetStage::Finished => {
            (n, SetAction::Finish(Vec::new()))
        },
    }
}

} // verus!

verus! {

/// An `mpvpaper` started for one monitor, with the IPC socket it answers on.
#[derive(Debug)]
pub struct StartedLive {
    pub monitor: String,
    pub pid: u32,
    pub ipc_socket: String,
}

/// What probing one started `mpvpaper` answered.
#[derive(Debug)]
pub enum Probe {
    /// The process is gone.
    Exited,
    /// It reports video output.
    Ready,
    /// It answers but shows no video yet.
    NotReady,
    /// Its socket did not answer; `before_deadline` when that happened before the deadline.
    Unanswered { before_deadline: bool },
}

/// Where waiting for the started processes stands after one round of probes.
#[derive(Debug)]
pub enum Readiness {
    Ready,
    Waiting,
    Failed(String),
}

/// The probe of an entry that is not ready yet ends the wait with an error.
pub open spec fn probe_fails(p: Probe) -> bool {
    p is Exited || p matches Probe::Unanswered { before_deadline: false }
}

/// The first entry, in order, whose probe ends the wait; `len` when there is none.
pub open spec fn first_failure(ready: Seq<bool>, probes: Seq<Probe>, n: int) -> int
    decreases n,
{
    if n <= 0 {
        0
    } else if first_failure(ready, probes, n - 1) < n - 1 {
        first_failure(ready, probes, n - 1)
    } else if !ready[n - 1] && probe_fails(probes[n - 1]) {
        n - 1
    } else {
        n
    }
}

/// The message for an entry whose probe ended the wait.
pub open spec fn failure_message(s: StartedLive, p: Probe) -> Seq<char> {
    if p is Exited {
        s.monitor@ + " on pid "@ + decimal(s.pid as nat) + " exited before reporting readiness"@
    } else {
        s.monitor@ + " on pid "@ + decimal(s.pid as nat) + " using "@ + s.ipc_socket@
    }
}

/// The monitors still waited for, in order.
pub open spec fn pending_monitors(started: Seq<StartedLive>, ready: Seq<bool>, n: int) -> Seq<Seq<char>>
    decreases n,
{
    if n <= 0 {
        seq![]
    } else {
        pending_monitors(started, ready, n - 1) + if ready[n - 1] {
            seq![]
        } else {
            seq![started[n - 1].monitor@]
        }
    }
}

fn failure_message_exec(s: &StartedLive, p: &Probe) -> (r: String)
    ensures
        r@ == failure_message(*s, *p),
{
    let a = cat3(s.monitor.as_str(), " on pid ", decimal_string(s.pid as u64).as_str());
    match p {
        Probe::Exited => cat(a.as_str(), " exited before reporting readiness"),
        _ => cat3(a.as_str(), " using ", s.ipc_socket.as_str()),
    }
}

/// One round of waiting for started `mpvpaper` processes to show video (`probes` answers for
/// each entry in order; those already `ready` are not looked at). The first entry, in order,
/// whose process exited, or whose socket stopped answering at the deadline, ends the wait with
/// its error. Otherwise each entry that reported video is ready from now on; when all are, the
/// wait is over; when some are not and the deadline has passed, it fails naming them.
pub fn readiness_step(started: &[StartedLive], ready: &mut Vec<bool>, probes: &[Probe], timed_out: bool) -> (r:
    Readiness)
    requires
        old(ready)@.len() == started@.len(),
        probes@.len() == started@.len(),
    ensures
        final(ready)@.len() == started@.len(),
        forall|k: int|
            0 <= k < started@.len() ==> #[trigger] final(ready)@[k] == (old(ready)@[k] || probes@[k] is Ready),
        ({
            let f = first_failure(old(ready)@, probes@, started@.len() as int);
            let all = forall|k: int| 0 <= k < started@.len() ==> #[trigger] final(ready)@[k];
            if f < started@.len() {
                r matches Readiness::Failed(m) && m@ == failure_message(started@[f], probes@[f])
            } else if all {
                r is Ready
            } else if timed_out {
                r matches Readiness::Failed(m) && m@ == "timed out waiting for mpv video output on "@
                    + join_seq(pending_monitors(started@, final(ready)@, started@.len() as int), ", "@)
            } else {
                r is Waiting
            }
        }),
{
    let ghost before = ready@;
    let n = started.len();
    let mut failed: usize = n;
    let mut i: usize = 0;
    while i < n
        invariant
            n == started@.len(),
            probes@.len() == n,
            ready@ == before,
            before.len() == n,
            0 <= i <= n,
            failed == if first_failure(before, probes@, i as int) < i {
                first_failure(before, probes@, i as int)
            } else {
                n as int
            },
            first_failure(before, probes@, i as int) <= i,
        decreases n - i,
    {
        if failed == n && !ready[i] {
            match &probes[i] {
                Probe::Exited => {
                    failed = i;
                },
                Probe::Unanswered { before_deadline } => {
                    if !*before_deadline {
                        failed = i;
                    }
                },
                _ => {},
            }
        }
        i += 1;
    }
    let mut k: usize = 0;
    while k < n
        invariant
            n == started@.len(),
            probes@.len() == n,
            ready@.len() == n,
            0 <= k <= n,
            forall|j: int| k <= j < n ==> ready@[j] == before[j],
            forall|j: int| 0 <= j < k ==> #[trigger] ready@[j] == (before[j] || probes@[j] is Ready),
        decreases n - k,
    {
        if matches!(probes[k], Probe::Ready) {
            ready.set(k, true);
        }
        k += 1;
    }
    if failed < n {
        return Readiness::Failed(failure_message_exec(&started[failed], &probes[failed]));
    }
    let mut pending = String::new();
    let mut all = true;
    let mut j: usize = 0;
    while j < n
        invariant
            n == started@.len(),
            ready@.len() == n,
            0 <= j <= n,
            pending@ == join_seq(pending_monitors(started@, ready@, j as int), ", "@),
            all == (pending_monitors(started@, ready@, j as int).len() == 0),
            all == forall|q: int| 0 <= q < j ==> #[trigger] ready@[q],
        decreases n - j,
    {
        let ghost l = pending_monitors(started@, ready@, j as int);
        assert(l.push(started@[j as int].monitor@).drop_last() == l);
        if !ready[j] {
            if all {
                pending = started[j].monitor.clone();
            } else {
                pending = cat3(pending.as_str(), ", ", started[j].monitor.as_str());
            }
            all = false;
        }
        proof {
            let m = started@[j as int].monitor@;
            let l2 = pending_monitors(started@, ready@, j + 1);
            if ready@[j as int] {
                assert(l2 == l + Seq::<Seq<char>>::empty());
                assert(l2 == l);
            } else {
                assert(l2 == l + seq![m]);
                assert(l2 == l.push(m));
                assert(l2.drop_last() == l);
            }
        }
        j += 1;
    }
    if all {
        Readiness::Ready
    } else if timed_out {
        Readiness::Failed(cat("timed out waiting for mpv video output on ", pending.as_str()))
    } else {
        Readiness::Waiting
    }
}

/// The `(monitor, pid)` of each started process.
pub fn live_entries(started: &[StartedLive]) -> (r: Vec<(String, Option<u32>)>)
    ensures
        r@.len() == started@.len(),
        forall|k: int|
            0 <= k < r@.len() ==> (#[trigger] r@[k]).0@ == started@[k].monitor@ && r@[k].1 == Some(
                started@[k].pid,
            ),
{
    let mut out: Vec<(String, Option<u32>)> = Vec::new();
    let mut i: usize = 0;
    while i < started.len()
        invariant
            0 <= i <= started@.len(),
            out@.len() == i,
            forall|k: int|
                0 <= k < i ==> (#[trigger] out@[k]).0@ == started@[k].monitor@ && out@[k].1 == Some(
                    started@[k].pid,
                ),
        decreases started.len() - i,
    {
        out.push((started[i].monitor.clone(), Some(started[i].pid)));
        i += 1;
    }
    out
}

/// The id of each started process.
pub fn live_pids(started: &[StartedLive]) -> (r: Vec<u32>)
    ensures
        r@.len() == started@.len(),
        forall|k: int| 0 <= k < r@.len() ==> #[trigger] r@[k] == started@[k].pid,
{
    let mut out: Vec<u32> = Vec::new();
    let mut i: usize = 0;
    while i < started.len()
        invariant
            0 <= i <= started@.len(),
            out@.len() == i,
            forall|k: int| 0 <= k < i ==> #[trigger] out@[k] == started@[k].pid,
        decreases started.len() - i,
    {
        out.push(started[i].pid);
        i += 1;
    }
    out
}

} // verus!
