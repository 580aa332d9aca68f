//! Restoring the saved wallpaper: per-monitor profiles first, else the saved plan.
use vstd::prelude::*;
use crate::backends::model::Backend;
use crate::cli::{
    BackendArg, BackendAvailability, apply_runtime_auto_backend, auto_backend_spec, backend_override,
    override_of, owned_live_pids, backend_pids,
};
use crate::config::{Config, BackendPreference, MonitorProfileConfig, StaticBackendPreference};
use crate::media::MediaKind;
use crate::orchestrator::{SetPlan, plan_result, opt_bytes, plan_set};
use crate::state::{State, MonitorState, entry_texts, entry_pid, entry_is, same_progress, monitor_plans_ok};
use crate::strmap::StrMap;
use crate::text::{texts, cat, cat3, owned};
use crate::flow::{SetAction, SetEvent, started_line, started_lines};

verus! {

/// The `--backend` argument a profile's backend stands for.
pub open spec fn preference_arg_spec(p: BackendPreference) -> BackendArg {
    match p {
        BackendPreference::Auto => BackendArg::Auto,
        BackendPreference::Hyprpaper => BackendArg::Hyprpaper,
        BackendPreference::Mpvpaper => BackendArg::Mpvpaper,
        BackendPreference::Awww => BackendArg::Awww,
        BackendPreference::Swaybg => BackendArg::Swaybg,
    }
}

pub fn preference_arg(p: BackendPreference) -> (r: BackendArg)
    ensures
        r == preference_arg_spec(p),
{
    match p {
        BackendPreference::Auto => BackendArg::Auto,
        BackendPreference::Hyprpaper => BackendArg::Hyprpaper,
        BackendPreference::Mpvpaper => BackendArg::Mpvpaper,
        BackendPreference::Awww => BackendArg::Awww,
        BackendPreference::Swaybg => BackendArg::Swaybg,
    }
}

/// A monitor whose profile names a wallpaper.
#[derive(Debug)]
pub struct ProfileTarget {
    pub monitor: String,
    pub wallpaper: String,
    pub backend: BackendPreference,
}

/// The wallpaper and backend a monitor's profile names, when it names a wallpaper.
pub open spec fn profile_entry(profiles: StrMap<MonitorProfileConfig>, m: Seq<char>) -> Option<
    (Seq<char>, BackendPreference),
> {
    match profiles.lookup(m) {
        Some(p) => match p.wallpaper {
            Some(w) => Some((w@, p.backend)),
            None => None,
        },
        None => None,
    }
}

/// For each active monitor in order, its profile's wallpaper and backend, when its profile
/// names a wallpaper.
pub open spec fn profile_targets_spec(profiles: StrMap<MonitorProfileConfig>, names: Seq<Seq<char>>) -> Seq<
    (Seq<char>, Seq<char>, BackendPreference),
>
    decreases names.len(),
{
    if names.len() == 0 {
        seq![]
    } else {
        profile_targets_spec(profiles, names.drop_last()) + match profile_entry(profiles, names.last()) {
            Some(e) => seq![(names.last(), e.0, e.1)],
            None => seq![],
        }
    }
}

pub open spec fn target_view(t: ProfileTarget) -> (Seq<char>, Seq<char>, BackendPreference) {
    (t.monitor@, t.wallpaper@, t.backend)
}

/// The monitors a restore sets from their profiles, in the order of the active monitors.
pub fn profile_targets(config: &Config, active_monitors: &[String]) -> (r: Vec<ProfileTarget>)
    requires
        config.monitors.profiles.wf(),
    ensures
        r@.map_values(|t: ProfileTarget| target_view(t)) == profile_targets_spec(
            config.monitors.profiles,
            texts(active_monitors@),
        ),
{
    let mut out: Vec<ProfileTarget> = Vec::new();
    let mut i: usize = 0;
    while i < active_monitors.len()
        invariant
            config.monitors.profiles.wf(),
            0 <= i <= active_monitors@.len(),
            out@.map_values(|t: ProfileTarget| target_view(t)) == profile_targets_spec(
                config.monitors.profiles,
                texts(active_monitors@).take(i as int),
            ),
        decreases active_monitors.len() - i,
    {
        let ghost names = texts(active_monitors@).take(i + 1);
        assert(names.drop_last() == texts(active_monitors@).take(i as int));
        assert(names.last() == active_monitors@[i as int]@);
        let ghost before = out@.map_values(|t: ProfileTarget| target_view(t));
        match config.monitors.profiles.get(active_monitors[i].as_str()) {
            Some(p) => match &p.wallpaper {
                Some(w) => {
                    let t = ProfileTarget {
                        monitor: active_monitors[i].clone(),
                        wallpaper: w.clone(),
                        backend: p.backend,
                    };
                    out.push(t);
                    assert(out@.map_values(|t: ProfileTarget| target_view(t)) =~= before.push(
                        (names.last(), w@, p.backend),
                    ));
                },
                None => {
                    assert(before + Seq::<(Seq<char>, Seq<char>, BackendPreference)>::empty() =~= before);
                },
            },
            None => {
                assert(before + Seq::<(Seq<char>, Seq<char>, BackendPreference)>::empty() =~= before);
            },
        }
        i += 1;
    }
    assert(texts(active_monitors@).take(active_monitors@.len() as int) == texts(active_monitors@));
    out
}

/// `profile wallpaper for <monitor> does not exist: <wallpaper>`.
pub open spec fn missing_profile_message(t: ProfileTarget) -> Seq<char> {
    "profile wallpaper for "@ + t.monitor@ + " does not exist: "@ + t.wallpaper@
}

/// The plan for one profile: an error when its wallpaper does not exist, else the plan of the
/// resolved wallpaper (classified from `contents` when they were read) on the profile's monitor
/// with the profile's backend.
pub fn profile_plan(
    config: &Config,
    target: &ProfileTarget,
    exists: bool,
    resolved: &str,
    contents: Option<&[u8]>,
) -> (r: Result<SetPlan, String>)
    ensures
        !exists ==> (r matches Err(m) && m@ == missing_profile_message(*target)),
        exists ==> plan_result(
            r,
            *config,
            resolved@,
            opt_bytes(contents),
            Some(target.monitor@),
            override_of(preference_arg_spec(target.backend)),
        ),
{
    if !exists {
        let a = cat3("profile wallpaper for ", target.monitor.as_str(), " does not exist: ");
        return Err(cat(a.as_str(), target.wallpaper.as_str()));
    }
    let arg = preference_arg(target.backend);
    plan_set(config, resolved, contents, Some(target.monitor.clone()), backend_override(arg))
}

/// How a restore proceeds.
#[derive(Debug)]
pub enum RestorePlan {
    /// Set each profile plan in turn.
    Profiles(Vec<SetPlan>),
    /// Set each recorded monitor's own wallpaper again, one plan at a time.
    Sets(Vec<SetPlan>),
    /// Start each recorded monitor's live wallpaper again, then stop the processes that ran
    /// them before.
    Live { plans: Vec<SetPlan>, previous: Vec<u32> },
}

/// Every recorded monitor runs `mpvpaper` (with none recorded, the saved backend is `mpvpaper`).
pub open spec fn all_live(s: State) -> bool {
    if s.monitors.key_seq().len() == 0 {
        s.active_backend == Backend::Mpvpaper
    } else {
        forall|i: int| 0 <= i < s.monitors.key_seq().len() ==> (#[trigger] s.monitors.val_seq()[i]).backend == Backend::Mpvpaper
    }
}

pub fn records_only_live(state: &State) -> (r: bool)
    requires
        state.monitors.wf(),
    ensures
        r == all_live(*state),
{
    if state.monitors.is_empty() {
        return state.active_backend == Backend::Mpvpaper;
    }
    let mut i: usize = 0;
    while i < state.monitors.len()
        invariant
            state.monitors.wf(),
            state.monitors.key_seq().len() > 0,
            0 <= i <= state.monitors.key_seq().len(),
            forall|j: int| 0 <= j < i ==> (#[trigger] state.monitors.val_seq()[j]).backend == Backend::Mpvpaper,
        decreases state.monitors.key_seq().len() - i,
    {
        if state.monitors.value_at(i).backend != Backend::Mpvpaper {
            return false;
        }
        i += 1;
    }
    true
}

/// The restore of a saved state: the profile plans when there are any (each taking the run-time
/// static backend choice); else, when every recorded monitor runs a live wallpaper, those live
/// wallpapers started again together; else each recorded monitor's own wallpaper set again
/// with its own backend.
pub fn restore_plan(
    state: &State,
    profile_plans: Vec<SetPlan>,
    config: &Config,
    available: &BackendAvailability,
) -> (r: RestorePlan)
    requires
        state.monitors.wf(),
    ensures
        profile_plans@.len() > 0 ==> (r matches RestorePlan::Profiles(ps) && ps@.len() == profile_plans@.len()
            && forall|i: int|
            0 <= i < ps@.len() ==> {
                let p = #[trigger] ps@[i];
                let q = profile_plans@[i];
                &&& p.wallpaper == q.wallpaper
                &&& p.media_kind == q.media_kind
                &&& p.monitor == q.monitor
                &&& p.backend == if config.general.static_backend == StaticBackendPreference::Auto
                    && q.media_kind == MediaKind::Static {
                    auto_backend_spec(
                        config.awww.enabled,
                        available.hyprpaper,
                        available.awww,
                        available.swaybg,
                    )
                } else {
                    q.backend
                }
            }),
        profile_plans@.len() == 0 && !all_live(*state) ==> (r matches RestorePlan::Sets(ps) && monitor_plans_ok(
            *state,
            ps@,
        )),
        profile_plans@.len() == 0 && all_live(*state) ==> (r matches RestorePlan::Live { plans, previous }
            && previous@ == backend_pids(state.monitors, Backend::Mpvpaper) && monitor_plans_ok(*state, plans@)),
{
    if profile_plans.len() > 0 {
        let mut out: Vec<SetPlan> = Vec::new();
        let mut i: usize = 0;
        while i < profile_plans.len()
            invariant
                0 <= i <= profile_plans@.len(),
                out@.len() == i,
                forall|k: int|
                    0 <= k < i ==> {
                        let p = #[trigger] out@[k];
                        let q = profile_plans@[k];
                        &&& p.wallpaper == q.wallpaper
                        &&& p.media_kind == q.media_kind
                        &&& p.monitor == q.monitor
                        &&& p.backend == if config.general.static_backend
                            == StaticBackendPreference::Auto && q.media_kind == MediaKind::Static {
                            auto_backend_spec(
                                config.awww.enabled,
                                available.hyprpaper,
                                available.awww,
                                available.swaybg,
                            )
                        } else {
                            q.backend
                        }
                    },
            decreases profile_plans.len() - i,
        {
            let mut p = profile_plans[i].clone();
            apply_runtime_auto_backend(&mut p, config, BackendArg::Auto, available);
            out.push(p);
            i += 1;
        }
        return RestorePlan::Profiles(out);
    }
    if !records_only_live(state) {
        return RestorePlan::Sets(state.monitor_plans());
    }
    RestorePlan::Live { plans: state.monitor_plans(), previous: owned_live_pids(state) }
}

/// The wallpaper a restored monitor is recorded with: the one it showed before, or the saved
/// wallpaper for a monitor that had none.
pub open spec fn restored_wallpaper(state: State, k: Seq<char>) -> Seq<char> {
    match state.monitors.lookup(k) {
        Some(m) => m.wallpaper@,
        None => state.wallpaper@,
    }
}

/// `s` is the state a live restore of `state` leaves after starting `entries`: each restored
/// process recorded on its monitor with the wallpaper that monitor showed, the saved collections
/// kept, `restore` recorded as the last command.
pub open spec fn restored_live_ok(state: State, s: State, entries: Seq<(Seq<char>, Option<u32>)>) -> bool {
    &&& s.version == 1
    &&& s.active_backend == Backend::Mpvpaper
    &&& s.mode == state.mode
    &&& s.wallpaper@ == state.wallpaper@
    &&& s.monitors.wf()
    &&& forall|k: Seq<char>|
        #![trigger s.monitors.has(k)]
        (s.monitors.has(k) <==> entry_pid(entries, k) is Some) && (s.monitors.has(k) ==> entry_is(
            s.monitors.lookup(k).unwrap(),
            Backend::Mpvpaper,
            restored_wallpaper(state, k),
            entry_pid(entries, k).unwrap(),
        ))
    &&& s.collections.wf()
    &&& s.collections.key_seq() == state.collections.key_seq()
    &&& s.collections.val_seq().len() == state.collections.val_seq().len()
    &&& forall|i: int|
        0 <= i < s.collections.val_seq().len() ==> same_progress(
            #[trigger] s.collections.val_seq()[i],
            state.collections.val_seq()[i],
        )
    &&& s.last_command matches Some(c) && c@ == "restore"@
}

pub fn restored_live_state(state: &State, entries: Vec<(String, Option<u32>)>) -> (s: State)
    requires
        state.monitors.wf(),
        state.collections.wf(),
    ensures
        restored_live_ok(*state, s, entry_texts(entries@)),
{
    let ghost es = entry_texts(entries@);
    let restored = State::from_restored_entries(Backend::Mpvpaper, state.mode, state.wallpaper.clone(), entries);
    let mut s = restored.with_last_command(owned("restore"));
    s.collections = state.collections.clone();
    let ghost start = s.monitors;
    let ghost s0 = s;
    let mut i: usize = 0;
    while i < s.monitors.len()
        invariant
            s.version == s0.version && s.active_backend == s0.active_backend && s.mode == s0.mode
                && s.wallpaper == s0.wallpaper && s.collections == s0.collections && s.last_command
                == s0.last_command,
            s0.version == 1 && s0.active_backend == Backend::Mpvpaper && s0.mode == state.mode
                && s0.wallpaper@ == state.wallpaper@,
            s0.collections.wf(),
            s0.collections.key_seq() == state.collections.key_seq(),
            s0.collections.val_seq().len() == state.collections.val_seq().len(),
            forall|j: int|
                0 <= j < s0.collections.val_seq().len() ==> same_progress(
                    #[trigger] s0.collections.val_seq()[j],
                    state.collections.val_seq()[j],
                ),
            s0.last_command matches Some(c) && c@ == "restore"@,
            forall|k: Seq<char>|
                #![trigger start.has(k)]
                (start.has(k) <==> entry_pid(es, k) is Some) && (start.has(k) ==> entry_is(
                    start.lookup(k).unwrap(),
                    Backend::Mpvpaper,
                    state.wallpaper@,
                    entry_pid(es, k).unwrap(),
                )),
            start.wf(),
            s.monitors.wf(),
            state.monitors.wf(),
            s.monitors.key_seq() == start.key_seq(),
            0 <= i <= start.key_seq().len(),
            forall|q: Seq<char>|
                #![trigger s.monitors.lookup(q)]
                s.monitors.has(q) == start.has(q) && (start.has(q) ==> {
                    let v = s.monitors.lookup(q).unwrap();
                    let o = start.lookup(q).unwrap();
                    &&& s.monitors.lookup(q) is Some
                    &&& v.backend == o.backend
                    &&& v.pid == o.pid
                    &&& v.wallpaper@ == if start.key_seq().take(i as int).contains(q) {
                        restored_wallpaper(*state, q)
                    } else {
                        o.wallpaper@
                    }
                }),
        decreases start.key_seq().len() - i,
    {
        let k = s.monitors.key_at(i).clone();
        let cur = s.monitors.value_at(i);
        let w = match state.monitors.get(k.as_str()) {
            Some(m) => m.wallpaper.clone(),
            None => state.wallpaper.clone(),
        };
        let nv = MonitorState { backend: cur.backend, wallpaper: w, pid: cur.pid };
        proof {
            s.monitors.lemma_lookup_at(i as int);
            start.lemma_lookup_at(i as int);
        }
        let ghost before = s.monitors;
        s.monitors.set_value_at(i, nv);
        proof {
            let kq = start.key_seq()[i as int];
            assert(start.key_seq().take(i + 1) == start.key_seq().take(i as int).push(kq));
            assert forall|q: Seq<char>| #![trigger s.monitors.lookup(q)]
                s.monitors.has(q) == start.has(q) && (start.has(q) ==> {
                    let v = s.monitors.lookup(q).unwrap();
                    let o = start.lookup(q).unwrap();
                    &&& s.monitors.lookup(q) is Some
                    &&& v.backend == o.backend
                    &&& v.pid == o.pid
                    &&& v.wallpaper@ == if start.key_seq().take(i + 1).contains(q) {
                        restored_wallpaper(*state, q)
                    } else {
                        o.wallpaper@
                    }
                }) by {
                assert(before.lookup(q) == before.lookup(q));
                if q == kq {
                    assert(start.key_seq().take(i + 1).contains(q)) by {
                        assert(start.key_seq().take(i + 1)[i as int] == q);
                    }
                } else {
                    assert(start.key_seq().take(i + 1).contains(q) == start.key_seq().take(i as int).contains(q)) by {
                        if start.key_seq().take(i + 1).contains(q) {
                            let j = choose|j: int| 0 <= j < i + 1 && #[trigger] start.key_seq().take(i + 1)[j] == q;
                            assert(j != i);
                            assert(start.key_seq().take(i as int)[j] == q);
                        }
                        if start.key_seq().take(i as int).contains(q) {
                            let j = choose|j: int| 0 <= j < i && #[trigger] start.key_seq().take(i as int)[j] == q;
                            assert(start.key_seq().take(i + 1)[j] == q);
                        }
                    }
                }
            }
        }
        i += 1;
    }
    proof {
        assert(start.key_seq().take(start.key_seq().len() as int) == start.key_seq());
        assert forall|k: Seq<char>| #![trigger s.monitors.has(k)]
            (s.monitors.has(k) <==> entry_pid(es, k) is Some) && (s.monitors.has(k) ==> entry_is(
                s.monitors.lookup(k).unwrap(),
                Backend::Mpvpaper,
                restored_wallpaper(*state, k),
                entry_pid(es, k).unwrap(),
            )) by {
            assert(s.monitors.lookup(k) == s.monitors.lookup(k));
            assert(start.has(k) == start.has(k));
            if start.has(k) {
                let j = start.pos(k);
                start.lemma_lookup_at(j);
                assert(start.key_seq()[j] == k);
                assert(start.key_seq().contains(k));
            }
        }
    }
    s
}

/// Where a live restore stands: the outside step it waits for.
#[derive(Debug, Clone, Copy, PartialEq, Eq, Structural)]
pub enum RestoreStage {
    Start,
    StartingLive,
    StoppingPrevious,
    Saving,
    Finished,
}

/// A live restore: the saved state, the plans that start its wallpapers again, the processes
/// that ran them before, the `(monitor, pid)` of each new process, and where it stands.
#[derive(Debug)]
pub struct RestoreFlow {
    pub state: State,
    pub plans: Vec<SetPlan>,
    pub previous: Vec<u32>,
    pub entries: Vec<(String, Option<u32>)>,
    pub stage: RestoreStage,
}

/// The event each stage of a live restore waits for.
pub open spec fn restore_accepts(stage: RestoreStage, event: SetEvent) -> bool {
    match stage {
        RestoreStage::Start => event is Begin,
        RestoreStage::StartingLive => event is LiveStarted,
        RestoreStage::Finished => false,
        _ => event is Done,
    }
}

/// What a live restore prints when it is over: one `started` line per new process, worded
/// after the first plan.
pub open spec fn restore_finish_ok(f: RestoreFlow, lines: Seq<Seq<char>>) -> bool {
    if f.plans@.len() > 0 {
        lines == entry_texts(f.entries@).map_values(
            |e: (Seq<char>, Option<u32>)| started_line(f.plans@[0], e.0, e.1),
        )
    } else {
        lines.len() == 0
    }
}

/// The step of a live restore from `f` on `event` to `n`, handing out `a`: start the new
/// processes (the runner waits until each shows video, and on failure ends only those and
/// stops with the error); once they run, end the old ones; then save; then print.
pub open spec fn restore_step_ok(f: RestoreFlow, event: SetEvent, n: RestoreFlow, a: SetAction) -> bool {
    &&& n.state == f.state
    &&& n.plans == f.plans
    &&& n.previous == f.previous
    &&& f.stage != RestoreStage::StartingLive ==> n.entries == f.entries
    &&& match f.stage {
        RestoreStage::Start => n.stage == RestoreStage::StartingLive && (a matches SetAction::StartLive(p)
            && p@ == f.plans@),
        RestoreStage::StartingLive => event matches SetEvent::LiveStarted(e) && n.entries@ == e@ && n.stage
            == RestoreStage::StoppingPrevious && (a matches SetAction::Terminate(p) && p@ == f.previous@),
        RestoreStage::StoppingPrevious => n.stage == RestoreStage::Saving && (a matches SetAction::Save(s)
            && restored_live_ok(f.state, s, entry_texts(f.entries@))),
        RestoreStage::Saving => n.stage == RestoreStage::Finished && (a matches SetAction::Finish(lines)
            && restore_finish_ok(f, texts(lines@))),
        RestoreStage::Finished => false,
    }
}

impl RestoreFlow {
    /// A live restore of `state` with these plans, ending `previous` once they run.
    pub fn new(state: State, plans: Vec<SetPlan>, previous: Vec<u32>) -> (f: RestoreFlow)
        ensures
            f.state == state,
            f.plans == plans,
            f.previous == previous,
            f.entries@.len() == 0,
            f.stage == RestoreStage::Start,
    {
        RestoreFlow { state, plans, previous, entries: Vec::new(), stage: RestoreStage::Start }
    }
}

fn copy_entries(entries: &Vec<(String, Option<u32>)>) -> (r: Vec<(String, Option<u32>)>)
    ensures
        entry_texts(r@) == entry_texts(entries@),
{
    let mut copy: Vec<(String, Option<u32>)> = Vec::new();
    let mut i: usize = 0;
    while i < entries.len()
        invariant
            0 <= i <= entries@.len(),
            copy@.len() == i,
            forall|k: int|
                0 <= k < i ==> (#[trigger] copy@[k]).0@ == entries@[k].0@ && copy@[k].1 == entries@[k].1,
        decreases entries.len() - i,
    {
        copy.push((entries[i].0.clone(), entries[i].1));
        i += 1;
    }
    assert(entry_texts(copy@) =~= entry_texts(entries@));
    copy
}

/// The step of a live restore on `event`: its next stage and the action to perform.
pub fn restore_step(f: RestoreFlow, event: SetEvent) -> (r: (RestoreFlow, SetAction))
    requires
        f.state.monitors.wf(),
        f.state.collections.wf(),
        restore_accepts(f.stage, event),
    ensures
        r.0.state.monitors.wf(),
        r.0.state.collections.wf(),
        restore_step_ok(f, event, r.0, r.1),
{
    let mut n = f;
    match n.stage {
        RestoreStage::Start => {
            let mut plans: Vec<SetPlan> = Vec::new();
            let mut i: usize = 0;
            while i < n.plans.len()
                invariant
                    0 <= i <= n.plans@.len(),
                    plans@ == n.plans@.take(i as int),
                decreases n.plans.len() - i,
            {
                plans.push(n.plans[i].clone());
                assert(n.plans@.take(i + 1) == n.plans@.take(i as int).push(n.plans@[i as int]));
                i += 1;
            }
            assert(n.plans@.take(n.plans@.len() as int) == n.plans@);
            n.stage = RestoreStage::StartingLive;
            (n, SetAction::StartLive(plans))
        },
        RestoreStage::StartingLive => {
            match event {
                SetEvent::LiveStarted(e) => {
                    n.entries = e;
                },
                _ => {},
            }
            let previous = n.previous.clone();
            n.stage = RestoreStage::StoppingPrevious;
            (n, SetAction::Terminate(previous))
        },
        RestoreStage::StoppingPrevious => {
            let entries = copy_entries(&n.entries);
            let s = restored_live_state(&n.state, entries);
            n.stage = RestoreStage::Saving;
            (n, SetAction::Save(s))
        },
        RestoreStage::Saving => {
            let lines = if n.plans.len() > 0 {
                started_lines(&n.plans[0], n.entries.as_slice())
            } else {
                Vec::new()
            };
            n.stage = RestoreStage::Finished;
            (n, SetAction::Finish(lines))
        },
        RestoreStage::Finished => (n, SetAction::Finish(Vec::new())),
    }
}

/// A live restore ends the old processes only after the new ones have started and shown
/// video: the one step that hands out `Terminate` is the answer to `StartLive`.
pub proof fn lemma_restore_ends_old_after_start(f: RestoreFlow, event: SetEvent, n: RestoreFlow, a: SetAction)
    requires
        restore_step_ok(f, event, n, a),
        a is Terminate,
    ensures
        f.stage == RestoreStage::StartingLive,
        event is LiveStarted,
{
}

} // verus!
