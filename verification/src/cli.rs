//! The decisions of the `jobowalls` command line: backend choice at run time, which
//! processes a change stops, the commands it runs and the state it records.
//!
//! The application parses arguments, runs commands, signals processes and reads
//! and writes files; it asks the functions here what to do and with what.
use vstd::prelude::*;
use crate::backends::model::{Backend, BackendOverride, backend_name, supports_spec};
use crate::config::{Config, StaticBackendPreference, LivePauseConfig};
use crate::json::{JsonValue, get_spec, parse_json, parsed_json};
use crate::media::MediaKind;
use crate::orchestrator::{SetPlan, target_names};
use crate::path::{join, path_join};
use crate::state::{State, MonitorState, CollectionState, names_contain, contains_name, entry_texts};
use crate::text::texts;
use crate::strmap::StrMap;
use crate::collection::{
    opt_progress, opt_text, relative_pick, shuffle_pick, select_next_persistent,
    select_previous_persistent, select_shuffle_persistent,
};
use crate::text::{
    owned, cat, cat3, str_eq, is_suffix, ends_with, words, words_of, trim, trim_str, lower_seq,
    ascii_lowercase, split_once_char, first_index, is_ws, is_whitespace, parse_u32, parse_u32_spec,
    contains, contains_seq, chars_of, push_char, is_alnum, is_ascii_alnum, decimal, decimal_string,
    lines, join_seq, join_strings, decimal_string_wide,
};

verus! {

// ---------------------------------------------------------------------------
// Backend choice
// ---------------------------------------------------------------------------

#[derive(Debug, Clone, Copy, PartialEq, Eq, Structural)]
pub enum BackendArg {
    Auto,
    Hyprpaper,
    Mpvpaper,
    Awww,
    Swaybg,
}

pub open spec fn override_of(arg: BackendArg) -> BackendOverride {
    match arg {
        BackendArg::Auto => BackendOverride::Auto,
        BackendArg::Hyprpaper => BackendOverride::Backend(Backend::Hyprpaper),
        BackendArg::Mpvpaper => BackendOverride::Backend(Backend::Mpvpaper),
        BackendArg::Awww => BackendOverride::Backend(Backend::Awww),
        BackendArg::Swaybg => BackendOverride::Backend(Backend::Swaybg),
    }
}

/// The override a `--backend` argument asks for.
pub fn backend_override(arg: BackendArg) -> (r: BackendOverride)
    ensures
        r == override_of(arg),
{
    match arg {
        BackendArg::Auto => BackendOverride::Auto,
        BackendArg::Hyprpaper => BackendOverride::Backend(Backend::Hyprpaper),
        BackendArg::Mpvpaper => BackendOverride::Backend(Backend::Mpvpaper),
        BackendArg::Awww => BackendOverride::Backend(Backend::Awww),
        BackendArg::Swaybg => BackendOverride::Backend(Backend::Swaybg),
    }
}

/// Which static backends are installed (each answered `--help`).
#[derive(Debug, Clone, Copy, PartialEq, Eq, Structural)]
pub struct BackendAvailability {
    pub hyprpaper: bool,
    pub awww: bool,
    pub swaybg: bool,
}

/// The static backend chosen at run time: `awww` when enabled and installed, else `swaybg`,
/// else `hyprpaper`, else `awww`, else `swaybg`.
pub open spec fn auto_backend_spec(awww_enabled: bool, hyprpaper: bool, awww: bool, swaybg: bool) -> Backend {
    if awww_enabled && awww {
        Backend::Awww
    } else if swaybg {
        Backend::Swaybg
    } else if hyprpaper {
        Backend::Hyprpaper
    } else if awww {
        Backend::Awww
    } else {
        Backend::Swaybg
    }
}

pub fn select_static_auto_backend_with_availability(
    config: &Config,
    hyprpaper_available: bool,
    awww_available: bool,
    swaybg_available: bool,
) -> (b: Backend)
    ensures
        b == auto_backend_spec(config.awww.enabled, hyprpaper_available, awww_available, swaybg_available),
{
    if config.awww.enabled && awww_available {
        return Backend::Awww;
    }
    if swaybg_available {
        return Backend::Swaybg;
    }
    if hyprpaper_available {
        return Backend::Hyprpaper;
    }
    if awww_available {
        return Backend::Awww;
    }
    Backend::Swaybg
}

/// The run-time static backend, given which backends are installed.
pub fn select_static_auto_backend(config: &Config, available: &BackendAvailability) -> (b: Backend)
    ensures
        b == auto_backend_spec(config.awww.enabled, available.hyprpaper, available.awww, available.swaybg),
{
    select_static_auto_backend_with_availability(config, available.hyprpaper, available.awww, available.swaybg)
}

/// The static backend `doctor` reports: the configured one, or the run-time choice for `auto`.
pub fn detected_static_auto_backend(config: &Config, available: &BackendAvailability) -> (b: Backend)
    ensures
        b == match config.general.static_backend {
            StaticBackendPreference::Auto => auto_backend_spec(
                config.awww.enabled,
                available.hyprpaper,
                available.awww,
                available.swaybg,
            ),
            StaticBackendPreference::Hyprpaper => Backend::Hyprpaper,
            StaticBackendPreference::Awww => Backend::Awww,
            StaticBackendPreference::Swaybg => Backend::Swaybg,
        },
{
    match config.general.static_backend {
        StaticBackendPreference::Auto => select_static_auto_backend(config, available),
        StaticBackendPreference::Hyprpaper => Backend::Hyprpaper,
        StaticBackendPreference::Awww => Backend::Awww,
        StaticBackendPreference::Swaybg => Backend::Swaybg,
    }
}

/// With `--backend auto` and `static_backend = "auto"`, a static plan takes the run-time
/// choice; every other plan is left as it is.
pub fn apply_runtime_auto_backend(
    plan: &mut SetPlan,
    config: &Config,
    backend_arg: BackendArg,
    available: &BackendAvailability,
)
    ensures
        final(plan).wallpaper == old(plan).wallpaper,
        final(plan).media_kind == old(plan).media_kind,
        final(plan).monitor == old(plan).monitor,
        final(plan).backend == if backend_arg == BackendArg::Auto && config.general.static_backend
            == StaticBackendPreference::Auto && old(plan).media_kind == MediaKind::Static {
            auto_backend_spec(config.awww.enabled, available.hyprpaper, available.awww, available.swaybg)
        } else {
            old(plan).backend
        },
{
    if backend_arg != BackendArg::Auto {
        return;
    }
    if config.general.static_backend != StaticBackendPreference::Auto {
        return;
    }
    if plan.media_kind == MediaKind::Static {
        plan.backend = select_static_auto_backend(config, available);
    }
}

/// The run-time choice of static backend keeps a plan showable: a plan whose backend shows its
/// wallpaper still has one after `apply_runtime_auto_backend`.
pub proof fn lemma_runtime_choice_keeps_plan_showable(
    before: SetPlan,
    after: SetPlan,
    config: Config,
    backend_arg: BackendArg,
    available: BackendAvailability,
)
    requires
        supports_spec(before.backend, before.media_kind),
        after.media_kind == before.media_kind,
        after.backend == if backend_arg == BackendArg::Auto && config.general.static_backend
            == StaticBackendPreference::Auto && before.media_kind == MediaKind::Static {
            auto_backend_spec(config.awww.enabled, available.hyprpaper, available.awww, available.swaybg)
        } else {
            before.backend
        },
    ensures
        supports_spec(after.backend, after.media_kind),
{
}

// ---------------------------------------------------------------------------
// Recorded commands
// ---------------------------------------------------------------------------

/// `set <wallpaper> --monitor <monitor> --backend <backend>`.
pub open spec fn set_command_text(plan: SetPlan) -> Seq<char> {
    "set "@ + plan.wallpaper@ + " --monitor "@ + plan.monitor@ + " --backend "@ + backend_name(
        plan.backend,
    )
}

pub fn last_set_command(plan: &SetPlan) -> (s: String)
    ensures
        s@ == set_command_text(*plan),
{
    let a = cat3("set ", plan.wallpaper.as_str(), " --monitor ");
    let b = cat3(a.as_str(), plan.monitor.as_str(), " --backend ");
    let name = plan.backend.to_string();
    cat(b.as_str(), name.as_str())
}

#[derive(Debug, Clone, Copy, PartialEq, Eq, Structural)]
pub enum CollectionStep {
    Next,
    Previous,
    Shuffle,
}

pub open spec fn step_word(step: CollectionStep) -> Seq<char> {
    match step {
        CollectionStep::Next => "next"@,
        CollectionStep::Previous => "previous"@,
        CollectionStep::Shuffle => "shuffle"@,
    }
}

/// The position a collection step picks.
pub open spec fn step_pick(
    step: CollectionStep,
    c: Seq<Seq<char>>,
    st: Option<CollectionState>,
    fallback: Option<Seq<char>>,
    seed: u64,
) -> int {
    match step {
        CollectionStep::Next => relative_pick(c, st, fallback, 1),
        CollectionStep::Previous => relative_pick(c, st, fallback, -1),
        CollectionStep::Shuffle => shuffle_pick(c, st, fallback, seed),
    }
}

/// The wallpaper a collection step picks, with its position, from the recorded progress (the
/// current wallpaper when nothing is recorded); `seed` drives a shuffle.
pub fn select_for_step(
    step: CollectionStep,
    wallpapers: &[String],
    progress: Option<&CollectionState>,
    current: Option<&str>,
    seed: u64,
) -> (r: (usize, String))
    requires
        wallpapers@.len() > 0,
    ensures
        r.0 < wallpapers@.len(),
        r.1@ == wallpapers@[r.0 as int]@,
        r.0 as int == step_pick(step, texts(wallpapers@), opt_progress(progress), opt_text(current), seed),
{
    match step {
        CollectionStep::Next => select_next_persistent(wallpapers, progress, current),
        CollectionStep::Previous => select_previous_persistent(wallpapers, progress, current),
        CollectionStep::Shuffle => select_shuffle_persistent(wallpapers, progress, current, seed),
    }
}

/// `<next|previous|shuffle> <collection> --monitor <monitor> --backend <backend>`.
pub fn last_collection_command(step: CollectionStep, collection: &str, plan: &SetPlan) -> (s: String)
    ensures
        s@ == step_word(step) + " "@ + collection@ + " --monitor "@ + plan.monitor@ + " --backend "@
            + backend_name(plan.backend),
{
    let word = match step {
        CollectionStep::Next => owned("next"),
        CollectionStep::Previous => owned("previous"),
        CollectionStep::Shuffle => owned("shuffle"),
    };
    let a = cat3(word.as_str(), " ", collection);
    let b = cat3(a.as_str(), " --monitor ", plan.monitor.as_str());
    let c = cat(b.as_str(), " --backend ");
    let name = plan.backend.to_string();
    cat(c.as_str(), name.as_str())
}

// ---------------------------------------------------------------------------
// Owned processes
// ---------------------------------------------------------------------------

/// The processes recorded for monitors on `backend`, in monitor order, among the first `n`.
pub open spec fn backend_pids_upto(m: StrMap<MonitorState>, backend: Backend, n: int) -> Seq<u32>
    decreases n,
{
    if n <= 0 {
        seq![]
    } else {
        backend_pids_upto(m, backend, n - 1) + {
            let s = m.val_seq()[n - 1];
            if s.backend == backend && s.pid is Some {
                seq![s.pid.unwrap()]
            } else {
                seq![]
            }
        }
    }
}

/// The processes recorded for all monitors on `backend`, in monitor order.
pub open spec fn backend_pids(m: StrMap<MonitorState>, backend: Backend) -> Seq<u32> {
    backend_pids_upto(m, backend, m.key_seq().len() as int)
}

/// The processes recorded for the named monitors on `backend`, in the order named.
pub open spec fn named_backend_pids(m: StrMap<MonitorState>, backend: Backend, names: Seq<Seq<char>>) -> Seq<
    u32,
>
    decreases names.len(),
{
    if names.len() == 0 {
        seq![]
    } else {
        named_backend_pids(m, backend, names.drop_last()) + match m.lookup(names.last()) {
            Some(s) => if s.backend == backend && s.pid is Some {
                seq![s.pid.unwrap()]
            } else {
                seq![]
            },
            None => seq![],
        }
    }
}

/// The processes of the named monitors on `backend`; of every such monitor when `all` is named.
pub open spec fn targeted_pids(m: StrMap<MonitorState>, backend: Backend, names: Seq<Seq<char>>) -> Seq<u32> {
    if names_contain(names, "all"@) {
        backend_pids(m, backend)
    } else {
        named_backend_pids(m, backend, names)
    }
}

/// A monitor record on `backend` holds process `x`.
pub open spec fn owns_pid(m: StrMap<MonitorState>, backend: Backend, x: u32) -> bool {
    exists|i: int|
        0 <= i < m.val_seq().len() && (#[trigger] m.val_seq()[i]).backend == backend && m.val_seq()[i].pid
            == Some(x)
}

proof fn lemma_upto_owned(m: StrMap<MonitorState>, backend: Backend, n: int, x: u32)
    requires
        0 <= n <= m.val_seq().len(),
        backend_pids_upto(m, backend, n).contains(x),
    ensures
        owns_pid(m, backend, x),
    decreases n,
{
    let before = backend_pids_upto(m, backend, n - 1);
    let s = m.val_seq()[n - 1];
    let t: Seq<u32> = if s.backend == backend && s.pid is Some {
        seq![s.pid.unwrap()]
    } else {
        seq![]
    };
    assert(backend_pids_upto(m, backend, n) == before + t);
    let k = choose|k: int| 0 <= k < (before + t).len() && (before + t)[k] == x;
    if k < before.len() {
        assert(before[k] == x);
        lemma_upto_owned(m, backend, n - 1, x);
    } else {
        assert(t[k - before.len()] == x);
        assert(m.val_seq()[n - 1].pid == Some(x));
    }
}

proof fn lemma_named_owned(m: StrMap<MonitorState>, backend: Backend, names: Seq<Seq<char>>, x: u32)
    requires
        m.wf(),
        named_backend_pids(m, backend, names).contains(x),
    ensures
        owns_pid(m, backend, x),
    decreases names.len(),
{
    m.lemma_len();
    let before = named_backend_pids(m, backend, names.drop_last());
    let t: Seq<u32> = match m.lookup(names.last()) {
        Some(s) => if s.backend == backend && s.pid is Some {
            seq![s.pid.unwrap()]
        } else {
            seq![]
        },
        None => seq![],
    };
    assert(named_backend_pids(m, backend, names) == before + t);
    let k = choose|k: int| 0 <= k < (before + t).len() && (before + t)[k] == x;
    if k < before.len() {
        assert(before[k] == x);
        lemma_named_owned(m, backend, names.drop_last(), x);
    } else {
        assert(t[k - before.len()] == x);
        let p = m.pos(names.last());
        assert(m.val_seq()[p].pid == Some(x));
    }
}

/// Every process that a stop or a replacement ends is one the state records for a monitor on
/// that backend: no path that ends processes touches another backend's entries.
pub proof fn lemma_targeted_pids_are_owned(m: StrMap<MonitorState>, backend: Backend, names: Seq<Seq<char>>, x: u32)
    requires
        m.wf(),
        targeted_pids(m, backend, names).contains(x),
    ensures
        owns_pid(m, backend, x),
{
    m.lemma_len();
    if names_contain(names, "all"@) {
        lemma_upto_owned(m, backend, m.key_seq().len() as int, x);
    } else {
        lemma_named_owned(m, backend, names, x);
    }
}

fn all_backend_pids(m: &StrMap<MonitorState>, backend: Backend) -> (r: Vec<u32>)
    requires
        m.wf(),
    ensures
        r@ == backend_pids(*m, backend),
{
    let mut out: Vec<u32> = Vec::new();
    let mut i: usize = 0;
    while i < m.len()
        invariant
            m.wf(),
            0 <= i <= m.key_seq().len(),
            out@ == backend_pids_upto(*m, backend, i as int),
        decreases m.key_seq().len() - i,
    {
        proof {
            m.lemma_len();
        }
        let s = m.value_at(i);
        if s.backend == backend {
            if let Some(pid) = s.pid {
                out.push(pid);
            }
        }
        proof {
            let t: Seq<u32> = if s.backend == backend && s.pid is Some {
                seq![s.pid.unwrap()]
            } else {
                seq![]
            };
            assert(backend_pids_upto(*m, backend, i + 1) == backend_pids_upto(*m, backend, i as int) + t);
            assert(out@ =~= backend_pids_upto(*m, backend, i as int) + t);
        }
        i += 1;
    }
    out
}

fn named_pids(m: &StrMap<MonitorState>, backend: Backend, names: &[String]) -> (r: Vec<u32>)
    requires
        m.wf(),
    ensures
        r@ == named_backend_pids(*m, backend, texts(names@)),
{
    let mut out: Vec<u32> = Vec::new();
    let mut i: usize = 0;
    while i < names.len()
        invariant
            m.wf(),
            0 <= i <= names@.len(),
            out@ == named_backend_pids(*m, backend, texts(names@).take(i as int)),
        decreases names.len() - i,
    {
        let ghost t = texts(names@).take(i + 1);
        assert(t.drop_last() == texts(names@).take(i as int));
        assert(t.last() == names@[i as int]@);
        let ghost before = out@;
        match m.get(names[i].as_str()) {
            Some(s) => {
                if s.backend == backend {
                    if let Some(pid) = s.pid {
                        out.push(pid);
                    }
                }
                assert(out@ =~= before + if s.backend == backend && s.pid is Some {
                    seq![s.pid.unwrap()]
                } else {
                    Seq::<u32>::empty()
                });
            },
            None => {
                assert(out@ =~= before + Seq::<u32>::empty());
            },
        }
        i += 1;
    }
    assert(texts(names@).take(names@.len() as int) == texts(names@));
    out
}

/// The `mpvpaper` processes this tool owns, in monitor order.
pub fn owned_live_pids(state: &State) -> (r: Vec<u32>)
    requires
        state.monitors.wf(),
    ensures
        r@ == backend_pids(state.monitors, Backend::Mpvpaper),
{
    all_backend_pids(&state.monitors, Backend::Mpvpaper)
}

/// The `mpvpaper` processes of the named monitors (of all of them when `all` is named).
pub fn owned_live_pids_for_monitors(state: &State, monitors: &[String]) -> (r: Vec<u32>)
    requires
        state.monitors.wf(),
    ensures
        r@ == targeted_pids(state.monitors, Backend::Mpvpaper, texts(monitors@)),
{
    if contains_name(monitors, "all") {
        return owned_live_pids(state);
    }
    named_pids(&state.monitors, Backend::Mpvpaper, monitors)
}

/// The processes recorded on `backend` for the named monitors (for all of them when `all` is
/// named).
pub fn owned_backend_pids_for_monitors(state: &State, backend: Backend, monitors: &[String]) -> (r: Vec<u32>)
    requires
        state.monitors.wf(),
    ensures
        r@ == targeted_pids(state.monitors, backend, texts(monitors@)),
{
    if contains_name(monitors, "all") {
        return all_backend_pids(&state.monitors, backend);
    }
    named_pids(&state.monitors, backend, monitors)
}

/// Strictly increasing numbers.
pub open spec fn increasing(v: Seq<u32>) -> bool {
    forall|i: int, j: int| 0 <= i < j < v.len() ==> v[i] < v[j]
}

/// The numbers of `v`, sorted, each once (`sort_unstable` then `dedup`).
pub fn sorted_unique(v: &Vec<u32>) -> (r: Vec<u32>)
    ensures
        increasing(r@),
        forall|x: u32| r@.contains(x) <==> v@.contains(x),
{
    let mut out: Vec<u32> = Vec::new();
    let mut i: usize = 0;
    while i < v.len()
        invariant
            0 <= i <= v@.len(),
            increasing(out@),
            forall|x: u32| out@.contains(x) <==> v@.take(i as int).contains(x),
        decreases v.len() - i,
    {
        let x = v[i];
        let mut p: usize = 0;
        while p < out.len() && out[p] < x
            invariant
                0 <= p <= out@.len(),
                forall|k: int| 0 <= k < p ==> out@[k] < x,
            decreases out.len() - p,
        {
            p += 1;
        }
        let ghost before = out@;
        if p < out.len() && out[p] == x {
        } else {
            out.insert(p, x);
            assert(out@ == before.insert(p as int, x));
            assert forall|a: int, b: int| 0 <= a < b < out@.len() implies out@[a] < out@[b] by {
                if b < p {
                    assert(out@[a] == before[a] && out@[b] == before[b]);
                } else if b == p {
                    assert(out@[a] == before[a]);
                } else if a < p {
                    assert(out@[a] == before[a] && out@[b] == before[b - 1]);
                } else if a == p {
                    assert(out@[b] == before[b - 1]);
                    assert(before[p as int] >= x);
                    if b - 1 > p {
                        assert(before[p as int] < before[b - 1]);
                    }
                } else {
                    assert(out@[a] == before[a - 1] && out@[b] == before[b - 1]);
                }
            }
        }
        proof {
            let next = v@.take(i + 1);
            assert(next == v@.take(i as int).push(x));
            assert forall|y: u32| out@.contains(y) <==> v@.take(i + 1).contains(y) by {
                if out@.contains(y) {
                    let k = choose|k: int| 0 <= k < out@.len() && out@[k] == y;
                    if y != x {
                        if p < before.len() && before[p as int] == x {
                            assert(before.contains(y));
                        } else if k < p {
                            assert(before[k] == y);
                            assert(before.contains(y));
                        } else if k > p {
                            assert(before[k - 1] == y);
                            assert(before.contains(y));
                        }
                        assert(v@.take(i as int).contains(y));
                        let j = choose|j: int| 0 <= j < i && v@.take(i as int)[j] == y;
                        assert(v@.take(i + 1)[j] == y);
                    } else {
                        assert(v@.take(i + 1)[i as int] == x);
                    }
                }
                if next.contains(y) {
                    let j = choose|j: int| 0 <= j < next.len() && next[j] == y;
                    if j < i {
                        assert(v@.take(i as int)[j] == y);
                        assert(before.contains(y));
                        let k = choose|k: int| 0 <= k < before.len() && before[k] == y;
                        if p < before.len() && before[p as int] == x {
                            assert(out@[k] == y);
                        } else if k < p {
                            assert(out@[k] == y);
                        } else {
                            assert(out@[k + 1] == y);
                        }
                    } else {
                        assert(y == x);
                        if p < before.len() && before[p as int] == x {
                            assert(out@[p as int] == y);
                        } else {
                            assert(out@[p as int] == y);
                        }
                    }
                }
            }
        }
        i += 1;
    }
    assert(v@.take(v@.len() as int) == v@);
    out
}

/// The `swaybg` processes of the named monitors (of all of them when `all` is named), sorted,
/// each once.
pub fn owned_swaybg_pids_for_monitors(state: &State, monitors: &[String]) -> (r: Vec<u32>)
    requires
        state.monitors.wf(),
    ensures
        increasing(r@),
        forall|x: u32|
            r@.contains(x) <==> targeted_pids(state.monitors, Backend::Swaybg, texts(monitors@)).contains(x),
{
    let raw = if contains_name(monitors, "all") {
        all_backend_pids(&state.monitors, Backend::Swaybg)
    } else {
        named_pids(&state.monitors, Backend::Swaybg, monitors)
    };
    sorted_unique(&raw)
}

// ---------------------------------------------------------------------------
// Targets and entries
// ---------------------------------------------------------------------------

/// The monitor names a plan targets; `None` when the plan targets `all` and no active
/// monitors were given (the caller then asks for them).
pub fn target_monitor_names(plan: &SetPlan, expanded_monitors: &[String]) -> (r: Option<Vec<String>>)
    ensures
        (plan.monitor@ == "all"@ && expanded_monitors@.len() == 0) <==> r is None,
        r matches Some(v) ==> texts(v@) == target_names(*plan, texts(expanded_monitors@)),
{
    if str_eq(plan.monitor.as_str(), "all") {
        if expanded_monitors.len() == 0 {
            return None;
        }
        let v = copy_strings(expanded_monitors);
        return Some(v);
    }
    let mut v: Vec<String> = Vec::new();
    v.push(plan.monitor.clone());
    assert(texts(v@) =~= seq![plan.monitor@]);
    Some(v)
}

pub(crate) fn copy_strings(src: &[String]) -> (r: Vec<String>)
    ensures
        texts(r@) == texts(src@),
{
    let mut v: Vec<String> = Vec::new();
    let mut i: usize = 0;
    while i < src.len()
        invariant
            0 <= i <= src@.len(),
            v@.len() == i,
            forall|k: int| 0 <= k < i ==> (#[trigger] v@[k])@ == src@[k]@,
        decreases src.len() - i,
    {
        let s = src[i].clone();
        v.push(s);
        i += 1;
    }
    assert(texts(v@) =~= texts(src@));
    v
}

/// One plan per target monitor: for `all`, the plan aimed at each active monitor in turn.
/// `plans` are the plan aimed at each of `targets` in turn.
pub open spec fn plans_for_targets(plans: Seq<SetPlan>, plan: SetPlan, targets: Seq<Seq<char>>) -> bool {
    &&& plans.len() == targets.len()
    &&& forall|i: int|
        0 <= i < plans.len() ==> (#[trigger] plans[i]).monitor@ == targets[i] && plans[i].wallpaper
            == plan.wallpaper && plans[i].media_kind == plan.media_kind && plans[i].backend == plan.backend
}

pub fn target_monitor_plans(plan: &SetPlan, active_monitors: &[String]) -> (r: Vec<SetPlan>)
    ensures
        plans_for_targets(r@, *plan, target_names(*plan, texts(active_monitors@))),
{
    let mut out: Vec<SetPlan> = Vec::new();
    if str_eq(plan.monitor.as_str(), "all") {
        let mut i: usize = 0;
        while i < active_monitors.len()
            invariant
                plan.monitor@ == "all"@,
                0 <= i <= active_monitors@.len(),
                out@.len() == i,
                forall|k: int|
                    0 <= k < i ==> (#[trigger] out@[k]).monitor@ == active_monitors@[k]@
                        && out@[k].wallpaper == plan.wallpaper && out@[k].media_kind == plan.media_kind
                        && out@[k].backend == plan.backend,
            decreases active_monitors.len() - i,
        {
            out.push(plan.for_monitor(active_monitors[i].clone()));
            i += 1;
        }
    } else {
        out.push(plan.clone());
    }
    out
}

/// One entry per target monitor (the active monitors for `all`), each with `pid`.
pub fn static_entries_with_pid(plan: &SetPlan, expanded_monitors: &[String], pid: Option<u32>) -> (r: Vec<
    (String, Option<u32>),
>)
    ensures
        entry_texts(r@) == target_names(*plan, texts(expanded_monitors@)).map_values(
            |m: Seq<char>| (m, pid),
        ),
{
    let mut out: Vec<(String, Option<u32>)> = Vec::new();
    if str_eq(plan.monitor.as_str(), "all") {
        let mut i: usize = 0;
        while i < expanded_monitors.len()
            invariant
                plan.monitor@ == "all"@,
                0 <= i <= expanded_monitors@.len(),
                out@.len() == i,
                forall|k: int|
                    0 <= k < i ==> (#[trigger] out@[k]).0@ == expanded_monitors@[k]@ && out@[k].1 == pid,
            decreases expanded_monitors.len() - i,
        {
            let m = expanded_monitors[i].clone();
            out.push((m, pid));
            i += 1;
        }
        assert(entry_texts(out@) =~= texts(expanded_monitors@).map_values(|m: Seq<char>| (m, pid)));
    } else {
        out.push((plan.monitor.clone(), pid));
        assert(entry_texts(out@) =~= seq![plan.monitor@].map_values(|m: Seq<char>| (m, pid)));
    }
    out
}

/// One entry per target monitor, without a process.
pub fn static_entries(plan: &SetPlan, expanded_monitors: &[String]) -> (r: Vec<(String, Option<u32>)>)
    ensures
        entry_texts(r@) == target_names(*plan, texts(expanded_monitors@)).map_values(
            |m: Seq<char>| (m, None::<u32>),
        ),
{
    static_entries_with_pid(plan, expanded_monitors, None)
}

/// The monitor a collection step targets when none is given: the only recorded monitor, else `all`.
pub fn default_monitor_from_state(state: &State) -> (r: String)
    requires
        state.monitors.wf(),
    ensures
        r@ == if state.monitors.key_seq().len() == 1 {
            state.monitors.key_seq()[0]
        } else {
            "all"@
        },
{
    if state.monitors.len() == 1 {
        match state.monitors.first_key() {
            Some(k) => k,
            None => owned("all"),
        }
    } else {
        owned("all")
    }
}

/// `running`, `stale` or `none`: whether a recorded process still runs (`running` is what
/// probing it answered).
pub fn pid_status(pid: Option<u32>, running: bool) -> (r: String)
    ensures
        r@ == match pid {
            Some(_) => if running {
                "running"@
            } else {
                "stale"@
            },
            None => "none"@,
        },
{
    match pid {
        Some(_) => if running {
            owned("running")
        } else {
            owned("stale")
        },
        None => owned("none"),
    }
}

// ---------------------------------------------------------------------------
// Pausing live wallpapers
// ---------------------------------------------------------------------------

#[derive(Debug, PartialEq, Eq)]
pub struct LivePauseDecision {
    pub pause: bool,
    pub reasons: Vec<String>,
}

/// The reasons that hold, among those the configuration enables, in order.
pub open spec fn pause_reasons(p: LivePauseConfig, on_battery: bool, fullscreen: bool, idle: bool) -> Seq<
    Seq<char>,
> {
    (if p.on_battery && on_battery {
        seq!["battery"@]
    } else {
        seq![]
    }) + (if p.on_fullscreen && fullscreen {
        seq!["fullscreen"@]
    } else {
        seq![]
    }) + (if p.on_idle && idle {
        seq!["idle"@]
    } else {
        seq![]
    })
}

/// Live wallpapers pause when an enabled trigger holds.
pub fn live_pause_decision_from_status(config: &Config, on_battery: bool, fullscreen: bool, idle: bool) -> (r:
    LivePauseDecision)
    ensures
        texts(r.reasons@) == pause_reasons(config.live.pause, on_battery, fullscreen, idle),
        r.pause == (pause_reasons(config.live.pause, on_battery, fullscreen, idle).len() > 0),
{
    let mut reasons: Vec<String> = Vec::new();
    let pause = config.live.pause;
    if pause.on_battery && on_battery {
        reasons.push(owned("battery"));
    }
    let ghost a = texts(reasons@);
    if pause.on_fullscreen && fullscreen {
        reasons.push(owned("fullscreen"));
    }
    let ghost b = texts(reasons@);
    if pause.on_idle && idle {
        reasons.push(owned("idle"));
    }
    proof {
        let a2: Seq<Seq<char>> = if pause.on_battery && on_battery {
            seq!["battery"@]
        } else {
            seq![]
        };
        let b2: Seq<Seq<char>> = if pause.on_fullscreen && fullscreen {
            seq!["fullscreen"@]
        } else {
            seq![]
        };
        let c2: Seq<Seq<char>> = if pause.on_idle && idle {
            seq!["idle"@]
        } else {
            seq![]
        };
        assert(a =~= a2);
        assert(b =~= a2 + b2);
        assert(texts(reasons@) =~= a2 + b2 + c2);
    }
    let pause_now = reasons.len() > 0;
    LivePauseDecision { pause: pause_now, reasons }
}

/// The signal that pauses (`STOP`) or resumes (`CONT`) live wallpapers.
pub fn pause_signal(pause: bool) -> (r: String)
    ensures
        r@ == if pause {
            "STOP"@
        } else {
            "CONT"@
        },
{
    if pause {
        owned("STOP")
    } else {
        owned("CONT")
    }
}

/// What the pause loop prints after a round: the reasons when paused, and how many processes
/// were signalled.
pub fn pause_report(decision: &LivePauseDecision, signalled: u64) -> (r: String)
    ensures
        r@ == if decision.pause {
            "live pause active: "@ + join_seq(texts(decision.reasons@), ", "@) + " ("@ + decimal(
                signalled as nat,
            ) + " process signal(s) sent)"@
        } else {
            "live pause inactive ("@ + decimal(signalled as nat) + " process signal(s) sent)"@
        },
{
    let count = decimal_string(signalled);
    if decision.pause {
        let reasons = join_strings(decision.reasons.as_slice(), ", ");
        let a = cat3("live pause active: ", reasons.as_str(), " (");
        cat3(a.as_str(), count.as_str(), " process signal(s) sent)")
    } else {
        cat3("live pause inactive (", count.as_str(), " process signal(s) sent)")
    }
}

/// Whether a power supply status reads `Discharging` (case-insensitive, trimmed).
pub open spec fn discharging(status: Seq<char>) -> bool {
    lower_seq(trim(status)) == "discharging"@
}

/// On battery: some power supply is discharging.
pub fn battery_discharging(statuses: &[String]) -> (r: bool)
    ensures
        r == exists|i: int| 0 <= i < statuses@.len() && discharging(#[trigger] statuses@[i]@),
{
    let mut i: usize = 0;
    while i < statuses.len()
        invariant
            0 <= i <= statuses@.len(),
            forall|k: int| 0 <= k < i ==> !discharging(#[trigger] statuses@[k]@),
        decreases statuses.len() - i,
    {
        let t = trim_str(statuses[i].as_str());
        let l = ascii_lowercase(t.as_str());
        if str_eq(l.as_str(), "discharging") {
            return true;
        }
        i += 1;
    }
    false
}

/// Whether `hyprctl -j activewindow` reports a fullscreen window: `fullscreen` is `true` or a
/// non-zero integer.
pub fn fullscreen_from_json(doc: Option<&JsonValue>) -> (r: bool)
    ensures
        r == match doc {
            Some(d) => match get_spec(*d, "fullscreen"@) {
                Some(JsonValue::Bool(b)) => b,
                Some(JsonValue::Number(Some(n))) => n != 0,
                _ => false,
            },
            None => false,
        },
{
    let d = match doc {
        Some(d) => d,
        None => {
            return false;
        },
    };
    match d.get("fullscreen") {
        Some(v) => match v.as_bool() {
            Some(b) => b,
            None => match v.as_i64() {
                Some(n) => n != 0,
                None => false,
            },
        },
        None => false,
    }
}

/// Whether `hyprctl -j activewindow` output (`None` when the command failed) reports a
/// fullscreen window; output that is not JSON reports none.
pub fn fullscreen_from_text(output: Option<&str>) -> (r: bool)
    ensures
        r == match output {
            Some(o) => match parsed_json(o@) {
                Some(d) => match get_spec(d, "fullscreen"@) {
                    Some(JsonValue::Bool(b)) => b,
                    Some(JsonValue::Number(Some(n))) => n != 0,
                    _ => false,
                },
                None => false,
            },
            None => false,
        },
{
    match output {
        Some(o) => {
            let doc = parse_json(o);
            fullscreen_from_json(doc.as_ref())
        },
        None => false,
    }
}

/// Whether `loginctl ... -p IdleHint --value` answered `yes` (`None` when it failed).
pub fn idle_hint_from_output(output: Option<&str>) -> (r: bool)
    ensures
        r == match output {
            Some(o) => lower_seq(trim(o@)) == "yes"@,
            None => false,
        },
{
    match output {
        Some(o) => {
            let t = trim_str(o);
            let l = ascii_lowercase(t.as_str());
            str_eq(l.as_str(), "yes")
        },
        None => false,
    }
}

/// The reply reports success: its `error` member is the string `success`.
pub open spec fn reply_succeeded(response: JsonValue) -> bool {
    match get_spec(response, "error"@) {
        Some(JsonValue::Str(e)) => e@ == "success"@,
        _ => false,
    }
}

/// The reply carries a `data` member that is not `null`.
pub open spec fn reply_has_data(response: JsonValue) -> bool {
    match get_spec(response, "data"@) {
        Some(d) => !(d is Null),
        None => false,
    }
}

/// Whether an mpv IPC answer reports video output: `error` is `success` and `data` is
/// present and not null.
pub fn video_output_ready(response: &JsonValue) -> (r: bool)
    ensures
        r == (reply_succeeded(*response) && reply_has_data(*response)),
{
    let ok = match response.get("error") {
        Some(e) => match e.as_str() {
            Some(s) => str_eq(s.as_str(), "success"),
            None => false,
        },
        None => false,
    };
    if !ok {
        return false;
    }
    match response.get("data") {
        Some(d) => !d.is_null(),
        None => false,
    }
}

/// Whether an mpv IPC answer line reports video output; `None` when the line is not JSON.
pub fn video_output_ready_text(response: &str) -> (r: Option<bool>)
    ensures
        r == match parsed_json(response@) {
            Some(v) => Some(reply_succeeded(v) && reply_has_data(v)),
            None => None::<bool>,
        },
{
    match parse_json(response) {
        Some(v) => Some(video_output_ready(&v)),
        None => None,
    }
}

/// The text an mpv IPC answer line gives for a property (see `string_property`); `None` when the
/// line is not JSON.
pub fn string_property_text(response: &str) -> (r: Option<Option<String>>)
    ensures
        match r {
            None => parsed_json(response@) is None,
            Some(p) => parsed_json(response@) matches Some(v) && match p {
                Some(s) => reply_succeeded(v) && get_spec(v, "data"@) == Some(JsonValue::Str(s)),
                None => !reply_succeeded(v) || !(get_spec(v, "data"@) matches Some(JsonValue::Str(_))),
            },
        },
{
    match parse_json(response) {
        Some(v) => Some(string_property(&v)),
        None => None,
    }
}

/// The text an mpv IPC answer gives for a property: its `data`, when the answer reports success
/// and `data` is a string.
pub fn string_property(response: &JsonValue) -> (r: Option<String>)
    ensures
        match r {
            Some(s) => reply_succeeded(*response) && get_spec(*response, "data"@) == Some(JsonValue::Str(s)),
            None => !reply_succeeded(*response) || !(get_spec(*response, "data"@) matches Some(
                JsonValue::Str(_),
            )),
        },
{
    let ok = match response.get("error") {
        Some(e) => match e.as_str() {
            Some(s) => str_eq(s.as_str(), "success"),
            None => false,
        },
        None => false,
    };
    if !ok {
        return None;
    }
    match response.get("data") {
        Some(d) => match d.as_str() {
            Some(s) => Some(s.clone()),
            None => None,
        },
        None => None,
    }
}

/// Whether the session is Hyprland: `HYPRLAND_INSTANCE_SIGNATURE` is set, or one of the
/// `:`-separated parts of `XDG_CURRENT_DESKTOP` is `hyprland` in any case.
pub open spec fn desktop_is_hyprland(desktop: Seq<char>) -> bool {
    exists|i: int, j: int|
        #![trigger desktop.subrange(i, j)]
        0 <= i <= j <= desktop.len() && (i == 0 || desktop[i - 1] == ':') && (j == desktop.len()
            || desktop[j] == ':') && (forall|k: int| i <= k < j ==> desktop[k] != ':') && lower_seq(
            desktop.subrange(i, j),
        ) == "hyprland"@
}

pub fn hyprland_session_detected_from(signature_set: bool, desktop: Option<&str>) -> (r: bool)
    ensures
        r == (signature_set || match desktop {
            Some(d) => desktop_is_hyprland(d@),
            None => false,
        }),
{
    if signature_set {
        return true;
    }
    let d = match desktop {
        Some(d) => d,
        None => {
            return false;
        },
    };
    let v = chars_of(d);
    let mut start: usize = 0;
    let mut i: usize = 0;
    while i <= v.len()
        invariant
            v@ == d@,
            desktop == Some(d),
            !signature_set,
            0 <= start <= i <= v.len(),
            start == 0 || v@[start - 1] == ':',
            forall|k: int| start <= k < i && k < v.len() ==> v@[k] != ':',
            forall|a: int, b: int|
                0 <= a <= b <= v.len() && b < start && (a == 0 || v@[a - 1] == ':') && (b == v.len()
                    || v@[b] == ':') && (forall|k: int| a <= k < b ==> v@[k] != ':') ==> lower_seq(
                    v@.subrange(a, b),
                ) != "hyprland"@,
        decreases v.len() + 1 - i,
    {
        if i == v.len() || v[i] == ':' {
            let part = crate::text::string_of_range(&v, start, i);
            let l = ascii_lowercase(part.as_str());
            if str_eq(l.as_str(), "hyprland") {
                proof {
                    assert(lower_seq(d@.subrange(start as int, i as int)) == "hyprland"@);
                    assert(forall|k: int| start <= k < i ==> d@[k] != ':');
                }
                return true;
            }
            proof {
                assert forall|a: int, b: int|
                    0 <= a <= b <= v.len() && b < i + 1 && (a == 0 || v@[a - 1] == ':') && (b == v.len()
                        || v@[b] == ':') && (forall|k: int| a <= k < b ==> v@[k] != ':') implies lower_seq(
                    v@.subrange(a, b),
                ) != "hyprland"@ by {
                    if b >= start {
                        if a < start {
                            assert(v@[start - 1] == ':');
                        }
                        if a > start {
                            assert(v@[a - 1] != ':');
                        }
                        if b < i {
                            assert(v@[b] != ':');
                        }
                    }
                }
            }
            if i == v.len() {
                proof {
                    assert(v@ == d@);
                    assert forall|a: int, b: int|
                        0 <= a <= b <= v.len() && (a == 0 || v@[a - 1] == ':') && (b == v.len() || v@[b]
                            == ':') && (forall|k: int| a <= k < b ==> v@[k] != ':') implies lower_seq(
                        v@.subrange(a, b),
                    ) != "hyprland"@ by {}
                    if desktop_is_hyprland(d@) {
                        let (a, b) = choose|a: int, b: int|
                            #![trigger d@.subrange(a, b)]
                            0 <= a <= b <= d@.len() && (a == 0 || d@[a - 1] == ':') && (b == d@.len()
                                || d@[b] == ':') && (forall|k: int| a <= k < b ==> d@[k] != ':')
                                && lower_seq(d@.subrange(a, b)) == "hyprland"@;
                        assert(lower_seq(v@.subrange(a, b)) != "hyprland"@);
                    }
                }
                return false;
            }
            start = i + 1;
        }
        i += 1;
    }
    false
}

// ---------------------------------------------------------------------------
// Omarchy's own swaybg
// ---------------------------------------------------------------------------

/// The process id on a `ps -eo pid= -o args=` line when it runs Omarchy's `swaybg` on the
/// current background: the first word is the id, the program ends with `swaybg`, an argument
/// is `-i`, and the command holds `<home>/.config/omarchy/current/background`.
pub open spec fn omarchy_swaybg_pid_spec(line: Seq<char>, home: Option<Seq<char>>) -> Option<u32> {
    let t = trim(line);
    let k = first_ws_index(t);
    if k >= t.len() {
        None
    } else {
        let pid_text = t.take(k);
        let command = t.skip(k + 1);
        let ws = words(command);
        match parse_u32_spec(pid_text) {
            None => None,
            Some(pid) => if !(ws.len() > 0 && is_suffix("swaybg"@, ws[0])) {
                None
            } else if !(exists|i: int| 0 <= i < ws.len() && ws[i] == "-i"@) {
                None
            } else {
                match home {
                    None => None,
                    Some(h) => if contains_seq(command, join(h, ".config/omarchy/current/background"@)) {
                        Some(pid)
                    } else {
                        None
                    },
                }
            },
        }
    }
}

/// Position of the first whitespace character, or `s.len()`.
pub open spec fn first_ws_index(s: Seq<char>) -> int
    decreases s.len(),
{
    if s.len() == 0 {
        0
    } else if is_ws(s[0]) {
        0
    } else {
        1 + first_ws_index(s.drop_first())
    }
}

proof fn lemma_first_ws_index(s: Seq<char>)
    ensures
        0 <= first_ws_index(s) <= s.len(),
        first_ws_index(s) < s.len() ==> is_ws(s[first_ws_index(s)]),
        forall|j: int| 0 <= j < first_ws_index(s) ==> !is_ws(s[j]),
    decreases s.len(),
{
    if s.len() > 0 && !is_ws(s[0]) {
        lemma_first_ws_index(s.drop_first());
        assert forall|j: int| 0 <= j < first_ws_index(s) implies !is_ws(s[j]) by {
            if j > 0 {
                assert(s[j] == s.drop_first()[j - 1]);
            }
        }
    }
}

pub fn parse_omarchy_swaybg_pid(line: &str, home: Option<&str>) -> (r: Option<u32>)
    ensures
        r == omarchy_swaybg_pid_spec(line@, match home {
            Some(h) => Some(h@),
            None => None,
        }),
{
    let t = trim_str(line);
    let v = chars_of(t.as_str());
    proof {
        lemma_first_ws_index(v@);
    }
    let mut k: usize = 0;
    while k < v.len() && !is_whitespace(v[k])
        invariant
            0 <= k <= v.len(),
            forall|j: int| 0 <= j < k ==> !is_ws(v@[j]),
        decreases v.len() - k,
    {
        k += 1;
    }
    assert(k == first_ws_index(v@)) by {
        lemma_first_ws_index(v@);
        let f = first_ws_index(v@);
        if f < k {
            assert(is_ws(v@[f]));
        }
        if k < f {
            assert(is_ws(v@[k as int]));
        }
    }
    if k >= v.len() {
        return None;
    }
    let pid_text = crate::text::string_of_range(&v, 0, k);
    let command = crate::text::string_of_range(&v, k + 1, v.len());
    assert(pid_text@ == t@.take(k as int));
    assert(command@ == t@.skip(k + 1));
    let pid = match parse_u32(pid_text.as_str()) {
        Some(p) => p,
        None => {
            return None;
        },
    };
    let ws = words_of(command.as_str());
    let ghost wv = texts(ws@);
    if !(ws.len() > 0 && ends_with(ws[0].as_str(), "swaybg")) {
        return None;
    }
    if !contains_name(&ws, "-i") {
        proof {
            assert forall|i: int| 0 <= i < wv.len() implies wv[i] != "-i"@ by {
                assert(!names_contain(wv, "-i"@));
            }
        }
        return None;
    }
    let h = match home {
        Some(h) => h,
        None => {
            return None;
        },
    };
    let background = path_join(h, ".config/omarchy/current/background");
    if contains(command.as_str(), background.as_str()) {
        Some(pid)
    } else {
        None
    }
}

// ---------------------------------------------------------------------------
// Paths of the runtime files
// ---------------------------------------------------------------------------

#[derive(Debug)]
pub struct RuntimePaths {
    pub config: String,
    pub state: String,
}

impl RuntimePaths {
    /// The paths given on the command line, else the defaults.
    pub fn resolve(
        config: Option<String>,
        state: Option<String>,
        default_config: String,
        default_state: String,
    ) -> (r: Result<RuntimePaths, String>)
        ensures
            r matches Ok(p) && p.config == match config {
                Some(c) => c,
                None => default_config,
            } && p.state == match state {
                Some(s) => s,
                None => default_state,
            },
    {
        Ok(
            RuntimePaths {
                config: match config {
                    Some(c) => c,
                    None => default_config,
                },
                state: match state {
                    Some(s) => s,
                    None => default_state,
                },
            },
        )
    }
}

/// `<config dir>/jobowalls/config.toml`, the config dir being `.` when unknown.
pub fn default_config_path(config_dir: Option<&str>) -> (r: String)
    ensures
        r@ == join(join(match config_dir {
            Some(d) => d@,
            None => "."@,
        }, "jobowalls"@), "config.toml"@),
{
    let base = match config_dir {
        Some(d) => owned(d),
        None => owned("."),
    };
    let a = path_join(base.as_str(), "jobowalls");
    path_join(a.as_str(), "config.toml")
}

/// `$XDG_STATE_HOME/jobowalls/state.json`, else `<home>/.local/state/jobowalls/state.json`,
/// else `state.json`.
pub fn default_state_path(xdg_state_home: Option<&str>, home: Option<&str>) -> (r: String)
    ensures
        r@ == match xdg_state_home {
            Some(s) => join(join(s@, "jobowalls"@), "state.json"@),
            None => match home {
                Some(h) => join(join(join(join(h@, ".local"@), "state"@), "jobowalls"@), "state.json"@),
                None => "state.json"@,
            },
        },
{
    match xdg_state_home {
        Some(s) => {
            let a = path_join(s, "jobowalls");
            path_join(a.as_str(), "state.json")
        },
        None => match home {
            Some(h) => {
                let a = path_join(h, ".local");
                let b = path_join(a.as_str(), "state");
                let c = path_join(b.as_str(), "jobowalls");
                path_join(c.as_str(), "state.json")
            },
            None => owned("state.json"),
        },
    }
}

// ---------------------------------------------------------------------------
// mpv IPC sockets
// ---------------------------------------------------------------------------

/// A monitor name with every character but ASCII letters, digits, `-` and `_` made `_`.
pub open spec fn sanitized(m: Seq<char>) -> Seq<char> {
    m.map_values(|c: char| if is_ascii_alnum(c) || c == '-' || c == '_' {
        c
    } else {
        '_'
    })
}

pub fn sanitize_monitor(monitor: &str) -> (r: String)
    ensures
        r@ == sanitized(monitor@),
{
    let v = chars_of(monitor);
    let mut r = String::new();
    let mut i: usize = 0;
    while i < v.len()
        invariant
            0 <= i <= v.len(),
            v@ == monitor@,
            r@ == sanitized(monitor@).take(i as int),
        decreases v.len() - i,
    {
        let c = v[i];
        let d = if is_alnum(c) || c == '-' || c == '_' {
            c
        } else {
            '_'
        };
        push_char(&mut r, d);
        assert(sanitized(monitor@).take(i + 1) =~= sanitized(monitor@).take(i as int).push(d));
        i += 1;
    }
    assert(sanitized(monitor@).take(v@.len() as int) =~= sanitized(monitor@));
    r
}

/// `<temp dir>/<prefix>-<process id>-<sanitized monitor>-<now>.sock`.
pub fn ipc_socket_path(temp_dir: &str, prefix: &str, process_id: u32, monitor: &str, now: u128) -> (r: String)
    ensures
        r@ == join(temp_dir@, prefix@ + "-"@ + decimal(process_id as nat) + "-"@ + sanitized(monitor@)
            + "-"@ + decimal(now as nat) + ".sock"@),
{
    let pid = decimal_string(process_id as u64);
    let m = sanitize_monitor(monitor);
    let n = decimal_string_wide(now);
    let a = cat3(prefix, "-", pid.as_str());
    let b = cat3(a.as_str(), "-", m.as_str());
    let c = cat3(b.as_str(), "-", n.as_str());
    let name = cat(c.as_str(), ".sock");
    path_join(temp_dir, name.as_str())
}

/// The socket an `mpvpaper` started for `plan` answers on
/// (`jobowalls-mpvpaper-<process id>-<monitor>-<now>.sock` in the temporary directory).
pub fn mpvpaper_ipc_socket(plan: &SetPlan, temp_dir: &str, process_id: u32, now: u128) -> (r: String)
    ensures
        r@ == join(temp_dir@, "jobowalls-mpvpaper"@ + "-"@ + decimal(process_id as nat) + "-"@
            + sanitized(plan.monitor@) + "-"@ + decimal(now as nat) + ".sock"@),
{
    ipc_socket_path(temp_dir, "jobowalls-mpvpaper", process_id, plan.monitor.as_str(), now)
}


/// The run-time static choice: `awww`, once opted into and installed, wins whatever else is
/// installed; otherwise `swaybg` is preferred to `hyprpaper`, and `awww` (not opted into) only
/// when neither is installed. The choice is an installed backend whenever one is.
pub proof fn lemma_auto_backend_choice(awww_enabled: bool, hyprpaper: bool, awww: bool, swaybg: bool)
    ensures
        awww_enabled && awww ==> auto_backend_spec(awww_enabled, hyprpaper, awww, swaybg) == Backend::Awww,
        !(awww_enabled && awww) && swaybg ==> auto_backend_spec(awww_enabled, hyprpaper, awww, swaybg)
            == Backend::Swaybg,
        auto_backend_spec(awww_enabled, hyprpaper, awww, swaybg) == Backend::Hyprpaper ==> hyprpaper && !swaybg,
        auto_backend_spec(awww_enabled, hyprpaper, awww, swaybg) == Backend::Awww ==> awww && (awww_enabled
            || (!swaybg && !hyprpaper)),
        hyprpaper || awww || swaybg ==> match auto_backend_spec(awww_enabled, hyprpaper, awww, swaybg) {
            Backend::Awww => awww,
            Backend::Swaybg => swaybg,
            Backend::Hyprpaper => hyprpaper,
            Backend::Mpvpaper => false,
        },
{
}

} // verus!
