//! The record of what this tool put on the screen: per-monitor backends, the
//! processes it owns, collection progress and the last command.
//!
//! Loading and saving `state.json` is the application's work.
use vstd::prelude::*;
use crate::backends::model::Backend;
use crate::media::MediaKind;
use crate::orchestrator::SetPlan;
use crate::strmap::StrMap;
use crate::text::{owned, str_eq, texts};

verus! {

#[verifier::external_type_specification]
#[verifier::external_body]
pub struct ExOffsetDateTime(time::OffsetDateTime);

/// `OffsetDateTime::now_local`, `None` when the local offset cannot be determined.
/// Nothing is stated of the time it returns: it is the clock's.
#[verifier::external_body]
fn now_local() -> Option<time::OffsetDateTime> {
    time::OffsetDateTime::now_local().ok()
}

/// `OffsetDateTime::now_utc`. Nothing is stated of the time it returns: it is the clock's.
#[verifier::external_body]
fn now_utc() -> time::OffsetDateTime {
    time::OffsetDateTime::now_utc()
}

/// The current time in the local offset, or in UTC when the offset is unknown.
pub fn current_time() -> time::OffsetDateTime {
    match now_local() {
        Some(t) => t,
        None => now_utc(),
    }
}

/// The kind of wallpaper a backend shows: `mpvpaper` shows videos, the others pictures.
pub open spec fn kind_of_backend_spec(b: Backend) -> MediaKind {
    if b == Backend::Mpvpaper {
        MediaKind::Live
    } else {
        MediaKind::Static
    }
}

pub fn kind_of_backend(b: Backend) -> (k: MediaKind)
    ensures
        k == kind_of_backend_spec(b),
{
    match b {
        Backend::Mpvpaper => MediaKind::Live,
        _ => MediaKind::Static,
    }
}

/// Plan `i` of a state's monitor plans: the `i`-th recorded monitor with its own backend and
/// wallpaper; with no monitor recorded, the one plan sets the state's wallpaper on `all`.
pub open spec fn monitor_plan_ok(s: State, i: int, p: SetPlan) -> bool {
    if s.monitors.key_seq().len() == 0 {
        &&& i == 0
        &&& p.monitor@ == "all"@
        &&& p.wallpaper@ == s.wallpaper@
        &&& p.media_kind == s.mode
        &&& p.backend == s.active_backend
    } else {
        &&& p.monitor@ == s.monitors.key_seq()[i]
        &&& p.wallpaper@ == s.monitors.val_seq()[i].wallpaper@
        &&& p.backend == s.monitors.val_seq()[i].backend
        &&& p.media_kind == kind_of_backend_spec(s.monitors.val_seq()[i].backend)
    }
}

/// The monitor plans of a state, in monitor order.
pub open spec fn monitor_plans_ok(s: State, ps: Seq<SetPlan>) -> bool {
    &&& ps.len() == if s.monitors.key_seq().len() == 0 {
        1
    } else {
        s.monitors.key_seq().len()
    }
    &&& forall|i: int| 0 <= i < ps.len() ==> monitor_plan_ok(s, i, #[trigger] ps[i])
}

#[derive(Debug, PartialEq, Eq)]
pub struct MonitorState {
    pub backend: Backend,
    pub wallpaper: String,
    pub pid: Option<u32>,
}

impl Clone for MonitorState {
    fn clone(&self) -> (r: Self)
        ensures
            r == *self,
    {
        MonitorState { backend: self.backend, wallpaper: self.wallpaper.clone(), pid: self.pid }
    }
}

/// A monitor entry with the given backend, wallpaper text and process.
pub open spec fn entry_is(m: MonitorState, b: Backend, w: Seq<char>, pid: Option<u32>) -> bool {
    m.backend == b && m.wallpaper@ == w && m.pid == pid
}

#[derive(Debug, PartialEq, Eq)]
pub struct CollectionState {
    pub last_index: Option<usize>,
    pub last_wallpaper: Option<String>,
    pub shuffle_history: Vec<String>,
}

impl Default for CollectionState {
    fn default() -> (r: Self)
        ensures
            r.last_index is None,
            r.last_wallpaper is None,
            r.shuffle_history@.len() == 0,
    {
        CollectionState { last_index: None, last_wallpaper: None, shuffle_history: Vec::new() }
    }
}

/// Two collection entries that hold the same progress.
pub open spec fn same_progress(a: CollectionState, b: CollectionState) -> bool {
    a.last_index == b.last_index && a.last_wallpaper == b.last_wallpaper && a.shuffle_history@
        == b.shuffle_history@
}

impl Clone for CollectionState {
    fn clone(&self) -> (r: Self)
        ensures
            same_progress(r, *self),
    {
        let h = self.shuffle_history.clone();
        proof {
            assert forall|i: int| 0 <= i < h@.len() implies h@[i] == self.shuffle_history@[i] by {
                assert(cloned::<String>(self.shuffle_history@[i], h@[i]));
            }
            assert(h@ =~= self.shuffle_history@);
        }
        CollectionState {
            last_index: self.last_index,
            last_wallpaper: match &self.last_wallpaper {
                Some(w) => Some(w.clone()),
                None => None,
            },
            shuffle_history: h,
        }
    }
}

#[derive(Debug)]
pub struct State {
    pub version: u8,
    pub active_backend: Backend,
    pub mode: MediaKind,
    pub wallpaper: String,
    pub monitors: StrMap<MonitorState>,
    pub collections: StrMap<CollectionState>,
    pub last_command: Option<String>,
    pub updated_at: time::OffsetDateTime,
}

/// `(monitor, pid)` pairs as texts.
pub open spec fn entry_texts(entries: Seq<(String, Option<u32>)>) -> Seq<(Seq<char>, Option<u32>)> {
    entries.map_values(|e: (String, Option<u32>)| (e.0@, e.1))
}

/// The process recorded for `k` by the last of the entries that names it.
pub open spec fn entry_pid(entries: Seq<(Seq<char>, Option<u32>)>, k: Seq<char>) -> Option<Option<u32>>
    decreases entries.len(),
{
    if entries.len() == 0 {
        None
    } else if entries.last().0 == k {
        Some(entries.last().1)
    } else {
        entry_pid(entries.drop_last(), k)
    }
}

/// Whether `name` is among `names`.
pub open spec fn names_contain(names: Seq<Seq<char>>, name: Seq<char>) -> bool {
    exists|i: int| 0 <= i < names.len() && names[i] == name
}

/// The monitors after applying a clearing of processes: same keys, same backends and
/// wallpapers; a process dropped exactly where `hit` says.
pub open spec fn cleared_where(
    before: StrMap<MonitorState>,
    after: StrMap<MonitorState>,
    hit: spec_fn(Seq<char>, MonitorState) -> bool,
) -> bool {
    &&& after.wf()
    &&& after.key_seq() == before.key_seq()
    &&& forall|i: int|
        0 <= i < before.key_seq().len() ==> {
            let o = before.val_seq()[i];
            let n = #[trigger] after.val_seq()[i];
            n.backend == o.backend && n.wallpaper@ == o.wallpaper@ && n.pid == if hit(
                before.key_seq()[i],
                o,
            ) {
                None
            } else {
                o.pid
            }
        }
}

/// History entries other than `w`, in order.
pub open spec fn without(h: Seq<Seq<char>>, w: Seq<char>) -> Seq<Seq<char>>
    decreases h.len(),
{
    if h.len() == 0 {
        seq![]
    } else {
        without(h.drop_last(), w) + if h.last() == w {
            seq![]
        } else {
            seq![h.last()]
        }
    }
}

pub open spec fn no_duplicates(h: Seq<Seq<char>>) -> bool {
    forall|i: int, j: int| 0 <= i < j < h.len() ==> h[i] != h[j]
}

pub proof fn lemma_without(h: Seq<Seq<char>>, w: Seq<char>)
    ensures
        forall|x: Seq<char>| #[trigger] names_contain(without(h, w), x) <==> (x != w && names_contain(h, x)),
        no_duplicates(h) ==> no_duplicates(without(h, w)),
    decreases h.len(),
{
    if h.len() > 0 {
        let p = h.drop_last();
        lemma_without(p, w);
        let r = without(h, w);
        let q = without(p, w);
        let tail: Seq<Seq<char>> = if h.last() == w {
            seq![]
        } else {
            seq![h.last()]
        };
        assert(r == q + tail);
        assert forall|x: Seq<char>| #[trigger] names_contain(r, x) <==> (x != w && names_contain(h, x)) by {
            if names_contain(r, x) {
                let i = choose|i: int| 0 <= i < r.len() && r[i] == x;
                if i < q.len() {
                    assert(r[i] == q[i]);
                    assert(names_contain(q, x));
                    assert(x != w && names_contain(p, x));
                    let j = choose|j: int| 0 <= j < p.len() && p[j] == x;
                    assert(h[j] == x);
                } else {
                    assert(r[i] == tail[i - q.len()]);
                    assert(x == h.last());
                    assert(h[h.len() - 1] == x);
                }
            }
            if x != w && names_contain(h, x) {
                let j = choose|j: int| 0 <= j < h.len() && h[j] == x;
                if j < h.len() - 1 {
                    assert(p[j] == x);
                    assert(names_contain(p, x));
                    assert(names_contain(q, x));
                    let k = choose|k: int| 0 <= k < q.len() && q[k] == x;
                    assert(r[k] == x);
                } else {
                    assert(h.last() == x);
                    assert(r[r.len() - 1] == x);
                }
            }
        }
        if no_duplicates(h) {
            assert(no_duplicates(p));
            assert forall|i: int, j: int| 0 <= i < j < r.len() implies r[i] != r[j] by {
                if j == q.len() {
                    assert(r[j] == h.last());
                    assert(r[i] == q[i]);
                    if q[i] == h.last() {
                        assert(names_contain(q, h.last()));
                        assert(names_contain(p, h.last()));
                        let k = choose|k: int| 0 <= k < p.len() && p[k] == h.last();
                        assert(h[k] == h[h.len() - 1]);
                    }
                }
            }
        }
    }
}

/// The state as it is read through an optional reference.
pub open spec fn deref_state(existing: Option<&State>) -> Option<State> {
    match existing {
        Some(e) => Some(*e),
        None => None,
    }
}

/// `s` is the state after a plan ran on the monitors of `entries`, over `existing`: the existing
/// state (or a fresh one) with the plan's backend, kind and wallpaper; for `all` every old monitor
/// dropped; each entry's monitor recorded with its process; with no entries, the plan's monitor
/// recorded without a process; the collections and the version kept.
pub open spec fn merged_state(
    s: State,
    existing: Option<State>,
    plan: SetPlan,
    entries: Seq<(Seq<char>, Option<u32>)>,
) -> bool {
    &&& s.active_backend == plan.backend
    &&& s.mode == plan.media_kind
    &&& s.wallpaper@ == plan.wallpaper@
    &&& s.monitors.wf()
    &&& s.collections.wf()
    &&& match existing {
        Some(e) => s.version == e.version && s.collections.key_seq() == e.collections.key_seq()
            && s.collections.val_seq().len() == e.collections.val_seq().len()
            && forall|i: int| 0 <= i < e.collections.val_seq().len()
                ==> same_progress(#[trigger] s.collections.val_seq()[i], e.collections.val_seq()[i]),
        None => s.version == 1 && s.collections.key_seq().len() == 0,
    }
    &&& forall|k: Seq<char>|
        #![trigger s.monitors.has(k)]
        {
            let in_entries = entry_pid(entries, k);
            let fallback = entries.len() == 0 && k == plan.monitor@;
            let kept = plan.monitor@ != "all"@ && match existing {
                Some(e) => e.monitors.has(k),
                None => k == plan.monitor@,
            };
            &&& s.monitors.has(k) <==> (in_entries is Some || fallback || kept)
            &&& in_entries is Some ==> entry_is(
                s.monitors.lookup(k).unwrap(),
                plan.backend,
                plan.wallpaper@,
                in_entries.unwrap(),
            )
            &&& (in_entries is None && fallback) ==> entry_is(
                s.monitors.lookup(k).unwrap(),
                plan.backend,
                plan.wallpaper@,
                None,
            )
            &&& (in_entries is None && !fallback && kept) ==> match existing {
                Some(e) => s.monitors.lookup(k) == e.monitors.lookup(k),
                None => entry_is(s.monitors.lookup(k).unwrap(), plan.backend, plan.wallpaper@, None),
            }
        }
}

/// Setting a wallpaper on a named monitor keeps every other monitor's record as it was.
pub proof fn lemma_merge_keeps_other_monitors(
    s: State,
    e: State,
    plan: SetPlan,
    entries: Seq<(Seq<char>, Option<u32>)>,
    k: Seq<char>,
)
    requires
        merged_state(s, Some(e), plan, entries),
        plan.monitor@ != "all"@,
        entry_pid(entries, k) is None,
        !(entries.len() == 0 && k == plan.monitor@),
        e.monitors.has(k),
    ensures
        s.monitors.has(k),
        s.monitors.lookup(k) == e.monitors.lookup(k),
{
    assert(s.monitors.has(k));
}

/// Setting a wallpaper on `all` keeps only the monitors it ran on.
pub proof fn lemma_merge_all_replaces_monitors(
    s: State,
    existing: Option<State>,
    plan: SetPlan,
    entries: Seq<(Seq<char>, Option<u32>)>,
    k: Seq<char>,
)
    requires
        merged_state(s, existing, plan, entries),
        plan.monitor@ == "all"@,
    ensures
        s.monitors.has(k) <==> (entry_pid(entries, k) is Some || (entries.len() == 0 && k == "all"@)),
{
    assert(s.monitors.has(k) <==> (entry_pid(entries, k) is Some || (entries.len() == 0 && k == plan.monitor@)));
}

impl State {
    /// A state whose monitors are the given `(monitor, pid)` entries (the last entry for a
    /// monitor wins); with no entries, the plan's monitor without a process.
    pub fn from_monitor_entries(plan: &SetPlan, entries: Vec<(String, Option<u32>)>) -> (s: State)
        ensures
            s.version == 1,
            s.active_backend == plan.backend,
            s.mode == plan.media_kind,
            s.wallpaper@ == plan.wallpaper@,
            s.monitors.wf(),
            s.collections.wf(),
            s.collections.key_seq().len() == 0,
            s.last_command is None,
            entries@.len() > 0 ==> forall|k: Seq<char>|
                #![trigger s.monitors.has(k)]
                (s.monitors.has(k) <==> entry_pid(entry_texts(entries@), k) is Some) && (s.monitors.has(
                    k,
                ) ==> entry_is(
                    s.monitors.lookup(k).unwrap(),
                    plan.backend,
                    plan.wallpaper@,
                    entry_pid(entry_texts(entries@), k).unwrap(),
                )),
            entries@.len() == 0 ==> forall|k: Seq<char>|
                #![trigger s.monitors.has(k)]
                (s.monitors.has(k) <==> k == plan.monitor@) && (s.monitors.has(k) ==> entry_is(
                    s.monitors.lookup(k).unwrap(),
                    plan.backend,
                    plan.wallpaper@,
                    None,
                )),
    {
        let mut monitors: StrMap<MonitorState> = StrMap::new();
        insert_entries(&mut monitors, plan.backend, plan.wallpaper.as_str(), &entries);
        if entries.len() == 0 {
            monitors.insert(
                plan.monitor.clone(),
                MonitorState { backend: plan.backend, wallpaper: plan.wallpaper.clone(), pid: None },
            );
        }
        State {
            version: 1,
            active_backend: plan.backend,
            mode: plan.media_kind,
            wallpaper: plan.wallpaper.clone(),
            monitors,
            collections: StrMap::new(),
            last_command: None,
            updated_at: current_time(),
        }
    }

    /// `from_monitor_entries` with the single entry `(plan.monitor, pid)`.
    pub fn from_set_plan(plan: &SetPlan, pid: Option<u32>) -> (s: State)
        ensures
            s.version == 1,
            s.active_backend == plan.backend,
            s.mode == plan.media_kind,
            s.wallpaper@ == plan.wallpaper@,
            s.monitors.wf(),
            s.collections.wf(),
            s.collections.key_seq().len() == 0,
            s.last_command is None,
            forall|k: Seq<char>|
                #![trigger s.monitors.has(k)]
                (s.monitors.has(k) <==> k == plan.monitor@) && (s.monitors.has(k) ==> entry_is(
                    s.monitors.lookup(k).unwrap(),
                    plan.backend,
                    plan.wallpaper@,
                    pid,
                )),
    {
        let mut entries: Vec<(String, Option<u32>)> = Vec::new();
        entries.push((plan.monitor.clone(), pid));
        let s = State::from_monitor_entries(plan, entries);
        proof {
            let t = entry_texts(entries@);
            assert(t.last() == (plan.monitor@, pid));
            assert forall|k: Seq<char>| k != plan.monitor@ implies entry_pid(t, k) is None by {
                assert(t.drop_last().len() == 0);
                reveal_with_fuel(entry_pid, 2);
            }
        }
        s
    }

    /// A state restored from the given entries, every monitor on `active_backend` showing
    /// `wallpaper` (the last entry for a monitor wins).
    pub fn from_restored_entries(
        active_backend: Backend,
        mode: MediaKind,
        wallpaper: String,
        entries: Vec<(String, Option<u32>)>,
    ) -> (s: State)
        ensures
            s.version == 1,
            s.active_backend == active_backend,
            s.mode == mode,
            s.wallpaper@ == wallpaper@,
            s.monitors.wf(),
            s.collections.wf(),
            s.collections.key_seq().len() == 0,
            s.last_command is None,
            forall|k: Seq<char>|
                #![trigger s.monitors.has(k)]
                (s.monitors.has(k) <==> entry_pid(entry_texts(entries@), k) is Some) && (s.monitors.has(
                    k,
                ) ==> entry_is(
                    s.monitors.lookup(k).unwrap(),
                    active_backend,
                    wallpaper@,
                    entry_pid(entry_texts(entries@), k).unwrap(),
                )),
    {
        let mut monitors: StrMap<MonitorState> = StrMap::new();
        insert_entries(&mut monitors, active_backend, wallpaper.as_str(), &entries);
        State {
            version: 1,
            active_backend,
            mode,
            wallpaper,
            monitors,
            collections: StrMap::new(),
            last_command: None,
            updated_at: current_time(),
        }
    }

    /// The state after a plan ran on the given monitors: the existing state (or a fresh one)
    /// with the plan's backend, kind and wallpaper; for `all` every old monitor dropped; each
    /// entry's monitor recorded; with no entries, the plan's monitor recorded without a process.
    pub fn merged_with_monitor_entries(
        existing: Option<&State>,
        plan: &SetPlan,
        entries: Vec<(String, Option<u32>)>,
    ) -> (s: State)
        requires
            existing matches Some(e) ==> e.monitors.wf() && e.collections.wf(),
        ensures
            merged_state(s, deref_state(existing), *plan, entry_texts(entries@)),
            s.last_command == match existing {
                Some(e) => e.last_command,
                None => None,
            },
    {
        let mut state = match existing {
            Some(e) => e.clone(),
            None => State::from_set_plan(plan, None),
        };
        let ghost base = state.monitors;
        state.active_backend = plan.backend;
        state.mode = plan.media_kind;
        state.wallpaper = plan.wallpaper.clone();
        let all = str_eq(plan.monitor.as_str(), "all");
        if all {
            state.monitors.clear();
        }
        let ghost start = state.monitors;
        insert_entries(&mut state.monitors, plan.backend, plan.wallpaper.as_str(), &entries);
        if entries.len() == 0 {
            state.monitors.insert(
                plan.monitor.clone(),
                MonitorState { backend: plan.backend, wallpaper: plan.wallpaper.clone(), pid: None },
            );
        }
        state.updated_at = current_time();
        state
    }

    /// The plan that rebuilds this state on one monitor: the first recorded monitor, or `all`.
    pub fn single_monitor_plan(&self) -> (r: Result<SetPlan, String>)
        requires
            self.monitors.wf(),
        ensures
            r matches Ok(p) && p.wallpaper@ == self.wallpaper@ && p.media_kind == self.mode
                && p.backend == self.active_backend && p.monitor@ == if self.monitors.key_seq().len()
                > 0 {
                self.monitors.key_seq()[0]
            } else {
                "all"@
            },
    {
        let monitor = match self.monitors.first_key() {
            Some(m) => m,
            None => owned("all"),
        };
        Ok(
            SetPlan {
                wallpaper: self.wallpaper.clone(),
                media_kind: self.mode,
                backend: self.active_backend,
                monitor,
            },
        )
    }

    /// One plan per recorded monitor, in monitor order, each with that monitor's own backend and
    /// wallpaper (and the kind its backend shows); one plan for `all` with the state's wallpaper,
    /// kind and backend when no monitor is recorded.
    pub fn monitor_plans(&self) -> (r: Vec<SetPlan>)
        requires
            self.monitors.wf(),
        ensures
            monitor_plans_ok(*self, r@),
    {
        let mut plans: Vec<SetPlan> = Vec::new();
        if self.monitors.is_empty() {
            plans.push(
                SetPlan {
                    wallpaper: self.wallpaper.clone(),
                    media_kind: self.mode,
                    backend: self.active_backend,
                    monitor: owned("all"),
                },
            );
            return plans;
        }
        let mut i: usize = 0;
        while i < self.monitors.len()
            invariant
                self.monitors.wf(),
                0 <= i <= self.monitors.key_seq().len(),
                self.monitors.key_seq().len() > 0,
                plans@.len() == i,
                forall|j: int| 0 <= j < i ==> monitor_plan_ok(*self, j, #[trigger] plans@[j]),
            decreases self.monitors.key_seq().len() - i,
        {
            let m = self.monitors.value_at(i);
            plans.push(
                SetPlan {
                    wallpaper: m.wallpaper.clone(),
                    media_kind: kind_of_backend(m.backend),
                    backend: m.backend,
                    monitor: self.monitors.key_at(i).clone(),
                },
            );
            i += 1;
        }
        plans
    }

    /// Forgets the process of every `mpvpaper` monitor.
    pub fn clear_live_pids(&mut self)
        requires
            old(self).monitors.wf(),
        ensures
            cleared_where(
                old(self).monitors,
                final(self).monitors,
                |k: Seq<char>, m: MonitorState| m.backend == Backend::Mpvpaper,
            ),
            final(self).collections == old(self).collections,
            final(self).last_command == old(self).last_command,
            final(self).wallpaper == old(self).wallpaper,
            final(self).active_backend == old(self).active_backend,
            final(self).mode == old(self).mode,
            final(self).version == old(self).version,
    {
        clear_pids(&mut self.monitors, Backend::Mpvpaper, None);
        self.updated_at = current_time();
    }

    /// Forgets the process of the `mpvpaper` monitors named (all of them when `all` is named).
    pub fn clear_live_pids_for_monitors(&mut self, monitors: &[String])
        requires
            old(self).monitors.wf(),
        ensures
            cleared_where(
                old(self).monitors,
                final(self).monitors,
                |k: Seq<char>, m: MonitorState|
                    m.backend == Backend::Mpvpaper && (names_contain(texts(monitors@), "all"@)
                        || names_contain(texts(monitors@), k)),
            ),
            final(self).collections == old(self).collections,
            final(self).last_command == old(self).last_command,
            final(self).wallpaper == old(self).wallpaper,
            final(self).active_backend == old(self).active_backend,
            final(self).mode == old(self).mode,
            final(self).version == old(self).version,
    {
        self.clear_backend_pids_for_monitors(Backend::Mpvpaper, monitors);
    }

    /// Forgets the process of the monitors named that run `backend` (all of them when `all`
    /// is named).
    pub fn clear_backend_pids_for_monitors(&mut self, backend: Backend, monitors: &[String])
        requires
            old(self).monitors.wf(),
        ensures
            cleared_where(
                old(self).monitors,
                final(self).monitors,
                |k: Seq<char>, m: MonitorState|
                    m.backend == backend && (names_contain(texts(monitors@), "all"@)
                        || names_contain(texts(monitors@), k)),
            ),
            final(self).collections == old(self).collections,
            final(self).last_command == old(self).last_command,
            final(self).wallpaper == old(self).wallpaper,
            final(self).active_backend == old(self).active_backend,
            final(self).mode == old(self).mode,
            final(self).version == old(self).version,
    {
        let any_all = contains_name(monitors, "all");
        if any_all {
            clear_pids(&mut self.monitors, backend, None);
        } else {
            clear_pids(&mut self.monitors, backend, Some(monitors));
        }
        self.updated_at = current_time();
    }

    /// Records the last command that succeeded.
    pub fn record_last_command(&mut self, command: String)
        ensures
            final(self).last_command == Some(command),
            final(self).monitors == old(self).monitors,
            final(self).collections == old(self).collections,
            final(self).wallpaper == old(self).wallpaper,
            final(self).active_backend == old(self).active_backend,
            final(self).mode == old(self).mode,
            final(self).version == old(self).version,
    {
        self.last_command = Some(command);
        self.updated_at = current_time();
    }

    /// The state with its last command recorded.
    pub fn with_last_command(self, command: String) -> (s: State)
        ensures
            s.last_command == Some(command),
            s.monitors == self.monitors,
            s.collections == self.collections,
            s.wallpaper == self.wallpaper,
            s.active_backend == self.active_backend,
            s.mode == self.mode,
            s.version == self.version,
    {
        let mut s = self;
        s.record_last_command(command);
        s
    }

    /// Records that `wallpaper`, at `index`, was picked from `collection`; a shuffle also moves
    /// the wallpaper to the end of the shuffle history, where it then stands once.
    pub fn record_collection(&mut self, collection: &str, wallpaper: &str, index: usize, shuffled: bool)
        requires
            old(self).collections.wf(),
        ensures
            final(self).collections.wf(),
            final(self).collections.has(collection@),
            forall|q: Seq<char>|
                q != collection@ ==> final(self).collections.has(q) == old(self).collections.has(q)
                    && final(self).collections.lookup(q) == old(self).collections.lookup(q),
            ({
                let before = match old(self).collections.lookup(collection@) {
                    Some(c) => texts(c.shuffle_history@),
                    None => Seq::<Seq<char>>::empty(),
                };
                let c = final(self).collections.lookup(collection@).unwrap();
                &&& c.last_index == Some(index)
                &&& c.last_wallpaper matches Some(w) && w@ == wallpaper@
                &&& texts(c.shuffle_history@) == if shuffled {
                    without(before, wallpaper@).push(wallpaper@)
                } else {
                    before
                }
                &&& no_duplicates(before) ==> no_duplicates(texts(c.shuffle_history@))
            }),
            final(self).monitors == old(self).monitors,
            final(self).last_command == old(self).last_command,
            final(self).wallpaper == old(self).wallpaper,
            final(self).active_backend == old(self).active_backend,
            final(self).mode == old(self).mode,
            final(self).version == old(self).version,
    {
        let entry = match self.collections.get(collection) {
            Some(c) => c.clone(),
            None => CollectionState::default(),
        };
        let ghost before = texts(entry.shuffle_history@);
        let mut history: Vec<String> = Vec::new();
        if shuffled {
            let mut i: usize = 0;
            while i < entry.shuffle_history.len()
                invariant
                    0 <= i <= entry.shuffle_history@.len(),
                    before == texts(entry.shuffle_history@),
                    texts(history@) == without(before.take(i as int), wallpaper@),
                decreases entry.shuffle_history.len() - i,
            {
                assert(before.take(i + 1).drop_last() == before.take(i as int));
                if !str_eq(entry.shuffle_history[i].as_str(), wallpaper) {
                    history.push(entry.shuffle_history[i].clone());
                    assert(texts(history@) =~= without(before.take(i as int), wallpaper@).push(
                        before[i as int],
                    ));
                } else {
                    assert(without(before.take(i as int), wallpaper@) + Seq::<Seq<char>>::empty()
                        =~= without(before.take(i as int), wallpaper@));
                }
                i += 1;
            }
            assert(before.take(before.len() as int) == before);
            let ghost w = texts(history@);
            history.push(owned(wallpaper));
            assert(texts(history@) =~= w.push(wallpaper@));
            proof {
                lemma_without(before, wallpaper@);
                let r = texts(history@);
                if no_duplicates(before) {
                    assert forall|i: int, j: int| 0 <= i < j < r.len() implies r[i] != r[j] by {
                        if j == r.len() - 1 {
                            assert(r[i] == w[i]);
                            if w[i] == wallpaper@ {
                                assert(names_contain(w, wallpaper@));
                            }
                        } else {
                            assert(r[i] == w[i] && r[j] == w[j]);
                        }
                    }
                }
            }
        } else {
            history = entry.shuffle_history;
        }
        let updated = CollectionState {
            last_index: Some(index),
            last_wallpaper: Some(owned(wallpaper)),
            shuffle_history: history,
        };
        self.collections.insert(owned(collection), updated);
        self.updated_at = current_time();
    }
}

impl Clone for State {
    fn clone(&self) -> (r: Self)
        ensures
            r.version == self.version,
            r.active_backend == self.active_backend,
            r.mode == self.mode,
            r.wallpaper == self.wallpaper,
            r.last_command == self.last_command,
            r.monitors.key_seq() == self.monitors.key_seq(),
            r.monitors.val_seq() == self.monitors.val_seq(),
            self.monitors.wf() ==> r.monitors.wf(),
            r.collections.key_seq() == self.collections.key_seq(),
            r.collections.val_seq().len() == self.collections.val_seq().len(),
            forall|i: int|
                0 <= i < self.collections.val_seq().len() ==> same_progress(
                    #[trigger] r.collections.val_seq()[i],
                    self.collections.val_seq()[i],
                ),
            self.collections.wf() ==> r.collections.wf(),
    {
        let monitors = self.monitors.clone();
        let collections = self.collections.clone();
        proof {
            assert(monitors.val_seq() =~= self.monitors.val_seq()) by {
                assert forall|i: int| 0 <= i < monitors.val_seq().len() implies monitors.val_seq()[i]
                    == self.monitors.val_seq()[i] by {
                    assert(cloned::<MonitorState>(self.monitors.val_seq()[i], monitors.val_seq()[i]));
                }
            }
            assert forall|i: int| 0 <= i < self.collections.val_seq().len() implies same_progress(
                #[trigger] collections.val_seq()[i],
                self.collections.val_seq()[i],
            ) by {
                assert(cloned::<CollectionState>(self.collections.val_seq()[i], collections.val_seq()[i]));
            }
        }
        State {
            version: self.version,
            active_backend: self.active_backend,
            mode: self.mode,
            wallpaper: self.wallpaper.clone(),
            monitors,
            collections,
            last_command: match &self.last_command {
                Some(c) => Some(c.clone()),
                None => None,
            },
            updated_at: self.updated_at,
        }
    }
}

/// Whether `name` is one of `names`.
pub fn contains_name(names: &[String], name: &str) -> (r: bool)
    ensures
        r == names_contain(texts(names@), name@),
{
    let mut i: usize = 0;
    while i < names.len()
        invariant
            0 <= i <= names@.len(),
            forall|j: int| 0 <= j < i ==> names@[j]@ != name@,
        decreases names.len() - i,
    {
        if str_eq(names[i].as_str(), name) {
            assert(texts(names@)[i as int] == name@);
            return true;
        }
        i += 1;
    }
    assert forall|j: int| 0 <= j < texts(names@).len() implies texts(names@)[j] != name@ by {}
    false
}

/// Inserts each `(monitor, pid)` entry, in order, as a monitor on `backend` showing `wallpaper`.
fn insert_entries(
    m: &mut StrMap<MonitorState>,
    backend: Backend,
    wallpaper: &str,
    entries: &Vec<(String, Option<u32>)>,
)
    requires
        old(m).wf(),
    ensures
        final(m).wf(),
        forall|k: Seq<char>|
            #![trigger final(m).has(k)]
            {
                let e = entry_pid(entry_texts(entries@), k);
                &&& final(m).has(k) <==> (e is Some || old(m).has(k))
                &&& e is Some ==> entry_is(final(m).lookup(k).unwrap(), backend, wallpaper@, e.unwrap())
                &&& e is None ==> final(m).lookup(k) == old(m).lookup(k)
            },
{
    let ghost start = *m;
    let mut i: usize = 0;
    while i < entries.len()
        invariant
            m.wf(),
            0 <= i <= entries@.len(),
            forall|k: Seq<char>|
                #![trigger m.has(k)]
                {
                    let e = entry_pid(entry_texts(entries@).take(i as int), k);
                    &&& m.has(k) <==> (e is Some || start.has(k))
                    &&& e is Some ==> entry_is(m.lookup(k).unwrap(), backend, wallpaper@, e.unwrap())
                    &&& e is None ==> m.lookup(k) == start.lookup(k)
                },
        decreases entries.len() - i,
    {
        let (name, pid) = (&entries[i].0, entries[i].1);
        let ghost t = entry_texts(entries@);
        assert(t.take(i + 1).drop_last() == t.take(i as int));
        assert(t.take(i + 1).last() == (name@, pid));
        m.insert(name.clone(), MonitorState { backend, wallpaper: owned(wallpaper), pid });
        i += 1;
    }
    assert(entry_texts(entries@).take(entries@.len() as int) == entry_texts(entries@));
}

/// Drops the process of each monitor running `backend` whose name is listed (every such
/// monitor when `names` is `None`).
fn clear_pids(m: &mut StrMap<MonitorState>, backend: Backend, names: Option<&[String]>)
    requires
        old(m).wf(),
    ensures
        cleared_where(
            *old(m),
            *final(m),
            |k: Seq<char>, s: MonitorState|
                s.backend == backend && match names {
                    Some(ns) => names_contain(texts(ns@), k),
                    None => true,
                },
        ),
{
    let ghost start = *m;
    let ghost hit = |k: Seq<char>, s: MonitorState|
        s.backend == backend && match names {
            Some(ns) => names_contain(texts(ns@), k),
            None => true,
        };
    let mut i: usize = 0;
    while i < m.len()
        invariant
            m.wf(),
            m.key_seq() == start.key_seq(),
            start.wf(),
            0 <= i <= start.key_seq().len(),
            hit == (|k: Seq<char>, s: MonitorState|
                s.backend == backend && match names {
                    Some(ns) => names_contain(texts(ns@), k),
                    None => true,
                }),
            forall|j: int| i <= j < start.key_seq().len() ==> #[trigger] m.val_seq()[j] == start.val_seq()[j],
            forall|j: int|
                0 <= j < i ==> {
                    let o = start.val_seq()[j];
                    let n = #[trigger] m.val_seq()[j];
                    n.backend == o.backend && n.wallpaper@ == o.wallpaper@ && n.pid == if hit(
                        start.key_seq()[j],
                        o,
                    ) {
                        None
                    } else {
                        o.pid
                    }
                },
        decreases start.key_seq().len() - i,
    {
        proof {
            m.lemma_len();
            start.lemma_len();
        }
        let cur = m.value_at(i);
        let listed = match names {
            Some(ns) => contains_name(ns, m.key_at(i).as_str()),
            None => true,
        };
        if cur.backend == backend && listed {
            let updated = MonitorState { backend: cur.backend, wallpaper: cur.wallpaper.clone(), pid: None };
            m.set_value_at(i, updated);
        }
        i += 1;
    }
}

} // verus!
