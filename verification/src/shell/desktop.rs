//! What the picker decides while browsing: whether the selected wallpaper is shown on the
//! desktop, how a move animates, where a preview `mpvpaper` listens, which processes stand in a
//! preview's way, and which wallpaper is selected first.
use vstd::prelude::*;
use crate::backends::model::Backend;
use crate::cli::{targeted_pids, owned_backend_pids_for_monitors, sorted_unique, increasing, sanitized, ipc_socket_path};
use crate::media::MediaKind;
use crate::orchestrator::SetPlan;
use crate::path::{path_eq, paths_equal, join, path_join};
use crate::shell::model::WallpaperItem;
use crate::shell::state::{ShellState, remembered_index_spec};
use crate::state::State;
use crate::text::{texts, owned, decimal, decimal_string, cat, cat3, str_eq};

verus! {

// ---------------------------------------------------------------------------
// Desktop previews
// ---------------------------------------------------------------------------

/// How long a static desktop preview waits for browsing to settle.
pub const STATIC_DESKTOP_PREVIEW_DEBOUNCE_MS: u64 = 120;

/// How long a live desktop preview waits for browsing to settle.
pub const LIVE_DESKTOP_PREVIEW_DEBOUNCE_MS: u64 = 700;

/// Two optional paths name the same file, compared as paths.
pub open spec fn same_path(a: Option<Seq<char>>, b: Seq<char>) -> bool {
    a matches Some(x) && path_eq(x, b)
}

pub open spec fn opt_text(a: Option<&str>) -> Option<Seq<char>> {
    match a {
        Some(s) => Some(s@),
        None => None,
    }
}

/// A desktop preview of `target` is asked for unless it is already pending, or it is already
/// shown and nothing else is pending.
pub open spec fn should_request_spec(current: Option<Seq<char>>, pending: Option<Seq<char>>, target: Seq<char>) -> bool {
    if same_path(pending, target) {
        false
    } else {
        !same_path(current, target) || pending is Some
    }
}

fn same_path_exec(a: Option<&str>, b: &str) -> (r: bool)
    ensures
        r == same_path(opt_text(a), b@),
{
    match a {
        Some(x) => paths_equal(x, b),
        None => false,
    }
}

pub fn should_request_desktop_preview(current: Option<&str>, pending: Option<&str>, target: &str) -> (r: bool)
    ensures
        r == should_request_spec(opt_text(current), opt_text(pending), target@),
{
    if same_path_exec(pending, target) {
        return false;
    }
    !same_path_exec(current, target) || pending.is_some()
}

/// A request to show a wallpaper on the desktop while browsing; `generation` orders the
/// requests, so that a worker drops those overtaken by a newer one.
#[derive(Debug)]
pub struct DesktopPreviewJob {
    pub path: String,
    pub monitor: String,
    pub generation: u64,
    pub debounce_ms: u64,
    pub is_live: bool,
}

/// Browsing asks for a desktop preview: previews are on, a wallpaper is selected, and the
/// request would not repeat (see `should_request_spec`).
pub open spec fn wants_preview(
    no_live_preview: bool,
    selected: Option<&WallpaperItem>,
    current: Option<&str>,
    pending: Option<&str>,
) -> bool {
    !no_live_preview && selected is Some && should_request_spec(
        opt_text(current),
        opt_text(pending),
        selected.unwrap().path@,
    )
}

/// The job for `item` on `monitor`: one generation on, waiting longer for a live wallpaper.
pub open spec fn job_for(j: DesktopPreviewJob, item: WallpaperItem, monitor: Seq<char>, generation: u64) -> bool {
    &&& j.path@ == item.path@
    &&& j.monitor@ == monitor
    &&& j.generation == generation + 1
    &&& j.is_live == (item.kind == MediaKind::Live)
    &&& j.debounce_ms == if item.kind == MediaKind::Live {
        LIVE_DESKTOP_PREVIEW_DEBOUNCE_MS
    } else {
        STATIC_DESKTOP_PREVIEW_DEBOUNCE_MS
    }
}

/// The desktop preview that the selection asks for: none when previews are off, nothing is
/// selected, or the request would repeat (see `should_request_spec`); else the selected
/// wallpaper on `monitor`, one generation on, waiting longer for a live wallpaper.
pub fn desktop_preview_request(
    no_live_preview: bool,
    selected: Option<&WallpaperItem>,
    current: Option<&str>,
    pending: Option<&str>,
    generation: u64,
    monitor: &str,
) -> (r: Option<DesktopPreviewJob>)
    requires
        generation < u64::MAX,
    ensures
        wants_preview(no_live_preview, selected, current, pending) ==> (r matches Some(j) && job_for(
            j,
            *selected.unwrap(),
            monitor@,
            generation,
        )),
        !wants_preview(no_live_preview, selected, current, pending) ==> r is None,
{
    if no_live_preview {
        return None;
    }
    let item = match selected {
        Some(i) => i,
        None => {
            return None;
        },
    };
    let is_live = item.is_live();
    let debounce_ms = if is_live {
        LIVE_DESKTOP_PREVIEW_DEBOUNCE_MS
    } else {
        STATIC_DESKTOP_PREVIEW_DEBOUNCE_MS
    };
    if !should_request_desktop_preview(current, pending, item.path.as_str()) {
        return None;
    }
    Some(
        DesktopPreviewJob {
            path: item.path.clone(),
            monitor: owned(monitor),
            generation: generation + 1,
            debounce_ms,
            is_live,
        },
    )
}

/// Closing the picker without applying puts back the wallpaper shown before browsing, when
/// there was one and the desktop now shows something else.
pub fn needs_restore(before_browsing: Option<&str>, current_preview: Option<&str>) -> (r: bool)
    ensures
        r == match before_browsing {
            Some(o) => !(match current_preview {
                Some(c) => path_eq(c@, o@),
                None => false,
            }),
            None => false,
        },
{
    match before_browsing {
        Some(o) => !same_path_exec(current_preview, o),
        None => false,
    }
}

// ---------------------------------------------------------------------------
// Navigation
// ---------------------------------------------------------------------------

/// Moves in the same direction within this many milliseconds snap instead of animating.
pub const NAV_REPEAT_SNAP_MS: u64 = 110;

/// The frames a move animates over.
pub const NAV_ANIMATION_FRAMES: u8 = 10;

/// A move through the carousel: its direction, and how long ago it was made (in nanoseconds).
#[derive(Debug, Clone, Copy, PartialEq, Eq, Structural)]
pub struct NavigationInput {
    pub direction: isize,
    pub elapsed_nanos: u128,
}

/// A repeated move in the same direction, soon after the last, snaps.
pub open spec fn snaps(last: Option<NavigationInput>, direction: int) -> bool {
    last matches Some(l) && l.direction == direction && l.elapsed_nanos <= NAV_REPEAT_SNAP_MS * 1_000_000
}

pub fn should_snap_repeated_navigation(last: Option<NavigationInput>, direction: isize) -> (r: bool)
    ensures
        r == snaps(last, direction as int),
{
    match last {
        Some(l) => l.direction == direction && l.elapsed_nanos <= (NAV_REPEAT_SNAP_MS as u128) * 1_000_000,
        None => false,
    }
}

/// How a move animates: the frames left, its direction, and the card it leaves.
#[derive(Debug, Clone, Copy, PartialEq, Eq, Structural)]
pub struct NavigationAnimation {
    pub frame: u8,
    pub direction: isize,
    pub previous_selected: Option<usize>,
}

pub open spec fn signum(d: isize) -> int {
    if d > 0 {
        1
    } else if d < 0 {
        -1
    } else {
        0
    }
}

/// A move by `delta` from `previous`: it snaps (no frames, no card left behind) when it repeats
/// the last move soon enough, else it animates over the full frames from the card it leaves.
pub fn start_navigation_animation(last: Option<NavigationInput>, previous: usize, delta: isize) -> (r:
    NavigationAnimation)
    ensures
        r.direction == signum(delta),
        snaps(last, signum(delta)) ==> r.frame == 0 && r.previous_selected is None,
        !snaps(last, signum(delta)) ==> r.frame == NAV_ANIMATION_FRAMES && r.previous_selected == Some(previous),
{
    let direction: isize = if delta > 0 {
        1
    } else if delta < 0 {
        -1
    } else {
        0
    };
    if should_snap_repeated_navigation(last, direction) {
        NavigationAnimation { frame: 0, direction, previous_selected: None }
    } else {
        NavigationAnimation { frame: NAV_ANIMATION_FRAMES, direction, previous_selected: Some(previous) }
    }
}

/// The wallpaper a move selects: one back for a negative `delta`, else one on, wrapping around.
pub open spec fn moved_spec(len: int, selected: int, delta: int) -> int {
    if delta < 0 {
        (selected + len - 1) % len
    } else {
        (selected + 1) % len
    }
}

pub fn moved_selection(len: usize, selected: usize, delta: isize) -> (r: usize)
    requires
        len > 0,
        selected + len <= usize::MAX,
    ensures
        r as int == moved_spec(len as int, selected as int, delta as int),
        r < len,
{
    if delta < 0 {
        (selected + len - 1) % len
    } else {
        (selected + 1) % len
    }
}

/// Moving one on and then one back (or back and then on) returns to the selected wallpaper.
pub proof fn lemma_move_round_trip(len: int, selected: int)
    requires
        0 <= selected < len,
    ensures
        moved_spec(len, moved_spec(len, selected, 1), -1) == selected,
        moved_spec(len, moved_spec(len, selected, -1), 1) == selected,
{
    if selected + 1 < len {
        vstd::arithmetic::div_mod::lemma_small_mod((selected + 1) as nat, len as nat);
        vstd::arithmetic::div_mod::lemma_mod_add_multiples_vanish(selected, len);
        vstd::arithmetic::div_mod::lemma_small_mod(selected as nat, len as nat);
    } else {
        vstd::arithmetic::div_mod::lemma_mod_self_0(len);
        vstd::arithmetic::div_mod::lemma_small_mod((len - 1) as nat, len as nat);
    }
    if selected > 0 {
        vstd::arithmetic::div_mod::lemma_mod_add_multiples_vanish(selected - 1, len);
        vstd::arithmetic::div_mod::lemma_small_mod((selected - 1) as nat, len as nat);
        vstd::arithmetic::div_mod::lemma_small_mod(selected as nat, len as nat);
    } else {
        vstd::arithmetic::div_mod::lemma_small_mod((len - 1) as nat, len as nat);
        vstd::arithmetic::div_mod::lemma_mod_self_0(len);
    }
}

/// The wallpaper a shuffle selects: none in a folder of fewer than two; else the one `nanos`
/// (the sub-second part of the clock) names, moved one on when it is the selected one.
pub open spec fn shuffled_spec(len: int, selected: int, nanos: u32) -> Option<int> {
    if len <= 1 {
        None
    } else {
        let i = ((nanos as usize) as int) % len;
        if i == selected {
            Some((i + 1) % len)
        } else {
            Some(i)
        }
    }
}

pub fn shuffled_selection(len: usize, selected: usize, nanos: u32) -> (r: Option<usize>)
    ensures
        match r {
            Some(i) => shuffled_spec(len as int, selected as int, nanos) == Some(i as int) && i < len,
            None => shuffled_spec(len as int, selected as int, nanos) is None,
        },
{
    if len <= 1 {
        return None;
    }
    let mut i = (nanos as usize) % len;
    if i == selected {
        i = (i + 1) % len;
    }
    Some(i)
}

/// After a folder is scanned again, the selection stays where it was, within the new listing.
pub fn rescanned_selection(selected: usize, len: usize) -> (r: usize)
    ensures
        r == if len == 0 {
            0
        } else if selected < len {
            selected
        } else {
            (len - 1) as usize
        },
{
    let last = if len == 0 {
        0
    } else {
        len - 1
    };
    if selected < last {
        selected
    } else {
        last
    }
}

// ---------------------------------------------------------------------------
// Preview processes
// ---------------------------------------------------------------------------

/// `<temp>/jobowalls-shell-mpvpaper-<process id>-<monitor>-<nanoseconds>.sock`.
pub open spec fn preview_socket_spec(temp_dir: Seq<char>, process_id: u32, monitor: Seq<char>, now_nanos: u128) -> Seq<char> {
    join(
        temp_dir,
        "jobowalls-shell-mpvpaper"@ + "-"@ + decimal(process_id as nat) + "-"@ + sanitized(monitor) + "-"@
            + decimal(now_nanos as nat) + ".sock"@,
    )
}

/// Where the preview `mpvpaper` for `plan` listens: a socket in `temp_dir` named after this
/// process, the plan's monitor (every character but ASCII letters, digits, `-` and `_` replaced
/// by `_`) and the time (in nanoseconds since the epoch).
pub fn mpvpaper_preview_ipc_socket(plan: &SetPlan, temp_dir: &str, process_id: u32, now_nanos: u128) -> (r: String)
    ensures
        r@ == preview_socket_spec(temp_dir@, process_id, plan.monitor@, now_nanos),
{
    ipc_socket_path(temp_dir, "jobowalls-shell-mpvpaper", process_id, plan.monitor.as_str(), now_nanos)
}

/// Where waiting for a preview `mpvpaper` stands after one look at it.
#[derive(Debug, PartialEq, Eq)]
pub enum PreviewWait {
    Ready,
    Waiting,
    Failed(String),
}

/// One look at a preview `mpvpaper` started on `ipc_socket`: gone is a failure; video shown is
/// ready; a socket that does not answer fails once the deadline had passed when it was asked
/// (`expired_at_probe`); otherwise the wait goes on until the deadline (`expired_after`).
pub open spec fn preview_ready_spec(
    pid: u32,
    ipc_socket: Seq<char>,
    running: bool,
    probe: Result<bool, Seq<char>>,
    expired_at_probe: bool,
    expired_after: bool,
) -> Result<bool, Seq<char>> {
    if !running {
        Err("mpvpaper pid "@ + decimal(pid as nat) + " exited before reporting readiness"@)
    } else {
        match probe {
            Ok(true) => Ok(true),
            Err(e) if expired_at_probe => Err("failed to query mpv IPC "@ + ipc_socket + ": "@ + e),
            _ => if expired_after {
                Err("timed out waiting for mpv video output on pid "@ + decimal(pid as nat))
            } else {
                Ok(false)
            },
        }
    }
}

pub open spec fn wait_view(w: PreviewWait) -> Result<bool, Seq<char>> {
    match w {
        PreviewWait::Ready => Ok(true),
        PreviewWait::Waiting => Ok(false),
        PreviewWait::Failed(m) => Err(m@),
    }
}

pub open spec fn probe_view<T>(p: Result<T, String>) -> Result<T, Seq<char>> {
    match p {
        Ok(x) => Ok(x),
        Err(e) => Err(e@),
    }
}

pub fn preview_ready_step(
    pid: u32,
    ipc_socket: &str,
    running: bool,
    probe: Result<bool, String>,
    expired_at_probe: bool,
    expired_after: bool,
) -> (r: PreviewWait)
    ensures
        wait_view(r) == preview_ready_spec(pid, ipc_socket@, running, probe_view(probe), expired_at_probe, expired_after),
{
    if !running {
        let a = cat3("mpvpaper pid ", decimal_string(pid as u64).as_str(), " exited before reporting readiness");
        return PreviewWait::Failed(a);
    }
    match probe {
        Ok(true) => {
            return PreviewWait::Ready;
        },
        Err(e) => {
            if expired_at_probe {
                let a = cat3("failed to query mpv IPC ", ipc_socket, ": ");
                return PreviewWait::Failed(cat(a.as_str(), e.as_str()));
            }
        },
        Ok(false) => {},
    }
    if expired_after {
        PreviewWait::Failed(cat("timed out waiting for mpv video output on pid ", decimal_string(pid as u64).as_str()))
    } else {
        PreviewWait::Waiting
    }
}

/// One look at a reused preview `mpvpaper` asked to load `path`: gone is a failure; the path
/// loaded and video shown is ready; a query that failed once the deadline had passed when it
/// was asked is a failure (the path's query's error first); otherwise the wait goes on until the
/// deadline.
pub open spec fn preview_path_spec(
    pid: u32,
    ipc_socket: Seq<char>,
    path: Seq<char>,
    running: bool,
    current_path: Result<Option<Seq<char>>, Seq<char>>,
    has_video: Result<bool, Seq<char>>,
    expired_at_probe: bool,
    expired_after: bool,
) -> Result<bool, Seq<char>> {
    if !running {
        Err("mpvpaper pid "@ + decimal(pid as nat) + " exited before loading "@ + path)
    } else if current_path == Ok::<Option<Seq<char>>, Seq<char>>(Some(path)) && has_video == Ok::<bool, Seq<char>>(true) {
        Ok(true)
    } else if expired_at_probe && current_path is Err {
        Err("failed to query mpv IPC "@ + ipc_socket + ": "@ + current_path->Err_0)
    } else if expired_at_probe && has_video is Err {
        Err("failed to query mpv IPC "@ + ipc_socket + ": "@ + has_video->Err_0)
    } else if expired_after {
        Err("timed out waiting for mpvpaper pid "@ + decimal(pid as nat) + " to load "@ + path)
    } else {
        Ok(false)
    }
}

pub open spec fn opt_path_view(p: Result<Option<String>, String>) -> Result<Option<Seq<char>>, Seq<char>> {
    match p {
        Ok(Some(s)) => Ok(Some(s@)),
        Ok(None) => Ok(None),
        Err(e) => Err(e@),
    }
}

pub fn preview_path_step(
    pid: u32,
    ipc_socket: &str,
    path: &str,
    running: bool,
    current_path: Result<Option<String>, String>,
    has_video: Result<bool, String>,
    expired_at_probe: bool,
    expired_after: bool,
) -> (r: PreviewWait)
    ensures
        wait_view(r) == preview_path_spec(
            pid,
            ipc_socket@,
            path@,
            running,
            opt_path_view(current_path),
            probe_view(has_video),
            expired_at_probe,
            expired_after,
        ),
{
    if !running {
        let a = cat3("mpvpaper pid ", decimal_string(pid as u64).as_str(), " exited before loading ");
        return PreviewWait::Failed(cat(a.as_str(), path));
    }
    let loaded = match &current_path {
        Ok(Some(p)) => str_eq(p.as_str(), path),
        _ => false,
    };
    let video = match &has_video {
        Ok(v) => *v,
        Err(_) => false,
    };
    if loaded && video {
        return PreviewWait::Ready;
    }
    if expired_at_probe {
        match &current_path {
            Err(e) => {
                let a = cat3("failed to query mpv IPC ", ipc_socket, ": ");
                return PreviewWait::Failed(cat(a.as_str(), e.as_str()));
            },
            _ => {},
        }
        match &has_video {
            Err(e) => {
                let a = cat3("failed to query mpv IPC ", ipc_socket, ": ");
                return PreviewWait::Failed(cat(a.as_str(), e.as_str()));
            },
            _ => {},
        }
    }
    if expired_after {
        let a = cat3("timed out waiting for mpvpaper pid ", decimal_string(pid as u64).as_str(), " to load ");
        PreviewWait::Failed(cat(a.as_str(), path))
    } else {
        PreviewWait::Waiting
    }
}

/// The processes the saved state records for `monitor` (for every monitor when it is `all`) on
/// `backend`, in monitor order.
pub open spec fn monitor_pids(state: State, backend: Backend, monitor: Seq<char>) -> Seq<u32> {
    targeted_pids(state.monitors, backend, seq![monitor])
}

fn pids_for_monitor(state: &State, backend: Backend, monitor: &str) -> (r: Vec<u32>)
    requires
        state.monitors.wf(),
    ensures
        r@ == monitor_pids(*state, backend, monitor@),
{
    let mut names: Vec<String> = Vec::new();
    names.push(owned(monitor));
    assert(texts(names@) =~= seq![monitor@]);
    owned_backend_pids_for_monitors(state, backend, names.as_slice())
}

/// The `swaybg` processes the saved state records for `monitor`.
pub fn state_swaybg_pids_for_monitor(state: &State, monitor: &str) -> (r: Vec<u32>)
    requires
        state.monitors.wf(),
    ensures
        r@ == monitor_pids(*state, Backend::Swaybg, monitor@),
{
    pids_for_monitor(state, Backend::Swaybg, monitor)
}

/// The `mpvpaper` processes the saved state records for `monitor`.
pub fn state_live_pids_for_monitor(state: &State, monitor: &str) -> (r: Vec<u32>)
    requires
        state.monitors.wf(),
    ensures
        r@ == monitor_pids(*state, Backend::Mpvpaper, monitor@),
{
    pids_for_monitor(state, Backend::Mpvpaper, monitor)
}

/// The live processes a desktop preview on `monitor` retires: those the saved state (when it
/// could be read) records there, sorted, each once.
pub fn blocking_live_pids(state: Option<&State>, monitor: &str) -> (r: Vec<u32>)
    requires
        state matches Some(s) ==> s.monitors.wf(),
    ensures
        increasing(r@),
        forall|x: u32|
            r@.contains(x) <==> (state matches Some(s) && monitor_pids(*s, Backend::Mpvpaper, monitor@).contains(x)),
{
    match state {
        Some(s) => sorted_unique(&state_live_pids_for_monitor(s, monitor)),
        None => Vec::new(),
    }
}

/// The `swaybg` processes a live preview on `monitor` retires: those the saved state (when it
/// could be read) records there, and those showing Omarchy's current background, sorted, each
/// once.
pub fn blocking_swaybg_pids(state: Option<&State>, monitor: &str, omarchy: &[u32]) -> (r: Vec<u32>)
    requires
        state matches Some(s) ==> s.monitors.wf(),
    ensures
        increasing(r@),
        forall|x: u32|
            r@.contains(x) <==> ((state matches Some(s) && monitor_pids(*s, Backend::Swaybg, monitor@).contains(x))
                || omarchy@.contains(x)),
{
    let mut pids: Vec<u32> = match state {
        Some(s) => state_swaybg_pids_for_monitor(s, monitor),
        None => Vec::new(),
    };
    let ghost recorded = pids@;
    let mut i: usize = 0;
    while i < omarchy.len()
        invariant
            0 <= i <= omarchy@.len(),
            pids@ == recorded + omarchy@.take(i as int),
        decreases omarchy.len() - i,
    {
        pids.push(omarchy[i]);
        assert(omarchy@.take(i + 1) =~= omarchy@.take(i as int).push(omarchy@[i as int]));
        i += 1;
    }
    assert(omarchy@.take(omarchy@.len() as int) =~= omarchy@);
    let r = sorted_unique(&pids);
    assert forall|x: u32| r@.contains(x) <==> (recorded.contains(x) || omarchy@.contains(x)) by {
        if pids@.contains(x) {
            let k = choose|k: int| 0 <= k < pids@.len() && pids@[k] == x;
            if k < recorded.len() {
                assert(recorded[k] == x);
            } else {
                assert(omarchy@[k - recorded.len()] == x);
            }
        }
        if recorded.contains(x) {
            let k = choose|k: int| 0 <= k < recorded.len() && recorded[k] == x;
            assert(pids@[k] == x);
        }
        if omarchy@.contains(x) {
            let k = choose|k: int| 0 <= k < omarchy@.len() && omarchy@[k] == x;
            assert(pids@[recorded.len() + k] == x);
        }
    }
    r
}

// ---------------------------------------------------------------------------
// First selection
// ---------------------------------------------------------------------------

/// Some wallpaper is (as a path) the one the desktop shows.
pub open spec fn shows(items: Seq<WallpaperItem>, active: Seq<char>) -> bool {
    exists|i: int| 0 <= i < items.len() && path_eq(#[trigger] items[i].path@, active)
}

/// The first wallpaper that is (as a path) the one the desktop shows, when there is one.
pub open spec fn first_showing(items: Seq<WallpaperItem>, active: Seq<char>, i: int) -> bool {
    &&& 0 <= i < items.len()
    &&& path_eq(items[i].path@, active)
    &&& forall|j: int| 0 <= j < i ==> !path_eq(#[trigger] items[j].path@, active)
}

/// Where the picker opens: on the wallpaper the desktop shows (as the saved state records it)
/// when it is in the folder, else at the position remembered for the folder.
pub fn initial_selection(items: &[WallpaperItem], active: Option<&str>, folder: &str, shell_state: &ShellState) -> (r:
    usize)
    requires
        shell_state.last_index_by_folder.wf(),
    ensures
        items@.len() == 0 ==> r == 0,
        items@.len() > 0 && active is Some && shows(items@, active.unwrap()@) ==> first_showing(
            items@,
            active.unwrap()@,
            r as int,
        ),
        items@.len() > 0 && !(active is Some && shows(items@, active.unwrap()@)) ==> r
            == remembered_index_spec(shell_state.last_index_by_folder, folder@, items@.len() as usize),
{
    if items.len() == 0 {
        return 0;
    }
    if let Some(a) = active {
        let mut i: usize = 0;
        while i < items.len()
            invariant
                active == Some(a),
                0 <= i <= items@.len(),
                forall|j: int| 0 <= j < i ==> !path_eq(#[trigger] items@[j].path@, a@),
            decreases items.len() - i,
        {
            if paths_equal(items[i].path.as_str(), a) {
                assert(shows(items@, a@));
                return i;
            }
            i += 1;
        }
        assert(!shows(items@, a@));
    }
    shell_state.remembered_index(folder, items.len())
}

} // verus!
