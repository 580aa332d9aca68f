//! The picker's desktop-preview worker: which request it shows, once browsing has paused, and
//! how it shows a live wallpaper (reusing the `mpvpaper` it already runs when it can).
//!
//! Both are step functions: a runner performs each action and answers with the event it
//! produced.
use vstd::prelude::*;
use crate::backends::model::Backend;
use crate::backends::mpvpaper::{mpv_options_spec, start_command_with_ipc};
use crate::backends::swaybg;
use crate::command::CommandSpec;
use crate::config::MpvpaperConfig;
use crate::media::MediaKind;
use crate::orchestrator::SetPlan;
use crate::shell::desktop::DesktopPreviewJob;
use crate::text::{texts, cat, cat3};

verus! {

// ---------------------------------------------------------------------------
// Debouncing requests
// ---------------------------------------------------------------------------

/// What the worker heard while waiting.
#[derive(Debug)]
pub enum PreviewWorkerEvent {
    /// A new request.
    Request(DesktopPreviewJob),
    /// The picker asks to stop every preview (it closes or restores).
    Stop,
    /// Nothing came within the wait.
    Quiet,
    /// The picker is gone.
    Closed,
}

/// What the worker does next.
#[derive(Debug)]
pub enum PreviewWorkerAction {
    /// Wait this many milliseconds for a newer request.
    Wait(u64),
    /// Stop the live and the static preview, tell the picker, and wait for a request.
    StopPreviews,
    /// Show this request on the desktop, report the outcome, and wait for a request.
    Apply(DesktopPreviewJob),
    /// Wait, without limit, for a request.
    Idle,
    /// Stop the live and the static preview and end.
    Exit,
}

/// One step of the worker, `pending` being the request it waits to show: a request replaces
/// the pending one and starts its own wait (so fast scrolling shows only where it stops); a
/// stop drops the pending request and ends both previews; a wait that passes quietly shows the
/// pending request; a closed channel ends the worker.
pub fn preview_worker_step(pending: Option<DesktopPreviewJob>, event: PreviewWorkerEvent) -> (r: (
    Option<DesktopPreviewJob>,
    PreviewWorkerAction,
))
    ensures
        event matches PreviewWorkerEvent::Request(j) ==> r.0 == Some(j) && r.1 == PreviewWorkerAction::Wait(
            j.debounce_ms,
        ),
        event is Stop ==> r.0 is None && r.1 is StopPreviews,
        event is Quiet ==> r.0 is None && (pending matches Some(j) ==> r.1 == PreviewWorkerAction::Apply(j))
            && (pending is None ==> r.1 is Idle),
        event is Closed ==> r.0 is None && r.1 is Exit,
{
    match event {
        PreviewWorkerEvent::Request(j) => {
            let wait = j.debounce_ms;
            (Some(j), PreviewWorkerAction::Wait(wait))
        },
        PreviewWorkerEvent::Stop => (None, PreviewWorkerAction::StopPreviews),
        PreviewWorkerEvent::Quiet => match pending {
            Some(j) => (None, PreviewWorkerAction::Apply(j)),
            None => (None, PreviewWorkerAction::Idle),
        },
        PreviewWorkerEvent::Closed => (None, PreviewWorkerAction::Exit),
    }
}

// ---------------------------------------------------------------------------
// Showing a live wallpaper
// ---------------------------------------------------------------------------

/// The preview `mpvpaper` the worker runs, with the IPC socket it answers on.
#[derive(Debug)]
pub struct LivePreviewProcess {
    pub pid: u32,
    pub ipc_socket: String,
}

/// Where showing a live preview stands.
#[derive(Debug, Clone, Copy, PartialEq, Eq, Structural)]
pub enum LivePreviewStage {
    Start,
    CheckingUsable,
    Reusing,
    StoppingOld,
    PreparingSocket,
    Spawning,
    WaitingReady,
    Retiring,
    Finished,
}

/// The outside step the runner performs next.
#[derive(Debug)]
pub enum LivePreviewAction {
    /// Whether this preview still runs and its socket is there; answer `Usable`.
    CheckUsable { pid: u32, ipc_socket: String },
    /// Ask this preview to load `path` and wait until it shows it; answer `Reused`.
    Reuse { pid: u32, ipc_socket: String, path: String },
    /// End this preview and remove its socket; answer `Done`.
    StopPreview { pid: u32, ipc_socket: String },
    /// Remove a socket left at this path; answer `SocketRemoved`.
    RemoveStaleSocket(String),
    /// Start this process; answer `Spawned`.
    Spawn(CommandSpec),
    /// Wait until the new preview shows video; answer `Ready`.
    WaitReady { pid: u32, ipc_socket: String },
    /// End the previews this one replaces (the old live one, if any, the static one, if any) and
    /// the wallpaper processes that would hide it on `monitor`; answer `Done`.
    Retire { live: Option<(u32, String)>, static_pid: Option<u32>, monitor: String },
    /// End only the new preview, then fail with `message`.
    FailEndingNew { pid: u32, message: String },
    /// The preview is shown (`Ok`) or failed before a new process ran (`Err`).
    Finish(Result<(), String>),
}

/// What the last action produced.
#[derive(Debug)]
pub enum LivePreviewEvent {
    Begin,
    Usable(bool),
    Reused(Result<(), String>),
    Done,
    SocketRemoved(Result<(), String>),
    Spawned(Result<u32, String>),
    Ready(Result<(), String>),
}

/// Showing one live wallpaper on the desktop: the request's path and monitor, the socket a new
/// preview answers on, the `mpvpaper` settings, the previews running now, the process started
/// for this request, and where it stands.
#[derive(Debug)]
pub struct LivePreviewFlow {
    pub path: String,
    pub monitor: String,
    pub ipc_socket: String,
    pub mpv: MpvpaperConfig,
    pub current: Option<LivePreviewProcess>,
    pub static_pid: Option<u32>,
    pub spawned: Option<u32>,
    pub stage: LivePreviewStage,
}

/// A preview is being checked or reused only while one runs, and waited for only once it was
/// started.
pub open spec fn live_preview_wf(f: LivePreviewFlow) -> bool {
    &&& (f.stage == LivePreviewStage::CheckingUsable || f.stage == LivePreviewStage::Reusing) ==> f.current is Some
    &&& f.stage == LivePreviewStage::WaitingReady ==> f.spawned is Some
}

/// The event each stage waits for.
pub open spec fn live_preview_accepts(stage: LivePreviewStage, event: LivePreviewEvent) -> bool {
    match stage {
        LivePreviewStage::Start => event is Begin,
        LivePreviewStage::CheckingUsable => event is Usable,
        LivePreviewStage::Reusing => event is Reused,
        LivePreviewStage::StoppingOld | LivePreviewStage::Retiring => event is Done,
        LivePreviewStage::PreparingSocket => event is SocketRemoved,
        LivePreviewStage::Spawning => event is Spawned,
        LivePreviewStage::WaitingReady => event is Ready,
        LivePreviewStage::Finished => false,
    }
}

/// `desktop preview failed for <path>: <error>`.
pub open spec fn preview_failure(path: Seq<char>, error: Seq<char>) -> Seq<char> {
    "desktop preview failed for "@ + path + ": "@ + error
}

/// The arguments of the `mpvpaper` that previews `path` on `monitor`, answering on `socket`.
pub open spec fn preview_args(mpv: MpvpaperConfig, socket: Seq<char>, monitor: Seq<char>, path: Seq<char>) -> Seq<
    Seq<char>,
> {
    seq![
        "--mpv-options"@,
        mpv_options_spec(texts(mpv.extra_args@).push("--input-ipc-server="@ + socket)),
        monitor,
        path,
    ]
}

/// `n`, `a`: end the current preview and forget it.
pub open spec fn stopping_old(f: LivePreviewFlow, n: LivePreviewFlow, a: LivePreviewAction) -> bool {
    &&& n.stage == LivePreviewStage::StoppingOld
    &&& n.current is None
    &&& n.static_pid == f.static_pid
    &&& f.current matches Some(c) && (a matches LivePreviewAction::StopPreview { pid, ipc_socket } && pid == c.pid
        && ipc_socket@ == c.ipc_socket@)
}

/// `n`, `a`: clear the socket a new preview will answer on.
pub open spec fn preparing(f: LivePreviewFlow, n: LivePreviewFlow, a: LivePreviewAction) -> bool {
    &&& n.stage == LivePreviewStage::PreparingSocket
    &&& n.current == f.current
    &&& n.static_pid == f.static_pid
    &&& a matches LivePreviewAction::RemoveStaleSocket(s) && s@ == f.ipc_socket@
}

/// `n`, `a`: the run ends with `result`, the previews unchanged.
pub open spec fn finishing(f: LivePreviewFlow, n: LivePreviewFlow, a: LivePreviewAction, result: Result<(), Seq<char>>) -> bool {
    &&& n.stage == LivePreviewStage::Finished
    &&& n.current == f.current
    &&& n.static_pid == f.static_pid
    &&& a matches LivePreviewAction::Finish(r) && match (r, result) {
        (Ok(()), Ok(())) => true,
        (Err(m), Err(w)) => m@ == w,
        _ => false,
    }
}

/// The step of showing a live preview from `f` on `event` to `n`, handing out `a`. A running
/// preview that is still usable is asked to load the new path; when it cannot (or is not
/// usable) it is ended and a new one started. A new one replaces the old previews only once it
/// shows video; when it fails, only it is ended, and the error names the path.
pub open spec fn live_preview_step_ok(
    f: LivePreviewFlow,
    event: LivePreviewEvent,
    n: LivePreviewFlow,
    a: LivePreviewAction,
) -> bool {
    &&& n.path == f.path
    &&& n.monitor == f.monitor
    &&& n.ipc_socket == f.ipc_socket
    &&& n.mpv == f.mpv
    &&& f.stage != LivePreviewStage::Spawning ==> n.spawned == f.spawned
    &&& match f.stage {
        LivePreviewStage::Start => match f.current {
            Some(c) => n.stage == LivePreviewStage::CheckingUsable && n.current == f.current && n.static_pid
                == f.static_pid && (a matches LivePreviewAction::CheckUsable { pid, ipc_socket } && pid == c.pid
                && ipc_socket@ == c.ipc_socket@),
            None => preparing(f, n, a),
        },
        LivePreviewStage::CheckingUsable => event matches LivePreviewEvent::Usable(u) && if u {
            &&& n.stage == LivePreviewStage::Reusing
            &&& n.current == f.current
            &&& n.static_pid == f.static_pid
            &&& f.current matches Some(c) && (a matches LivePreviewAction::Reuse { pid, ipc_socket, path } && pid
                == c.pid && ipc_socket@ == c.ipc_socket@ && path@ == f.path@)
        } else {
            stopping_old(f, n, a)
        },
        LivePreviewStage::Reusing => event matches LivePreviewEvent::Reused(r) && match r {
            Ok(()) => n.stage == LivePreviewStage::Retiring && n.current == f.current && n.static_pid is None && (
            a matches LivePreviewAction::Retire { live, static_pid, monitor } && live is None && static_pid
                == f.static_pid && monitor@ == f.monitor@),
            Err(_) => stopping_old(f, n, a),
        },
        LivePreviewStage::StoppingOld => preparing(f, n, a),
        LivePreviewStage::PreparingSocket => event matches LivePreviewEvent::SocketRemoved(r) && match r {
            Ok(()) => n.stage == LivePreviewStage::Spawning && n.current == f.current && n.static_pid
                == f.static_pid && (a matches LivePreviewAction::Spawn(c) && c.program@ == "mpvpaper"@ && texts(
                c.args@,
            ) == preview_args(f.mpv, f.ipc_socket@, f.monitor@, f.path@)),
            Err(e) => finishing(f, n, a, Err(e@)),
        },
        LivePreviewStage::Spawning => event matches LivePreviewEvent::Spawned(r) && match r {
            Ok(pid) => n.stage == LivePreviewStage::WaitingReady && n.spawned == Some(pid) && n.current
                == f.current && n.static_pid == f.static_pid && (a matches LivePreviewAction::WaitReady {
                pid: p,
                ipc_socket,
            } && p == pid && ipc_socket@ == f.ipc_socket@),
            Err(e) => n.spawned == f.spawned && finishing(f, n, a, Err(preview_failure(f.path@, e@))),
        },
        LivePreviewStage::WaitingReady => event matches LivePreviewEvent::Ready(r) && f.spawned matches Some(
            new_pid,
        ) && match r {
            Ok(()) => {
                &&& n.stage == LivePreviewStage::Retiring
                &&& n.current matches Some(c) && c.pid == new_pid && c.ipc_socket@ == f.ipc_socket@
                &&& n.static_pid is None
                &&& a matches LivePreviewAction::Retire { live, static_pid, monitor } && static_pid == f.static_pid
                    && monitor@ == f.monitor@ && match f.current {
                    Some(c) => live matches Some(l) && l.0 == c.pid && l.1@ == c.ipc_socket@,
                    None => live is None,
                }
            },
            Err(e) => n.stage == LivePreviewStage::Finished && n.current == f.current && n.static_pid
                == f.static_pid && (a matches LivePreviewAction::FailEndingNew { pid, message } && pid == new_pid
                && message@ == preview_failure(f.path@, e@)),
        },
        LivePreviewStage::Retiring => finishing(f, n, a, Ok(())),
        LivePreviewStage::Finished => false,
    }
}

/// Once a new preview process runs, the old preview is ended only after it reports video; on
/// failure only the new process is ended, with an error that names the path.
pub proof fn lemma_old_preview_retired_after_ready(
    f: LivePreviewFlow,
    event: LivePreviewEvent,
    n: LivePreviewFlow,
    a: LivePreviewAction,
)
    requires
        live_preview_step_ok(f, event, n, a),
    ensures
        (a matches LivePreviewAction::Retire { live, .. } && live is Some) ==> f.stage == LivePreviewStage::WaitingReady
            && event matches LivePreviewEvent::Ready(Ok(_)),
        a is FailEndingNew ==> f.stage == LivePreviewStage::WaitingReady
            && n.current == f.current && n.static_pid == f.static_pid,
        a matches LivePreviewAction::FailEndingNew { pid, .. } ==> f.spawned == Some(pid),
        a is StopPreview ==> f.spawned == n.spawned && (f.stage == LivePreviewStage::CheckingUsable
            || f.stage == LivePreviewStage::Reusing),
{
}

impl LivePreviewFlow {
    /// Showing `job`'s wallpaper with these previews running, a new preview answering on
    /// `ipc_socket`.
    pub fn new(
        job: &DesktopPreviewJob,
        ipc_socket: String,
        mpv: MpvpaperConfig,
        current: Option<LivePreviewProcess>,
        static_pid: Option<u32>,
    ) -> (f: LivePreviewFlow)
        ensures
            f.path@ == job.path@,
            f.monitor@ == job.monitor@,
            f.ipc_socket == ipc_socket,
            f.mpv == mpv,
            f.current == current,
            f.static_pid == static_pid,
            f.spawned is None,
            f.stage == LivePreviewStage::Start,
            live_preview_wf(f),
    {
        LivePreviewFlow {
            path: job.path.clone(),
            monitor: job.monitor.clone(),
            ipc_socket,
            mpv,
            current,
            static_pid,
            spawned: None,
            stage: LivePreviewStage::Start,
        }
    }

    /// Whether `event` is the answer the current stage waits for.
    pub fn accepts(&self, event: &LivePreviewEvent) -> (r: bool)
        ensures
            r == live_preview_accepts(self.stage, *event),
    {
        match self.stage {
            LivePreviewStage::Start => matches!(event, LivePreviewEvent::Begin),
            LivePreviewStage::CheckingUsable => matches!(event, LivePreviewEvent::Usable(_)),
            LivePreviewStage::Reusing => matches!(event, LivePreviewEvent::Reused(_)),
            LivePreviewStage::StoppingOld | LivePreviewStage::Retiring => matches!(event, LivePreviewEvent::Done),
            LivePreviewStage::PreparingSocket => matches!(event, LivePreviewEvent::SocketRemoved(_)),
            LivePreviewStage::Spawning => matches!(event, LivePreviewEvent::Spawned(_)),
            LivePreviewStage::WaitingReady => matches!(event, LivePreviewEvent::Ready(_)),
            LivePreviewStage::Finished => false,
        }
    }
}

fn failure_text(path: &str, error: &str) -> (r: String)
    ensures
        r@ == preview_failure(path@, error@),
{
    let a = cat3("desktop preview failed for ", path, ": ");
    cat(a.as_str(), error)
}

fn stop_current(mut n: LivePreviewFlow) -> (r: (LivePreviewFlow, LivePreviewAction))
    requires
        n.current is Some,
    ensures
        stopping_old(n, r.0, r.1),
        r.0.path == n.path && r.0.monitor == n.monitor && r.0.ipc_socket == n.ipc_socket && r.0.mpv == n.mpv
            && r.0.spawned == n.spawned,
{
    let c = n.current.take();
    n.stage = LivePreviewStage::StoppingOld;
    match c {
        Some(c) => (n, LivePreviewAction::StopPreview { pid: c.pid, ipc_socket: c.ipc_socket }),
        None => (n, LivePreviewAction::Finish(Ok(()))),
    }
}

/// The step of showing a live preview on `event`: the next stage and the action to perform.
pub fn live_preview_step(f: LivePreviewFlow, event: LivePreviewEvent) -> (r: (LivePreviewFlow, LivePreviewAction))
    requires
        live_preview_wf(f),
        live_preview_accepts(f.stage, event),
    ensures
        live_preview_wf(r.0),
        live_preview_step_ok(f, event, r.0, r.1),
{
    let mut n = f;
    match n.stage {
        LivePreviewStage::Start => {
            match &n.current {
                Some(c) => {
                    let a = LivePreviewAction::CheckUsable { pid: c.pid, ipc_socket: c.ipc_socket.clone() };
                    n.stage = LivePreviewStage::CheckingUsable;
                    (n, a)
                },
                None => {
                    let s = n.ipc_socket.clone();
                    n.stage = LivePreviewStage::PreparingSocket;
                    (n, LivePreviewAction::RemoveStaleSocket(s))
                },
            }
        },
        LivePreviewStage::CheckingUsable => {
            let usable = match event {
                LivePreviewEvent::Usable(u) => u,
                _ => false,
            };
            if usable {
                match &n.current {
                    Some(c) => {
                        let a = LivePreviewAction::Reuse {
                            pid: c.pid,
                            ipc_socket: c.ipc_socket.clone(),
                            path: n.path.clone(),
                        };
                        n.stage = LivePreviewStage::Reusing;
                        (n, a)
                    },
                    None => {
                        n.stage = LivePreviewStage::Finished;
                        (n, LivePreviewAction::Finish(Ok(())))
                    },
                }
            } else {
                if n.current.is_none() {
                    n.stage = LivePreviewStage::Finished;
                    return (n, LivePreviewAction::Finish(Ok(())));
                }
                stop_current(n)
            }
        },
        LivePreviewStage::Reusing => {
            match event {
                LivePreviewEvent::Reused(Ok(())) => {
                    let static_pid = n.static_pid;
                    let monitor = n.monitor.clone();
                    n.static_pid = None;
                    n.stage = LivePreviewStage::Retiring;
                    (n, LivePreviewAction::Retire { live: None, static_pid, monitor })
                },
                _ => {
                    if n.current.is_none() {
                        n.stage = LivePreviewStage::Finished;
                        return (n, LivePreviewAction::Finish(Ok(())));
                    }
                    stop_current(n)
                },
            }
        },
        LivePreviewStage::StoppingOld => {
            let s = n.ipc_socket.clone();
            n.stage = LivePreviewStage::PreparingSocket;
            (n, LivePreviewAction::RemoveStaleSocket(s))
        },
        LivePreviewStage::PreparingSocket => {
            match event {
                LivePreviewEvent::SocketRemoved(Err(e)) => {
                    n.stage = LivePreviewStage::Finished;
                    (n, LivePreviewAction::Finish(Err(e)))
                },
                _ => {
                    let plan = SetPlan {
                        wallpaper: n.path.clone(),
                        media_kind: MediaKind::Live,
                        backend: Backend::Mpvpaper,
                        monitor: n.monitor.clone(),
                    };
                    let c = start_command_with_ipc(&plan, &n.mpv, n.ipc_socket.as_str());
                    n.stage = LivePreviewStage::Spawning;
                    (n, LivePreviewAction::Spawn(c))
                },
            }
        },
        LivePreviewStage::Spawning => {
            match event {
                LivePreviewEvent::Spawned(Ok(pid)) => {
                    let s = n.ipc_socket.clone();
                    n.spawned = Some(pid);
                    n.stage = LivePreviewStage::WaitingReady;
                    (n, LivePreviewAction::WaitReady { pid, ipc_socket: s })
                },
                LivePreviewEvent::Spawned(Err(e)) => {
                    let m = failure_text(n.path.as_str(), e.as_str());
                    n.stage = LivePreviewStage::Finished;
                    (n, LivePreviewAction::Finish(Err(m)))
                },
                _ => {
                    n.stage = LivePreviewStage::Finished;
                    (n, LivePreviewAction::Finish(Ok(())))
                },
            }
        },
        LivePreviewStage::WaitingReady => {
            let new_pid = match n.spawned {
                Some(p) => p,
                None => 0,
            };
            match event {
                LivePreviewEvent::Ready(Err(e)) => {
                    let m = failure_text(n.path.as_str(), e.as_str());
                    n.stage = LivePreviewStage::Finished;
                    (n, LivePreviewAction::FailEndingNew { pid: new_pid, message: m })
                },
                _ => {
                    let live = match n.current.take() {
                        Some(c) => Some((c.pid, c.ipc_socket)),
                        None => None,
                    };
                    let static_pid = n.static_pid;
                    let monitor = n.monitor.clone();
                    n.current = Some(LivePreviewProcess { pid: new_pid, ipc_socket: n.ipc_socket.clone() });
                    n.static_pid = None;
                    n.stage = LivePreviewStage::Retiring;
                    (n, LivePreviewAction::Retire { live, static_pid, monitor })
                },
            }
        },
        LivePreviewStage::Retiring | LivePreviewStage::Finished => {
            n.stage = LivePreviewStage::Finished;
            (n, LivePreviewAction::Finish(Ok(())))
        },
    }
}


// ---------------------------------------------------------------------------
// Showing a still wallpaper
// ---------------------------------------------------------------------------

/// The `swaybg` that previews `job`'s still wallpaper on its monitor.
pub fn static_preview_command(job: &DesktopPreviewJob) -> (c: CommandSpec)
    ensures
        c.program@ == "swaybg"@,
        texts(c.args@) == seq!["-i"@, job.path@, "-m"@, "fill"@] + if job.monitor@ != "all"@ {
            seq!["-o"@, job.monitor@]
        } else {
            seq![]
        },
{
    let plan = SetPlan {
        wallpaper: job.path.clone(),
        media_kind: MediaKind::Static,
        backend: Backend::Swaybg,
        monitor: job.monitor.clone(),
    };
    swaybg::start_command(&plan)
}

/// The outcome of a still preview: its `swaybg` started (`spawned`) and still ran once settled
/// (`alive`) gives its pid, and the runner then retires the live preview, the previous still
/// preview and the processes that would hide it; otherwise an error that names the path.
pub open spec fn static_preview_spec(path: Seq<char>, spawned: Result<u32, Seq<char>>, alive: bool) -> Result<
    u32,
    Seq<char>,
> {
    match spawned {
        Ok(pid) => if alive {
            Ok(pid)
        } else {
            Err(preview_failure(path, "swaybg exited before settling"@))
        },
        Err(e) => Err(preview_failure(path, e)),
    }
}

pub fn static_preview_result(path: &str, spawned: Result<u32, String>, alive: bool) -> (r: Result<u32, String>)
    ensures
        match r {
            Ok(p) => static_preview_spec(path@, match spawned {
                Ok(q) => Ok(q),
                Err(e) => Err(e@),
            }, alive) == Ok::<u32, Seq<char>>(p),
            Err(m) => static_preview_spec(path@, match spawned {
                Ok(q) => Ok(q),
                Err(e) => Err(e@),
            }, alive) == Err::<u32, Seq<char>>(m@),
        },
{
    match spawned {
        Ok(pid) => {
            if alive {
                Ok(pid)
            } else {
                Err(failure_text(path, "swaybg exited before settling"))
            }
        },
        Err(e) => Err(failure_text(path, e.as_str())),
    }
}

} // verus!
