use jobowalls::config::MpvpaperConfig;
use jobowalls::shell::desktop::DesktopPreviewJob;
use jobowalls::shell::worker::{
    live_preview_step, preview_worker_step, LivePreviewAction, LivePreviewEvent, LivePreviewFlow, LivePreviewProcess,
    LivePreviewStage, PreviewWorkerAction, PreviewWorkerEvent, static_preview_command, static_preview_result,
};

fn job(path: &str, debounce_ms: u64) -> DesktopPreviewJob {
    DesktopPreviewJob { path: path.to_string(), monitor: "DP-1".to_string(), generation: 1, debounce_ms, is_live: true }
}

#[test]
fn latest_request_within_the_debounce_wins() {
    let (pending, action) = preview_worker_step(None, PreviewWorkerEvent::Request(job("/w/a.mp4", 700)));
    assert!(matches!(action, PreviewWorkerAction::Wait(700)));
    let (pending, action) = preview_worker_step(pending, PreviewWorkerEvent::Request(job("/w/b.png", 120)));
    assert!(matches!(action, PreviewWorkerAction::Wait(120)));
    let (pending, action) = preview_worker_step(pending, PreviewWorkerEvent::Quiet);
    assert!(pending.is_none());
    match action {
        PreviewWorkerAction::Apply(j) => assert_eq!(j.path, "/w/b.png"),
        _ => panic!("expected the latest request to be shown"),
    }
    let (_, action) = preview_worker_step(None, PreviewWorkerEvent::Quiet);
    assert!(matches!(action, PreviewWorkerAction::Idle));
}

#[test]
fn stop_and_close_end_the_previews() {
    let (pending, action) = preview_worker_step(Some(job("/w/a.mp4", 700)), PreviewWorkerEvent::Stop);
    assert!(pending.is_none());
    assert!(matches!(action, PreviewWorkerAction::StopPreviews));
    let (pending, action) = preview_worker_step(Some(job("/w/a.mp4", 700)), PreviewWorkerEvent::Closed);
    assert!(pending.is_none());
    assert!(matches!(action, PreviewWorkerAction::Exit));
}

fn flow(current: Option<LivePreviewProcess>, static_pid: Option<u32>) -> LivePreviewFlow {
    LivePreviewFlow::new(&job("/w/rain.mp4", 700), "/tmp/new.sock".to_string(), MpvpaperConfig::default(), current, static_pid)
}

fn step(f: LivePreviewFlow, e: LivePreviewEvent) -> (LivePreviewFlow, LivePreviewAction) {
    assert!(f.accepts(&e));
    live_preview_step(f, e)
}

#[test]
fn usable_preview_is_reused_and_static_preview_retired() {
    let f = flow(Some(LivePreviewProcess { pid: 10, ipc_socket: "/tmp/old.sock".to_string() }), Some(20));
    let (f, a) = step(f, LivePreviewEvent::Begin);
    assert!(matches!(a, LivePreviewAction::CheckUsable { pid: 10, .. }));
    let (f, a) = step(f, LivePreviewEvent::Usable(true));
    assert!(matches!(a, LivePreviewAction::Reuse { pid: 10, ref path, .. } if path == "/w/rain.mp4"));
    let (f, a) = step(f, LivePreviewEvent::Reused(Ok(())));
    assert!(matches!(a, LivePreviewAction::Retire { live: None, static_pid: Some(20), .. }));
    let (f, a) = step(f, LivePreviewEvent::Done);
    assert!(matches!(a, LivePreviewAction::Finish(Ok(()))));
    assert_eq!(f.stage, LivePreviewStage::Finished);
    assert_eq!(f.current.as_ref().unwrap().pid, 10);
    assert_eq!(f.static_pid, None);
}

#[test]
fn new_preview_replaces_old_one_only_once_ready() {
    let f = flow(Some(LivePreviewProcess { pid: 10, ipc_socket: "/tmp/old.sock".to_string() }), None);
    let (f, _) = step(f, LivePreviewEvent::Begin);
    let (f, _) = step(f, LivePreviewEvent::Usable(true));
    let (f, a) = step(f, LivePreviewEvent::Reused(Err("gone".to_string())));
    assert!(matches!(a, LivePreviewAction::StopPreview { pid: 10, .. }));
    let (f, a) = step(f, LivePreviewEvent::Done);
    assert!(matches!(a, LivePreviewAction::RemoveStaleSocket(ref s) if s == "/tmp/new.sock"));
    let (f, a) = step(f, LivePreviewEvent::SocketRemoved(Ok(())));
    match a {
        LivePreviewAction::Spawn(c) => {
            assert_eq!(c.program, "mpvpaper");
            assert_eq!(
                c.args,
                vec!["--mpv-options", "loop no-audio panscan=1.0 input-ipc-server=/tmp/new.sock", "DP-1", "/w/rain.mp4"]
            );
        }
        _ => panic!("expected a spawn"),
    }
    let (f, a) = step(f, LivePreviewEvent::Spawned(Ok(30)));
    assert!(matches!(a, LivePreviewAction::WaitReady { pid: 30, .. }));
    let (f, a) = step(f, LivePreviewEvent::Ready(Ok(())));
    assert!(matches!(a, LivePreviewAction::Retire { live: None, static_pid: None, .. }));
    assert_eq!(f.current.as_ref().unwrap().pid, 30);
}

#[test]
fn failed_new_preview_ends_only_itself() {
    let f = flow(None, Some(20));
    let (f, _) = step(f, LivePreviewEvent::Begin);
    let (f, _) = step(f, LivePreviewEvent::SocketRemoved(Ok(())));
    let (f, _) = step(f, LivePreviewEvent::Spawned(Ok(31)));
    let (f, a) = step(f, LivePreviewEvent::Ready(Err("timed out".to_string())));
    match a {
        LivePreviewAction::FailEndingNew { pid, message } => {
            assert_eq!(pid, 31);
            assert_eq!(message, "desktop preview failed for /w/rain.mp4: timed out");
        }
        _ => panic!("expected a failure"),
    }
    assert_eq!(f.static_pid, Some(20));
    assert!(f.current.is_none());
}

#[test]
fn still_preview_runs_swaybg_and_fails_when_it_dies() {
    let c = static_preview_command(&DesktopPreviewJob {
        path: "/w/a.png".to_string(),
        monitor: "DP-1".to_string(),
        generation: 3,
        debounce_ms: 120,
        is_live: false,
    });
    assert_eq!(c.program, "swaybg");
    assert_eq!(c.args, vec!["-i", "/w/a.png", "-m", "fill", "-o", "DP-1"]);
    assert_eq!(static_preview_result("/w/a.png", Ok(40), true), Ok(40));
    assert_eq!(
        static_preview_result("/w/a.png", Ok(40), false),
        Err("desktop preview failed for /w/a.png: swaybg exited before settling".to_string())
    );
    assert_eq!(
        static_preview_result("/w/a.png", Err("no swaybg".to_string()), true),
        Err("desktop preview failed for /w/a.png: no swaybg".to_string())
    );
}
