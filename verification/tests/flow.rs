use jobowalls::backends::model::Backend;
use jobowalls::config::Config;
use jobowalls::flow::{
    live_entries, live_pids, readiness_step, set_step, Probe, Readiness, SetAction, SetEvent,
    SetFlow, SetStage, StartedLive,
};
use jobowalls::media::MediaKind;
use jobowalls::orchestrator::SetPlan;
use jobowalls::state::State;

fn plan(wallpaper: &str, media_kind: MediaKind, backend: Backend, monitor: &str) -> SetPlan {
    SetPlan { wallpaper: wallpaper.to_string(), media_kind, backend, monitor: monitor.to_string() }
}

fn step(flow: SetFlow, event: SetEvent) -> (SetFlow, SetAction) {
    assert!(flow.accepts(&event));
    set_step(flow, &Config::default(), event)
}

#[test]
fn swaybg_run_stops_owned_processes_spawns_and_saves() {
    let live = plan("/tmp/rain.mp4", MediaKind::Live, Backend::Mpvpaper, "DP-1");
    let existing = State::from_set_plan(&live, Some(100));
    let flow = SetFlow::new(plan("/tmp/wall.png", MediaKind::Static, Backend::Swaybg, "DP-1"), Some(existing));

    let (flow, action) = step(flow, SetEvent::Begin);
    assert!(matches!(action, SetAction::StopOwnedSwaybg(ref m) if m == &vec!["DP-1".to_string()]));
    let (flow, action) = step(flow, SetEvent::Done);
    assert!(matches!(action, SetAction::StopOwnedLive(ref m) if m == &vec!["DP-1".to_string()]));
    let (flow, action) = step(flow, SetEvent::Done);
    match action {
        SetAction::Spawn(command) => {
            assert_eq!(command.program, "swaybg");
            assert_eq!(command.args, vec!["-i", "/tmp/wall.png", "-m", "fill", "-o", "DP-1"]);
        }
        _ => panic!("expected a spawn without stopping Omarchy's swaybg"),
    }
    assert!(!flow.accepts(&SetEvent::Done));
    let (flow, action) = step(flow, SetEvent::Spawned(42));
    assert!(matches!(action, SetAction::CheckAlive(42)));
    let (flow, action) = step(flow, SetEvent::Alive(true));
    assert!(matches!(action, SetAction::FindPrimaryMonitor));
    let (flow, action) = step(flow, SetEvent::PrimaryMonitor(Some("DP-1".to_string())));
    assert!(matches!(action, SetAction::UpdateOmarchyLink(ref w) if w == "/tmp/wall.png"));
    let (flow, action) = step(flow, SetEvent::Done);
    match action {
        SetAction::Save(state) => {
            assert_eq!(state.active_backend, Backend::Swaybg);
            assert_eq!(state.monitors.get("DP-1").unwrap().pid, Some(42));
            assert_eq!(state.monitors.get("DP-1").unwrap().backend, Backend::Swaybg);
            assert_eq!(state.last_command.as_deref(), Some("set /tmp/wall.png --monitor DP-1 --backend swaybg"));
        }
        _ => panic!("expected a save"),
    }
    let (flow, action) = step(flow, SetEvent::Done);
    match action {
        SetAction::Finish(lines) => assert_eq!(lines, vec!["set /tmp/wall.png on DP-1 using swaybg"]),
        _ => panic!("expected the end"),
    }
    assert_eq!(flow.stage, SetStage::Finished);
    assert!(!flow.accepts(&SetEvent::Done));
}

#[test]
fn swaybg_on_a_secondary_monitor_keeps_the_omarchy_link() {
    let flow = SetFlow::new(plan("/tmp/wall.png", MediaKind::Static, Backend::Swaybg, "HDMI-A-1"), None);
    let (flow, _) = step(flow, SetEvent::Begin);
    let (flow, _) = step(flow, SetEvent::Done);
    let (flow, _) = step(flow, SetEvent::Done);
    let (flow, _) = step(flow, SetEvent::Spawned(7));
    let (flow, _) = step(flow, SetEvent::Alive(true));
    let (_, action) = step(flow, SetEvent::PrimaryMonitor(Some("DP-1".to_string())));
    match action {
        SetAction::Save(state) => assert_eq!(state.monitors.get("HDMI-A-1").unwrap().pid, Some(7)),
        _ => panic!("expected a save without moving the link"),
    }
}

#[test]
fn swaybg_on_all_monitors_replaces_omarchy_swaybg_and_link() {
    let flow = SetFlow::new(plan("/tmp/wall.png", MediaKind::Static, Backend::Swaybg, "all"), None);
    let (flow, action) = step(flow, SetEvent::Begin);
    assert!(matches!(action, SetAction::ListMonitors));
    let (flow, _) = step(flow, SetEvent::Monitors(vec!["DP-1".to_string(), "HDMI-A-1".to_string()]));
    let (flow, _) = step(flow, SetEvent::Done);
    let (flow, action) = step(flow, SetEvent::Done);
    assert!(matches!(action, SetAction::StopOmarchySwaybg));
    let (flow, action) = step(flow, SetEvent::Done);
    assert!(matches!(action, SetAction::Spawn(_)));
    let (flow, _) = step(flow, SetEvent::Spawned(9));
    let (_, action) = step(flow, SetEvent::Alive(true));
    assert!(matches!(action, SetAction::UpdateOmarchyLink(ref w) if w == "/tmp/wall.png"));
}

#[test]
fn swaybg_that_exits_at_once_fails_the_run_without_saving() {
    let flow = SetFlow::new(plan("/tmp/wall.png", MediaKind::Static, Backend::Swaybg, "DP-1"), None);
    let (flow, _) = step(flow, SetEvent::Begin);
    let (flow, _) = step(flow, SetEvent::Done);
    let (flow, _) = step(flow, SetEvent::Done);
    let (flow, _) = step(flow, SetEvent::Spawned(5));
    let (flow, action) = step(flow, SetEvent::Alive(false));
    match action {
        SetAction::Fail(message) => assert!(message.contains("swaybg exited immediately after start")),
        _ => panic!("expected a failure"),
    }
    assert_eq!(flow.stage, SetStage::Finished);
    assert!(!flow.accepts(&SetEvent::Done));
}

#[test]
fn live_run_for_all_lists_monitors_and_retires_previous_processes() {
    let live = plan("/tmp/old.mp4", MediaKind::Live, Backend::Mpvpaper, "all");
    let existing = State::from_monitor_entries(&live, vec![("DP-1".to_string(), Some(100))]);
    let flow = SetFlow::new(plan("/tmp/rain.mp4", MediaKind::Live, Backend::Mpvpaper, "all"), Some(existing));

    let (flow, action) = step(flow, SetEvent::Begin);
    assert!(matches!(action, SetAction::ListMonitors));
    assert!(!flow.accepts(&SetEvent::Monitors(vec![])));
    let (flow, action) = step(flow, SetEvent::Monitors(vec!["DP-1".to_string(), "DP-2".to_string()]));
    assert!(matches!(action, SetAction::StopOwnedSwaybg(ref m) if m.len() == 2));
    let (flow, action) = step(flow, SetEvent::Done);
    match action {
        SetAction::StartLive(plans) => {
            assert_eq!(plans.len(), 2);
            assert_eq!(plans[0].monitor, "DP-1");
            assert_eq!(plans[1].monitor, "DP-2");
        }
        _ => panic!("expected live starts"),
    }
    let started = vec![("DP-1".to_string(), Some(200)), ("DP-2".to_string(), Some(201))];
    let (flow, action) = step(flow, SetEvent::LiveStarted(started));
    match action {
        SetAction::Terminate(pids) => assert_eq!(pids, vec![100]),
        _ => panic!("expected the old processes stopped"),
    }
    let (flow, action) = step(flow, SetEvent::Done);
    match action {
        SetAction::Save(state) => {
            assert_eq!(state.monitors.len(), 2);
            assert_eq!(state.monitors.get("DP-2").unwrap().pid, Some(201));
        }
        _ => panic!("expected a save"),
    }
    let (_, action) = step(flow, SetEvent::Done);
    match action {
        SetAction::Finish(lines) => assert_eq!(
            lines,
            vec![
                "started /tmp/rain.mp4 on DP-1 using mpvpaper with pid 200",
                "started /tmp/rain.mp4 on DP-2 using mpvpaper with pid 201",
            ]
        ),
        _ => panic!("expected the end"),
    }
}

#[test]
fn hyprpaper_run_ensures_daemon_before_applying() {
    let flow = SetFlow::new(plan("/tmp/wall.png", MediaKind::Static, Backend::Hyprpaper, "DP-1"), None);

    let (flow, _) = step(flow, SetEvent::Begin);
    let (flow, action) = step(flow, SetEvent::Done);
    assert!(matches!(action, SetAction::EnsureHyprpaperDaemon));
    let (_, action) = step(flow, SetEvent::Done);
    match action {
        SetAction::RunAll(commands) => {
            assert!(!commands.is_empty());
            assert!(commands.iter().all(|c| c.program == "hyprctl"));
        }
        _ => panic!("expected hyprctl commands"),
    }
}

#[test]
fn awww_run_starts_daemon_first() {
    let flow = SetFlow::new(plan("/tmp/wall.png", MediaKind::Static, Backend::Awww, "all"), None);

    let (_, action) = step(flow, SetEvent::Begin);
    assert!(matches!(action, SetAction::EnsureAwwwDaemon));
}

fn started(monitor: &str, pid: u32) -> StartedLive {
    StartedLive { monitor: monitor.to_string(), pid, ipc_socket: format!("/tmp/{monitor}.sock") }
}

#[test]
fn readiness_waits_until_every_process_shows_video() {
    let live = vec![started("DP-1", 10), started("DP-2", 11)];
    let mut ready = vec![false, false];

    let first = readiness_step(&live, &mut ready, &[Probe::Ready, Probe::NotReady], false);
    assert!(matches!(first, Readiness::Waiting));
    assert_eq!(ready, vec![true, false]);

    let second = readiness_step(&live, &mut ready, &[Probe::Exited, Probe::Ready], false);
    assert!(matches!(second, Readiness::Ready));
    assert_eq!(live_pids(&live), vec![10, 11]);
    assert_eq!(live_entries(&live), vec![("DP-1".to_string(), Some(10)), ("DP-2".to_string(), Some(11))]);
}

#[test]
fn readiness_reports_exits_and_timeouts() {
    let live = vec![started("DP-1", 10), started("DP-2", 11)];

    let mut ready = vec![false, false];
    match readiness_step(&live, &mut ready, &[Probe::NotReady, Probe::Exited], false) {
        Readiness::Failed(m) => assert_eq!(m, "DP-2 on pid 11 exited before reporting readiness"),
        _ => panic!("expected a failure"),
    }

    let mut ready = vec![false, false];
    match readiness_step(&live, &mut ready, &[Probe::NotReady, Probe::NotReady], true) {
        Readiness::Failed(m) => assert_eq!(m, "timed out waiting for mpv video output on DP-1, DP-2"),
        _ => panic!("expected a timeout"),
    }

    let mut ready = vec![false, true];
    match readiness_step(&live, &mut ready, &[Probe::Unanswered { before_deadline: false }, Probe::Exited], false) {
        Readiness::Failed(m) => assert_eq!(m, "DP-1 on pid 10 using /tmp/DP-1.sock"),
        _ => panic!("expected a failure"),
    }
}
