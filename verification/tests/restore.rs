use jobowalls::backends::model::Backend;
use jobowalls::cli::BackendAvailability;
use jobowalls::config::{BackendPreference, Config, MonitorProfileConfig};
use jobowalls::media::MediaKind;
use jobowalls::orchestrator::SetPlan;
use jobowalls::restore::{
    profile_plan, profile_targets, restore_plan, restore_step, restored_live_state, RestoreFlow, RestorePlan, RestoreStage,
};
use jobowalls::flow::{SetAction, SetEvent};
use jobowalls::report::restore_plan_report;
use jobowalls::state::State;

const PNG: &[u8] = b"\x89PNG\r\n\x1a\nrest";

fn profiled_config() -> Config {
    let mut config = Config::default();
    config.monitors.profiles.insert(
        "DP-1".to_string(),
        MonitorProfileConfig { wallpaper: Some("/tmp/wall.png".to_string()), backend: BackendPreference::Hyprpaper },
    );
    config.monitors.profiles.insert(
        "HDMI-A-1".to_string(),
        MonitorProfileConfig { wallpaper: Some("/tmp/missing.png".to_string()), backend: BackendPreference::Hyprpaper },
    );
    config
}

#[test]
fn restore_profile_plans_use_active_monitor_profiles() {
    let config = profiled_config();

    let targets = profile_targets(&config, &["DP-1".to_string()]);
    let plans: Vec<SetPlan> = targets
        .iter()
        .map(|t| profile_plan(&config, t, true, &t.wallpaper, Some(PNG)).unwrap())
        .collect();

    assert_eq!(plans.len(), 1);
    assert_eq!(plans[0].monitor, "DP-1");
    assert_eq!(plans[0].backend, Backend::Hyprpaper);
}

#[test]
fn missing_profile_wallpaper_is_an_error() {
    let config = profiled_config();
    let targets = profile_targets(&config, &["HDMI-A-1".to_string(), "DP-9".to_string()]);

    assert_eq!(targets.len(), 1);
    assert_eq!(
        profile_plan(&config, &targets[0], false, "/tmp/missing.png", None).unwrap_err(),
        "profile wallpaper for HDMI-A-1 does not exist: /tmp/missing.png"
    );
}

fn available() -> BackendAvailability {
    BackendAvailability { hyprpaper: true, awww: false, swaybg: true }
}

#[test]
fn restore_static_state_reapplies_saved_plan() {
    let plan = SetPlan {
        wallpaper: "/tmp/wall.png".to_string(),
        media_kind: MediaKind::Static,
        backend: Backend::Swaybg,
        monitor: "DP-1".to_string(),
    };
    let state = State::from_set_plan(&plan, Some(42));

    match restore_plan(&state, vec![], &Config::default(), &available()) {
        RestorePlan::Sets(ps) => {
            assert_eq!(ps.len(), 1);
            assert_eq!(ps[0].wallpaper, "/tmp/wall.png");
            assert_eq!(ps[0].backend, Backend::Swaybg);
            assert_eq!(ps[0].monitor, "DP-1");
        }
        _ => panic!("expected per-monitor plans"),
    }
}

#[test]
fn restore_live_state_restarts_each_monitor_and_retires_old_pids() {
    let plan = SetPlan {
        wallpaper: "/tmp/rain.mp4".to_string(),
        media_kind: MediaKind::Live,
        backend: Backend::Mpvpaper,
        monitor: "all".to_string(),
    };
    let state = State::from_monitor_entries(
        &plan,
        vec![("DP-1".to_string(), Some(100)), ("HDMI-A-1".to_string(), Some(101))],
    );

    match restore_plan(&state, vec![], &Config::default(), &available()) {
        RestorePlan::Live { plans, previous } => {
            assert_eq!(plans.len(), 2);
            assert_eq!(plans[0].monitor, "DP-1");
            assert_eq!(plans[1].monitor, "HDMI-A-1");
            assert_eq!(previous, vec![100, 101]);
        }
        _ => panic!("expected a live restore"),
    }

    let restored = restored_live_state(&state, vec![("DP-1".to_string(), Some(7))]);
    assert_eq!(restored.monitors.len(), 1);
    assert_eq!(restored.monitors.get("DP-1").unwrap().pid, Some(7));
    assert_eq!(restored.last_command.as_deref(), Some("restore"));
}

#[test]
fn restore_profiles_take_the_runtime_static_backend() {
    let plan = SetPlan {
        wallpaper: "/tmp/wall.png".to_string(),
        media_kind: MediaKind::Static,
        backend: Backend::Hyprpaper,
        monitor: "DP-1".to_string(),
    };
    let state = State::from_set_plan(&plan, None);

    match restore_plan(&state, vec![plan.clone()], &Config::default(), &available()) {
        RestorePlan::Profiles(plans) => {
            assert_eq!(plans.len(), 1);
            assert_eq!(plans[0].backend, Backend::Swaybg);
        }
        _ => panic!("expected profile plans"),
    }
}

#[test]
fn restore_mixed_state_uses_each_monitors_backend_and_wallpaper() {
    let static_plan = SetPlan {
        wallpaper: "/walls/wall.png".to_string(),
        media_kind: MediaKind::Static,
        backend: Backend::Swaybg,
        monitor: "DP-1".to_string(),
    };
    let live_plan = SetPlan {
        wallpaper: "/walls/rain.mp4".to_string(),
        media_kind: MediaKind::Live,
        backend: Backend::Mpvpaper,
        monitor: "HDMI-A-1".to_string(),
    };
    let first = State::from_set_plan(&static_plan, Some(200));
    let mut state =
        State::merged_with_monitor_entries(Some(&first), &live_plan, vec![("HDMI-A-1".to_string(), Some(12345))]);
    state.active_backend = Backend::Swaybg;
    state.mode = MediaKind::Static;
    state.wallpaper = "/tmp/top-level-should-not-be-used.png".to_string();

    match restore_plan(&state, vec![], &Config::default(), &available()) {
        RestorePlan::Sets(ps) => {
            assert_eq!(ps.len(), 2);
            assert_eq!((ps[0].monitor.as_str(), ps[0].backend, ps[0].wallpaper.as_str()), ("DP-1", Backend::Swaybg, "/walls/wall.png"));
            assert_eq!(ps[0].media_kind, MediaKind::Static);
            assert_eq!((ps[1].monitor.as_str(), ps[1].backend, ps[1].wallpaper.as_str()), ("HDMI-A-1", Backend::Mpvpaper, "/walls/rain.mp4"));
            assert_eq!(ps[1].media_kind, MediaKind::Live);
        }
        _ => panic!("expected per-monitor plans"),
    }

    let lines = restore_plan_report(&state, &Config::default(), &[]);
    assert!(lines.contains(&"planned backend: swaybg".to_string()));
    assert!(lines.contains(&"monitor: DP-1".to_string()));
    assert!(lines.contains(&"wallpaper: /walls/wall.png".to_string()));
    assert!(lines.contains(&"planned backend: mpvpaper".to_string()));
    assert!(lines.contains(&"monitor: HDMI-A-1".to_string()));
    assert!(lines.iter().any(|l| l.contains("mpvpaper --mpv-options 'loop no-audio panscan=1.0' HDMI-A-1 /walls/rain.mp4")));
    assert!(!lines.iter().any(|l| l.contains("top-level-should-not-be-used")
        && !l.starts_with("restore wallpaper:")));
}

#[test]
fn live_restore_ends_old_processes_only_after_new_ones_run() {
    let plan = SetPlan {
        wallpaper: "/tmp/rain.mp4".to_string(),
        media_kind: MediaKind::Live,
        backend: Backend::Mpvpaper,
        monitor: "all".to_string(),
    };
    let state = State::from_monitor_entries(&plan, vec![("DP-1".to_string(), Some(100))]);
    let plans = state.monitor_plans();
    let flow = RestoreFlow::new(state, plans, vec![100]);
    let (flow, action) = restore_step(flow, SetEvent::Begin);
    assert!(matches!(action, SetAction::StartLive(ref p) if p.len() == 1 && p[0].monitor == "DP-1"));
    let (flow, action) = restore_step(flow, SetEvent::LiveStarted(vec![("DP-1".to_string(), Some(7))]));
    assert!(matches!(action, SetAction::Terminate(ref p) if p == &vec![100]));
    let (flow, action) = restore_step(flow, SetEvent::Done);
    match action {
        SetAction::Save(s) => {
            assert_eq!(s.monitors.get("DP-1").unwrap().pid, Some(7));
            assert_eq!(s.last_command.as_deref(), Some("restore"));
        }
        _ => panic!("expected a save"),
    }
    let (flow, action) = restore_step(flow, SetEvent::Done);
    match action {
        SetAction::Finish(lines) => assert_eq!(lines, vec!["started /tmp/rain.mp4 on DP-1 using mpvpaper with pid 7"]),
        _ => panic!("expected the end"),
    }
    assert_eq!(flow.stage, RestoreStage::Finished);
}

#[test]
fn live_restore_records_each_monitors_own_wallpaper() {
    let a = SetPlan {
        wallpaper: "/walls/a.mp4".to_string(),
        media_kind: MediaKind::Live,
        backend: Backend::Mpvpaper,
        monitor: "DP-1".to_string(),
    };
    let b = SetPlan { wallpaper: "/walls/b.mp4".to_string(), monitor: "HDMI-A-1".to_string(), ..a.clone() };
    let first = State::from_set_plan(&a, Some(1));
    let state = State::merged_with_monitor_entries(Some(&first), &b, vec![("HDMI-A-1".to_string(), Some(2))]);

    match restore_plan(&state, vec![], &Config::default(), &available()) {
        RestorePlan::Live { plans, previous } => {
            assert_eq!(plans[0].wallpaper, "/walls/a.mp4");
            assert_eq!(plans[1].wallpaper, "/walls/b.mp4");
            assert_eq!(previous, vec![1, 2]);
        }
        _ => panic!("expected a live restore"),
    }
    let restored = restored_live_state(
        &state,
        vec![("DP-1".to_string(), Some(11)), ("HDMI-A-1".to_string(), Some(12))],
    );
    assert_eq!(restored.monitors.get("DP-1").unwrap().wallpaper, "/walls/a.mp4");
    assert_eq!(restored.monitors.get("HDMI-A-1").unwrap().wallpaper, "/walls/b.mp4");
    assert_eq!(restored.monitors.get("HDMI-A-1").unwrap().pid, Some(12));
}
