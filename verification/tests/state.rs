use jobowalls::backends::model::Backend;
use jobowalls::media::MediaKind;
use jobowalls::orchestrator::SetPlan;
use jobowalls::state::State;

fn plan(wallpaper: &str, media_kind: MediaKind, backend: Backend, monitor: &str) -> SetPlan {
    SetPlan {
        wallpaper: wallpaper.to_string(),
        media_kind,
        backend,
        monitor: monitor.to_string(),
    }
}

#[test]
fn creates_state_from_set_plan() {
    let plan = plan("/tmp/wall.png", MediaKind::Static, Backend::Hyprpaper, "all");

    let state = State::from_set_plan(&plan, None);

    assert_eq!(state.version, 1);
    assert_eq!(state.active_backend, Backend::Hyprpaper);
    assert_eq!(state.mode, MediaKind::Static);
    assert_eq!(state.monitors.get("all").unwrap().pid, None);
    assert_eq!(state.last_command, None);
}

#[test]
fn creates_state_from_multiple_monitor_entries() {
    let plan = plan("/tmp/rain.mp4", MediaKind::Live, Backend::Mpvpaper, "all");

    let state = State::from_monitor_entries(
        &plan,
        vec![("DP-1".to_string(), Some(100)), ("DP-3".to_string(), Some(101))],
    );

    assert_eq!(state.monitors.len(), 2);
    assert_eq!(state.monitors.get("DP-1").unwrap().pid, Some(100));
    assert_eq!(state.monitors.get("DP-3").unwrap().pid, Some(101));
}

#[test]
fn merges_named_monitor_without_dropping_other_outputs() {
    let live_plan = plan("/tmp/rain.mp4", MediaKind::Live, Backend::Mpvpaper, "all");
    let existing = State::from_monitor_entries(
        &live_plan,
        vec![("DP-1".to_string(), Some(100)), ("HDMI-A-1".to_string(), Some(101))],
    );
    let static_plan = plan("/tmp/wall.png", MediaKind::Static, Backend::Hyprpaper, "DP-1");

    let state = State::merged_with_monitor_entries(
        Some(&existing),
        &static_plan,
        vec![("DP-1".to_string(), None)],
    );

    assert_eq!(state.monitors.len(), 2);
    assert_eq!(state.monitors.get("DP-1").unwrap().backend, Backend::Hyprpaper);
    assert_eq!(state.monitors.get("HDMI-A-1").unwrap().backend, Backend::Mpvpaper);
    assert_eq!(state.monitors.get("HDMI-A-1").unwrap().pid, Some(101));
}

#[test]
fn merging_all_replaces_every_monitor() {
    let live_plan = plan("/tmp/rain.mp4", MediaKind::Live, Backend::Mpvpaper, "all");
    let existing = State::from_monitor_entries(
        &live_plan,
        vec![("DP-1".to_string(), Some(100)), ("HDMI-A-1".to_string(), Some(101))],
    );
    let static_plan = plan("/tmp/wall.png", MediaKind::Static, Backend::Swaybg, "all");

    let state = State::merged_with_monitor_entries(
        Some(&existing),
        &static_plan,
        vec![("all".to_string(), Some(7))],
    );

    assert_eq!(state.monitors.len(), 1);
    assert_eq!(state.monitors.get("all").unwrap().pid, Some(7));
    assert_eq!(state.wallpaper, "/tmp/wall.png");
}

#[test]
fn clears_live_pids_only() {
    let plan = plan("/tmp/rain.mp4", MediaKind::Live, Backend::Mpvpaper, "DP-1");
    let mut state = State::from_set_plan(&plan, Some(100));

    state.clear_live_pids();

    assert_eq!(state.monitors.get("DP-1").unwrap().pid, None);
}

#[test]
fn clearing_live_pids_keeps_other_backends() {
    let live_plan = plan("/tmp/rain.mp4", MediaKind::Live, Backend::Mpvpaper, "DP-1");
    let existing = State::from_set_plan(&live_plan, Some(100));
    let static_plan = plan("/tmp/wall.png", MediaKind::Static, Backend::Swaybg, "DP-2");
    let mut state = State::merged_with_monitor_entries(
        Some(&existing),
        &static_plan,
        vec![("DP-2".to_string(), Some(200))],
    );

    state.clear_live_pids();

    assert_eq!(state.monitors.get("DP-1").unwrap().pid, None);
    assert_eq!(state.monitors.get("DP-2").unwrap().pid, Some(200));
}

#[test]
fn records_collection_progress() {
    let plan = plan("/tmp/walls/a.jpg", MediaKind::Static, Backend::Awww, "all");
    let mut state = State::from_set_plan(&plan, None);

    state.record_collection("/tmp/walls", "/tmp/walls/a.jpg", 2, true);

    let collection = state.collections.get("/tmp/walls").unwrap();
    assert_eq!(collection.last_index, Some(2));
    assert_eq!(collection.last_wallpaper.as_deref(), Some("/tmp/walls/a.jpg"));
    assert_eq!(collection.shuffle_history, vec!["/tmp/walls/a.jpg".to_string()]);
}

#[test]
fn records_last_successful_command() {
    let plan = plan("/tmp/wall.png", MediaKind::Static, Backend::Hyprpaper, "DP-1");
    let mut state = State::from_set_plan(&plan, None);

    state.record_last_command("set /tmp/wall.png".to_string());

    assert_eq!(state.last_command.as_deref(), Some("set /tmp/wall.png"));
}
