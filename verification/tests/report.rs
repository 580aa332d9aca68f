use jobowalls::backends::model::Backend;
use jobowalls::config::Config;
use jobowalls::media::MediaKind;
use jobowalls::orchestrator::SetPlan;
use jobowalls::report::{bool_string, kind_string, restore_plan_report, set_plan_report, state_report};
use jobowalls::state::State;

fn plan(wallpaper: &str, media_kind: MediaKind, backend: Backend, monitor: &str) -> SetPlan {
    SetPlan { wallpaper: wallpaper.to_string(), media_kind, backend, monitor: monitor.to_string() }
}

#[test]
fn dry_run_swaybg_plan_lists_its_command() {
    let lines = set_plan_report(
        &plan("/tmp/wall.png", MediaKind::Static, Backend::Swaybg, "DP-1"),
        &Config::default(),
        &["DP-1".to_string()],
    );

    assert_eq!(
        lines,
        vec![
            "planned backend: swaybg",
            "media kind: Static",
            "monitor: DP-1",
            "wallpaper: /tmp/wall.png",
            "command: swaybg -i /tmp/wall.png -m fill -o DP-1",
        ]
    );
}

#[test]
fn dry_run_live_plan_lists_one_mpvpaper_per_monitor() {
    let lines = set_plan_report(
        &plan("/tmp/rain.mp4", MediaKind::Live, Backend::Mpvpaper, "all"),
        &Config::default(),
        &["DP-1".to_string(), "DP-2".to_string()],
    );

    assert_eq!(lines[0], "planned backend: mpvpaper");
    assert_eq!(lines[1], "media kind: Live");
    assert_eq!(lines.len(), 6);
    assert!(lines[4].starts_with("command: mpvpaper"));
    assert!(lines[4].contains("DP-1"));
    assert!(lines[5].contains("DP-2"));
}

#[test]
fn status_reports_monitors_and_last_command() {
    let mut state = State::from_set_plan(&plan("/tmp/wall.png", MediaKind::Static, Backend::Swaybg, "DP-1"), Some(42));
    state.record_last_command("set /tmp/wall.png".to_string());

    let lines = state_report(&state, "1970-01-01T00:00:00Z", &[false]);

    assert_eq!(
        lines,
        vec![
            "backend: swaybg",
            "mode: Static",
            "wallpaper: /tmp/wall.png",
            "updated_at: 1970-01-01T00:00:00Z",
            "last_command: set /tmp/wall.png",
            "monitors:",
            "  DP-1: backend=swaybg, pid=42, pid_status=stale, wallpaper=/tmp/wall.png",
        ]
    );
}

#[test]
fn restore_dry_run_starts_with_saved_plan() {
    let state = State::from_set_plan(&plan("/tmp/wall.png", MediaKind::Static, Backend::Swaybg, "DP-1"), None);

    let lines = restore_plan_report(&state, &Config::default(), &["DP-1".to_string()]);

    assert_eq!(lines[0], "restore backend: swaybg");
    assert_eq!(lines[1], "restore mode: Static");
    assert_eq!(lines[2], "restore wallpaper: /tmp/wall.png");
    assert_eq!(lines[3], "planned backend: swaybg");
}

#[test]
fn prints_words_for_flags_and_kinds() {
    assert_eq!(bool_string(true), "true");
    assert_eq!(bool_string(false), "false");
    assert_eq!(kind_string(MediaKind::Live), "Live");
}
