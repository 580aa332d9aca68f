use jobowalls::backends::model::{Backend, BackendOverride};
use jobowalls::config::Config;
use jobowalls::media::MediaKind;
use jobowalls::orchestrator::{plan_set, SetPlan};
use jobowalls::state::State;

#[test]
fn plans_static_wallpaper_with_hyprpaper_by_default() {
    let plan = plan_set(&Config::default(), "/tmp/wall.png", None, None, BackendOverride::Auto).unwrap();

    assert_eq!(plan.media_kind, MediaKind::Static);
    assert_eq!(plan.backend, Backend::Hyprpaper);
    assert_eq!(plan.monitor, "all");
}

#[test]
fn plans_live_wallpaper_with_mpvpaper_by_default() {
    let plan = plan_set(
        &Config::default(),
        "/tmp/rain.mp4",
        None,
        Some("DP-1".to_string()),
        BackendOverride::Auto,
    )
    .unwrap();

    assert_eq!(plan.media_kind, MediaKind::Live);
    assert_eq!(plan.backend, Backend::Mpvpaper);
    assert_eq!(plan.monitor, "DP-1");
}

#[test]
fn rejects_invalid_backend_override() {
    let result = plan_set(
        &Config::default(),
        "/tmp/rain.mp4",
        None,
        None,
        BackendOverride::Backend(Backend::Hyprpaper),
    );

    assert!(result.is_err());
    assert_eq!(result.unwrap_err(), "hyprpaper cannot handle Live wallpapers");
}

#[test]
fn rebuilds_plan_from_state() {
    let state = State::from_set_plan(
        &SetPlan {
            wallpaper: "/tmp/wall.png".to_string(),
            media_kind: MediaKind::Static,
            backend: Backend::Awww,
            monitor: "DP-1".to_string(),
        },
        None,
    );

    let plan = SetPlan::from_state(&state).unwrap();

    assert_eq!(plan.wallpaper, "/tmp/wall.png");
    assert_eq!(plan.media_kind, MediaKind::Static);
    assert_eq!(plan.backend, Backend::Awww);
    assert_eq!(plan.monitor, "DP-1");
}

#[test]
fn clones_plan_for_monitor() {
    let plan = SetPlan {
        wallpaper: "/tmp/wall.png".to_string(),
        media_kind: MediaKind::Static,
        backend: Backend::Awww,
        monitor: "all".to_string(),
    };

    let monitor_plan = plan.for_monitor("DP-3".to_string());

    assert_eq!(monitor_plan.wallpaper, plan.wallpaper);
    assert_eq!(monitor_plan.media_kind, plan.media_kind);
    assert_eq!(monitor_plan.backend, plan.backend);
    assert_eq!(monitor_plan.monitor, "DP-3");
}

#[test]
fn unknown_media_is_refused_before_choosing_a_backend() {
    let result = plan_set(&Config::default(), "/tmp/notes.txt", None, None, BackendOverride::Auto);
    assert_eq!(result.unwrap_err(), "unsupported wallpaper media type: /tmp/notes.txt");
}
