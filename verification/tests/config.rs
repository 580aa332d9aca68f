use jobowalls::backends::model::Backend;
use jobowalls::config::{BackendPreference, Config, StaticBackendPreference};

#[test]
fn defaults_match_plan() {
    let config = Config::default();
    assert_eq!(config.general.static_backend, StaticBackendPreference::Auto);
    assert_eq!(config.general.live_backend, Backend::Mpvpaper);
    assert_eq!(config.monitors.default, "all");
    assert!(config.monitors.profiles.is_empty());
    assert!(config.live.pause.on_battery);
    assert!(config.live.pause.on_fullscreen);
    assert!(config.live.pause.on_idle);
    assert_eq!(config.mpvpaper.extra_args, ["--loop", "--no-audio", "--panscan=1.0"]);
    assert_eq!(config.mpvpaper.readiness_timeout_ms, 5_000);
    assert_eq!(config.awww.transition_duration, "2.4");
    assert_eq!(config.awww.transition_fps, 60);
    assert_eq!(config.awww.transition_pos, "center");
    assert_eq!(config.awww.transition_bezier, ".42,0,.2,1");
    assert_eq!(config.awww.transition_wave, "28,12");
}

#[test]
fn auto_static_uses_awww_when_enabled() {
    let mut config = Config::default();
    assert_eq!(config.configured_static_backend(), Some(Backend::Hyprpaper));
    config.awww.enabled = true;
    assert_eq!(config.configured_static_backend(), Some(Backend::Awww));
}

#[test]
fn explicit_static_backend_wins_over_awww() {
    let mut config = Config::default();
    config.awww.enabled = true;
    config.general.static_backend = StaticBackendPreference::Swaybg;
    assert_eq!(config.configured_static_backend(), Some(Backend::Swaybg));
}

#[test]
fn backend_preference_names_backends() {
    assert_eq!(BackendPreference::Auto.as_backend(), None);
    assert_eq!(BackendPreference::Hyprpaper.as_backend(), Some(Backend::Hyprpaper));
    assert_eq!(BackendPreference::Mpvpaper.as_backend(), Some(Backend::Mpvpaper));
    assert_eq!(BackendPreference::Awww.as_backend(), Some(Backend::Awww));
    assert_eq!(BackendPreference::Swaybg.as_backend(), Some(Backend::Swaybg));
}
