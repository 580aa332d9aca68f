use jobowalls::backends::model::Backend;
use jobowalls::cli::{
    apply_runtime_auto_backend, hyprland_session_detected_from, last_collection_command, last_set_command,
    live_pause_decision_from_status, parse_omarchy_swaybg_pid, pause_report, pause_signal, pid_status,
    sanitize_monitor, select_for_step, select_static_auto_backend_with_availability, BackendArg,
    BackendAvailability, CollectionStep,
};
use jobowalls::config::Config;
use jobowalls::cli::{
    fullscreen_from_text, string_property, string_property_text, video_output_ready, video_output_ready_text,
};
use jobowalls::json::JsonValue;
use jobowalls::media::MediaKind;
use jobowalls::orchestrator::SetPlan;

#[test]
fn runtime_auto_backend_prefers_swaybg_over_hyprpaper() {
    let config = Config::default();

    assert_eq!(select_static_auto_backend_with_availability(&config, true, true, true), Backend::Swaybg);
}

#[test]
fn runtime_auto_backend_keeps_awww_opt_in() {
    let mut config = Config::default();
    config.awww.enabled = true;

    assert_eq!(select_static_auto_backend_with_availability(&config, true, true, true), Backend::Awww);
}

#[test]
fn runtime_auto_backend_uses_swaybg_on_omarchy_systems() {
    let config = Config::default();

    assert_eq!(select_static_auto_backend_with_availability(&config, false, false, true), Backend::Swaybg);
}

#[test]
fn runtime_auto_backend_falls_back_to_awww_when_swaybg_and_hyprpaper_are_missing() {
    let config = Config::default();

    assert_eq!(select_static_auto_backend_with_availability(&config, false, true, false), Backend::Awww);
}

#[test]
fn runtime_auto_backend_respects_explicit_backend_argument() {
    let mut config = Config::default();
    config.awww.enabled = true;
    let mut plan = SetPlan {
        wallpaper: "/tmp/wall.png".to_string(),
        media_kind: MediaKind::Static,
        backend: Backend::Hyprpaper,
        monitor: "all".to_string(),
    };
    let available = BackendAvailability { hyprpaper: true, awww: true, swaybg: true };

    apply_runtime_auto_backend(&mut plan, &config, BackendArg::Hyprpaper, &available);

    assert_eq!(plan.backend, Backend::Hyprpaper);
}

#[test]
fn runtime_auto_backend_replaces_static_auto_choice() {
    let config = Config::default();
    let mut plan = SetPlan {
        wallpaper: "/tmp/wall.png".to_string(),
        media_kind: MediaKind::Static,
        backend: Backend::Hyprpaper,
        monitor: "all".to_string(),
    };
    let available = BackendAvailability { hyprpaper: true, awww: false, swaybg: true };

    apply_runtime_auto_backend(&mut plan, &config, BackendArg::Auto, &available);

    assert_eq!(plan.backend, Backend::Swaybg);
}

#[test]
fn doctor_static_auto_backend_keeps_awww_opt_in() {
    let config = Config::default();

    assert_eq!(select_static_auto_backend_with_availability(&config, true, true, false), Backend::Hyprpaper);
}

#[test]
fn runtime_auto_backend_defaults_to_swaybg_when_nothing_is_installed() {
    let config = Config::default();

    assert_eq!(select_static_auto_backend_with_availability(&config, false, false, false), Backend::Swaybg);
}

#[test]
fn records_collection_command_shape() {
    let plan = SetPlan {
        wallpaper: "/tmp/walls/b.mp4".to_string(),
        media_kind: MediaKind::Live,
        backend: Backend::Mpvpaper,
        monitor: "DP-1".to_string(),
    };

    assert_eq!(
        last_collection_command(CollectionStep::Next, "/tmp/walls", &plan),
        "next /tmp/walls --monitor DP-1 --backend mpvpaper"
    );
}

#[test]
fn records_set_command_shape() {
    let plan = SetPlan {
        wallpaper: "/tmp/wall.png".to_string(),
        media_kind: MediaKind::Static,
        backend: Backend::Swaybg,
        monitor: "all".to_string(),
    };

    assert_eq!(last_set_command(&plan), "set /tmp/wall.png --monitor all --backend swaybg");
}

#[test]
fn live_pause_decision_respects_enabled_triggers() {
    let mut config = Config::default();
    config.live.pause.on_fullscreen = false;

    let decision = live_pause_decision_from_status(&config, false, true, true);

    assert!(decision.pause);
    assert_eq!(decision.reasons, ["idle"]);
}

#[test]
fn live_pause_report_lists_reasons() {
    let config = Config::default();
    let decision = live_pause_decision_from_status(&config, true, true, false);

    assert_eq!(pause_report(&decision, 2), "live pause active: battery, fullscreen (2 process signal(s) sent)");
    assert_eq!(pause_signal(decision.pause), "STOP");
    let idle = live_pause_decision_from_status(&config, false, false, false);
    assert_eq!(pause_report(&idle, 0), "live pause inactive (0 process signal(s) sent)");
    assert_eq!(pause_signal(idle.pause), "CONT");
}

#[test]
fn cli_parses_only_omarchy_current_background_swaybg_pid() {
    let home = "/home/tester";

    assert_eq!(
        parse_omarchy_swaybg_pid(
            "2106 /usr/bin/swaybg -i /home/tester/.config/omarchy/current/background -m fill",
            Some(home),
        ),
        Some(2106)
    );
    assert_eq!(parse_omarchy_swaybg_pid("2107 /usr/bin/swaybg -i /tmp/other.jpg -m fill", Some(home)), None);
}

#[test]
fn omarchy_swaybg_needs_a_home() {
    assert_eq!(
        parse_omarchy_swaybg_pid("2106 /usr/bin/swaybg -i /home/tester/.config/omarchy/current/background", None),
        None
    );
}

#[test]
fn pid_status_reads_running_stale_or_none() {
    assert_eq!(pid_status(Some(1), true), "running");
    assert_eq!(pid_status(Some(1), false), "stale");
    assert_eq!(pid_status(None, true), "none");
}

#[test]
fn detects_hyprland_from_desktop_parts() {
    assert!(hyprland_session_detected_from(true, None));
    assert!(hyprland_session_detected_from(false, Some("GNOME:Hyprland")));
    assert!(!hyprland_session_detected_from(false, Some("hyprlandish")));
    assert!(!hyprland_session_detected_from(false, None));
}

#[test]
fn ipc_socket_monitor_names_are_sanitized() {
    assert_eq!(sanitize_monitor("DP-1/a b"), "DP-1_a_b");
}

#[test]
fn collection_step_dispatches_to_the_persistent_selectors() {
    let files = vec!["/tmp/a.jpg".to_string(), "/tmp/b.jpg".to_string(), "/tmp/c.jpg".to_string()];

    assert_eq!(select_for_step(CollectionStep::Next, &files, None, Some("/tmp/c.jpg"), 0), (0, "/tmp/a.jpg".to_string()));
    assert_eq!(
        select_for_step(CollectionStep::Previous, &files, None, Some("/tmp/a.jpg"), 0),
        (2, "/tmp/c.jpg".to_string())
    );
}

#[test]
fn app_parses_only_omarchy_current_background_swaybg_pid() {
    let home = Some("/home/tester");

    assert_eq!(
        parse_omarchy_swaybg_pid(
            "2106 /usr/bin/swaybg -i /home/tester/.config/omarchy/current/background -m fill",
            home,
        ),
        Some(2106)
    );
    assert_eq!(parse_omarchy_swaybg_pid("2107 /usr/bin/swaybg -i /tmp/other.jpg -m fill", home), None);
    assert_eq!(
        parse_omarchy_swaybg_pid("2108 /usr/bin/mpvpaper all /home/tester/.config/omarchy/current/background", home),
        None
    );
}

#[test]
fn query_preview_mpv_video_output_reports_ready_when_data_is_present() {
    let reply = JsonValue::Object(vec![
        ("data".to_string(), JsonValue::Object(vec![("w".to_string(), JsonValue::Number(Some(1920)))])),
        ("error".to_string(), JsonValue::Str("success".to_string())),
    ]);

    assert!(video_output_ready(&reply));
}

#[test]
fn query_preview_mpv_video_output_reports_not_ready_when_data_is_null() {
    let null_data = JsonValue::Object(vec![
        ("data".to_string(), JsonValue::Null),
        ("error".to_string(), JsonValue::Str("success".to_string())),
    ]);
    let failed = JsonValue::Object(vec![
        ("data".to_string(), JsonValue::Bool(true)),
        ("error".to_string(), JsonValue::Str("property unavailable".to_string())),
    ]);

    assert!(!video_output_ready(&null_data));
    assert!(!video_output_ready(&failed));
}

#[test]
fn query_preview_mpv_string_property_returns_path() {
    let reply = JsonValue::Object(vec![
        ("request_id".to_string(), JsonValue::Number(Some(1))),
        ("error".to_string(), JsonValue::Str("success".to_string())),
        ("data".to_string(), JsonValue::Str("/wall/live.mp4".to_string())),
    ]);
    let failed = JsonValue::Object(vec![
        ("data".to_string(), JsonValue::Str("/w/a.mp4".to_string())),
        ("error".to_string(), JsonValue::Str("property unavailable".to_string())),
    ]);
    let not_text = JsonValue::Object(vec![
        ("data".to_string(), JsonValue::Number(Some(3))),
        ("error".to_string(), JsonValue::Str("success".to_string())),
    ]);

    assert_eq!(string_property(&reply), Some("/wall/live.mp4".to_string()));
    assert_eq!(string_property(&failed), None);
    assert_eq!(string_property(&not_text), None);
}

#[test]
fn mpv_readiness_is_read_from_the_answer_line() {
    assert_eq!(
        video_output_ready_text(r#"{"request_id":1,"error":"success","data":{"w":1920,"h":1080}}"#),
        Some(true)
    );
    assert_eq!(video_output_ready_text(r#"{"request_id":1,"error":"success","data":null}"#), Some(false));
    assert_eq!(video_output_ready_text(r#"{"request_id":1,"error":"property unavailable"}"#), Some(false));
    assert_eq!(video_output_ready_text("not json"), None);
}

#[test]
fn fullscreen_is_read_from_hyprctl_activewindow_output() {
    assert!(fullscreen_from_text(Some(r#"{"address":"0x1","fullscreen":true}"#)));
    assert!(fullscreen_from_text(Some(r#"{"fullscreen":2}"#)));
    assert!(!fullscreen_from_text(Some(r#"{"fullscreen":0}"#)));
    assert!(!fullscreen_from_text(Some(r#"{"fullscreen":false}"#)));
    assert!(!fullscreen_from_text(Some("{}")));
    assert!(!fullscreen_from_text(Some("garbage")));
    assert!(!fullscreen_from_text(None));
}

#[test]
fn mpv_string_property_is_read_from_the_answer_line() {
    assert_eq!(
        string_property_text(r#"{"request_id":1,"error":"success","data":"/wall/live.mp4"}"#),
        Some(Some("/wall/live.mp4".to_string()))
    );
    assert_eq!(string_property_text(r#"{"request_id":1,"error":"success","data":3}"#), Some(None));
    assert_eq!(string_property_text("{"), None);
}
