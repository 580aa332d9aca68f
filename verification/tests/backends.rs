use jobowalls::backends::awww::{apply_command, apply_instant_command, daemon_command, query_command};
use jobowalls::backends::hyprpaper;
use jobowalls::backends::model::Backend;
use jobowalls::backends::mpvpaper::{start_command, start_command_with_ipc};
use jobowalls::backends::swaybg;
use jobowalls::config::{AwwwConfig, HyprpaperConfig, MpvpaperConfig};
use jobowalls::media::MediaKind;
use jobowalls::orchestrator::SetPlan;

fn plan(wallpaper: &str, kind: MediaKind, backend: Backend, monitor: &str) -> SetPlan {
    SetPlan {
        wallpaper: wallpaper.to_string(),
        media_kind: kind,
        backend,
        monitor: monitor.to_string(),
    }
}

#[test]
fn builds_awww_command_for_specific_monitor() {
    let plan = plan("/tmp/wall.jpg", MediaKind::Static, Backend::Awww, "DP-1");

    assert_eq!(
        apply_command(&plan, &AwwwConfig::default()).to_string(),
        "awww img /tmp/wall.jpg --transition-type grow --transition-duration 2.4 --transition-fps 60 --transition-pos center --transition-bezier .42,0,.2,1 --transition-wave 28,12 --outputs DP-1"
    );
}

#[test]
fn builds_awww_lifecycle_commands() {
    assert_eq!(query_command().to_string(), "awww query");
    assert_eq!(daemon_command().to_string(), "awww-daemon --quiet");
}

#[test]
fn builds_instant_awww_command_for_live_to_static() {
    let plan = plan("/tmp/wall.jpg", MediaKind::Static, Backend::Awww, "DP-1");

    assert_eq!(
        apply_instant_command(&plan).to_string(),
        "awww img /tmp/wall.jpg --transition-type none --transition-step 255 --outputs DP-1"
    );
}

#[test]
fn awww_command_for_all_monitors_names_no_output() {
    let plan = plan("/tmp/wall.jpg", MediaKind::Static, Backend::Awww, "all");

    assert_eq!(
        apply_instant_command(&plan).to_string(),
        "awww img /tmp/wall.jpg --transition-type none --transition-step 255"
    );
}

#[test]
fn builds_hyprpaper_commands_for_specific_monitor() {
    let plan = plan("/tmp/wall.png", MediaKind::Static, Backend::Hyprpaper, "DP-1");

    let commands = hyprpaper::wallpaper_commands(&plan, &[]);

    assert_eq!(commands.len(), 1);
    assert_eq!(commands[0].to_string(), "hyprctl hyprpaper wallpaper DP-1,/tmp/wall.png");
}

#[test]
fn expands_all_outputs() {
    let plan = plan("/tmp/wall.png", MediaKind::Static, Backend::Hyprpaper, "all");

    let commands = hyprpaper::wallpaper_commands(&plan, &["DP-1".to_string(), "DP-3".to_string()]);

    assert_eq!(commands.len(), 2);
    assert_eq!(commands[0].to_string(), "hyprctl hyprpaper wallpaper DP-1,/tmp/wall.png");
    assert_eq!(commands[1].to_string(), "hyprctl hyprpaper wallpaper DP-3,/tmp/wall.png");
}

#[test]
fn wraps_wallpaper_commands_with_preload_and_unload() {
    let plan = plan("/tmp/wall.png", MediaKind::Static, Backend::Hyprpaper, "DP-1");

    let commands = hyprpaper::apply_commands(&plan, &[], &HyprpaperConfig::default());

    assert_eq!(commands.len(), 3);
    assert_eq!(commands[0].to_string(), "hyprctl hyprpaper preload /tmp/wall.png");
    assert_eq!(commands[1].to_string(), "hyprctl hyprpaper wallpaper DP-1,/tmp/wall.png");
    assert_eq!(commands[2].to_string(), "hyprctl hyprpaper unload unused");
}

#[test]
fn hyprpaper_keeps_unused_wallpapers_when_configured() {
    let plan = plan("/tmp/wall.png", MediaKind::Static, Backend::Hyprpaper, "DP-1");

    let commands = hyprpaper::apply_commands(&plan, &[], &HyprpaperConfig { unload_unused: false });

    assert_eq!(commands.len(), 2);
}

#[test]
fn builds_hyprpaper_lifecycle_commands() {
    assert_eq!(hyprpaper::query_command().to_string(), "hyprctl hyprpaper listloaded");
    assert_eq!(hyprpaper::daemon_command().to_string(), "hyprpaper");
}

#[test]
fn builds_mpvpaper_command_with_normalized_mpv_options() {
    let plan = plan("/tmp/rain.mp4", MediaKind::Live, Backend::Mpvpaper, "DP-1");
    let config = MpvpaperConfig {
        mode: "per-monitor".to_string(),
        extra_args: vec!["--loop".to_string(), "--no-audio".to_string(), "--panscan=1.0".to_string()],
        readiness_timeout_ms: 5_000,
    };

    assert_eq!(
        start_command(&plan, &config).to_string(),
        "mpvpaper --mpv-options 'loop no-audio panscan=1.0' DP-1 /tmp/rain.mp4"
    );
}

#[test]
fn builds_mpvpaper_command_with_ipc_socket() {
    let plan = plan("/tmp/rain.mp4", MediaKind::Live, Backend::Mpvpaper, "DP-1");
    let config = MpvpaperConfig::default();

    assert_eq!(
        start_command_with_ipc(&plan, &config, "/tmp/jobowalls.sock").to_string(),
        "mpvpaper --mpv-options 'loop no-audio panscan=1.0 input-ipc-server=/tmp/jobowalls.sock' DP-1 /tmp/rain.mp4"
    );
}

#[test]
fn builds_swaybg_command_for_all_monitors() {
    let plan = plan("/tmp/wall.jpg", MediaKind::Static, Backend::Swaybg, "all");

    assert_eq!(swaybg::start_command(&plan).to_string(), "swaybg -i /tmp/wall.jpg -m fill");
}

#[test]
fn builds_swaybg_command_for_specific_monitor() {
    let plan = plan("/tmp/wall.jpg", MediaKind::Static, Backend::Swaybg, "DP-1");

    assert_eq!(swaybg::start_command(&plan).to_string(), "swaybg -i /tmp/wall.jpg -m fill -o DP-1");
}

#[test]
fn backend_names_display() {
    assert_eq!(Backend::Hyprpaper.to_string(), "hyprpaper");
    assert_eq!(Backend::Mpvpaper.to_string(), "mpvpaper");
    assert_eq!(Backend::Awww.to_string(), "awww");
    assert_eq!(Backend::Swaybg.to_string(), "swaybg");
}
