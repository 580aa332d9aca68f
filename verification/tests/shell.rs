use jobowalls::config::{Config, ShellPositionConfig};
use jobowalls::media::MediaKind;
use jobowalls::shell::cli::{ShellArgs, ShellPosition};
use jobowalls::shell::model::WallpaperItem;
use jobowalls::shell::preview::{
    display_path, nearby_indexes, poster_path, preview_command, prioritized_jobs, PreviewJob,
    PreviewKind, PreviewProfile,
};
use jobowalls::shell::scanner::{folder_candidates, resolve_folder, scan_folder, ListedFile};
use jobowalls::shell::state::ShellState;

fn bare_args() -> ShellArgs {
    ShellArgs {
        folder: None,
        monitor: None,
        position: None,
        width: 0,
        height: None,
        no_live_preview: false,
        debug_window: false,
    }
}

#[test]
fn config_supplies_missing_shell_args() {
    let mut config = Config::default();
    config.shell.monitor = "DP-1".to_string();
    config.shell.position = ShellPositionConfig::Center;
    config.shell.height = 410;
    config.shell.live_preview = false;

    let args = bare_args().apply_config_defaults(&config);

    assert_eq!(args.monitor(), "DP-1");
    assert_eq!(args.position(), ShellPosition::Center);
    assert_eq!(args.height(), 410);
    assert!(args.no_live_preview);
}

#[test]
fn cli_shell_args_override_config() {
    let mut config = Config::default();
    config.shell.monitor = "DP-1".to_string();
    config.shell.position = ShellPositionConfig::Center;
    config.shell.height = 410;

    let mut args = bare_args();
    args.monitor = Some("HDMI-A-1".to_string());
    args.position = Some(ShellPosition::Bottom);
    args.height = Some(300);
    let args = args.apply_config_defaults(&config);

    assert_eq!(args.monitor(), "HDMI-A-1");
    assert_eq!(args.position(), ShellPosition::Bottom);
    assert_eq!(args.height(), 300);
}

fn item(path: &str, kind: MediaKind) -> WallpaperItem {
    WallpaperItem { path: path.to_string(), kind }
}

fn keys(n: usize) -> Vec<String> {
    (0..n).map(|i| format!("key{i}")).collect()
}

#[test]
fn queues_only_static_posters_when_animation_is_disabled() {
    let items = vec![
        item("/tmp/a.mp4", MediaKind::Live),
        item("/tmp/b.mp4", MediaKind::Live),
        item("/tmp/c.png", MediaKind::Static),
    ];

    let jobs = prioritized_jobs(&items, &keys(3), 0, PreviewProfile::default(), false, "/cache");
    assert!(jobs.iter().all(|job| job.kind == PreviewKind::Poster));
}

#[test]
fn queues_full_visible_carousel_for_prewarming() {
    let items: Vec<_> =
        (0..8).map(|index| item(&format!("/tmp/{index}.png"), MediaKind::Static)).collect();

    let jobs = prioritized_jobs(&items, &keys(8), 0, PreviewProfile::default(), false, "/cache");
    let sources: Vec<&str> = jobs.iter().map(|job| job.source.as_str()).collect();

    assert_eq!(jobs.len(), 7);
    for expected in ["/tmp/0.png", "/tmp/1.png", "/tmp/2.png", "/tmp/3.png", "/tmp/5.png", "/tmp/6.png", "/tmp/7.png"] {
        assert!(sources.contains(&expected));
    }
}

#[test]
fn selected_live_wallpaper_gets_an_animation_job_when_animating() {
    let items = vec![item("/tmp/a.mp4", MediaKind::Live), item("/tmp/b.png", MediaKind::Static)];

    let jobs = prioritized_jobs(&items, &keys(2), 0, PreviewProfile::default(), true, "/cache");

    assert!(jobs.iter().any(|job| job.kind == PreviewKind::Animated && job.source == "/tmp/a.mp4"));
    assert!(jobs.iter().any(|job| job.kind == PreviewKind::Poster && job.source == "/tmp/b.png"));
}

#[test]
fn nearby_indexes_wrap_around_without_repeats() {
    let near = nearby_indexes(8, 0, 3);
    assert_eq!(near.len(), 6);
    for expected in [1, 2, 3, 5, 6, 7] {
        assert!(near.contains(&expected));
    }
    assert!(!near.contains(&0));

    let small = nearby_indexes(3, 1, 3);
    assert_eq!(small.len(), 2);
    assert!(small.contains(&0) && small.contains(&2));
    assert!(nearby_indexes(1, 0, 3).is_empty());
}

#[test]
fn poster_paths_live_in_the_cache_folder() {
    assert_eq!(poster_path("/cache", "abc"), "/cache/abc-shell-poster-v1.jpg");
    let selected_live = item("/tmp/a.mp4", MediaKind::Live);
    assert_eq!(display_path(&selected_live, "abc", "/cache", true, true, false, true), Some("/cache/abc-shell-poster-v1.jpg".to_string()));
    assert_eq!(display_path(&selected_live, "abc", "/cache", true, true, false, false), None);
}

#[test]
fn preview_command_scales_posters() {
    let job = PreviewJob {
        source: "/tmp/a.png".to_string(),
        output: "/cache/a.png".to_string(),
        kind: PreviewKind::Poster,
        profile: PreviewProfile::default(),
    };

    let command = preview_command(&job);

    assert_eq!(command.program, "ffmpeg");
    assert_eq!(
        command.args,
        vec![
            "-hide_banner", "-loglevel", "error", "-y", "-i", "/tmp/a.png", "-frames:v", "1", "-vf",
            "scale=480:-2:force_original_aspect_ratio=decrease", "/cache/a.png",
        ]
    );
}

#[test]
fn scans_supported_wallpapers_sorted() {
    let files = vec![
        ListedFile { path: "/tmp/w/b.mp4".to_string(), is_file: true },
        ListedFile { path: "/tmp/w/a.png".to_string(), is_file: true },
        ListedFile { path: "/tmp/w/notes.txt".to_string(), is_file: true },
    ];

    let items = scan_folder(&files);
    let names: Vec<String> = items.iter().map(WallpaperItem::display_name).collect();
    assert_eq!(names, ["a.png", "b.mp4"]);
    assert_eq!(items[1].kind, MediaKind::Live);
}

#[test]
fn scans_wallpapers_sorted_case_insensitively() {
    let files = vec![
        ListedFile { path: "/tmp/w/b.png".to_string(), is_file: true },
        ListedFile { path: "/tmp/w/A.png".to_string(), is_file: true },
        ListedFile { path: "/tmp/w/sub.png".to_string(), is_file: false },
    ];

    let items = scan_folder(&files);
    let names: Vec<String> = items.iter().map(WallpaperItem::display_name).collect();
    assert_eq!(names, ["A.png", "b.png"]);
}

#[test]
fn folder_candidates_expand_home_and_prefer_the_given_folder() {
    let mut state = ShellState::default();
    state.remember("/tmp/remembered", "DP-1", 2);

    let candidates = folder_candidates(Some("~/walls"), Some(&state), Some("/home/u"));
    assert_eq!(
        candidates,
        vec![
            "/home/u/walls",
            "/tmp/remembered",
            "/home/u/.config/omarchy/current/theme/backgrounds",
            "/home/u/Pictures/Wallpapers",
        ]
    );
    assert_eq!(resolve_folder(&candidates, &[false, true, true, false]).unwrap(), "/tmp/remembered");
    assert!(resolve_folder(&candidates, &[false, false, false, false]).is_err());
}

#[test]
fn shell_state_remembers_and_clamps_index() {
    let mut state = ShellState::default();
    state.remember("/tmp/walls", "DP-1", 4);

    assert_eq!(state.remembered_index("/tmp/walls", 10), 4);
    assert_eq!(state.remembered_index("/tmp/walls", 3), 2);
    assert_eq!(state.remembered_index("/tmp/other", 3), 0);
    assert_eq!(state.last_monitor, "DP-1");
}

use jobowalls::backends::model::Backend;
use jobowalls::orchestrator::SetPlan;
use jobowalls::shell::carousel::{is_active, offset_index, slot_for_index, visible_indexes};
use jobowalls::shell::desktop::{
    blocking_live_pids, blocking_swaybg_pids, desktop_preview_request, initial_selection,
    mpvpaper_preview_ipc_socket, needs_restore, should_request_desktop_preview,
    should_snap_repeated_navigation, start_navigation_animation, state_live_pids_for_monitor,
    moved_selection, rescanned_selection, shuffled_selection,
    state_swaybg_pids_for_monitor, NavigationInput, LIVE_DESKTOP_PREVIEW_DEBOUNCE_MS, NAV_ANIMATION_FRAMES,
    NAV_REPEAT_SNAP_MS, preview_path_step, preview_ready_step, PreviewWait,
};
use jobowalls::state::State;

#[test]
fn visible_indexes_wrap_around_selected_item() {
    assert_eq!(visible_indexes(10, 0), vec![0, 1, 2, 3, 7, 8, 9]);
}

#[test]
fn visible_indexes_avoid_duplicate_far_cards_for_small_sets() {
    assert_eq!(visible_indexes(3, 1), vec![0, 1, 2]);
}

#[test]
fn visible_indexes_include_seven_cards_when_available() {
    let visible = visible_indexes(12, 6);

    assert_eq!(visible.len(), 7);
    assert_eq!(visible, vec![3, 4, 5, 6, 7, 8, 9]);
}

#[test]
fn carousel_slots_wrap_and_stop_at_the_folder_size() {
    assert_eq!(offset_index(10, 0, -1), Some(9));
    assert_eq!(offset_index(10, 0, 3), Some(3));
    assert_eq!(offset_index(1, 0, 1), None);
    assert_eq!(offset_index(3, 1, -3), None);
    assert_eq!(offset_index(0, 0, 0), None);
    assert_eq!(slot_for_index(10, 0, 9), Some(-1));
    assert_eq!(slot_for_index(10, 0, 5), None);
    assert_eq!(slot_for_index(2, 0, 1), Some(-1));
    assert!(visible_indexes(0, 0).is_empty());
    assert_eq!(visible_indexes(1, 0), vec![0]);

    let items = vec![item("/w/a.png", MediaKind::Static)];
    assert!(is_active(&items, Some(0), Some("/w/./a.png")));
    assert!(!is_active(&items, None, Some("/w/a.png")));
    assert!(!is_active(&items, Some(0), None));
}

#[test]
fn desktop_preview_skips_current_wallpaper_without_pending_preview() {
    assert!(!should_request_desktop_preview(Some("/wall/a.png"), None, "/wall/a.png"));
}

#[test]
fn desktop_preview_replaces_different_pending_preview_even_when_target_is_current() {
    assert!(should_request_desktop_preview(Some("/wall/a.png"), Some("/wall/b.png"), "/wall/a.png"));
}

#[test]
fn desktop_preview_skips_duplicate_pending_preview() {
    assert!(!should_request_desktop_preview(Some("/wall/a.png"), Some("/wall/b.png"), "/wall/b.png"));
}

#[test]
fn desktop_preview_request_advances_the_generation() {
    let live = item("/wall/rain.mp4", MediaKind::Live);

    let job = desktop_preview_request(false, Some(&live), None, None, 4, "DP-1").unwrap();
    assert_eq!(job.generation, 5);
    assert_eq!(job.debounce_ms, LIVE_DESKTOP_PREVIEW_DEBOUNCE_MS);
    assert!(job.is_live);
    assert_eq!(job.monitor, "DP-1");

    assert!(desktop_preview_request(true, Some(&live), None, None, 4, "DP-1").is_none());
    assert!(desktop_preview_request(false, None, None, None, 4, "DP-1").is_none());
    assert!(desktop_preview_request(false, Some(&live), None, Some("/wall/rain.mp4"), 4, "DP-1").is_none());

    assert!(needs_restore(Some("/wall/a.png"), Some("/wall/b.png")));
    assert!(needs_restore(Some("/wall/a.png"), None));
    assert!(!needs_restore(Some("/wall/a.png"), Some("/wall/a.png")));
    assert!(!needs_restore(None, Some("/wall/a.png")));
}

fn recent(direction: isize, millis: u64) -> Option<NavigationInput> {
    Some(NavigationInput { direction, elapsed_nanos: u128::from(millis) * 1_000_000 })
}

#[test]
fn rapid_same_direction_navigation_snaps_instead_of_restarting_animation() {
    assert!(should_snap_repeated_navigation(recent(1, 40), 1));
}

#[test]
fn slow_navigation_keeps_full_animation() {
    assert!(!should_snap_repeated_navigation(recent(1, NAV_REPEAT_SNAP_MS + 1), 1));
}

#[test]
fn direction_change_keeps_full_animation() {
    assert!(!should_snap_repeated_navigation(recent(1, 40), -1));
}

#[test]
fn repeat_burst_stays_snapped_after_animation_has_been_cleared() {
    assert!(should_snap_repeated_navigation(recent(1, 40), 1));
    let snapped = start_navigation_animation(recent(1, 40), 3, 2);
    assert_eq!(snapped.frame, 0);
    assert_eq!(snapped.direction, 1);
    assert_eq!(snapped.previous_selected, None);
    let animated = start_navigation_animation(None, 3, -5);
    assert_eq!(animated.frame, NAV_ANIMATION_FRAMES);
    assert_eq!(animated.direction, -1);
    assert_eq!(animated.previous_selected, Some(3));
}

#[test]
fn mpvpaper_preview_ipc_socket_sanitizes_monitor_name() {
    let plan = SetPlan {
        wallpaper: "/tmp/live.mp4".to_string(),
        media_kind: MediaKind::Live,
        backend: Backend::Mpvpaper,
        monitor: "DP-1:bad/name".to_string(),
    };

    let path = mpvpaper_preview_ipc_socket(&plan, "/tmp", 77, 123456789012345678901234);
    let file_name = path.rsplit('/').next().unwrap();

    assert!(file_name.starts_with("jobowalls-shell-mpvpaper-"));
    assert!(file_name.contains("-DP-1_bad_name-"));
    assert!(!file_name.contains(':'));
    assert_eq!(path, "/tmp/jobowalls-shell-mpvpaper-77-DP-1_bad_name-123456789012345678901234.sock");
}

fn three_monitor_state(primary: Backend, other: Backend) -> State {
    let first = SetPlan {
        wallpaper: "/tmp/a".to_string(),
        media_kind: MediaKind::Static,
        backend: primary,
        monitor: "DP-1".to_string(),
    };
    let state = State::from_set_plan(&first, Some(101));
    let second = SetPlan {
        wallpaper: "/tmp/b".to_string(),
        media_kind: MediaKind::Static,
        backend: other,
        monitor: "DP-2".to_string(),
    };
    let state = State::merged_with_monitor_entries(Some(&state), &second, vec![("DP-2".to_string(), Some(202))]);
    let third = SetPlan {
        wallpaper: "/tmp/c".to_string(),
        media_kind: MediaKind::Static,
        backend: primary,
        monitor: "HDMI-A-1".to_string(),
    };
    State::merged_with_monitor_entries(Some(&state), &third, vec![("HDMI-A-1".to_string(), None)])
}

#[test]
fn state_swaybg_pids_filter_by_monitor_and_backend() {
    let state = three_monitor_state(Backend::Swaybg, Backend::Mpvpaper);

    assert_eq!(state_swaybg_pids_for_monitor(&state, "DP-1"), vec![101]);
    assert_eq!(state_swaybg_pids_for_monitor(&state, "DP-2"), Vec::<u32>::new());
    assert_eq!(state_swaybg_pids_for_monitor(&state, "all"), vec![101]);
    assert_eq!(blocking_swaybg_pids(Some(&state), "all", &[300, 101]), vec![101, 300]);
    assert_eq!(blocking_swaybg_pids(None, "all", &[300]), vec![300]);
}

#[test]
fn state_live_pids_filter_by_monitor_and_backend() {
    let state = three_monitor_state(Backend::Mpvpaper, Backend::Swaybg);

    assert_eq!(state_live_pids_for_monitor(&state, "DP-1"), vec![101]);
    assert_eq!(state_live_pids_for_monitor(&state, "DP-2"), Vec::<u32>::new());
    assert_eq!(state_live_pids_for_monitor(&state, "all"), vec![101]);
    assert_eq!(blocking_live_pids(Some(&state), "DP-1"), vec![101]);
    assert!(blocking_live_pids(None, "DP-1").is_empty());
}

#[test]
fn picker_opens_on_the_active_wallpaper_else_where_it_left_off() {
    let items = vec![item("/w/a.png", MediaKind::Static), item("/w/b.png", MediaKind::Static)];
    let mut state = ShellState::default();
    state.remember("/w", "all", 1);

    assert_eq!(initial_selection(&items, Some("/w/b.png"), "/w", &ShellState::default()), 1);
    assert_eq!(initial_selection(&items, Some("/elsewhere.png"), "/w", &state), 1);
    assert_eq!(initial_selection(&items, None, "/w", &ShellState::default()), 0);
    assert_eq!(initial_selection(&[], Some("/w/a.png"), "/w", &state), 0);
}

#[test]
fn moving_wraps_and_comes_back() {
    assert_eq!(moved_selection(5, 4, 1), 0);
    assert_eq!(moved_selection(5, 0, -1), 4);
    assert_eq!(moved_selection(5, 2, -3), 1);
    for selected in 0..5 {
        assert_eq!(moved_selection(5, moved_selection(5, selected, 1), -1), selected);
    }
    assert_eq!(shuffled_selection(1, 0, 7), None);
    assert_eq!(shuffled_selection(4, 2, 6), Some(3));
    assert_eq!(shuffled_selection(4, 1, 6), Some(2));
    assert_eq!(rescanned_selection(9, 3), 2);
    assert_eq!(rescanned_selection(1, 3), 1);
    assert_eq!(rescanned_selection(1, 0), 0);
}

#[test]
fn preview_wait_reports_exit_ready_and_timeout() {
    assert_eq!(
        preview_ready_step(42, "/tmp/s.sock", false, Ok(true), false, false),
        PreviewWait::Failed("mpvpaper pid 42 exited before reporting readiness".to_string())
    );
    assert_eq!(preview_ready_step(42, "/tmp/s.sock", true, Ok(true), false, false), PreviewWait::Ready);
    assert_eq!(preview_ready_step(42, "/tmp/s.sock", true, Ok(false), false, false), PreviewWait::Waiting);
    assert_eq!(
        preview_ready_step(42, "/tmp/s.sock", true, Err("refused".to_string()), false, false),
        PreviewWait::Waiting
    );
    assert_eq!(
        preview_ready_step(42, "/tmp/s.sock", true, Err("refused".to_string()), true, true),
        PreviewWait::Failed("failed to query mpv IPC /tmp/s.sock: refused".to_string())
    );
    assert_eq!(
        preview_ready_step(42, "/tmp/s.sock", true, Ok(false), false, true),
        PreviewWait::Failed("timed out waiting for mpv video output on pid 42".to_string())
    );
}

#[test]
fn preview_path_wait_needs_the_requested_path_and_video() {
    let loaded = || Ok(Some("/w/a.mp4".to_string()));
    assert_eq!(
        preview_path_step(7, "/tmp/s.sock", "/w/a.mp4", true, loaded(), Ok(true), false, false),
        PreviewWait::Ready
    );
    assert_eq!(
        preview_path_step(7, "/tmp/s.sock", "/w/b.mp4", true, loaded(), Ok(true), false, false),
        PreviewWait::Waiting
    );
    assert_eq!(
        preview_path_step(7, "/tmp/s.sock", "/w/a.mp4", true, loaded(), Ok(false), false, true),
        PreviewWait::Failed("timed out waiting for mpvpaper pid 7 to load /w/a.mp4".to_string())
    );
    assert_eq!(
        preview_path_step(7, "/tmp/s.sock", "/w/a.mp4", false, loaded(), Ok(true), false, false),
        PreviewWait::Failed("mpvpaper pid 7 exited before loading /w/a.mp4".to_string())
    );
    assert_eq!(
        preview_path_step(7, "/tmp/s.sock", "/w/a.mp4", true, Err("gone".to_string()), Err("late".to_string()), true, true),
        PreviewWait::Failed("failed to query mpv IPC /tmp/s.sock: gone".to_string())
    );
}
