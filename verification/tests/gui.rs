use jobowalls::gui::{
    animation_command, classify_path, data_source, file_media, first_path_arg, fnv1a_hex,
    gui_cache_dir, gui_state_path, mime_for_path, pick_startup_folder, run_failure, scan_folder,
    set_args, startup_candidates, still_command, thumbnailer_command, unsupported_media,
    video_cache_path, video_frame_command, GuiState, PreviewQuality, POSTER_SUFFIX, generation_turn,
    GenerationTurn, LivePreviewSlot, binary_candidates, pick_binary, animation_start_turn, animation_wait_turn,
    AnimationTurn,
};
use jobowalls::media::MediaKind;
use jobowalls::shell::scanner::ListedFile;

#[test]
fn classifies_gui_media_extensions() {
    assert_eq!(classify_path("wall.JPG"), Some(MediaKind::Static));
    assert_eq!(classify_path("rain.WEBM"), Some(MediaKind::Live));
    assert_eq!(classify_path("notes.txt"), None);
}

#[test]
fn chooses_preview_mime_from_path_extension() {
    assert_eq!(mime_for_path("wall.jpg"), "image/jpeg");
    assert_eq!(mime_for_path("wall.webp"), "image/webp");
    assert_eq!(mime_for_path("wall.gif"), "image/gif");
    assert_eq!(mime_for_path("wall.bmp"), "image/bmp");
    assert_eq!(mime_for_path("wall.png"), "image/png");
    assert_eq!(mime_for_path("clip.MP4"), "video/mp4");
    assert_eq!(mime_for_path("noext"), "image/png");
}

#[test]
fn builds_data_source_with_base64_payload() {
    let source = data_source("original.png".to_string(), "/cache/wall.png", b"abc");

    assert_eq!(source.path, "original.png");
    assert_eq!(source.reason, None);
    assert_eq!(source.src.as_deref(), Some("data:image/png;base64,YWJj"));

    let padded = data_source("a".to_string(), "/cache/a.jpg", b"ab");
    assert_eq!(padded.src.as_deref(), Some("data:image/jpeg;base64,YWI="));
}

#[test]
fn media_sources_say_why_there_is_nothing_to_show() {
    let none = unsupported_media("notes.txt".to_string());
    assert_eq!(none.src, None);
    assert_eq!(none.reason.as_deref(), Some("unsupported media type"));

    let file = file_media("rain.mp4".to_string(), "/cache/x.poster-v3.jpg");
    assert_eq!(file.src.as_deref(), Some("/cache/x.poster-v3.jpg"));
    assert_eq!(file.reason, None);
}

#[test]
fn cache_path_is_stable_for_unchanged_file_metadata() {
    let first = video_cache_path("/cache", "/w/rain.mp4", 4, 1_700_000_000_000_000_000, POSTER_SUFFIX);
    let second = video_cache_path("/cache", "/w/rain.mp4", 4, 1_700_000_000_000_000_000, POSTER_SUFFIX);

    assert_eq!(first, second);
    assert!(first.ends_with(".poster-v3.jpg"));
    assert!(first.starts_with("/cache/"));
}

#[test]
fn cache_path_changes_when_file_size_changes() {
    let first = video_cache_path("/cache", "/w/rain.mp4", 5, 7, POSTER_SUFFIX);
    let second = video_cache_path("/cache", "/w/rain.mp4", 14, 7, POSTER_SUFFIX);

    assert_ne!(first, second);
}

#[test]
fn fnv1a_matches_reference_values() {
    assert_eq!(fnv1a_hex(b""), "cbf29ce484222325");
    assert_eq!(fnv1a_hex(b"a"), "af63dc4c8601ec8c");
    assert_eq!(fnv1a_hex(b"foobar"), "85944171f73967e8");
}

#[test]
fn cache_dir_falls_back_to_the_temporary_folder() {
    assert_eq!(gui_cache_dir(Some("/home/u/.cache"), "/tmp"), "/home/u/.cache/jobowalls/gui-thumbnails");
    assert_eq!(gui_cache_dir(None, "/tmp"), "/tmp/jobowalls/gui-thumbnails");
}

fn listed(path: &str, is_file: bool) -> ListedFile {
    ListedFile { path: path.to_string(), is_file }
}

#[test]
fn scans_supported_wallpapers_sorted_case_insensitively() {
    let files = vec![
        listed("/w/zeta.mp4", true),
        listed("/w/Alpha.PNG", true),
        listed("/w/notes.txt", true),
        listed("/w/sub.png", false),
    ];

    let items = scan_folder("/w", true, &files).unwrap();
    let names: Vec<&str> = items.iter().map(|item| item.name.as_str()).collect();

    assert_eq!(names, ["Alpha.PNG", "zeta.mp4"]);
    assert_eq!(items[0].kind, MediaKind::Static);
    assert_eq!(items[1].kind, MediaKind::Live);
}

#[test]
fn rejects_scan_folder_for_non_directory() {
    let error = scan_folder("/w/file.png", false, &[]).unwrap_err();

    assert!(error.contains("not a folder"));
    assert_eq!(error, "not a folder: /w/file.png");
}

#[test]
fn live_preview_profiles_grow_with_quality() {
    let fast = PreviewQuality::Fast.profile();
    let pretty = PreviewQuality::Pretty.profile();
    assert_eq!(fast.width, 540);
    assert_eq!(fast.cache_name, "preview-fast-v1.mp4");
    assert_eq!(PreviewQuality::Balanced.profile().crf, 28);
    assert_eq!(pretty.fps, 10);

    let command = animation_command("/w/rain.mp4", "/cache/x.mp4", fast);
    assert_eq!(command.program, "ffmpeg");
    assert_eq!(
        command.args,
        vec![
            "-y", "-hide_banner", "-loglevel", "error", "-ss", "00:00:00.5", "-t", "2", "-i", "/w/rain.mp4",
            "-vf", "fps=6,scale=540:-2:flags=fast_bilinear", "-an", "-c:v", "libx264", "-preset", "veryfast",
            "-crf", "30", "-pix_fmt", "yuv420p", "-movflags", "+faststart", "/cache/x.mp4",
        ]
    );
}

#[test]
fn preview_commands_scale_to_the_requested_width() {
    let still = still_command("/w/a.png", "/c/a.jpg", 960);
    assert_eq!(still.args[9], "scale=960:-1:flags=fast_bilinear");
    let frame = video_frame_command("/w/a.mp4", "/c/a.jpg", 520);
    assert_eq!(frame.args[4..6], ["-ss".to_string(), "00:00:01".to_string()]);
    assert_eq!(frame.args[11], "scale=520:-1:flags=fast_bilinear");
    let thumb = thumbnailer_command("/w/a.mp4", "/c/a.jpg", 960);
    assert_eq!(thumb.program, "ffmpegthumbnailer");
    assert_eq!(thumb.args, vec!["-i", "/w/a.mp4", "-o", "/c/a.jpg", "-s", "960", "-q", "8", "-t", "10%"]);
}

#[test]
fn startup_folder_prefers_argument_then_last_folder_then_defaults() {
    let candidates = startup_candidates(None, Some("~/walls"), Some("/last"), Some("/home/u"));
    let seen: Vec<(&str, &str)> = candidates.iter().map(|c| (c.source.as_str(), c.path.as_str())).collect();
    assert_eq!(
        seen,
        vec![
            ("argument", "/home/u/walls"),
            ("last-folder", "/last"),
            ("theme-backgrounds", "/home/u/.config/omarchy/current/theme/backgrounds"),
            ("pictures-wallpapers", "/home/u/Pictures/Wallpapers"),
        ]
    );

    let chosen = pick_startup_folder(&candidates, &[None, Some("/last".to_string()), None, None]);
    assert_eq!(chosen.path.as_deref(), Some("/last"));
    assert_eq!(chosen.source, "last-folder");

    let nothing = pick_startup_folder(&candidates, &[None, None, None, None]);
    assert_eq!(nothing.path, None);
    assert_eq!(nothing.source, "none");
}

#[test]
fn first_path_argument_skips_options_and_program_name() {
    let args: Vec<String> = ["jobowalls-gui", "--verbose", "jobowalls-gui", "/w"].iter().map(|s| s.to_string()).collect();
    assert_eq!(first_path_arg(&args), Some("/w".to_string()));
    assert_eq!(first_path_arg(&args[..2]), None);
}

#[test]
fn gui_state_lives_under_the_state_folder() {
    assert_eq!(gui_state_path(Some("/xdg"), Some("/home/u")).as_deref(), Some("/xdg/jobowalls/gui.json"));
    assert_eq!(gui_state_path(None, Some("/home/u")).as_deref(), Some("/home/u/.local/state/jobowalls/gui.json"));
    assert_eq!(gui_state_path(None, None), None);

    let mut state = GuiState::default_with_version();
    assert_eq!(state.last_monitor.as_deref(), Some("all"));
    state.remember_folder("/w".to_string());
    assert_eq!(state.last_folder.as_deref(), Some("/w"));
}

#[test]
fn set_requests_name_the_monitor_when_given() {
    assert_eq!(set_args("/w/a.png", Some("DP-1"), true), vec!["set", "/w/a.png", "--dry-run", "--json", "--monitor", "DP-1"]);
    assert_eq!(set_args("/w/a.png", Some(""), false), vec!["set", "/w/a.png"]);
    assert_eq!(
        run_failure("/bin/jobowalls", "  boom \n", "out", "exit status: 1"),
        "/bin/jobowalls failed: boom"
    );
    assert_eq!(run_failure("jobowalls", " ", "", "exit status: 2"), "jobowalls failed: exited with exit status: 2");
}

#[test]
fn newer_live_preview_replaces_older_one() {
    let mut slot = LivePreviewSlot::new();
    assert!(!slot.record(1));
    assert!(slot.is_current(1));
    assert!(slot.is_stale(2));
    assert!(slot.record(2));
    assert!(!slot.is_current(1));
    slot.clear(1);
    assert_eq!(slot.active, Some(2));
    slot.clear(2);
    assert_eq!(slot.active, None);
    assert!(!slot.is_stale(3));
}

#[test]
fn only_the_lock_holder_generates_a_preview_file() {
    assert_eq!(generation_turn(true, true), GenerationTurn::Generate);
    assert_eq!(generation_turn(false, true), GenerationTurn::UseCached);
    assert_eq!(generation_turn(false, false), GenerationTurn::Wait);
}

#[test]
fn looks_for_the_command_line_beside_the_window_then_in_builds_then_local_bin() {
    let ancestors = vec!["/src/jobowalls/gui".to_string(), "/src/jobowalls".to_string()];
    let candidates = binary_candidates(Some("/opt/jobowalls"), &ancestors, Some("/home/tester"));

    assert_eq!(
        candidates,
        vec![
            "/opt/jobowalls/jobowalls".to_string(),
            "/src/jobowalls/gui/target/debug/jobowalls".to_string(),
            "/src/jobowalls/target/debug/jobowalls".to_string(),
            "/home/tester/.local/bin/jobowalls".to_string(),
        ]
    );
    assert_eq!(pick_binary(Some("/custom/jobowalls"), &candidates, &[true, true, true, true]), "/custom/jobowalls");
    assert_eq!(
        pick_binary(None, &candidates, &[false, false, true, true]),
        "/src/jobowalls/target/debug/jobowalls"
    );
    assert_eq!(pick_binary(None, &candidates, &[false, false, false, false]), "jobowalls");
    assert!(binary_candidates(None, &[], None).is_empty());
}

#[test]
fn animation_falls_back_to_a_poster_and_drops_stale_requests() {
    assert_eq!(animation_start_turn(Ok(())), AnimationTurn::Poll);
    assert_eq!(animation_start_turn(Err((true, "not found".to_string()))), AnimationTurn::FallBackToPoster);
    assert_eq!(
        animation_start_turn(Err((false, "denied".to_string()))),
        AnimationTurn::Fail("failed to start ffmpeg: denied".to_string())
    );
    assert_eq!(animation_wait_turn(false, None, false), AnimationTurn::Cancel);
    assert_eq!(animation_wait_turn(true, None, false), AnimationTurn::Poll);
    assert_eq!(animation_wait_turn(true, Some(true), true), AnimationTurn::UseAnimation);
    assert_eq!(animation_wait_turn(true, Some(true), false), AnimationTurn::FallBackToPoster);
    assert_eq!(animation_wait_turn(true, Some(false), true), AnimationTurn::FallBackToPoster);
}
