use jobowalls::collection::{
    collection_wallpapers, index_of_path, select_next, select_next_persistent, select_previous,
    select_previous_persistent, select_shuffle, select_shuffle_persistent, DirEntry,
};
use jobowalls::state::CollectionState;

fn file(path: &str) -> DirEntry {
    DirEntry { path: path.to_string(), is_file: true, canonical: Some(path.to_string()) }
}

#[test]
fn scans_supported_files_sorted() {
    let entries = vec![file("/tmp/dir/b.mp4"), file("/tmp/dir/a.jpg"), file("/tmp/dir/notes.txt")];

    let files = collection_wallpapers("/tmp/dir", true, &entries).unwrap();

    assert_eq!(files.len(), 2);
    assert!(files[0].ends_with("a.jpg"));
    assert!(files[1].ends_with("b.mp4"));
}

#[test]
fn collection_scan_errors() {
    assert_eq!(
        collection_wallpapers("/tmp/x", false, &[]).unwrap_err(),
        "collection path is not a directory: /tmp/x"
    );
    assert_eq!(
        collection_wallpapers("/tmp/x", true, &[file("/tmp/x/notes.txt")]).unwrap_err(),
        "collection has no supported wallpapers: /tmp/x"
    );
}

#[test]
fn collection_scan_keeps_one_of_each_path() {
    let entries = vec![
        file("/tmp/dir/b.png"),
        DirEntry { path: "/tmp/dir/link.png".to_string(), is_file: true, canonical: Some("/tmp/dir/b.png".to_string()) },
        DirEntry { path: "/tmp/dir/sub".to_string(), is_file: false, canonical: None },
        file("/tmp/dir/a.png"),
    ];

    let files = collection_wallpapers("/tmp/dir", true, &entries).unwrap();

    assert_eq!(files, ["/tmp/dir/a.png".to_string(), "/tmp/dir/b.png".to_string()]);
}

#[test]
fn selects_next_and_previous_with_wraparound() {
    let files = vec!["/tmp/a.jpg".to_string(), "/tmp/b.jpg".to_string(), "/tmp/c.jpg".to_string()];

    assert_eq!(select_next(&files, Some("/tmp/b.jpg")), "/tmp/c.jpg");
    assert_eq!(select_previous(&files, Some("/tmp/a.jpg")), "/tmp/c.jpg");
}

#[test]
fn next_and_previous_start_at_the_ends_without_a_current() {
    let files = vec!["/tmp/a.jpg".to_string(), "/tmp/b.jpg".to_string(), "/tmp/c.jpg".to_string()];

    assert_eq!(select_next(&files, None), "/tmp/a.jpg");
    assert_eq!(select_previous(&files, Some("/elsewhere.jpg")), "/tmp/c.jpg");
    assert_eq!(index_of_path(&files, "/tmp//b.jpg"), Some(1));
}

#[test]
fn shuffle_avoids_current_when_possible() {
    let files = vec!["/tmp/a.jpg".to_string(), "/tmp/b.jpg".to_string()];

    assert_eq!(select_shuffle(&files, Some("/tmp/a.jpg"), 0), "/tmp/b.jpg");
}

#[test]
fn persistent_next_uses_saved_index() {
    let files = vec!["/tmp/a.jpg".to_string(), "/tmp/b.jpg".to_string(), "/tmp/c.jpg".to_string()];
    let state = CollectionState {
        last_index: Some(1),
        last_wallpaper: Some("/elsewhere/not-current.jpg".to_string()),
        shuffle_history: Vec::new(),
    };

    let (index, path) = select_next_persistent(&files, Some(&state), None);

    assert_eq!(index, 2);
    assert_eq!(path, "/tmp/c.jpg");
}

#[test]
fn persistent_previous_wraps_from_the_saved_index() {
    let files = vec!["/tmp/a.jpg".to_string(), "/tmp/b.jpg".to_string(), "/tmp/c.jpg".to_string()];
    let state = CollectionState { last_index: Some(0), last_wallpaper: None, shuffle_history: Vec::new() };

    assert_eq!(select_previous_persistent(&files, Some(&state), None), (2, "/tmp/c.jpg".to_string()));
}

#[test]
fn persistent_shuffle_skips_seen_until_exhausted() {
    let files = vec!["/tmp/a.jpg".to_string(), "/tmp/b.jpg".to_string(), "/tmp/c.jpg".to_string()];
    let state = CollectionState {
        last_index: Some(0),
        last_wallpaper: Some("/tmp/a.jpg".to_string()),
        shuffle_history: vec!["/tmp/a.jpg".to_string(), "/tmp/b.jpg".to_string()],
    };

    let (index, path) = select_shuffle_persistent(&files, Some(&state), None, 0);

    assert_eq!(index, 2);
    assert_eq!(path, "/tmp/c.jpg");
}

#[test]
fn persistent_shuffle_starts_over_once_all_were_seen() {
    let files = vec!["/tmp/a.jpg".to_string(), "/tmp/b.jpg".to_string()];
    let state = CollectionState {
        last_index: Some(0),
        last_wallpaper: Some("/tmp/a.jpg".to_string()),
        shuffle_history: vec!["/tmp/a.jpg".to_string(), "/tmp/b.jpg".to_string()],
    };

    let (index, _) = select_shuffle_persistent(&files, Some(&state), None, 0);

    assert_eq!(index, 1);
}

#[test]
fn next_then_previous_returns_to_the_current_wallpaper() {
    let entries = vec![file("/w/c.png"), file("/w/a.png"), file("/w/b.mp4")];
    let walls = collection_wallpapers("/w", true, &entries).unwrap();

    for current in &walls {
        let next = select_next(&walls, Some(current));
        assert_eq!(&select_previous(&walls, Some(&next)), current);
        let previous = select_previous(&walls, Some(current));
        assert_eq!(&select_next(&walls, Some(&previous)), current);
    }
}
