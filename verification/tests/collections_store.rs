use jobowalls::collection::DirEntry;
use jobowalls::collections_store::{
    slugify, validate_id, wallpaper_item, CollectionDisk, CollectionRegistry, FolderListing,
    ResolvedItem,
};
use jobowalls::media::MediaKind;

fn no_disk() -> CollectionDisk {
    CollectionDisk { folder: None, files: vec![] }
}

fn disk_with(files: &[&str]) -> CollectionDisk {
    CollectionDisk { folder: None, files: files.iter().map(|f| f.to_string()).collect() }
}

fn file_item(path: &str) -> ResolvedItem {
    ResolvedItem { resolved: Ok(path.to_string()), is_file: true }
}

#[test]
fn creates_collection_with_slug_id() {
    let mut registry = CollectionRegistry::default();

    let summary = registry.create("Favorite Walls", None, None, &no_disk()).expect("collection");

    assert_eq!(summary.id, "favorite-walls");
    assert_eq!(summary.name, "Favorite Walls");
    assert_eq!(summary.count, 0);
}

#[test]
fn adds_supported_wallpapers_once() {
    let mut registry = CollectionRegistry::default();
    registry.create("Favorites", None, None, &no_disk()).unwrap();
    let disk = disk_with(&["/tmp/d/wall.png"]);

    let detail = registry
        .add_items("favorites", &[file_item("/tmp/d/wall.png"), file_item("/tmp/d/wall.png")], &disk)
        .unwrap();

    assert_eq!(detail.items.len(), 1);
    assert_eq!(registry.collections.get("favorites").unwrap().items.len(), 1);
}

#[test]
fn rejects_unsupported_wallpaper() {
    let mut registry = CollectionRegistry::default();
    registry.create("Favorites", None, None, &no_disk()).unwrap();

    let error = registry.add_items("favorites", &[file_item("/tmp/d/note.txt")], &no_disk()).unwrap_err();

    assert!(error.contains("unsupported wallpaper type"));
}

#[test]
fn rejects_items_that_are_not_files() {
    let mut registry = CollectionRegistry::default();
    registry.create("Favorites", None, None, &no_disk()).unwrap();
    let dir = ResolvedItem { resolved: Ok("/tmp/d".to_string()), is_file: false };

    assert_eq!(
        registry.add_items("favorites", &[dir], &no_disk()).unwrap_err(),
        "collection item is not a file: /tmp/d"
    );
    assert_eq!(
        registry.add_items("missing", &[], &no_disk()).unwrap_err(),
        "collection not found: missing"
    );
}

#[test]
fn removes_wallpaper_without_deleting_file() {
    let mut registry = CollectionRegistry::default();
    registry.create("Favorites", None, None, &no_disk()).unwrap();
    let disk = disk_with(&["/tmp/d/wall.jpg"]);
    registry.add_items("favorites", &[file_item("/tmp/d/wall.jpg")], &disk).unwrap();

    let detail = registry.remove_item("favorites", "/tmp/d/wall.jpg", &disk).unwrap();

    assert!(detail.items.is_empty());
    assert!(registry.collections.get("favorites").unwrap().items.is_empty());
}

#[test]
fn refuses_duplicate_and_empty_collection_ids() {
    let mut registry = CollectionRegistry::default();
    registry.create("Favorites", None, None, &no_disk()).unwrap();

    assert_eq!(
        registry.create("Favorites", None, None, &no_disk()).unwrap_err(),
        "collection already exists: favorites"
    );
    assert_eq!(
        registry.create("!!!", None, None, &no_disk()).unwrap_err(),
        "collection name must contain at least one letter or number"
    );
    assert_eq!(
        registry.create("Walls", Some("Bad Id"), None, &no_disk()).unwrap_err(),
        "collection id may only contain lowercase letters, numbers, and hyphens"
    );
    assert_eq!(
        registry.create("Walls", Some("  "), None, &no_disk()).unwrap_err(),
        "collection id cannot be empty"
    );
}

#[test]
fn folder_backed_collection_lists_its_folder() {
    let mut registry = CollectionRegistry::default();
    let disk = CollectionDisk {
        folder: Some(FolderListing {
            is_dir: true,
            entries: vec![
                DirEntry { path: "/w/b.mp4".to_string(), is_file: true, canonical: Some("/w/b.mp4".to_string()) },
                DirEntry { path: "/w/a.png".to_string(), is_file: true, canonical: Some("/w/a.png".to_string()) },
            ],
        }),
        files: vec![],
    };

    let summary = registry.create("Folder", None, Some(Ok("/w".to_string())), &disk).unwrap();
    assert_eq!(summary.count, 2);
    assert_eq!(summary.source_folder.as_deref(), Some("/w"));

    let detail = registry.detail("folder", &disk).unwrap();
    assert_eq!(detail.items[0].path, "/w/a.png");
    assert_eq!(detail.items[1].kind, MediaKind::Live);

    let deleted = registry.delete("folder", &disk).unwrap();
    assert_eq!(deleted.id, "folder");
    assert!(registry.collections.is_empty());
}

#[test]
fn slugs_are_valid_ids() {
    assert_eq!(slugify("  Hello, World!! 2 "), "hello-world-2");
    assert_eq!(validate_id(&slugify("Favorite Walls")).unwrap(), "favorite-walls");
    assert_eq!(slugify("***"), "");
}

#[test]
fn wallpaper_items_carry_kind_and_name() {
    let item = wallpaper_item("/w/rain.mp4", None).unwrap();
    assert_eq!(item.name, "rain.mp4");
    assert_eq!(item.kind, MediaKind::Live);
    assert!(wallpaper_item("/w/notes.txt", None).is_none());
}
