use jobowalls::collection::DirEntry;
use jobowalls::config::{ThemeCollectionAddTargetConfig, ThemeCollectionsAuthorConfig, ThemeCollectionsConfig};
use jobowalls::strmap::StrMap;
use jobowalls::theme_collections::{
    discover_theme_collections, expand_tilde, get_theme_collection, list_theme_collections,
    non_colliding_destination, normalize_theme_id, plan_theme_import, should_ignore_theme,
    ThemeCollection, ThemeCollectionAddTarget, ThemeCollectionSource, ThemeEntry, ThemeFolders,
};

fn config(root: &str) -> ThemeCollectionsConfig {
    ThemeCollectionsConfig {
        enabled: true,
        include_stock_themes: false,
        user_themes_dir: format!("{root}/themes"),
        stock_themes_dir: format!("{root}/stock"),
        user_backgrounds_dir: format!("{root}/backgrounds"),
        add_target: ThemeCollectionAddTargetConfig::UserBackgrounds,
        author: ThemeCollectionsAuthorConfig { enabled: false, theme_roots: vec![format!("{root}/repos")] },
    }
}

fn theme(installed: &str, real: &str, theme_backgrounds: bool, user_backgrounds: bool) -> ThemeEntry {
    ThemeEntry {
        installed_path: installed.to_string(),
        is_dir: true,
        real_path: real.to_string(),
        real_is_dir: true,
        theme_backgrounds_is_dir: theme_backgrounds,
        user_backgrounds_is_dir: user_backgrounds,
    }
}

fn file(path: &str) -> DirEntry {
    DirEntry { path: path.to_string(), is_file: true, canonical: Some(path.to_string()) }
}

fn discover(config: &ThemeCollectionsConfig, user: &[ThemeEntry], stock: &[ThemeEntry]) -> StrMap<ThemeCollection> {
    let roots = config.author.theme_roots.clone();
    discover_theme_collections(config, &config.user_backgrounds_dir, &roots, user, stock)
}

#[test]
fn disabled_config_returns_no_theme_collections() {
    let mut config = config("/r");
    config.enabled = false;
    let user = [theme("/r/themes/dune", "/r/themes/dune", true, true)];

    let collections = discover(&config, &user, &[]);

    assert!(collections.is_empty());
    assert!(list_theme_collections(&collections, &[]).is_empty());
}

#[test]
fn discovers_user_theme_backgrounds_and_user_backgrounds() {
    let config = config("/r");
    let user = [theme("/r/themes/dune", "/r/themes/dune", true, true)];
    let collections = discover(&config, &user, &[]);
    let folders = [ThemeFolders {
        user: vec![file("/r/backgrounds/dune/user.png")],
        theme: vec![file("/r/themes/dune/backgrounds/theme.png")],
    }];

    let detail = get_theme_collection(&collections, "theme:dune", &folders).unwrap();

    assert_eq!(detail.summary.count, 2);
    assert_eq!(detail.items.len(), 2);
    assert_eq!(detail.summary.source, ThemeCollectionSource::UserTheme);
    assert_eq!(detail.summary.theme_backgrounds_path, "/r/themes/dune/backgrounds");
    assert_eq!(detail.summary.user_backgrounds_path, "/r/backgrounds/dune");
    assert!(get_theme_collection(&collections, "dune", &folders).is_ok());
    assert_eq!(
        get_theme_collection(&collections, "sand", &folders).unwrap_err(),
        "theme collection not found: sand"
    );
}

#[test]
fn skips_stock_themes_unless_enabled() {
    let mut config = config("/r");
    let stock = [theme("/r/stock/catppuccin", "/r/stock/catppuccin", true, false)];

    assert!(discover(&config, &[], &stock).is_empty());

    config.include_stock_themes = true;
    let collections = discover(&config, &[], &stock);
    assert_eq!(collections.len(), 1);
    assert_eq!(collections.get("theme:catppuccin").unwrap().source, ThemeCollectionSource::StockTheme);
}

#[test]
fn ignores_hidden_and_backup_theme_folders() {
    assert!(should_ignore_theme(".git"));
    assert!(should_ignore_theme("current"));
    assert!(should_ignore_theme("dune.bak"));
    assert!(should_ignore_theme("dune.backup-2024"));
    assert!(should_ignore_theme("dune.disabled.old"));
    assert!(!should_ignore_theme("dune"));
}

#[test]
fn normal_add_copies_to_user_backgrounds_without_overwrite() {
    let config = config("/r");
    let user = [theme("/r/themes/dune", "/r/themes/dune", true, true)];
    let collections = discover(&config, &user, &[]);

    let (_, target, dir) = plan_theme_import(
        &collections,
        "theme:dune",
        Ok("/r/wall.png".to_string()),
        true,
        Some(ThemeCollectionAddTarget::UserBackgrounds),
    )
    .unwrap();
    let copied = non_colliding_destination(&dir, "/r/wall.png", &["/r/backgrounds/dune/wall.png".to_string()]).unwrap();

    assert_eq!(target, ThemeCollectionAddTarget::UserBackgrounds);
    assert!(copied.ends_with("wall-1.png"));
    assert_eq!(copied, "/r/backgrounds/dune/wall-1.png");
}

#[test]
fn author_add_copies_to_resolved_repo_backgrounds_when_enabled() {
    let mut config = config("/r");
    config.author.enabled = true;
    config.add_target = ThemeCollectionAddTargetConfig::ThemeRepo;
    let user = [theme("/r/themes/dune", "/r/repos/omarchy-dune-theme", true, false)];
    let collections = discover(&config, &user, &[]);

    let (_, target, dir) = plan_theme_import(
        &collections,
        "theme:dune",
        Ok("/r/new.png".to_string()),
        true,
        Some(ThemeCollectionAddTarget::ThemeRepo),
    )
    .unwrap();
    let copied = non_colliding_destination(&dir, "/r/new.png", &[]).unwrap();

    assert_eq!(target, ThemeCollectionAddTarget::ThemeRepo);
    assert!(copied.contains("repos/omarchy-dune-theme/backgrounds/new.png"));
    assert_eq!(collections.get("theme:dune").unwrap().source, ThemeCollectionSource::AuthorTheme);
}

#[test]
fn rejects_theme_repo_add_without_author_mode() {
    let config = config("/r");
    let user = [theme("/r/themes/dune", "/r/themes/dune", true, false)];
    let collections = discover(&config, &user, &[]);

    let error = plan_theme_import(
        &collections,
        "theme:dune",
        Ok("/r/new.png".to_string()),
        true,
        Some(ThemeCollectionAddTarget::ThemeRepo),
    )
    .unwrap_err();

    assert!(error.contains("theme repo writes are not enabled"));
}

#[test]
fn rejects_imports_that_are_not_wallpapers() {
    let config = config("/r");
    let user = [theme("/r/themes/dune", "/r/themes/dune", true, true)];
    let collections = discover(&config, &user, &[]);

    assert_eq!(
        plan_theme_import(&collections, "theme:dune", Ok("/r/notes.txt".to_string()), true, None).unwrap_err(),
        "unsupported wallpaper type: /r/notes.txt"
    );
    assert_eq!(
        plan_theme_import(&collections, "theme:dune", Ok("/r/dir".to_string()), false, None).unwrap_err(),
        "theme collection item is not a file: /r/dir"
    );
}

#[test]
fn theme_ids_are_normalized_once() {
    assert_eq!(normalize_theme_id("dune"), "theme:dune");
    assert_eq!(normalize_theme_id("theme:dune"), "theme:dune");
    assert_eq!(normalize_theme_id(&normalize_theme_id("dune")), normalize_theme_id("dune"));
}

#[test]
fn expands_home_prefixes() {
    assert_eq!(expand_tilde("~", Some("/home/u")), "/home/u");
    assert_eq!(expand_tilde("~/walls", Some("/home/u")), "/home/u/walls");
    assert_eq!(expand_tilde("/abs", Some("/home/u")), "/abs");
    assert_eq!(expand_tilde("~/walls", None), "~/walls");
}
