//! Omarchy themes seen as wallpaper collections: each installed theme with a `backgrounds`
//! folder (in the theme, or under the user's backgrounds folder) is a collection.
//!
//! The caller lists the theme roots and the background folders and hands in what it found;
//! which themes count, how they are named, where new wallpapers go, and how the wallpapers are
//! listed is decided here.
use vstd::prelude::*;
use crate::collection::{DirEntry, candidates, sorted_unique_paths, add_entry_candidates, empty_sorted_unique};
use crate::collections_store::{
    CollectionWallpaper, wallpaper_views, dedup_paths, sort_by_name, items_of, sorted_listing,
};
use crate::config::{ThemeCollectionAddTargetConfig, ThemeCollectionsConfig};
use crate::media::{path_kind, has_supported_extension};
use crate::path::{
    join, path_join, file_name, path_file_name, path_starts_with, path_has_prefix, file_stem, extension,
    path_file_stem, path_extension,
};
use crate::strmap::StrMap;
use crate::text::{
    texts, starts_with, ends_with, contains, is_prefix, is_suffix, contains_seq, str_eq, cat, cat3, owned,
    decimal, decimal_string, strip_prefix, chars_of,
};

verus! {

#[derive(Debug, Clone, Copy, PartialEq, Eq, Structural)]
pub enum ThemeCollectionSource {
    UserTheme,
    StockTheme,
    AuthorTheme,
}

#[derive(Debug, Clone, Copy, PartialEq, Eq, Structural)]
pub enum ThemeCollectionAddTarget {
    UserBackgrounds,
    ThemeRepo,
}

#[derive(Debug)]
pub struct ThemeCollectionSummary {
    pub id: String,
    pub name: String,
    pub theme_name: String,
    pub count: usize,
    pub source: ThemeCollectionSource,
    pub installed_path: String,
    pub real_path: String,
    pub theme_backgrounds_path: String,
    pub user_backgrounds_path: String,
    pub can_write_user_backgrounds: bool,
    pub can_write_theme_repo: bool,
    pub add_requires_choice: bool,
    pub default_add_target: ThemeCollectionAddTarget,
}

#[derive(Debug)]
pub struct ThemeCollectionDetail {
    pub summary: ThemeCollectionSummary,
    pub items: Vec<CollectionWallpaper>,
}

#[derive(Debug)]
pub struct ThemeCollectionImport {
    pub collection: ThemeCollectionDetail,
    pub copied_path: String,
    pub target: ThemeCollectionAddTarget,
}

/// A discovered theme collection.
#[derive(Debug)]
pub struct ThemeCollection {
    pub id: String,
    pub name: String,
    pub theme_name: String,
    pub source: ThemeCollectionSource,
    pub installed_path: String,
    pub real_path: String,
    pub theme_backgrounds_path: String,
    pub user_backgrounds_path: String,
    pub can_write_user_backgrounds: bool,
    pub can_write_theme_repo: bool,
    pub add_requires_choice: bool,
    pub default_add_target: ThemeCollectionAddTarget,
}

// ---------------------------------------------------------------------------
// Names
// ---------------------------------------------------------------------------

/// A theme's collection id: `theme:<name>`, unless it already starts with `theme:`.
pub open spec fn normalize_theme_id_spec(value: Seq<char>) -> Seq<char> {
    if is_prefix("theme:"@, value) {
        value
    } else {
        "theme:"@ + value
    }
}

pub fn normalize_theme_id(value: &str) -> (r: String)
    ensures
        r@ == normalize_theme_id_spec(value@),
{
    if starts_with(value, "theme:") {
        owned(value)
    } else {
        cat("theme:", value)
    }
}

/// Normalising a theme id twice gives what normalising it once gives.
pub proof fn lemma_normalize_theme_id_idempotent(value: Seq<char>)
    ensures
        normalize_theme_id_spec(normalize_theme_id_spec(value)) == normalize_theme_id_spec(value),
        is_prefix("theme:"@, normalize_theme_id_spec(value)),
{
    reveal_strlit("theme:");
    let p = "theme:"@;
    if !is_prefix(p, value) {
        let n = p + value;
        assert(n.subrange(0, p.len() as int) =~= p);
    }
}

/// Entries of a themes folder that are not themes: hidden, `current`, backups and disabled ones.
pub open spec fn ignored_theme(name: Seq<char>) -> bool {
    is_prefix("."@, name) || name == "current"@ || is_suffix(".bak"@, name) || contains_seq(
        name,
        ".backup-"@,
    ) || contains_seq(name, ".disabled."@)
}

pub fn should_ignore_theme(name: &str) -> (r: bool)
    ensures
        r == ignored_theme(name@),
{
    starts_with(name, ".") || str_eq(name, "current") || ends_with(name, ".bak") || contains(
        name,
        ".backup-",
    ) || contains(name, ".disabled.")
}

/// Where added wallpapers go by default: the theme's repository when so configured and it can
/// be written, else the user's backgrounds.
pub open spec fn default_add_target_spec(configured: ThemeCollectionAddTargetConfig, can_write_theme_repo: bool) -> ThemeCollectionAddTarget {
    if configured == ThemeCollectionAddTargetConfig::ThemeRepo && can_write_theme_repo {
        ThemeCollectionAddTarget::ThemeRepo
    } else {
        ThemeCollectionAddTarget::UserBackgrounds
    }
}

pub fn default_add_target(configured: ThemeCollectionAddTargetConfig, can_write_theme_repo: bool) -> (r:
    ThemeCollectionAddTarget)
    ensures
        r == default_add_target_spec(configured, can_write_theme_repo),
{
    match configured {
        ThemeCollectionAddTargetConfig::ThemeRepo => if can_write_theme_repo {
            ThemeCollectionAddTarget::ThemeRepo
        } else {
            ThemeCollectionAddTarget::UserBackgrounds
        },
        _ => ThemeCollectionAddTarget::UserBackgrounds,
    }
}

/// `~` and `~/...` expanded against the home folder, when there is one.
pub open spec fn expand_tilde_spec(path: Seq<char>, home: Option<Seq<char>>) -> Seq<char> {
    if path == "~"@ {
        match home {
            Some(h) => h,
            None => path,
        }
    } else if is_prefix("~/"@, path) && home is Some {
        join(home.unwrap(), path.skip(2))
    } else {
        path
    }
}

pub fn expand_tilde(path: &str, home: Option<&str>) -> (r: String)
    ensures
        r@ == expand_tilde_spec(
            path@,
            match home {
                Some(h) => Some(h@),
                None => None,
            },
        ),
{
    if str_eq(path, "~") {
        return match home {
            Some(h) => owned(h),
            None => owned(path),
        };
    }
    match strip_prefix(path, "~/") {
        Some(rest) => match home {
            Some(h) => {
                proof {
                    reveal_strlit("~/");
                }
                path_join(h, rest.as_str())
            },
            None => owned(path),
        },
        None => owned(path),
    }
}

/// `<stem>.<extension>`, or the stem alone without a (non-empty) extension.
pub open spec fn file_name_spec(stem: Seq<char>, ext: Option<Seq<char>>) -> Seq<char> {
    match ext {
        Some(e) => if e.len() > 0 {
            stem + "."@ + e
        } else {
            stem
        },
        None => stem,
    }
}

pub fn file_name_of(stem: &str, extension: Option<&str>) -> (r: String)
    ensures
        r@ == file_name_spec(
            stem@,
            match extension {
                Some(e) => Some(e@),
                None => None,
            },
        ),
{
    match extension {
        Some(e) => if chars_of(e).len() > 0 {
            cat3(stem, ".", e)
        } else {
            owned(stem)
        },
        None => owned(stem),
    }
}

/// The stem a copied wallpaper keeps: the source's, or `wallpaper` when it has none.
pub open spec fn copy_stem(source: Seq<char>) -> Seq<char> {
    match file_stem(source) {
        Some(s) => if s.len() > 0 {
            s
        } else {
            "wallpaper"@
        },
        None => "wallpaper"@,
    }
}

/// The `index`-th name tried for a copy of `source` in `target_dir`: the source's name, then
/// `<stem>-1`, `<stem>-2`, ... with the source's extension.
pub open spec fn destination_candidate(target_dir: Seq<char>, source: Seq<char>, index: nat) -> Seq<char> {
    let stem = if index == 0 {
        copy_stem(source)
    } else {
        copy_stem(source) + "-"@ + decimal(index)
    };
    join(target_dir, file_name_spec(stem, extension(source)))
}

/// How many names are tried before giving up.
pub const DESTINATION_ATTEMPTS: u64 = 10000;

fn candidate_exec(target_dir: &str, source: &str, index: u64) -> (r: String)
    ensures
        r@ == destination_candidate(target_dir@, source@, index as nat),
{
    let stem = match path_file_stem(source) {
        Some(s) => if chars_of(s.as_str()).len() > 0 {
            s
        } else {
            owned("wallpaper")
        },
        None => owned("wallpaper"),
    };
    let stem = if index == 0 {
        stem
    } else {
        cat3(stem.as_str(), "-", decimal_string(index).as_str())
    };
    let ext = path_extension(source);
    let name = match &ext {
        Some(e) => file_name_of(stem.as_str(), Some(e.as_str())),
        None => file_name_of(stem.as_str(), None),
    };
    path_join(target_dir, name.as_str())
}

/// Where a copy of `source` goes in `target_dir`: the first name tried that is not among
/// `existing`; an error when all are taken.
pub fn non_colliding_destination(target_dir: &str, source: &str, existing: &[String]) -> (r: Result<
    String,
    String,
>)
    ensures
        match r {
            Ok(p) => exists|i: nat|
                i < DESTINATION_ATTEMPTS && p@ == destination_candidate(target_dir@, source@, i)
                    && !texts(existing@).contains(p@) && forall|j: nat|
                    j < i ==> texts(existing@).contains(#[trigger] destination_candidate(target_dir@, source@, j)),
            Err(m) => m@ == "failed to find available filename in "@ + target_dir@ && forall|j: nat|
                j < DESTINATION_ATTEMPTS ==> texts(existing@).contains(
                    #[trigger] destination_candidate(target_dir@, source@, j),
                ),
        },
{
    let mut index: u64 = 0;
    while index < DESTINATION_ATTEMPTS
        invariant
            index <= DESTINATION_ATTEMPTS,
            forall|j: nat|
                j < index ==> texts(existing@).contains(#[trigger] destination_candidate(target_dir@, source@, j)),
        decreases DESTINATION_ATTEMPTS - index,
    {
        let candidate = candidate_exec(target_dir, source, index);
        let mut found = false;
        let mut k: usize = 0;
        while k < existing.len()
            invariant
                0 <= k <= existing@.len(),
                found == exists|q: int| 0 <= q < k && texts(existing@)[q] == candidate@,
            decreases existing.len() - k,
        {
            if str_eq(existing[k].as_str(), candidate.as_str()) {
                assert(texts(existing@)[k as int] == candidate@);
                found = true;
            }
            k += 1;
        }
        if !found {
            assert(!texts(existing@).contains(candidate@));
            return Ok(candidate);
        }
        index += 1;
    }
    Err(cat("failed to find available filename in ", target_dir))
}

// ---------------------------------------------------------------------------
// Discovery
// ---------------------------------------------------------------------------

/// An entry of a themes folder as read from the disk.
#[derive(Debug)]
pub struct ThemeEntry {
    /// The entry's path.
    pub installed_path: String,
    /// Its metadata could be read and it is a directory.
    pub is_dir: bool,
    /// Where it resolves to (itself when it cannot be resolved).
    pub real_path: String,
    /// Whether the resolved path is a directory.
    pub real_is_dir: bool,
    /// Whether `<real_path>/backgrounds` is a directory.
    pub theme_backgrounds_is_dir: bool,
    /// Whether `<user backgrounds>/<theme name>` is a directory.
    pub user_backgrounds_is_dir: bool,
}

/// The folders a theme's wallpapers live in: `<real path>/backgrounds` and the user's
/// backgrounds folder for the theme.
pub open spec fn theme_folders(real_path: Seq<char>, user_backgrounds_dir: Seq<char>, theme_name: Seq<char>) -> (Seq<char>, Seq<char>) {
    (join(real_path, "backgrounds"@), join(user_backgrounds_dir, theme_name))
}

pub fn theme_folder_paths(real_path: &str, user_backgrounds_dir: &str, theme_name: &str) -> (r: (String, String))
    ensures
        (r.0@, r.1@) == theme_folders(real_path@, user_backgrounds_dir@, theme_name@),
{
    (path_join(real_path, "backgrounds"), path_join(user_backgrounds_dir, theme_name))
}

/// Whether a resolved theme path lies under one of the author roots.
pub open spec fn under_author_root(real_path: Seq<char>, roots: Seq<Seq<char>>) -> bool {
    exists|i: int| 0 <= i < roots.len() && path_starts_with(real_path, #[trigger] roots[i])
}

/// The collection a themes-folder entry makes, when it makes one: a named entry that is not
/// ignored, is a directory, and has a backgrounds folder in the theme or under the user's
/// backgrounds.
pub open spec fn entry_theme_name(e: ThemeEntry) -> Option<Seq<char>> {
    match file_name(e.installed_path@) {
        Some(n) => if !ignored_theme(n) && e.is_dir && (e.theme_backgrounds_is_dir
            || e.user_backgrounds_is_dir) {
            Some(n)
        } else {
            None
        },
        None => None,
    }
}

/// The collection a theme entry makes, given its name.
pub open spec fn theme_collection_ok(
    c: ThemeCollection,
    e: ThemeEntry,
    name: Seq<char>,
    user_backgrounds_dir: Seq<char>,
    source: ThemeCollectionSource,
    config: ThemeCollectionsConfig,
    author_roots: Seq<Seq<char>>,
) -> bool {
    let author = config.author.enabled && under_author_root(e.real_path@, author_roots);
    let src = if author {
        ThemeCollectionSource::AuthorTheme
    } else {
        source
    };
    let can_repo = author && src != ThemeCollectionSource::StockTheme && e.real_is_dir;
    let folders = theme_folders(e.real_path@, user_backgrounds_dir, name);
    &&& c.id@ == normalize_theme_id_spec(name)
    &&& c.name@ == name
    &&& c.theme_name@ == name
    &&& c.source == src
    &&& c.installed_path@ == e.installed_path@
    &&& c.real_path@ == e.real_path@
    &&& c.theme_backgrounds_path@ == folders.0
    &&& c.user_backgrounds_path@ == folders.1
    &&& c.can_write_user_backgrounds
    &&& c.can_write_theme_repo == can_repo
    &&& c.add_requires_choice == (config.add_target == ThemeCollectionAddTargetConfig::Ask && can_repo)
    &&& c.default_add_target == default_add_target_spec(config.add_target, can_repo)
}

fn any_prefix(real_path: &str, roots: &[String]) -> (r: bool)
    ensures
        r == under_author_root(real_path@, texts(roots@)),
{
    let mut i: usize = 0;
    while i < roots.len()
        invariant
            0 <= i <= roots@.len(),
            forall|k: int| 0 <= k < i ==> !path_starts_with(real_path@, #[trigger] texts(roots@)[k]),
        decreases roots.len() - i,
    {
        if path_has_prefix(real_path, roots[i].as_str()) {
            assert(texts(roots@)[i as int] == roots@[i as int]@);
            return true;
        }
        assert(texts(roots@)[i as int] == roots@[i as int]@);
        i += 1;
    }
    false
}

/// `after` is `before` with the collections a themes folder's entries make added, in listing
/// order; an id already taken keeps its first collection.
pub open spec fn scanned(
    before: StrMap<ThemeCollection>,
    after: StrMap<ThemeCollection>,
    entries: Seq<ThemeEntry>,
    user_backgrounds_dir: Seq<char>,
    source: ThemeCollectionSource,
    config: ThemeCollectionsConfig,
    author_roots: Seq<Seq<char>>,
) -> bool {
    &&& after.wf()
    &&& forall|q: Seq<char>| before.has(q) ==> #[trigger] after.has(q) && after.lookup(q) == before.lookup(q)
    &&& forall|q: Seq<char>|
        #![trigger after.has(q)]
        after.has(q) && !before.has(q) ==> exists|i: int|
            0 <= i < entries.len() && (entry_theme_name(#[trigger] entries[i]) matches Some(n)
                && normalize_theme_id_spec(n) == q && theme_collection_ok(
                after.lookup(q).unwrap(),
                entries[i],
                n,
                user_backgrounds_dir,
                source,
                config,
                author_roots,
            ) && forall|j: int|
                0 <= j < i ==> !(entry_theme_name(#[trigger] entries[j]) matches Some(m)
                    && normalize_theme_id_spec(m) == q))
    &&& forall|i: int|
        0 <= i < entries.len() ==> (entry_theme_name(#[trigger] entries[i]) matches Some(n)
            ==> after.has(normalize_theme_id_spec(n)))
}

/// Adds the collections a themes folder's entries make, in listing order; an id already taken
/// keeps its first collection.
pub fn scan_theme_root(
    collections: &mut StrMap<ThemeCollection>,
    entries: &[ThemeEntry],
    user_backgrounds_dir: &str,
    source: ThemeCollectionSource,
    config: &ThemeCollectionsConfig,
    author_roots: &[String],
)
    requires
        old(collections).wf(),
    ensures
        scanned(
            *old(collections),
            *final(collections),
            entries@,
            user_backgrounds_dir@,
            source,
            *config,
            texts(author_roots@),
        ),
{
    let ghost start = *collections;
    let mut i: usize = 0;
    while i < entries.len()
        invariant
            collections.wf(),
            0 <= i <= entries@.len(),
            forall|q: Seq<char>| start.has(q) ==> #[trigger] collections.has(q) && collections.lookup(q)
                == start.lookup(q),
            forall|q: Seq<char>|
                #![trigger collections.has(q)]
                collections.has(q) && !start.has(q) ==> exists|k: int|
                    0 <= k < i && (entry_theme_name(#[trigger] entries@[k]) matches Some(n)
                        && normalize_theme_id_spec(n) == q && theme_collection_ok(
                        collections.lookup(q).unwrap(),
                        entries@[k],
                        n,
                        user_backgrounds_dir@,
                        source,
                        *config,
                        texts(author_roots@),
                    ) && forall|j: int|
                        0 <= j < k ==> !(entry_theme_name(#[trigger] entries@[j]) matches Some(m)
                            && normalize_theme_id_spec(m) == q)),
            forall|k: int|
                0 <= k < i ==> (entry_theme_name(#[trigger] entries@[k]) matches Some(n)
                    ==> collections.has(normalize_theme_id_spec(n))),
        decreases entries.len() - i,
    {
        let e = &entries[i];
        let name = match path_file_name(e.installed_path.as_str()) {
            Some(n) => n,
            None => {
                i += 1;
                continue;
            },
        };
        if should_ignore_theme(name.as_str()) || !e.is_dir || (!e.theme_backgrounds_is_dir
            && !e.user_backgrounds_is_dir) {
            i += 1;
            continue;
        }
        let id = normalize_theme_id(name.as_str());
        if collections.contains_key(id.as_str()) {
            i += 1;
            continue;
        }
        let author = config.author.enabled && any_prefix(e.real_path.as_str(), author_roots);
        let src = if author {
            ThemeCollectionSource::AuthorTheme
        } else {
            source
        };
        let can_repo = author && src != ThemeCollectionSource::StockTheme && e.real_is_dir;
        let (theme_bg, user_bg) = theme_folder_paths(e.real_path.as_str(), user_backgrounds_dir, name.as_str());
        let c = ThemeCollection {
            id: id.clone(),
            name: name.clone(),
            theme_name: name.clone(),
            source: src,
            installed_path: e.installed_path.clone(),
            real_path: e.real_path.clone(),
            theme_backgrounds_path: theme_bg,
            user_backgrounds_path: user_bg,
            can_write_user_backgrounds: true,
            can_write_theme_repo: can_repo,
            add_requires_choice: config.add_target == ThemeCollectionAddTargetConfig::Ask && can_repo,
            default_add_target: default_add_target(config.add_target, can_repo),
        };
        let ghost before = *collections;
        let ghost cv = c;
        collections.insert(id, c);
        proof {
            assert(entry_theme_name(entries@[i as int]) == Some(name@));
            assert forall|q: Seq<char>|
                #![trigger collections.has(q)]
                collections.has(q) && !start.has(q) implies exists|k: int|
                    0 <= k < i + 1 && (entry_theme_name(#[trigger] entries@[k]) matches Some(n)
                        && normalize_theme_id_spec(n) == q && theme_collection_ok(
                        collections.lookup(q).unwrap(),
                        entries@[k],
                        n,
                        user_backgrounds_dir@,
                        source,
                        *config,
                        texts(author_roots@),
                    ) && forall|j: int|
                        0 <= j < k ==> !(entry_theme_name(#[trigger] entries@[j]) matches Some(m)
                            && normalize_theme_id_spec(m) == q)) by {
                if q == normalize_theme_id_spec(name@) {
                    assert(theme_collection_ok(
                        collections.lookup(q).unwrap(),
                        entries@[i as int],
                        name@,
                        user_backgrounds_dir@,
                        source,
                        *config,
                        texts(author_roots@),
                    ));
                    assert forall|j: int|
                        0 <= j < i implies !(entry_theme_name(#[trigger] entries@[j]) matches Some(m)
                            && normalize_theme_id_spec(m) == q) by {
                        if entry_theme_name(entries@[j]) is Some {
                            let m = entry_theme_name(entries@[j]).unwrap();
                            assert(before.has(normalize_theme_id_spec(m)));
                        }
                    }
                } else {
                    assert(before.has(q));
                }
            }
        }
        i += 1;
    }
}

/// The theme collections the configuration enables: the user's themes, then the stock themes
/// when they are included (`stock` is `None` otherwise).
pub fn discover_theme_collections(
    config: &ThemeCollectionsConfig,
    user_backgrounds_dir: &str,
    author_roots: &[String],
    user: &[ThemeEntry],
    stock: &[ThemeEntry],
) -> (r: StrMap<ThemeCollection>)
    ensures
        r.wf(),
        !config.enabled ==> r.key_seq().len() == 0,
        config.enabled ==> exists|none: StrMap<ThemeCollection>, mid: StrMap<ThemeCollection>|
            {
                &&& forall|q: Seq<char>| !#[trigger] none.has(q)
                &&& scanned(
                    none,
                    mid,
                    user@,
                    user_backgrounds_dir@,
                    ThemeCollectionSource::UserTheme,
                    *config,
                    texts(author_roots@),
                )
                &&& if config.include_stock_themes {
                    scanned(
                        mid,
                        r,
                        stock@,
                        user_backgrounds_dir@,
                        ThemeCollectionSource::StockTheme,
                        *config,
                        texts(author_roots@),
                    )
                } else {
                    r == mid
                }
            },
{
    let mut collections: StrMap<ThemeCollection> = StrMap::new();
    if !config.enabled {
        return collections;
    }
    let ghost none = collections;
    scan_theme_root(
        &mut collections,
        user,
        user_backgrounds_dir,
        ThemeCollectionSource::UserTheme,
        config,
        author_roots,
    );
    let ghost mid = collections;
    if config.include_stock_themes {
        scan_theme_root(
            &mut collections,
            stock,
            user_backgrounds_dir,
            ThemeCollectionSource::StockTheme,
            config,
            author_roots,
        );
    }
    assert(forall|q: Seq<char>| !#[trigger] none.has(q));
    collections
}


// ---------------------------------------------------------------------------
// Listing
// ---------------------------------------------------------------------------

/// The background folders of a theme as listed: the user's, then the theme's own (a folder that
/// cannot be read lists nothing).
#[derive(Debug)]
pub struct ThemeFolders {
    pub user: Vec<DirEntry>,
    pub theme: Vec<DirEntry>,
}

/// The candidate wallpapers of a theme: the user's backgrounds, then the theme's.
pub open spec fn theme_candidates(f: ThemeFolders) -> Seq<Seq<char>> {
    candidates(f.user@) + candidates(f.theme@)
}

/// `s` summarises `c`: its fields, and the number of its distinct wallpapers.
pub open spec fn theme_summary_of(s: ThemeCollectionSummary, c: ThemeCollection, f: ThemeFolders) -> bool {
    &&& s.id@ == c.id@
    &&& s.name@ == c.name@
    &&& s.theme_name@ == c.theme_name@
    &&& s.source == c.source
    &&& s.installed_path@ == c.installed_path@
    &&& s.real_path@ == c.real_path@
    &&& s.theme_backgrounds_path@ == c.theme_backgrounds_path@
    &&& s.user_backgrounds_path@ == c.user_backgrounds_path@
    &&& s.can_write_user_backgrounds == c.can_write_user_backgrounds
    &&& s.can_write_theme_repo == c.can_write_theme_repo
    &&& s.add_requires_choice == c.add_requires_choice
    &&& s.default_add_target == c.default_add_target
    &&& exists|v: Seq<Seq<char>>| sorted_unique_paths(v, theme_candidates(f)) && s.count == v.len()
}

/// `d` details `c`: its summary, and its distinct wallpapers listed by lowercased file name.
pub open spec fn theme_detail_of(d: ThemeCollectionDetail, c: ThemeCollection, f: ThemeFolders) -> bool {
    &&& theme_summary_of(d.summary, c, f)
    &&& exists|v: Seq<Seq<char>>|
        sorted_unique_paths(v, theme_candidates(f)) && wallpaper_views(d.items@) == dedup_paths(
            sort_by_name(items_of(v)),
        )
}

/// `theme collection not found: <id>`.
pub open spec fn theme_not_found(id: Seq<char>) -> Seq<char> {
    "theme collection not found: "@ + id
}

impl ThemeCollection {
    /// Its wallpapers, sorted as paths, each once.
    pub fn wallpaper_paths(&self, folders: &ThemeFolders) -> (r: Vec<String>)
        ensures
            sorted_unique_paths(texts(r@), theme_candidates(*folders)),
    {
        let mut out: Vec<String> = Vec::new();
        proof {
            empty_sorted_unique();
            assert(texts(out@) =~= Seq::<Seq<char>>::empty());
        }
        add_entry_candidates(&mut out, folders.user.as_slice(), Ghost(Seq::<Seq<char>>::empty()));
        let ghost c1 = Seq::<Seq<char>>::empty() + candidates(folders.user@);
        assert(c1 == candidates(folders.user@));
        add_entry_candidates(&mut out, folders.theme.as_slice(), Ghost(c1));
        out
    }

    pub fn summary(&self, folders: &ThemeFolders) -> (r: ThemeCollectionSummary)
        ensures
            theme_summary_of(r, *self, *folders),
    {
        let paths = self.wallpaper_paths(folders);
        let s = ThemeCollectionSummary {
            id: self.id.clone(),
            name: self.name.clone(),
            theme_name: self.theme_name.clone(),
            count: paths.len(),
            source: self.source,
            installed_path: self.installed_path.clone(),
            real_path: self.real_path.clone(),
            theme_backgrounds_path: self.theme_backgrounds_path.clone(),
            user_backgrounds_path: self.user_backgrounds_path.clone(),
            can_write_user_backgrounds: self.can_write_user_backgrounds,
            can_write_theme_repo: self.can_write_theme_repo,
            add_requires_choice: self.add_requires_choice,
            default_add_target: self.default_add_target,
        };
        assert(texts(paths@).len() == s.count);
        s
    }

    pub fn detail(&self, folders: &ThemeFolders) -> (r: ThemeCollectionDetail)
        ensures
            theme_detail_of(r, *self, *folders),
    {
        let paths = self.wallpaper_paths(folders);
        let items = sorted_listing(&paths);
        ThemeCollectionDetail { summary: self.summary(folders), items }
    }

    /// The folder new wallpapers go to for `target`, when this theme allows writing there.
    pub fn target_dir(&self, target: ThemeCollectionAddTarget) -> (r: Result<String, String>)
        ensures
            match target {
                ThemeCollectionAddTarget::UserBackgrounds => if self.can_write_user_backgrounds {
                    r matches Ok(p) && p@ == self.user_backgrounds_path@
                } else {
                    r matches Err(m) && m@ == "theme collection cannot write user backgrounds: "@ + self.id@
                },
                ThemeCollectionAddTarget::ThemeRepo => if self.can_write_theme_repo {
                    r matches Ok(p) && p@ == self.theme_backgrounds_path@
                } else {
                    r matches Err(m) && m@ == "theme repo writes are not enabled for "@ + self.id@
                },
            },
    {
        match target {
            ThemeCollectionAddTarget::UserBackgrounds => if self.can_write_user_backgrounds {
                Ok(self.user_backgrounds_path.clone())
            } else {
                Err(cat("theme collection cannot write user backgrounds: ", self.id.as_str()))
            },
            ThemeCollectionAddTarget::ThemeRepo => if self.can_write_theme_repo {
                Ok(self.theme_backgrounds_path.clone())
            } else {
                Err(cat("theme repo writes are not enabled for ", self.id.as_str()))
            },
        }
    }
}

/// The summaries of all theme collections, in id order (`folders` lists each one's folders).
pub fn list_theme_collections(collections: &StrMap<ThemeCollection>, folders: &[ThemeFolders]) -> (r: Vec<
    ThemeCollectionSummary,
>)
    requires
        collections.wf(),
        folders@.len() == collections.key_seq().len(),
    ensures
        r@.len() == folders@.len(),
        forall|i: int|
            0 <= i < r@.len() ==> theme_summary_of(#[trigger] r@[i], collections.val_seq()[i], folders@[i]),
{
    proof {
        collections.lemma_len();
    }
    let mut out: Vec<ThemeCollectionSummary> = Vec::new();
    let mut i: usize = 0;
    while i < folders.len()
        invariant
            collections.wf(),
            folders@.len() == collections.key_seq().len(),
            collections.val_seq().len() == collections.key_seq().len(),
            0 <= i <= folders@.len(),
            out@.len() == i,
            forall|k: int|
                0 <= k < i ==> theme_summary_of(#[trigger] out@[k], collections.val_seq()[k], folders@[k]),
        decreases folders.len() - i,
    {
        out.push(collections.value_at(i).summary(&folders[i]));
        i += 1;
    }
    out
}

/// The theme a request names: by its id, else by its id with `theme:` in front.
pub open spec fn theme_lookup(collections: StrMap<ThemeCollection>, id: Seq<char>) -> Option<Seq<char>> {
    if collections.has(id) {
        Some(id)
    } else if collections.has(normalize_theme_id_spec(id)) {
        Some(normalize_theme_id_spec(id))
    } else {
        None
    }
}

/// The position of the theme a request names, or the not-found error.
pub fn find_theme_collection(collections: &StrMap<ThemeCollection>, id: &str) -> (r: Result<usize, String>)
    requires
        collections.wf(),
    ensures
        match theme_lookup(*collections, id@) {
            Some(k) => r matches Ok(i) && i < collections.key_seq().len() && collections.key_seq()[i as int] == k,
            None => r matches Err(m) && m@ == theme_not_found(id@),
        },
{
    match collections.find(id) {
        Ok(i) => Ok(i),
        Err(_) => {
            let n = normalize_theme_id(id);
            match collections.find(n.as_str()) {
                Ok(i) => Ok(i),
                Err(_) => Err(cat("theme collection not found: ", id)),
            }
        },
    }
}

/// The detail of the theme a request names (`folders` lists each theme's folders).
pub fn get_theme_collection(collections: &StrMap<ThemeCollection>, id: &str, folders: &[ThemeFolders]) -> (r:
    Result<ThemeCollectionDetail, String>)
    requires
        collections.wf(),
        folders@.len() == collections.key_seq().len(),
    ensures
        match theme_lookup(*collections, id@) {
            Some(k) => r matches Ok(d) && theme_detail_of(
                d,
                collections.lookup(k).unwrap(),
                folders@[collections.pos(k)],
            ),
            None => r matches Err(m) && m@ == theme_not_found(id@),
        },
{
    match find_theme_collection(collections, id) {
        Ok(i) => {
            proof {
                collections.lemma_lookup_at(i as int);
                collections.lemma_len();
            }
            Ok(collections.value_at(i).detail(&folders[i]))
        },
        Err(e) => Err(e),
    }
}

/// Where a wallpaper added to a theme goes: the theme's position, the target (the requested
/// one, else the theme's default) and its folder; errors when the theme is not found, the source
/// could not be resolved, is not a file or is not a wallpaper, or the target is not writable.
pub fn plan_theme_import(
    collections: &StrMap<ThemeCollection>,
    id: &str,
    source: Result<String, String>,
    source_is_file: bool,
    target: Option<ThemeCollectionAddTarget>,
) -> (r: Result<(usize, ThemeCollectionAddTarget, String), String>)
    requires
        collections.wf(),
    ensures
        match theme_lookup(*collections, id@) {
            None => r matches Err(m) && m@ == theme_not_found(id@),
            Some(k) => {
                let c = collections.lookup(k).unwrap();
                match source {
                    Err(e) => r matches Err(m) && m@ == e@,
                    Ok(p) => if !source_is_file {
                        r matches Err(m) && m@ == "theme collection item is not a file: "@ + p@
                    } else if path_kind(p@) is None {
                        r matches Err(m) && m@ == "unsupported wallpaper type: "@ + p@
                    } else {
                        let t = match target {
                            Some(t) => t,
                            None => c.default_add_target,
                        };
                        match t {
                            ThemeCollectionAddTarget::UserBackgrounds => if c.can_write_user_backgrounds {
                                r matches Ok(x) && x.0 as int == collections.pos(k) && x.1 == t && x.2@
                                    == c.user_backgrounds_path@
                            } else {
                                r matches Err(m) && m@ == "theme collection cannot write user backgrounds: "@
                                    + c.id@
                            },
                            ThemeCollectionAddTarget::ThemeRepo => if c.can_write_theme_repo {
                                r matches Ok(x) && x.0 as int == collections.pos(k) && x.1 == t && x.2@
                                    == c.theme_backgrounds_path@
                            } else {
                                r matches Err(m) && m@ == "theme repo writes are not enabled for "@ + c.id@
                            },
                        }
                    },
                }
            },
        },
{
    let i = match find_theme_collection(collections, id) {
        Ok(i) => i,
        Err(e) => {
            return Err(e);
        },
    };
    proof {
        collections.lemma_lookup_at(i as int);
    }
    let p = match source {
        Ok(p) => p,
        Err(e) => {
            return Err(e);
        },
    };
    if !source_is_file {
        return Err(cat("theme collection item is not a file: ", p.as_str()));
    }
    if !has_supported_extension(p.as_str()) {
        return Err(cat("unsupported wallpaper type: ", p.as_str()));
    }
    let c = collections.value_at(i);
    let t = match target {
        Some(t) => t,
        None => c.default_add_target,
    };
    match c.target_dir(t) {
        Ok(dir) => Ok((i, t, dir)),
        Err(e) => Err(e),
    }
}

} // verus!
