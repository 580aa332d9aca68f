//! Finding the folder to browse and listing its wallpapers.
use vstd::prelude::*;
use crate::media::{MediaKind, path_kind, has_supported_extension, classify_path};
use crate::path::{join, path_join, file_name, path_file_name, seq_lt, str_lt};
use crate::shell::model::WallpaperItem;
use crate::shell::state::ShellState;
use crate::theme_collections::{expand_tilde, expand_tilde_spec};
use crate::collection::opt_text;
use crate::text::{texts, lower_seq, ascii_lowercase, chars_of, owned};

verus! {

/// A folder entry as listed: its path, and whether it is a regular file.
#[derive(Debug)]
pub struct ListedFile {
    pub path: String,
    pub is_file: bool,
}

/// The folder a saved state remembers.
pub open spec fn remembered_folder(state: Option<&ShellState>) -> Option<Seq<char>> {
    match state {
        Some(s) => match s.last_folder {
            Some(f) => Some(f@),
            None => None,
        },
        None => None,
    }
}

/// `~/.config/omarchy/current/theme/backgrounds`.
pub open spec fn omarchy_backgrounds(home: Seq<char>) -> Seq<char> {
    join(join(join(join(join(home, ".config"@), "omarchy"@), "current"@), "theme"@), "backgrounds"@)
}

/// `~/Pictures/Wallpapers`.
pub open spec fn fallback_wallpapers(home: Seq<char>) -> Seq<char> {
    join(join(home, "Pictures"@), "Wallpapers"@)
}

/// The folders tried in turn, each with `~` expanded: the one given, the one remembered,
/// Omarchy's current theme backgrounds, then `~/Pictures/Wallpapers`.
pub open spec fn folder_candidates_spec(
    explicit: Option<Seq<char>>,
    remembered: Option<Seq<char>>,
    home: Option<Seq<char>>,
) -> Seq<Seq<char>> {
    let raw = (match explicit {
        Some(e) => seq![e],
        None => seq![],
    }) + (match remembered {
        Some(r) => seq![r],
        None => seq![],
    }) + (match home {
        Some(h) => seq![omarchy_backgrounds(h), fallback_wallpapers(h)],
        None => seq![],
    });
    raw.map_values(|p: Seq<char>| expand_tilde_spec(p, home))
}

fn push_expanded(out: &mut Vec<String>, p: &str, home: Option<&str>)
    ensures
        texts(final(out)@) == texts(old(out)@).push(expand_tilde_spec(p@, opt_text(home))),
{
    let e = expand_tilde(p, home);
    let ghost before = texts(out@);
    out.push(e);
    assert(texts(out@) =~= before.push(expand_tilde_spec(p@, opt_text(home))));
}

pub fn folder_candidates(explicit: Option<&str>, state: Option<&ShellState>, home: Option<&str>) -> (r: Vec<
    String,
>)
    ensures
        texts(r@) == folder_candidates_spec(opt_text(explicit), remembered_folder(state), opt_text(home)),
{
    let mut out: Vec<String> = Vec::new();
    let ghost h = opt_text(home);
    let ghost mut raw: Seq<Seq<char>> = seq![];
    match explicit {
        Some(e) => {
            push_expanded(&mut out, e, home);
            proof {
                raw = raw.push(e@);
            }
        },
        None => {},
    }
    match state {
        Some(s) => match &s.last_folder {
            Some(f) => {
                push_expanded(&mut out, f.as_str(), home);
                proof {
                    raw = raw.push(f@);
                }
            },
            None => {},
        },
        None => {},
    }
    match home {
        Some(hm) => {
            let a = path_join(hm, ".config");
            let b = path_join(a.as_str(), "omarchy");
            let c = path_join(b.as_str(), "current");
            let d = path_join(c.as_str(), "theme");
            let omarchy = path_join(d.as_str(), "backgrounds");
            push_expanded(&mut out, omarchy.as_str(), home);
            let p = path_join(hm, "Pictures");
            let fallback = path_join(p.as_str(), "Wallpapers");
            push_expanded(&mut out, fallback.as_str(), home);
            proof {
                raw = raw.push(omarchy@).push(fallback@);
            }
        },
        None => {},
    }
    proof {
        let spec_raw = (match opt_text(explicit) {
            Some(e) => seq![e],
            None => seq![],
        }) + (match remembered_folder(state) {
            Some(f) => seq![f],
            None => seq![],
        }) + (match h {
            Some(x) => seq![omarchy_backgrounds(x), fallback_wallpapers(x)],
            None => seq![],
        });
        assert(raw =~= spec_raw);
        assert(texts(out@) =~= raw.map_values(|p: Seq<char>| expand_tilde_spec(p, h)));
    }
    out
}

/// The first candidate that is a directory (`is_dir` answers for each), or the error naming
/// where wallpapers are looked for.
pub fn resolve_folder(candidates: &[String], is_dir: &[bool]) -> (r: Result<String, String>)
    requires
        is_dir@.len() == candidates@.len(),
    ensures
        match r {
            Ok(p) => exists|i: int|
                0 <= i < candidates@.len() && is_dir@[i] && p@ == candidates@[i]@ && forall|j: int|
                    0 <= j < i ==> !#[trigger] is_dir@[j],
            Err(m) => (forall|j: int| 0 <= j < is_dir@.len() ==> !#[trigger] is_dir@[j]) && m@
                == "no wallpaper folder found; pass a folder, create ~/.config/omarchy/current/theme/backgrounds, or create ~/Pictures/Wallpapers"@,
        },
{
    let mut i: usize = 0;
    while i < candidates.len()
        invariant
            is_dir@.len() == candidates@.len(),
            0 <= i <= candidates@.len(),
            forall|j: int| 0 <= j < i ==> !#[trigger] is_dir@[j],
        decreases candidates.len() - i,
    {
        if is_dir[i] {
            return Ok(candidates[i].clone());
        }
        i += 1;
    }
    Err(
        owned(
            "no wallpaper folder found; pass a folder, create ~/.config/omarchy/current/theme/backgrounds, or create ~/Pictures/Wallpapers",
        ),
    )
}

/// The key the picker sorts by: the file name, ASCII-lowercased (empty without a name).
pub open spec fn scan_key(path: Seq<char>) -> Seq<char> {
    match file_name(path) {
        Some(n) => lower_seq(n),
        None => seq![],
    }
}

/// How many leading items of `v` do not sort after `x`.
pub open spec fn key_upper_bound(v: Seq<(Seq<char>, MediaKind)>, x: (Seq<char>, MediaKind)) -> int
    decreases v.len(),
{
    if v.len() == 0 {
        0
    } else if seq_lt(scan_key(x.0), scan_key(v[0].0)) {
        0
    } else {
        1 + key_upper_bound(v.drop_first(), x)
    }
}

/// The items sorted by key, items with the same key kept in order (a stable sort).
pub open spec fn sort_by_key(s: Seq<(Seq<char>, MediaKind)>) -> Seq<(Seq<char>, MediaKind)>
    decreases s.len(),
{
    if s.len() == 0 {
        s
    } else {
        let v = sort_by_key(s.drop_last());
        v.insert(key_upper_bound(v, s.last()), s.last())
    }
}

/// The wallpapers among listed files: regular files with a supported extension, with the kind
/// it names, in listing order.
pub open spec fn listed_wallpapers(files: Seq<ListedFile>) -> Seq<(Seq<char>, MediaKind)>
    decreases files.len(),
{
    if files.len() == 0 {
        seq![]
    } else {
        let f = files.last();
        listed_wallpapers(files.drop_last()) + if f.is_file && path_kind(f.path@) is Some {
            seq![(f.path@, path_kind(f.path@).unwrap())]
        } else {
            seq![]
        }
    }
}

pub open spec fn item_views(items: Seq<WallpaperItem>) -> Seq<(Seq<char>, MediaKind)> {
    items.map_values(|w: WallpaperItem| (w.path@, w.kind))
}

fn scan_key_exec(path: &str) -> (r: Vec<char>)
    ensures
        r@ == scan_key(path@),
{
    match path_file_name(path) {
        Some(n) => chars_of(ascii_lowercase(n.as_str()).as_str()),
        None => Vec::new(),
    }
}

/// The wallpapers of a folder's listing, sorted by lowercased file name.
pub fn scan_folder(files: &[ListedFile]) -> (r: Vec<WallpaperItem>)
    ensures
        item_views(r@) == sort_by_key(listed_wallpapers(files@)),
{
    let mut out: Vec<WallpaperItem> = Vec::new();
    let mut i: usize = 0;
    assert(files@.take(0).len() == 0);
    assert(item_views(out@) =~= sort_by_key(listed_wallpapers(files@.take(0))));
    while i < files.len()
        invariant
            0 <= i <= files@.len(),
            item_views(out@) == sort_by_key(listed_wallpapers(files@.take(i as int))),
        decreases files.len() - i,
    {
        assert(files@.take(i + 1).drop_last() == files@.take(i as int));
        assert(files@.take(i + 1).last() == files@[i as int]);
        let f = &files[i];
        let ghost before = listed_wallpapers(files@.take(i as int));
        if f.is_file && has_supported_extension(f.path.as_str()) {
            let kind = match classify_path(f.path.as_str(), None) {
                Ok(k) => k,
                Err(_) => MediaKind::Static,
            };
            let item = WallpaperItem { path: f.path.clone(), kind };
            let ghost ov = item_views(out@);
            let ghost xv = (item.path@, item.kind);
            assert(listed_wallpapers(files@.take(i + 1)) == before.push(xv));
            assert(before.push(xv).drop_last() == before);
            let key = scan_key_exec(item.path.as_str());
            let mut p: usize = 0;
            assert(ov.skip(0) == ov);
            while p < out.len() && !str_lt(&key, &scan_key_exec(out[p].path.as_str()))
                invariant
                    ov == item_views(out@),
                    key@ == scan_key(xv.0),
                    0 <= p <= out@.len(),
                    key_upper_bound(ov, xv) == p + key_upper_bound(ov.skip(p as int), xv),
                decreases out.len() - p,
            {
                assert(ov.skip(p as int).drop_first() == ov.skip(p + 1));
                assert(ov.skip(p as int)[0] == ov[p as int]);
                p += 1;
            }
            if p < out.len() {
                assert(ov.skip(p as int)[0] == ov[p as int]);
            }
            out.insert(p, item);
            assert(item_views(out@) =~= ov.insert(p as int, xv));
        } else {
            assert(listed_wallpapers(files@.take(i + 1)) =~= before);
        }
        i += 1;
    }
    assert(files@.take(files@.len() as int) == files@);
    out
}

} // verus!
