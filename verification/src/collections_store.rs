//! Named collections of wallpapers: a registry of collections, each with a display name, an
//! optional source folder and a list of chosen wallpapers.
//!
//! What the disk holds (the source folder's entries, which items are regular files, where a
//! path resolves to) is read by the caller and handed in; the rules for what a collection
//! contains, in which order, and which requests are refused live here.
use vstd::prelude::*;
use crate::collection::{
    DirEntry, candidates, sorted_unique_paths, add_entry_candidates, insert_sorted, empty_sorted_unique,
    lemma_cover_at,
};
use crate::media::{MediaKind, path_kind, has_supported_extension, classify_path, classify_spec};
use crate::path::{file_name, path_file_name, path_eq, paths_equal, path_lt, path_less, seq_lt, str_lt};
use crate::strmap::StrMap;
use crate::text::{
    texts, trim, trim_start, trim_end, trim_str, is_ws, is_ascii_upper, is_ascii_lower, is_ascii_digit, is_ascii_alnum, lower, join_seq,
    join_strings, chars_of, is_alnum, to_lower, string_of, cat, owned, unicode_lowercase, to_lowercase,
    str_eq,
};
use crate::cli::copy_strings;

verus! {

// ---------------------------------------------------------------------------
// Identifiers
// ---------------------------------------------------------------------------

/// A character allowed in a collection id.
pub open spec fn id_char(c: char) -> bool {
    is_ascii_lower(c) || is_ascii_digit(c) || c == '-'
}

/// The id a request names, trimmed: an error when it is empty or holds anything but lowercase
/// ASCII letters, digits and hyphens.
pub open spec fn validate_id_spec(id: Seq<char>) -> Result<Seq<char>, Seq<char>> {
    let t = trim(id);
    if t.len() == 0 {
        Err("collection id cannot be empty"@)
    } else if !(forall|i: int| 0 <= i < t.len() ==> id_char(#[trigger] t[i])) {
        Err("collection id may only contain lowercase letters, numbers, and hyphens"@)
    } else {
        Ok(t)
    }
}

pub fn validate_id(id: &str) -> (r: Result<String, String>)
    ensures
        match validate_id_spec(id@) {
            Ok(t) => r matches Ok(s) && s@ == t,
            Err(m) => r matches Err(e) && e@ == m,
        },
{
    let t = trim_str(id);
    let v = chars_of(t.as_str());
    if v.len() == 0 {
        return Err(owned("collection id cannot be empty"));
    }
    let mut i: usize = 0;
    while i < v.len()
        invariant
            v@ == t@,
            t@ == trim(id@),
            0 <= i <= v@.len(),
            forall|k: int| 0 <= k < i ==> id_char(#[trigger] v@[k]),
        decreases v.len() - i,
    {
        let c = v[i];
        if !(('a' <= c && c <= 'z') || ('0' <= c && c <= '9') || c == '-') {
            assert(!id_char(v@[i as int]));
            return Err(owned("collection id may only contain lowercase letters, numbers, and hyphens"));
        }
        i += 1;
    }
    Ok(t)
}

/// The runs of ASCII letters and digits in the rest of a text, lowercased; `cur` is the run
/// already read.
pub open spec fn lower_runs_from(s: Seq<char>, cur: Seq<char>) -> Seq<Seq<char>>
    decreases s.len(),
{
    if s.len() == 0 {
        if cur.len() == 0 {
            seq![]
        } else {
            seq![cur]
        }
    } else if !is_ascii_alnum(s[0]) {
        (if cur.len() == 0 {
            seq![]
        } else {
            seq![cur]
        }) + lower_runs_from(s.drop_first(), seq![])
    } else {
        lower_runs_from(s.drop_first(), cur.push(lower(s[0])))
    }
}

/// The id a name gives: its runs of ASCII letters and digits, lowercased, joined by `-`.
pub open spec fn slug(name: Seq<char>) -> Seq<char> {
    join_seq(lower_runs_from(name, seq![]), "-"@)
}

pub fn slugify(name: &str) -> (r: String)
    ensures
        r@ == slug(name@),
{
    let v = chars_of(name);
    let mut runs: Vec<String> = Vec::new();
    let mut cur: Vec<char> = Vec::new();
    let mut i: usize = 0;
    assert(v@.skip(0) == v@);
    assert(texts(runs@) =~= Seq::<Seq<char>>::empty());
    assert(Seq::<Seq<char>>::empty() + lower_runs_from(name@, seq![]) =~= lower_runs_from(name@, seq![]));
    while i < v.len()
        invariant
            0 <= i <= v.len(),
            v@ == name@,
            texts(runs@) + lower_runs_from(v@.skip(i as int), cur@) == lower_runs_from(name@, seq![]),
        decreases v.len() - i,
    {
        let ghost before = texts(runs@);
        assert(v@.skip(i as int).drop_first() == v@.skip(i + 1));
        if !is_alnum(v[i]) {
            if cur.len() > 0 {
                let run = string_of(&cur);
                runs.push(run);
                assert(texts(runs@) == before + seq![cur@]);
            } else {
                assert(texts(runs@) == before + Seq::<Seq<char>>::empty());
            }
            cur = Vec::new();
        } else {
            cur.push(to_lower(v[i]));
        }
        i += 1;
    }
    assert(v@.skip(i as int).len() == 0);
    if cur.len() > 0 {
        let ghost before = texts(runs@);
        let run = string_of(&cur);
        runs.push(run);
        assert(texts(runs@) == before + seq![cur@]);
    } else {
        assert(texts(runs@) == texts(runs@) + Seq::<Seq<char>>::empty());
    }
    join_strings(runs.as_slice(), "-")
}

/// Every character is allowed in an id.
pub open spec fn all_id_chars(s: Seq<char>) -> bool {
    forall|i: int| 0 <= i < s.len() ==> id_char(#[trigger] s[i])
}

proof fn lemma_lower_id_char(c: char)
    requires
        is_ascii_alnum(c),
    ensures
        id_char(lower(c)),
        lower(c) != '-',
{
    if is_ascii_upper(c) {
        assert(('A' as u32) <= (c as u32) <= ('Z' as u32));
        assert((lower(c) as u32) == (c as u32) + 32);
    }
}

proof fn lemma_runs_id_chars(s: Seq<char>, cur: Seq<char>)
    requires
        all_id_chars(cur),
    ensures
        forall|k: int|
            0 <= k < lower_runs_from(s, cur).len() ==> all_id_chars(#[trigger] lower_runs_from(s, cur)[k]),
    decreases s.len(),
{
    if s.len() == 0 {
        if cur.len() > 0 {
            assert(lower_runs_from(s, cur) == seq![cur]);
        }
    } else if !is_ascii_alnum(s[0]) {
        lemma_runs_id_chars(s.drop_first(), seq![]);
        let head: Seq<Seq<char>> = if cur.len() == 0 {
            seq![]
        } else {
            seq![cur]
        };
        let rest = lower_runs_from(s.drop_first(), seq![]);
        assert forall|k: int|
            0 <= k < lower_runs_from(s, cur).len() implies all_id_chars(#[trigger] lower_runs_from(s, cur)[k]) by {
            if k < head.len() {
                assert(lower_runs_from(s, cur)[k] == head[k]);
            } else {
                assert(lower_runs_from(s, cur)[k] == rest[k - head.len()]);
            }
        }
    } else {
        lemma_lower_id_char(s[0]);
        let next = cur.push(lower(s[0]));
        assert forall|i: int| 0 <= i < next.len() implies id_char(#[trigger] next[i]) by {
            if i < cur.len() {
                assert(next[i] == cur[i]);
            }
        }
        lemma_runs_id_chars(s.drop_first(), next);
        assert(lower_runs_from(s, cur) == lower_runs_from(s.drop_first(), next));
    }
}

proof fn lemma_join_id_chars(items: Seq<Seq<char>>)
    requires
        forall|k: int| 0 <= k < items.len() ==> all_id_chars(#[trigger] items[k]),
    ensures
        all_id_chars(join_seq(items, "-"@)),
    decreases items.len(),
{
    reveal_strlit("-");
    if items.len() > 1 {
        lemma_join_id_chars(items.drop_last());
        let a = join_seq(items.drop_last(), "-"@);
        let b = items.last();
        assert(all_id_chars(b));
        let j = a + "-"@ + b;
        assert forall|i: int| 0 <= i < j.len() implies id_char(#[trigger] j[i]) by {
            if i < a.len() {
                assert(j[i] == a[i]);
            } else if i == a.len() {
                assert(j[i] == '-');
            } else {
                assert(j[i] == b[i - a.len() - 1]);
            }
        }
    } else if items.len() == 1 {
        assert(all_id_chars(items[0]));
    }
}

/// The id a name gives is a valid id, unless the name has no ASCII letter or digit at all.
pub proof fn lemma_slug_is_valid_id(name: Seq<char>)
    ensures
        slug(name).len() > 0 ==> validate_id_spec(slug(name)) == Ok::<Seq<char>, Seq<char>>(slug(name)),
{
    let t = slug(name);
    lemma_runs_id_chars(name, seq![]);
    lemma_join_id_chars(lower_runs_from(name, seq![]));
    if t.len() > 0 {
        assert(!is_ws(t[0])) by {
            assert(id_char(t[0]));
        }
        assert(!is_ws(t.last())) by {
            assert(id_char(t[t.len() - 1]));
        }
        assert(trim_start(t) == t);
        assert(trim_end(t) == t);
        assert(trim(t) == t);
    }
}

// ---------------------------------------------------------------------------
// Collections
// ---------------------------------------------------------------------------

/// A named collection: the name it shows, the folder whose wallpapers it includes, and the
/// wallpapers added to it one by one.
#[derive(Debug)]
pub struct NamedCollection {
    pub name: String,
    pub source_folder: Option<String>,
    pub items: Vec<String>,
}

/// The registry of collections, by id.
#[derive(Debug)]
pub struct CollectionRegistry {
    pub collections: StrMap<NamedCollection>,
}

impl Default for CollectionRegistry {
    fn default() -> (r: Self)
        ensures
            r.collections.wf(),
            r.collections.key_seq().len() == 0,
    {
        CollectionRegistry { collections: StrMap::new() }
    }
}

#[derive(Debug)]
pub struct CollectionSummary {
    pub id: String,
    pub name: String,
    pub count: usize,
    pub source_folder: Option<String>,
}

#[derive(Debug)]
pub struct CollectionWallpaper {
    pub path: String,
    pub name: String,
    pub kind: MediaKind,
}

#[derive(Debug)]
pub struct CollectionDetail {
    pub id: String,
    pub name: String,
    pub count: usize,
    pub source_folder: Option<String>,
    pub items: Vec<CollectionWallpaper>,
}

/// A folder as listed from the disk: whether it is a directory, and its entries.
#[derive(Debug)]
pub struct FolderListing {
    pub is_dir: bool,
    pub entries: Vec<DirEntry>,
}

/// What the disk shows of a collection: its source folder's listing (when it has a source
/// folder), and the paths among its items that are regular files.
#[derive(Debug)]
pub struct CollectionDisk {
    pub folder: Option<FolderListing>,
    pub files: Vec<String>,
}

/// The items that count as wallpapers: regular files with a supported extension, in order.
pub open spec fn item_candidates(items: Seq<Seq<char>>, files: Seq<Seq<char>>) -> Seq<Seq<char>>
    decreases items.len(),
{
    if items.len() == 0 {
        seq![]
    } else {
        item_candidates(items.drop_last(), files) + if files.contains(items.last()) && path_kind(
            items.last(),
        ) is Some {
            seq![items.last()]
        } else {
            seq![]
        }
    }
}

/// The name a collection shows: its own, or its id when its own is blank.
pub open spec fn display_name_spec(c: NamedCollection, id: Seq<char>) -> Seq<char> {
    if trim(c.name@).len() == 0 {
        id
    } else {
        c.name@
    }
}

/// The wallpapers of a collection, sorted as paths, each once: those of its source folder, then
/// its items that are regular files with a supported extension; an error when the source folder
/// is not a directory.
pub open spec fn wallpaper_paths_ok(c: NamedCollection, disk: CollectionDisk, r: Result<Vec<String>, String>) -> bool {
    let items = item_candidates(texts(c.items@), texts(disk.files@));
    match c.source_folder {
        Some(f) => {
            let l = disk.folder.unwrap();
            if !l.is_dir {
                r matches Err(m) && m@ == "collection source is not a folder: "@ + f@
            } else {
                r matches Ok(v) && sorted_unique_paths(texts(v@), candidates(l.entries@) + items)
            }
        },
        None => r matches Ok(v) && sorted_unique_paths(texts(v@), items),
    }
}

/// The disk facts fit the collection: a listing exactly when it has a source folder.
pub open spec fn disk_fits(c: NamedCollection, disk: CollectionDisk) -> bool {
    c.source_folder is Some ==> disk.folder is Some
}

fn contains_text(v: &Vec<String>, x: &str) -> (r: bool)
    ensures
        r == texts(v@).contains(x@),
{
    let mut i: usize = 0;
    while i < v.len()
        invariant
            0 <= i <= v@.len(),
            forall|k: int| 0 <= k < i ==> v@[k]@ != x@,
        decreases v.len() - i,
    {
        if str_eq(v[i].as_str(), x) {
            assert(texts(v@)[i as int] == x@);
            return true;
        }
        i += 1;
    }
    assert forall|k: int| 0 <= k < texts(v@).len() implies texts(v@)[k] != x@ by {
        assert(texts(v@)[k] == v@[k]@);
    }
    false
}

impl NamedCollection {
    pub fn display_name(&self, id: &str) -> (r: String)
        ensures
            r@ == display_name_spec(*self, id@),
    {
        let t = trim_str(self.name.as_str());
        if chars_of(t.as_str()).len() == 0 {
            owned(id)
        } else {
            self.name.clone()
        }
    }

    pub fn wallpaper_paths(&self, disk: &CollectionDisk) -> (r: Result<Vec<String>, String>)
        requires
            disk_fits(*self, *disk),
        ensures
            wallpaper_paths_ok(*self, *disk, r),
            r matches Ok(v) ==> (v@.len() == 0 <==> (match self.source_folder {
                Some(_) => candidates(disk.folder.unwrap().entries@),
                None => Seq::<Seq<char>>::empty(),
            } + item_candidates(texts(self.items@), texts(disk.files@))).len() == 0),
    {
        let mut out: Vec<String> = Vec::new();
        proof {
            empty_sorted_unique();
            assert(texts(out@) =~= Seq::<Seq<char>>::empty());
        }
        let ghost mut c0 = Seq::<Seq<char>>::empty();
        match &self.source_folder {
            Some(f) => {
                let l = match &disk.folder {
                    Some(l) => l,
                    None => {
                        return Err(cat("collection source is not a folder: ", f.as_str()));
                    },
                };
                if !l.is_dir {
                    return Err(cat("collection source is not a folder: ", f.as_str()));
                }
                add_entry_candidates(&mut out, l.entries.as_slice(), Ghost(Seq::<Seq<char>>::empty()));
                proof {
                    c0 = Seq::<Seq<char>>::empty() + candidates(l.entries@);
                    assert(c0 == candidates(l.entries@));
                }
            },
            None => {},
        }
        let ghost items = texts(self.items@);
        let ghost files = texts(disk.files@);
        let mut i: usize = 0;
        assert(item_candidates(items.take(0), files) =~= Seq::<Seq<char>>::empty()) by {
            assert(items.take(0).len() == 0);
        }
        assert(c0 + item_candidates(items.take(0), files) =~= c0);
        while i < self.items.len()
            invariant
                items == texts(self.items@),
                files == texts(disk.files@),
                0 <= i <= self.items@.len(),
                sorted_unique_paths(texts(out@), c0 + item_candidates(items.take(i as int), files)),
                out@.len() == 0 <==> (c0 + item_candidates(items.take(i as int), files)).len() == 0,
            decreases self.items.len() - i,
        {
            let ghost before = c0 + item_candidates(items.take(i as int), files);
            assert(items.take(i + 1).drop_last() == items.take(i as int));
            assert(items.take(i + 1).last() == self.items@[i as int]@);
            let item = &self.items[i];
            if contains_text(&disk.files, item.as_str()) && has_supported_extension(item.as_str()) {
                let p = item.clone();
                let ghost pv = p@;
                assert(c0 + item_candidates(items.take(i + 1), files) =~= before.push(pv));
                insert_sorted(&mut out, p, Ghost(before));
                proof {
                    let c2 = before.push(pv);
                    assert(c2[before.len() as int] == pv);
                    let k = lemma_cover_at(texts(out@), c2, before.len() as int);
                }
            } else {
                assert(c0 + item_candidates(items.take(i + 1), files) =~= before);
            }
            i += 1;
        }
        assert(items.take(items.len() as int) == items);
        Ok(out)
    }
}


// ---------------------------------------------------------------------------
// Listing the wallpapers of a collection
// ---------------------------------------------------------------------------

/// A listed wallpaper as `(path, file name, kind)`.
pub open spec fn wallpaper_view(w: CollectionWallpaper) -> (Seq<char>, Seq<char>, MediaKind) {
    (w.path@, w.name@, w.kind)
}

pub open spec fn wallpaper_views(ws: Seq<CollectionWallpaper>) -> Seq<(Seq<char>, Seq<char>, MediaKind)> {
    ws.map_values(|w: CollectionWallpaper| wallpaper_view(w))
}

/// The listing of one path: when its kind can be told (from its extension, else from
/// `contents`) and it has a file name.
pub open spec fn wallpaper_item_spec(path: Seq<char>, contents: Option<Seq<u8>>) -> Option<
    (Seq<char>, Seq<char>, MediaKind),
> {
    match classify_spec(path, contents) {
        Some(k) => match file_name(path) {
            Some(n) => Some((path, n, k)),
            None => None,
        },
        None => None,
    }
}

pub fn wallpaper_item(path: &str, contents: Option<&[u8]>) -> (r: Option<CollectionWallpaper>)
    ensures
        match wallpaper_item_spec(
            path@,
            match contents {
                Some(b) => Some(b@),
                None => None,
            },
        ) {
            Some(v) => r matches Some(w) && wallpaper_view(w) == v,
            None => r is None,
        },
{
    let kind = match classify_path(path, contents) {
        Ok(k) => k,
        Err(_) => {
            return None;
        },
    };
    let name = match path_file_name(path) {
        Some(n) => n,
        None => {
            return None;
        },
    };
    Some(CollectionWallpaper { path: owned(path), name, kind })
}

/// The listings of the paths that can be listed, in order.
pub open spec fn items_of(paths: Seq<Seq<char>>) -> Seq<(Seq<char>, Seq<char>, MediaKind)>
    decreases paths.len(),
{
    if paths.len() == 0 {
        seq![]
    } else {
        items_of(paths.drop_last()) + match wallpaper_item_spec(paths.last(), None) {
            Some(v) => seq![v],
            None => seq![],
        }
    }
}

/// The key listings are ordered by: the file name, lowercased.
pub open spec fn name_key(w: (Seq<char>, Seq<char>, MediaKind)) -> Seq<char> {
    unicode_lowercase(w.1)
}

/// How many leading listings of `v` do not sort after `x`.
pub open spec fn name_upper_bound(v: Seq<(Seq<char>, Seq<char>, MediaKind)>, x: (Seq<char>, Seq<char>, MediaKind)) -> int
    decreases v.len(),
{
    if v.len() == 0 {
        0
    } else if seq_lt(name_key(x), name_key(v[0])) {
        0
    } else {
        1 + name_upper_bound(v.drop_first(), x)
    }
}

/// The listings sorted by lowercased file name, listings with the same key kept in their
/// order (a stable sort: each one goes after those already placed that do not sort after it).
pub open spec fn sort_by_name(s: Seq<(Seq<char>, Seq<char>, MediaKind)>) -> Seq<(Seq<char>, Seq<char>, MediaKind)>
    decreases s.len(),
{
    if s.len() == 0 {
        s
    } else {
        let v = sort_by_name(s.drop_last());
        v.insert(name_upper_bound(v, s.last()), s.last())
    }
}

/// Each listing dropped when it has the path of the listing kept just before it.
pub open spec fn dedup_paths(s: Seq<(Seq<char>, Seq<char>, MediaKind)>) -> Seq<(Seq<char>, Seq<char>, MediaKind)>
    decreases s.len(),
{
    if s.len() == 0 {
        s
    } else {
        let d = dedup_paths(s.drop_last());
        if d.len() > 0 && d.last().0 == s.last().0 {
            d
        } else {
            d.push(s.last())
        }
    }
}

fn name_less(a: &String, b: &String) -> (r: bool)
    ensures
        r == seq_lt(unicode_lowercase(a@), unicode_lowercase(b@)),
{
    let la = chars_of(to_lowercase(a.as_str()).as_str());
    let lb = chars_of(to_lowercase(b.as_str()).as_str());
    str_lt(&la, &lb)
}

/// The listings of the paths that can be listed, sorted by lowercased file name (stably).
pub(crate) fn sorted_by_name(paths: &Vec<String>) -> (r: Vec<CollectionWallpaper>)
    ensures
        wallpaper_views(r@) == sort_by_name(items_of(texts(paths@))),
{
    let ghost ps = texts(paths@);
    let mut out: Vec<CollectionWallpaper> = Vec::new();
    let mut i: usize = 0;
    assert(ps.take(0).len() == 0);
    assert(wallpaper_views(out@) =~= sort_by_name(items_of(ps.take(0))));
    while i < paths.len()
        invariant
            ps == texts(paths@),
            0 <= i <= paths@.len(),
            wallpaper_views(out@) == sort_by_name(items_of(ps.take(i as int))),
        decreases paths.len() - i,
    {
        assert(ps.take(i + 1).drop_last() == ps.take(i as int));
        assert(ps.take(i + 1).last() == paths@[i as int]@);
        let ghost before = items_of(ps.take(i as int));
        match wallpaper_item(paths[i].as_str(), None) {
            Some(w) => {
                let ghost ov = wallpaper_views(out@);
                let ghost xv = wallpaper_view(w);
                assert(items_of(ps.take(i + 1)) == before.push(xv));
                assert(before.push(xv).drop_last() == before);
                let mut p: usize = 0;
                assert(ov.skip(0) == ov);
                while p < out.len() && !name_less(&w.name, &out[p].name)
                    invariant
                        ov == wallpaper_views(out@),
                        xv == wallpaper_view(w),
                        0 <= p <= out@.len(),
                        name_upper_bound(ov, xv) == p + name_upper_bound(ov.skip(p as int), xv),
                    decreases out.len() - p,
                {
                    assert(ov.skip(p as int).drop_first() == ov.skip(p + 1));
                    assert(ov.skip(p as int)[0] == ov[p as int]);
                    p += 1;
                }
                if p < out.len() {
                    assert(ov.skip(p as int)[0] == ov[p as int]);
                }
                out.insert(p, w);
                assert(wallpaper_views(out@) =~= ov.insert(p as int, xv));
            },
            None => {
                assert(items_of(ps.take(i + 1)) =~= before);
            },
        }
        i += 1;
    }
    assert(ps.take(ps.len() as int) == ps);
    out
}

pub(crate) fn sorted_listing(paths: &Vec<String>) -> (r: Vec<CollectionWallpaper>)
    ensures
        wallpaper_views(r@) == dedup_paths(sort_by_name(items_of(texts(paths@)))),
{
    let out = sorted_by_name(paths);
    let ghost sorted = wallpaper_views(out@);
    let mut deduped: Vec<CollectionWallpaper> = Vec::new();
    let mut j: usize = 0;
    assert(sorted.take(0).len() == 0);
    assert(wallpaper_views(deduped@) =~= dedup_paths(sorted.take(0)));
    while j < out.len()
        invariant
            sorted == wallpaper_views(out@),
            0 <= j <= out@.len(),
            wallpaper_views(deduped@) == dedup_paths(sorted.take(j as int)),
        decreases out.len() - j,
    {
        assert(sorted.take(j + 1).drop_last() == sorted.take(j as int));
        assert(sorted.take(j + 1).last() == sorted[j as int]);
        let ghost d = wallpaper_views(deduped@);
        let keep = if deduped.len() > 0 {
            !str_eq(deduped[deduped.len() - 1].path.as_str(), out[j].path.as_str())
        } else {
            true
        };
        if keep {
            let w = CollectionWallpaper {
                path: out[j].path.clone(),
                name: out[j].name.clone(),
                kind: out[j].kind,
            };
            deduped.push(w);
            assert(wallpaper_views(deduped@) =~= d.push(sorted[j as int]));
        }
        j += 1;
    }
    assert(sorted.take(sorted.len() as int) == sorted);
    deduped
}

/// The texts of an optional string.
pub open spec fn opt_view(s: Option<String>) -> Option<Seq<char>> {
    match s {
        Some(x) => Some(x@),
        None => None,
    }
}

/// The candidate wallpapers of a collection: its source folder's, then its items'.
pub open spec fn all_candidates(c: NamedCollection, disk: CollectionDisk) -> Seq<Seq<char>> {
    (match c.source_folder {
        Some(_) => candidates(disk.folder.unwrap().entries@),
        None => Seq::<Seq<char>>::empty(),
    }) + item_candidates(texts(c.items@), texts(disk.files@))
}

/// Listing a collection fails: its source folder is not a directory.
pub open spec fn listing_fails(c: NamedCollection, disk: CollectionDisk) -> bool {
    c.source_folder is Some && !disk.folder.unwrap().is_dir
}

pub open spec fn folder_error(c: NamedCollection) -> Seq<char> {
    "collection source is not a folder: "@ + c.source_folder.unwrap()@
}

/// `s` summarises collection `c` under `id`: its id, shown name, source folder, and the number
/// of its distinct wallpapers.
pub open spec fn summary_of(s: CollectionSummary, id: Seq<char>, c: NamedCollection, disk: CollectionDisk) -> bool {
    &&& s.id@ == id
    &&& s.name@ == display_name_spec(c, id)
    &&& opt_view(s.source_folder) == opt_view(c.source_folder)
    &&& exists|v: Seq<Seq<char>>| sorted_unique_paths(v, all_candidates(c, disk)) && s.count == v.len()
}

/// `d` details collection `c` under `id`: its id, shown name, source folder, and its distinct
/// wallpapers listed by lowercased file name.
pub open spec fn detail_of(d: CollectionDetail, id: Seq<char>, c: NamedCollection, disk: CollectionDisk) -> bool {
    &&& d.id@ == id
    &&& d.name@ == display_name_spec(c, id)
    &&& opt_view(d.source_folder) == opt_view(c.source_folder)
    &&& d.count == d.items@.len()
    &&& exists|v: Seq<Seq<char>>|
        sorted_unique_paths(v, all_candidates(c, disk)) && wallpaper_views(d.items@) == dedup_paths(
            sort_by_name(items_of(v)),
        )
}

/// Summarising or detailing `c` gives the folder error when listing fails, else `ok`.
pub open spec fn listed<T>(r: Result<T, String>, c: NamedCollection, disk: CollectionDisk, ok: spec_fn(T) -> bool) -> bool {
    if listing_fails(c, disk) {
        r matches Err(m) && m@ == folder_error(c)
    } else {
        r matches Ok(x) && ok(x)
    }
}

fn copy_opt(s: &Option<String>) -> (r: Option<String>)
    ensures
        opt_view(r) == opt_view(*s),
{
    match s {
        Some(x) => Some(x.clone()),
        None => None,
    }
}

impl NamedCollection {
    pub fn summary(&self, id: &str, disk: &CollectionDisk) -> (r: Result<CollectionSummary, String>)
        requires
            disk_fits(*self, *disk),
        ensures
            listed(r, *self, *disk, |s: CollectionSummary| summary_of(s, id@, *self, *disk)),
    {
        let paths = match self.wallpaper_paths(disk) {
            Ok(p) => p,
            Err(e) => {
                return Err(e);
            },
        };
        let s = CollectionSummary {
            id: owned(id),
            name: self.display_name(id),
            count: paths.len(),
            source_folder: copy_opt(&self.source_folder),
        };
        assert(sorted_unique_paths(texts(paths@), all_candidates(*self, *disk)));
        assert(texts(paths@).len() == s.count);
        assert(summary_of(s, id@, *self, *disk));
        Ok(s)
    }

    pub fn detail(&self, id: &str, disk: &CollectionDisk) -> (r: Result<CollectionDetail, String>)
        requires
            disk_fits(*self, *disk),
        ensures
            listed(r, *self, *disk, |d: CollectionDetail| detail_of(d, id@, *self, *disk)),
    {
        let paths = match self.wallpaper_paths(disk) {
            Ok(p) => p,
            Err(e) => {
                return Err(e);
            },
        };
        let items = sorted_listing(&paths);
        let d = CollectionDetail {
            id: owned(id),
            name: self.display_name(id),
            count: items.len(),
            source_folder: copy_opt(&self.source_folder),
            items,
        };
        assert(sorted_unique_paths(texts(paths@), all_candidates(*self, *disk)));
        assert(detail_of(d, id@, *self, *disk));
        Ok(d)
    }
}


// ---------------------------------------------------------------------------
// The registry
// ---------------------------------------------------------------------------

/// `collection not found: <id>`.
pub open spec fn not_found(id: Seq<char>) -> Seq<char> {
    "collection not found: "@ + id
}

/// The first collection, in id order, whose listing fails; the number of collections when none.
pub open spec fn first_listing_failure(cs: Seq<NamedCollection>, disks: Seq<CollectionDisk>, n: int) -> int
    decreases n,
{
    if n <= 0 {
        0
    } else if first_listing_failure(cs, disks, n - 1) < n - 1 {
        first_listing_failure(cs, disks, n - 1)
    } else if listing_fails(cs[n - 1], disks[n - 1]) {
        n - 1
    } else {
        n
    }
}

proof fn lemma_listing_failure_sticks(cs: Seq<NamedCollection>, disks: Seq<CollectionDisk>, i: int, n: int)
    requires
        0 <= i < n,
        first_listing_failure(cs, disks, i + 1) == i,
    ensures
        first_listing_failure(cs, disks, n) == i,
    decreases n,
{
    if n > i + 1 {
        lemma_listing_failure_sticks(cs, disks, i, n - 1);
    }
}

/// A path handed in to be added: where it resolved to (or why it could not be resolved), and
/// whether that is a regular file.
#[derive(Debug)]
pub struct ResolvedItem {
    pub resolved: Result<String, String>,
    pub is_file: bool,
}

/// The path an added item contributes, or why it is refused.
pub open spec fn item_check(ri: ResolvedItem) -> Result<Seq<char>, Seq<char>> {
    match ri.resolved {
        Err(e) => Err(e@),
        Ok(p) => if !ri.is_file {
            Err("collection item is not a file: "@ + p@)
        } else if path_kind(p@) is None {
            Err("unsupported wallpaper type: "@ + p@)
        } else {
            Ok(p@)
        },
    }
}

/// The first refused item among the first `n`; `n` when none is.
pub open spec fn first_refused(rs: Seq<ResolvedItem>, n: int) -> int
    decreases n,
{
    if n <= 0 {
        0
    } else if first_refused(rs, n - 1) < n - 1 {
        first_refused(rs, n - 1)
    } else if item_check(rs[n - 1]) is Err {
        n - 1
    } else {
        n
    }
}

proof fn lemma_refusal_sticks(rs: Seq<ResolvedItem>, i: int, n: int)
    requires
        0 <= i < n,
        first_refused(rs, i + 1) == i,
    ensures
        first_refused(rs, n) == i,
    decreases n,
{
    if n > i + 1 {
        lemma_refusal_sticks(rs, i, n - 1);
    }
}

/// The paths of the first `n` items (all accepted).
pub open spec fn accepted(rs: Seq<ResolvedItem>, n: int) -> Seq<Seq<char>>
    decreases n,
{
    if n <= 0 {
        seq![]
    } else {
        accepted(rs, n - 1).push(
            match item_check(rs[n - 1]) {
                Ok(p) => p,
                Err(_) => seq![],
            },
        )
    }
}

/// The items with each new path appended unless an equal path is already there.
pub open spec fn add_paths(items: Seq<Seq<char>>, news: Seq<Seq<char>>) -> Seq<Seq<char>>
    decreases news.len(),
{
    if news.len() == 0 {
        items
    } else {
        let a = add_paths(items, news.drop_last());
        if exists|j: int| 0 <= j < a.len() && path_eq(#[trigger] a[j], news.last()) {
            a
        } else {
            a.push(news.last())
        }
    }
}

/// How many leading paths of `v` do not sort after `x`.
pub open spec fn path_upper_bound(v: Seq<Seq<char>>, x: Seq<char>) -> int
    decreases v.len(),
{
    if v.len() == 0 {
        0
    } else if path_lt(x, v[0]) {
        0
    } else {
        1 + path_upper_bound(v.drop_first(), x)
    }
}

/// The paths sorted, equal paths kept in their order (a stable sort).
pub open spec fn sort_paths(s: Seq<Seq<char>>) -> Seq<Seq<char>>
    decreases s.len(),
{
    if s.len() == 0 {
        s
    } else {
        let v = sort_paths(s.drop_last());
        v.insert(path_upper_bound(v, s.last()), s.last())
    }
}

/// The items other than `p`.
pub open spec fn without_path(items: Seq<Seq<char>>, p: Seq<char>) -> Seq<Seq<char>>
    decreases items.len(),
{
    if items.len() == 0 {
        items
    } else {
        without_path(items.drop_last(), p) + if path_eq(items.last(), p) {
            seq![]
        } else {
            seq![items.last()]
        }
    }
}

/// `n` is `c` with its items replaced by `items`.
pub open spec fn with_items(n: NamedCollection, c: NamedCollection, items: Seq<Seq<char>>) -> bool {
    n.name == c.name && opt_view(n.source_folder) == opt_view(c.source_folder) && texts(n.items@) == items
}

/// The registry's other collections are left as they were.
pub open spec fn others_kept(a: StrMap<NamedCollection>, b: StrMap<NamedCollection>, id: Seq<char>) -> bool {
    forall|q: Seq<char>| #![trigger b.lookup(q)] q != id ==> b.has(q) == a.has(q) && b.lookup(q) == a.lookup(q)
}

/// The id a new collection takes: the requested one (validated), else its name's slug.
pub open spec fn new_id(name: Seq<char>, requested: Option<Seq<char>>) -> Result<Seq<char>, Seq<char>> {
    match requested {
        Some(x) => validate_id_spec(x),
        None => Ok(slug(name)),
    }
}

fn any_path_eq(v: &Vec<String>, x: &str) -> (r: bool)
    ensures
        r == exists|j: int| 0 <= j < texts(v@).len() && path_eq(#[trigger] texts(v@)[j], x@),
{
    let mut i: usize = 0;
    while i < v.len()
        invariant
            0 <= i <= v@.len(),
            forall|k: int| 0 <= k < i ==> !path_eq(#[trigger] texts(v@)[k], x@),
        decreases v.len() - i,
    {
        if paths_equal(v[i].as_str(), x) {
            assert(texts(v@)[i as int] == v@[i as int]@);
            return true;
        }
        assert(texts(v@)[i as int] == v@[i as int]@);
        i += 1;
    }
    false
}

fn sort_path_list(items: Vec<String>) -> (r: Vec<String>)
    ensures
        texts(r@) == sort_paths(texts(items@)),
{
    let ghost s = texts(items@);
    let mut out: Vec<String> = Vec::new();
    let mut i: usize = 0;
    assert(s.take(0).len() == 0);
    assert(texts(out@) =~= sort_paths(s.take(0)));
    while i < items.len()
        invariant
            s == texts(items@),
            0 <= i <= items@.len(),
            texts(out@) == sort_paths(s.take(i as int)),
        decreases items.len() - i,
    {
        assert(s.take(i + 1).drop_last() == s.take(i as int));
        assert(s.take(i + 1).last() == items@[i as int]@);
        let x = items[i].clone();
        let ghost ov = texts(out@);
        let ghost xv = x@;
        let mut p: usize = 0;
        assert(ov.skip(0) == ov);
        while p < out.len() && !path_less(x.as_str(), out[p].as_str())
            invariant
                ov == texts(out@),
                xv == x@,
                0 <= p <= out@.len(),
                path_upper_bound(ov, xv) == p + path_upper_bound(ov.skip(p as int), xv),
            decreases out.len() - p,
        {
            assert(ov.skip(p as int).drop_first() == ov.skip(p + 1));
            assert(ov.skip(p as int)[0] == ov[p as int]);
            p += 1;
        }
        if p < out.len() {
            assert(ov.skip(p as int)[0] == ov[p as int]);
        }
        out.insert(p, x);
        assert(texts(out@) =~= ov.insert(p as int, xv));
        i += 1;
    }
    assert(s.take(s.len() as int) == s);
    out
}

fn copy_collection(c: &NamedCollection, items: Vec<String>) -> (n: NamedCollection)
    ensures
        with_items(n, *c, texts(items@)),
{
    NamedCollection { name: c.name.clone(), source_folder: copy_opt(&c.source_folder), items }
}

impl CollectionRegistry {
    /// A summary of every collection, in id order; the first failing listing's error.
    pub fn list(&self, disks: &[CollectionDisk]) -> (r: Result<Vec<CollectionSummary>, String>)
        requires
            self.collections.wf(),
            disks@.len() == self.collections.key_seq().len(),
            forall|i: int| 0 <= i < disks@.len() ==> disk_fits(self.collections.val_seq()[i], #[trigger] disks@[i]),
        ensures
            ({
                let cs = self.collections.val_seq();
                let n = disks@.len() as int;
                let f = first_listing_failure(cs, disks@, n);
                if f < n {
                    r matches Err(m) && m@ == folder_error(cs[f])
                } else {
                    r matches Ok(v) && v@.len() == n && forall|i: int|
                        0 <= i < n ==> summary_of(#[trigger] v@[i], self.collections.key_seq()[i], cs[i], disks@[i])
                }
            }),
    {
        proof {
            self.collections.lemma_len();
        }
        let ghost cs = self.collections.val_seq();
        let mut out: Vec<CollectionSummary> = Vec::new();
        let mut i: usize = 0;
        while i < disks.len()
            invariant
                self.collections.wf(),
                cs == self.collections.val_seq(),
                cs.len() == disks@.len(),
                disks@.len() == self.collections.key_seq().len(),
                forall|k: int| 0 <= k < disks@.len() ==> disk_fits(cs[k], #[trigger] disks@[k]),
                0 <= i <= disks@.len(),
                first_listing_failure(cs, disks@, i as int) == i,
                out@.len() == i,
                forall|k: int|
                    0 <= k < i ==> summary_of(#[trigger] out@[k], self.collections.key_seq()[k], cs[k], disks@[k]),
            decreases disks.len() - i,
        {
            let c = self.collections.value_at(i);
            let id = self.collections.key_at(i);
            match c.summary(id.as_str(), &disks[i]) {
                Ok(sm) => {
                    out.push(sm);
                },
                Err(e) => {
                    proof {
                        assert(first_listing_failure(cs, disks@, i + 1) == i);
                        lemma_listing_failure_sticks(cs, disks@, i as int, disks@.len() as int);
                    }
                    return Err(e);
                },
            }
            i += 1;
        }
        Ok(out)
    }

    /// The detail of one collection.
    pub fn detail(&self, id: &str, disk: &CollectionDisk) -> (r: Result<CollectionDetail, String>)
        requires
            self.collections.wf(),
            self.collections.lookup(id@) matches Some(c) ==> disk_fits(c, *disk),
        ensures
            match self.collections.lookup(id@) {
                None => r matches Err(m) && m@ == not_found(id@),
                Some(c) => listed(r, c, *disk, |d: CollectionDetail| detail_of(d, id@, c, *disk)),
            },
    {
        match self.collections.get(id) {
            Some(c) => c.detail(id, disk),
            None => Err(cat("collection not found: ", id)),
        }
    }

    /// Adds a collection named `name` (trimmed), under the requested id or its name's slug,
    /// with `source` (the resolved source folder, or why it could not be resolved).
    pub fn create(
        &mut self,
        name: &str,
        requested_id: Option<&str>,
        source: Option<Result<String, String>>,
        disk: &CollectionDisk,
    ) -> (r: Result<CollectionSummary, String>)
        requires
            old(self).collections.wf(),
            source matches Some(Ok(_)) ==> disk.folder is Some,
        ensures
            final(self).collections.wf(),
            match new_id(
                name@,
                match requested_id {
                    Some(x) => Some(x@),
                    None => None,
                },
            ) {
                Err(m) => r matches Err(e) && e@ == m && final(self).collections == old(self).collections,
                Ok(id) => if id.len() == 0 {
                    r matches Err(e) && e@ == "collection name must contain at least one letter or number"@
                        && final(self).collections == old(self).collections
                } else if old(self).collections.has(id) {
                    r matches Err(e) && e@ == "collection already exists: "@ + id && final(self).collections == old(self).collections
                } else {
                    match source {
                        Some(Err(e)) => r matches Err(m) && m@ == e@ && final(self).collections == old(self).collections,
                        _ => {
                            &&& others_kept(old(self).collections, final(self).collections, id)
                            &&& final(self).collections.lookup(id) matches Some(c) && c.name@ == trim(name@)
                                && opt_view(c.source_folder) == match source {
                                Some(Ok(f)) => Some(f@),
                                _ => None,
                            } && c.items@.len() == 0 && listed(
                                r,
                                c,
                                *disk,
                                |s: CollectionSummary| summary_of(s, id, c, *disk),
                            )
                        },
                    }
                },
            },
    {
        let id = match requested_id {
            Some(x) => match validate_id(x) {
                Ok(v) => v,
                Err(e) => {
                    return Err(e);
                },
            },
            None => slugify(name),
        };
        if chars_of(id.as_str()).len() == 0 {
            return Err(owned("collection name must contain at least one letter or number"));
        }
        if self.collections.contains_key(id.as_str()) {
            return Err(cat("collection already exists: ", id.as_str()));
        }
        let source_folder = match source {
            Some(Ok(f)) => Some(f),
            Some(Err(e)) => {
                return Err(e);
            },
            None => None,
        };
        let c = NamedCollection { name: trim_str(name), source_folder, items: Vec::new() };
        let r = c.summary(id.as_str(), disk);
        self.collections.insert(id, c);
        r
    }

    /// Removes a collection, answering with its summary.
    pub fn delete(&mut self, id: &str, disk: &CollectionDisk) -> (r: Result<CollectionSummary, String>)
        requires
            old(self).collections.wf(),
            old(self).collections.lookup(id@) matches Some(c) ==> disk_fits(c, *disk),
        ensures
            final(self).collections.wf(),
            match old(self).collections.lookup(id@) {
                None => r matches Err(m) && m@ == not_found(id@) && final(self).collections
                    == old(self).collections,
                Some(c) => !final(self).collections.has(id@) && others_kept(
                    old(self).collections,
                    final(self).collections,
                    id@,
                ) && listed(r, c, *disk, |s: CollectionSummary| summary_of(s, id@, c, *disk)),
            },
    {
        if !self.collections.contains_key(id) {
            proof {
                assert(self.collections.lookup(id@) is None);
            }
            return Err(cat("collection not found: ", id));
        }
        match self.collections.remove(id) {
            Some(c) => c.summary(id, disk),
            None => Err(cat("collection not found: ", id)),
        }
    }

    /// Adds wallpapers to a collection, each path once (as a path), then sorts its items; the
    /// first refused item ends it with its error, the items accepted before it kept.
    pub fn add_items(&mut self, id: &str, resolved: &[ResolvedItem], disk: &CollectionDisk) -> (r: Result<
        CollectionDetail,
        String,
    >)
        requires
            old(self).collections.wf(),
            old(self).collections.lookup(id@) matches Some(c) ==> disk_fits(c, *disk),
        ensures
            final(self).collections.wf(),
            match old(self).collections.lookup(id@) {
                None => r matches Err(m) && m@ == not_found(id@) && final(self).collections
                    == old(self).collections,
                Some(c) => {
                    let n = resolved@.len() as int;
                    let f = first_refused(resolved@, n);
                    &&& others_kept(old(self).collections, final(self).collections, id@)
                    &&& if f < n {
                        &&& r matches Err(m) && item_check(resolved@[f]) matches Err(e) && m@ == e
                        &&& final(self).collections.lookup(id@) matches Some(nc) && with_items(
                            nc,
                            c,
                            add_paths(texts(c.items@), accepted(resolved@, f)),
                        )
                    } else {
                        final(self).collections.lookup(id@) matches Some(nc) && with_items(
                            nc,
                            c,
                            sort_paths(add_paths(texts(c.items@), accepted(resolved@, n))),
                        ) && listed(r, nc, *disk, |d: CollectionDetail| detail_of(d, id@, nc, *disk))
                    }
                },
            },
    {
        let pos = match self.collections.find(id) {
            Ok(p) => p,
            Err(_) => {
                return Err(cat("collection not found: ", id));
            },
        };
        proof {
            self.collections.lemma_lookup_at(pos as int);
        }
        proof {
            self.collections.lemma_len();
        }
        let ghost c = self.collections.val_seq()[pos as int];
        let mut items = copy_strings(self.collections.value_at(pos).items.as_slice());
        let ghost base = texts(c.items@);
        let mut i: usize = 0;
        while i < resolved.len()
            invariant
                self.collections.wf(),
                self.collections == old(self).collections,
                pos < self.collections.key_seq().len(),
                self.collections.val_seq().len() == self.collections.key_seq().len(),
                self.collections.val_seq()[pos as int] == c,
                self.collections.key_seq()[pos as int] == id@,
                old(self).collections.lookup(id@) == Some(c),
                base == texts(c.items@),
                0 <= i <= resolved@.len(),
                first_refused(resolved@, i as int) == i,
                texts(items@) == add_paths(base, accepted(resolved@, i as int)),
            decreases resolved.len() - i,
        {
            let ri = &resolved[i];
            let checked: Result<String, String> = match &ri.resolved {
                Err(e) => Err(e.clone()),
                Ok(p) => if !ri.is_file {
                    Err(cat("collection item is not a file: ", p.as_str()))
                } else if !has_supported_extension(p.as_str()) {
                    Err(cat("unsupported wallpaper type: ", p.as_str()))
                } else {
                    Ok(p.clone())
                },
            };
            match checked {
                Err(e) => {
                    let nc = copy_collection(self.collections.value_at(pos), items);
                    self.collections.set_value_at(pos, nc);
                    proof {
                        assert(first_refused(resolved@, i + 1) == i);
                        lemma_refusal_sticks(resolved@, i as int, resolved@.len() as int);
                    }
                    return Err(e);
                },
                Ok(p) => {
                    let ghost a = texts(items@);
                    assert(accepted(resolved@, i + 1).drop_last() == accepted(resolved@, i as int));
                    assert(accepted(resolved@, i + 1).last() == p@);
                    if !any_path_eq(&items, p.as_str()) {
                        items.push(p);
                        assert(texts(items@) =~= a.push(accepted(resolved@, i + 1).last()));
                    }
                },
            }
            i += 1;
        }
        let sorted = sort_path_list(items);
        let nc = copy_collection(self.collections.value_at(pos), sorted);
        let r = nc.detail(id, disk);
        self.collections.set_value_at(pos, nc);
        r
    }

    /// Drops a wallpaper (compared as a path) from a collection's items; the file is left alone.
    pub fn remove_item(&mut self, id: &str, path: &str, disk: &CollectionDisk) -> (r: Result<
        CollectionDetail,
        String,
    >)
        requires
            old(self).collections.wf(),
            old(self).collections.lookup(id@) matches Some(c) ==> disk_fits(c, *disk),
        ensures
            final(self).collections.wf(),
            match old(self).collections.lookup(id@) {
                None => r matches Err(m) && m@ == not_found(id@) && final(self).collections
                    == old(self).collections,
                Some(c) => others_kept(old(self).collections, final(self).collections, id@) && (final(self).collections.lookup(id@) matches Some(nc) && with_items(
                    nc,
                    c,
                    without_path(texts(c.items@), path@),
                ) && listed(r, nc, *disk, |d: CollectionDetail| detail_of(d, id@, nc, *disk))),
            },
    {
        let pos = match self.collections.find(id) {
            Ok(p) => p,
            Err(_) => {
                return Err(cat("collection not found: ", id));
            },
        };
        proof {
            self.collections.lemma_lookup_at(pos as int);
        }
        let ghost s = texts(self.collections.val_seq()[pos as int].items@);
        let mut kept: Vec<String> = Vec::new();
        let mut i: usize = 0;
        assert(s.take(0).len() == 0);
        assert(texts(kept@) =~= without_path(s.take(0), path@));
        while i < self.collections.value_at(pos).items.len()
            invariant
                self.collections.wf(),
                pos < self.collections.key_seq().len(),
                s == texts(self.collections.val_seq()[pos as int].items@),
                0 <= i <= s.len(),
                texts(kept@) == without_path(s.take(i as int), path@),
            decreases s.len() - i,
        {
            let item = &self.collections.value_at(pos).items[i];
            assert(s.take(i + 1).drop_last() == s.take(i as int));
            assert(s.take(i + 1).last() == item@);
            let ghost before = texts(kept@);
            if !paths_equal(item.as_str(), path) {
                kept.push(item.clone());
                assert(texts(kept@) =~= before + seq![item@]);
            } else {
                assert(texts(kept@) =~= before + Seq::<Seq<char>>::empty());
            }
            i += 1;
        }
        assert(s.take(s.len() as int) == s);
        let nc = copy_collection(self.collections.value_at(pos), kept);
        let r = nc.detail(id, disk);
        self.collections.set_value_at(pos, nc);
        r
    }
}


/// Removing `p` from a collection's items keeps exactly the items that are not `p` (as paths),
/// in their order: the result is the items filtered by that test, so every other item stays and
/// the count drops only by the entries that are `p`.
pub proof fn lemma_remove_keeps_exactly_others(items: Seq<Seq<char>>, p: Seq<char>)
    ensures
        without_path(items, p) == items.filter(|x: Seq<char>| !path_eq(x, p)),
        forall|k: int| 0 <= k < without_path(items, p).len() ==> !path_eq(#[trigger] without_path(items, p)[k], p),
        forall|k: int|
            0 <= k < items.len() && !path_eq(items[k], p) ==> #[trigger] without_path(items, p).contains(items[k]),
        without_path(items, p).len() <= items.len(),
    decreases items.len(),
{
    reveal(Seq::filter);
    let f = |x: Seq<char>| !path_eq(x, p);
    if items.len() > 0 {
        lemma_remove_keeps_exactly_others(items.drop_last(), p);
        assert(without_path(items, p) =~= items.filter(f));
        let r = without_path(items, p);
        let q = without_path(items.drop_last(), p);
        assert forall|k: int| 0 <= k < items.len() && !path_eq(items[k], p) implies #[trigger] r.contains(items[k]) by {
            if k < items.len() - 1 {
                assert(items[k] == items.drop_last()[k]);
                assert(q.contains(items.drop_last()[k]));
                let j = choose|j: int| 0 <= j < q.len() && q[j] == items.drop_last()[k];
                assert(r[j] == q[j]);
            } else {
                assert(r[r.len() - 1] == items.last());
            }
        }
    }
}

} // verus!
