//! Preview images for the picker: where they are cached, which to make first, and the
//! `ffmpeg` command that makes one.
use vstd::prelude::*;
use crate::command::CommandSpec;
use crate::media::MediaKind;
use crate::path::{join, path_join};
use crate::shell::model::WallpaperItem;
use crate::text::{texts, cat, cat3, owned, decimal, decimal_string};

verus! {

#[derive(Debug, Clone, Copy, PartialEq, Eq, Structural)]
pub struct PreviewProfile {
    pub static_width: u32,
    pub animated_width: u32,
    pub animated_fps: u32,
    pub animated_duration_secs: u32,
}

impl Default for PreviewProfile {
    fn default() -> (r: Self)
        ensures
            r == (PreviewProfile {
                static_width: 480,
                animated_width: 480,
                animated_fps: 10,
                animated_duration_secs: 3,
            }),
    {
        PreviewProfile { static_width: 480, animated_width: 480, animated_fps: 10, animated_duration_secs: 3 }
    }
}

#[derive(Debug, Clone, Copy, PartialEq, Eq, Structural)]
pub enum PreviewKind {
    Poster,
    Animated,
}

#[derive(Debug)]
pub struct PreviewJob {
    pub source: String,
    pub output: String,
    pub kind: PreviewKind,
    pub profile: PreviewProfile,
}

/// The preview cache folder: `jobowalls/gui-thumbnails` under the cache folder, else under
/// `~/.cache`, else under `./.cache`.
pub open spec fn cache_dir_spec(cache: Option<Seq<char>>, home: Option<Seq<char>>) -> Seq<char> {
    let base = match cache {
        Some(c) => c,
        None => join(
            match home {
                Some(h) => h,
                None => "."@,
            },
            ".cache"@,
        ),
    };
    join(join(base, "jobowalls"@), "gui-thumbnails"@)
}

pub fn cache_dir_from(cache: Option<&str>, home: Option<&str>) -> (r: String)
    ensures
        r@ == cache_dir_spec(
            match cache {
                Some(c) => Some(c@),
                None => None,
            },
            match home {
                Some(h) => Some(h@),
                None => None,
            },
        ),
{
    let base = match cache {
        Some(c) => owned(c),
        None => match home {
            Some(h) => path_join(h, ".cache"),
            None => path_join(".", ".cache"),
        },
    };
    let a = path_join(base.as_str(), "jobowalls");
    path_join(a.as_str(), "gui-thumbnails")
}

/// The cached poster of a wallpaper whose cache key is `key`.
pub open spec fn poster_path_spec(cache_dir: Seq<char>, key: Seq<char>) -> Seq<char> {
    join(cache_dir, key + "-shell-poster-v1.jpg"@)
}

/// The cached animation of a live wallpaper whose cache key is `key`.
pub open spec fn animated_path_spec(cache_dir: Seq<char>, key: Seq<char>) -> Seq<char> {
    join(cache_dir, key + "-shell-selected-live-v1.webp"@)
}

pub fn poster_path(cache_dir: &str, key: &str) -> (r: String)
    ensures
        r@ == poster_path_spec(cache_dir@, key@),
{
    let name = cat(key, "-shell-poster-v1.jpg");
    path_join(cache_dir, name.as_str())
}

pub fn animated_path(cache_dir: &str, key: &str) -> (r: String)
    ensures
        r@ == animated_path_spec(cache_dir@, key@),
{
    let name = cat(key, "-shell-selected-live-v1.webp");
    path_join(cache_dir, name.as_str())
}

/// A wallpaper's poster and its animation never share a cache file: for one cache folder and
/// one key the two paths differ (they end in `.jpg` and `.webp`).
pub proof fn lemma_poster_and_animation_differ(cache_dir: Seq<char>, key: Seq<char>)
    ensures
        poster_path_spec(cache_dir, key) != animated_path_spec(cache_dir, key),
{
    reveal_strlit("-shell-poster-v1.jpg");
    reveal_strlit("-shell-selected-live-v1.webp");
    let p = key + "-shell-poster-v1.jpg"@;
    let a = key + "-shell-selected-live-v1.webp"@;
    assert(p.last() == 'g');
    assert(a.last() == 'p');
    assert(poster_path_spec(cache_dir, key).last() == 'g');
    assert(animated_path_spec(cache_dir, key).last() == 'p');
}

/// The positions around `sel` out to distance `k`, nearest first, before each after, each once.
pub open spec fn nearby_upto(len: int, sel: int, k: int) -> Seq<int>
    decreases k,
{
    if k <= 0 {
        seq![]
    } else {
        let prev = nearby_upto(len, sel, k - 1);
        let a = (sel + len - k) % len;
        let b = (sel + k) % len;
        let p1 = if prev.contains(a) {
            prev
        } else {
            prev.push(a)
        };
        if p1.contains(b) {
            p1
        } else {
            p1.push(b)
        }
    }
}

/// The positions around the selected one (taken modulo `len`) out to `radius`, wrapping
/// around; none for fewer than two wallpapers.
pub open spec fn nearby_spec(len: int, selected: int, radius: int) -> Seq<int> {
    if len < 2 || radius == 0 {
        seq![]
    } else {
        nearby_upto(len, selected % len, if radius < len - 1 {
            radius
        } else {
            len - 1
        })
    }
}

fn contains_usize(v: &Vec<usize>, x: usize) -> (r: bool)
    ensures
        r == v@.map_values(|i: usize| i as int).contains(x as int),
{
    let ghost w = v@.map_values(|i: usize| i as int);
    let mut i: usize = 0;
    while i < v.len()
        invariant
            w == v@.map_values(|i: usize| i as int),
            0 <= i <= v@.len(),
            forall|k: int| 0 <= k < i ==> v@[k] != x,
        decreases v.len() - i,
    {
        if v[i] == x {
            assert(w[i as int] == x as int);
            return true;
        }
        i += 1;
    }
    assert forall|k: int| 0 <= k < w.len() implies w[k] != x as int by {
        assert(w[k] == v@[k] as int);
    }
    false
}

pub fn nearby_indexes(len: usize, selected: usize, radius: usize) -> (r: Vec<usize>)
    ensures
        r@.map_values(|i: usize| i as int) == nearby_spec(len as int, selected as int, radius as int),
{
    let mut out: Vec<usize> = Vec::new();
    if len < 2 || radius == 0 {
        assert(out@.map_values(|i: usize| i as int) =~= Seq::<int>::empty());
        return out;
    }
    let sel = selected % len;
    let limit = if radius < len - 1 {
        radius
    } else {
        len - 1
    };
    let mut d: usize = 1;
    assert(out@.map_values(|i: usize| i as int) =~= nearby_upto(len as int, sel as int, 0));
    while d <= limit
        invariant
            2 <= len,
            sel < len,
            limit <= len - 1,
            1 <= d <= limit + 1,
            out@.map_values(|i: usize| i as int) == nearby_upto(len as int, sel as int, d - 1),
        decreases limit + 1 - d,
    {
        let a = if sel >= d {
            sel - d
        } else {
            sel + (len - d)
        };
        let b = if d < len - sel {
            sel + d
        } else {
            d - (len - sel)
        };
        assert(a as int == (sel + len - d) % (len as int)) by (nonlinear_arith)
            requires
                a == if sel >= d {
                    sel - d
                } else {
                    sel + (len - d)
                },
                sel < len,
                1 <= d <= len - 1,
        ;
        assert(b as int == (sel + d) % (len as int)) by (nonlinear_arith)
            requires
                b == if d < len - sel {
                    sel + d
                } else {
                    d - (len - sel)
                },
                sel < len,
                1 <= d <= len - 1,
        ;
        let ghost prev = out@.map_values(|i: usize| i as int);
        if !contains_usize(&out, a) {
            out.push(a);
            assert(out@.map_values(|i: usize| i as int) =~= prev.push(a as int));
        }
        let ghost p1 = out@.map_values(|i: usize| i as int);
        if !contains_usize(&out, b) {
            out.push(b);
            assert(out@.map_values(|i: usize| i as int) =~= p1.push(b as int));
        }
        d += 1;
    }
    out
}

/// A job as `(source, output, kind)`.
pub open spec fn job_view(j: PreviewJob) -> (Seq<char>, Seq<char>, PreviewKind) {
    (j.source@, j.output@, j.kind)
}

pub open spec fn poster_job(items: Seq<WallpaperItem>, keys: Seq<Seq<char>>, i: int, cache_dir: Seq<char>) -> (
    Seq<char>,
    Seq<char>,
    PreviewKind,
) {
    (items[i].path@, poster_path_spec(cache_dir, keys[i]), PreviewKind::Poster)
}

pub open spec fn animated_job(items: Seq<WallpaperItem>, keys: Seq<Seq<char>>, i: int, cache_dir: Seq<char>) -> (
    Seq<char>,
    Seq<char>,
    PreviewKind,
) {
    (items[i].path@, animated_path_spec(cache_dir, keys[i]), PreviewKind::Animated)
}

/// The animations of the live wallpapers among `idx`, in order.
pub open spec fn live_animations(
    items: Seq<WallpaperItem>,
    keys: Seq<Seq<char>>,
    idx: Seq<int>,
    cache_dir: Seq<char>,
) -> Seq<(Seq<char>, Seq<char>, PreviewKind)>
    decreases idx.len(),
{
    if idx.len() == 0 {
        seq![]
    } else {
        live_animations(items, keys, idx.drop_last(), cache_dir) + if items[idx.last()].kind
            == MediaKind::Live {
            seq![animated_job(items, keys, idx.last(), cache_dir)]
        } else {
            seq![]
        }
    }
}

/// The previews to make, most wanted first: the selected wallpaper's poster (and its animation
/// when animating a live one), the posters of the three wallpapers on each side, then (when
/// animating) the animations of the live ones among them.
pub open spec fn jobs_spec(
    items: Seq<WallpaperItem>,
    keys: Seq<Seq<char>>,
    selected: int,
    animate_live: bool,
    cache_dir: Seq<char>,
) -> Seq<(Seq<char>, Seq<char>, PreviewKind)> {
    if items.len() == 0 {
        seq![]
    } else {
        let sel = selected % (items.len() as int);
        let near = nearby_spec(items.len() as int, selected, 3);
        seq![poster_job(items, keys, sel, cache_dir)] + (if animate_live && items[sel].kind == MediaKind::Live {
            seq![animated_job(items, keys, sel, cache_dir)]
        } else {
            seq![]
        }) + near.map_values(|i: int| poster_job(items, keys, i, cache_dir)) + if animate_live {
            live_animations(items, keys, near, cache_dir)
        } else {
            seq![]
        }
    }
}

fn make_job(item: &WallpaperItem, key: &str, cache_dir: &str, kind: PreviewKind, profile: PreviewProfile) -> (r:
    PreviewJob)
    ensures
        r.source@ == item.path@,
        r.output@ == match kind {
            PreviewKind::Poster => poster_path_spec(cache_dir@, key@),
            PreviewKind::Animated => animated_path_spec(cache_dir@, key@),
        },
        r.kind == kind,
        r.profile == profile,
{
    let output = match kind {
        PreviewKind::Poster => poster_path(cache_dir, key),
        PreviewKind::Animated => animated_path(cache_dir, key),
    };
    PreviewJob { source: item.path.clone(), output, kind, profile }
}

/// The preview jobs around the selected wallpaper (`keys` holds each wallpaper's cache key),
/// all with `profile`.
pub fn prioritized_jobs(
    items: &[WallpaperItem],
    keys: &[String],
    selected: usize,
    profile: PreviewProfile,
    animate_live: bool,
    cache_dir: &str,
) -> (r: Vec<PreviewJob>)
    requires
        keys@.len() == items@.len(),
    ensures
        r@.map_values(|j: PreviewJob| job_view(j)) == jobs_spec(
            items@,
            texts(keys@),
            selected as int,
            animate_live,
            cache_dir@,
        ),
        forall|i: int| 0 <= i < r@.len() ==> (#[trigger] r@[i]).profile == profile,
{
    let mut jobs: Vec<PreviewJob> = Vec::new();
    let n = items.len();
    if n == 0 {
        assert(jobs@.map_values(|j: PreviewJob| job_view(j)) =~= Seq::<(Seq<char>, Seq<char>, PreviewKind)>::empty());
        return jobs;
    }
    let ghost ks = texts(keys@);
    let ghost cd = cache_dir@;
    let sel = selected % n;
    assert(ks[sel as int] == keys@[sel as int]@);
    jobs.push(make_job(&items[sel], keys[sel].as_str(), cache_dir, PreviewKind::Poster, profile));
    let ghost head = seq![poster_job(items@, ks, sel as int, cd)];
    assert(jobs@.map_values(|j: PreviewJob| job_view(j)) =~= head);
    let ghost second = if animate_live && items@[sel as int].kind == MediaKind::Live {
        seq![animated_job(items@, ks, sel as int, cd)]
    } else {
        seq![]
    };
    if animate_live && items[sel].is_live() {
        jobs.push(make_job(&items[sel], keys[sel].as_str(), cache_dir, PreviewKind::Animated, profile));
    }
    assert(jobs@.map_values(|j: PreviewJob| job_view(j)) =~= head + second);
    let near = nearby_indexes(n, selected, 3);
    let ghost nv = near@.map_values(|i: usize| i as int);
    proof {
        lemma_nearby_in_range(n as int, selected as int, 3);
    }
    let ghost base = head + second;
    let mut k: usize = 0;
    while k < near.len()
        invariant
            keys@.len() == items@.len(),
            n == items@.len(),
            ks == texts(keys@),
            cd == cache_dir@,
            nv == near@.map_values(|i: usize| i as int),
            nv == nearby_spec(n as int, selected as int, 3),
            forall|q: int| 0 <= q < nv.len() ==> 0 <= #[trigger] nv[q] < n,
            0 <= k <= near@.len(),
            jobs@.map_values(|j: PreviewJob| job_view(j)) == base + nv.take(k as int).map_values(
                |i: int| poster_job(items@, ks, i, cd),
            ),
            forall|i: int| 0 <= i < jobs@.len() ==> (#[trigger] jobs@[i]).profile == profile,
        decreases near.len() - k,
    {
        let idx = near[k];
        assert(nv[k as int] == idx as int);
        assert(ks[idx as int] == keys@[idx as int]@);
        let ghost before = jobs@.map_values(|j: PreviewJob| job_view(j));
        jobs.push(make_job(&items[idx], keys[idx].as_str(), cache_dir, PreviewKind::Poster, profile));
        assert(nv.take(k + 1) == nv.take(k as int).push(idx as int));
        assert(jobs@.map_values(|j: PreviewJob| job_view(j)) =~= before.push(
            poster_job(items@, ks, idx as int, cd),
        ));
        assert(base + nv.take(k + 1).map_values(|i: int| poster_job(items@, ks, i, cd)) =~= before.push(
            poster_job(items@, ks, idx as int, cd),
        ));
        k += 1;
    }
    assert(nv.take(nv.len() as int) == nv);
    let ghost mid = base + nv.map_values(|i: int| poster_job(items@, ks, i, cd));
    if animate_live {
        let mut m: usize = 0;
        assert(live_animations(items@, ks, nv.take(0), cd) =~= Seq::<(Seq<char>, Seq<char>, PreviewKind)>::empty()) by {
            assert(nv.take(0).len() == 0);
        }
        assert(mid + live_animations(items@, ks, nv.take(0), cd) =~= mid);
        while m < near.len()
            invariant
                keys@.len() == items@.len(),
                n == items@.len(),
                ks == texts(keys@),
                cd == cache_dir@,
                nv == near@.map_values(|i: usize| i as int),
                forall|q: int| 0 <= q < nv.len() ==> 0 <= #[trigger] nv[q] < n,
                0 <= m <= near@.len(),
                jobs@.map_values(|j: PreviewJob| job_view(j)) == mid + live_animations(
                    items@,
                    ks,
                    nv.take(m as int),
                    cd,
                ),
                forall|i: int| 0 <= i < jobs@.len() ==> (#[trigger] jobs@[i]).profile == profile,
            decreases near.len() - m,
        {
            let idx = near[m];
            assert(nv[m as int] == idx as int);
            assert(ks[idx as int] == keys@[idx as int]@);
            assert(nv.take(m + 1).drop_last() == nv.take(m as int));
            assert(nv.take(m + 1).last() == idx as int);
            let ghost before = jobs@.map_values(|j: PreviewJob| job_view(j));
            if items[idx].is_live() {
                jobs.push(make_job(&items[idx], keys[idx].as_str(), cache_dir, PreviewKind::Animated, profile));
                assert(jobs@.map_values(|j: PreviewJob| job_view(j)) =~= before.push(
                    animated_job(items@, ks, idx as int, cd),
                ));
            }
            m += 1;
        }
        assert(nv.take(nv.len() as int) == nv);
    } else {
        assert(mid + Seq::<(Seq<char>, Seq<char>, PreviewKind)>::empty() =~= mid);
    }
    jobs
}

/// Every position `nearby_spec` gives lies in the list.
pub proof fn lemma_nearby_in_range(len: int, selected: int, radius: int)
    requires
        len >= 0,
        selected >= 0,
        radius >= 0,
    ensures
        forall|q: int|
            0 <= q < nearby_spec(len, selected, radius).len() ==> 0 <= #[trigger] nearby_spec(
                len,
                selected,
                radius,
            )[q] < len,
{
    if len >= 2 && radius != 0 {
        let k = if radius < len - 1 {
            radius
        } else {
            len - 1
        };
        lemma_nearby_upto(len, selected % len, k);
    }
}

/// The positions around the selection are in the list, distinct, and never the selection.
pub proof fn lemma_nearby_upto(len: int, sel: int, k: int)
    requires
        len >= 2,
        0 <= sel < len,
        k <= len - 1,
    ensures
        forall|q: int| 0 <= q < nearby_upto(len, sel, k).len() ==> 0 <= #[trigger] nearby_upto(len, sel, k)[q] < len,
        forall|q: int| 0 <= q < nearby_upto(len, sel, k).len() ==> #[trigger] nearby_upto(len, sel, k)[q] != sel,
        forall|p: int, q: int|
            0 <= p < q < nearby_upto(len, sel, k).len() ==> #[trigger] nearby_upto(len, sel, k)[p]
                != #[trigger] nearby_upto(len, sel, k)[q],
    decreases k,
{
    if k > 0 {
        lemma_nearby_upto(len, sel, k - 1);
        let prev = nearby_upto(len, sel, k - 1);
        let a = (sel + len - k) % len;
        let b = (sel + k) % len;
        assert(0 <= a < len && a != sel) by (nonlinear_arith)
            requires
                a == (sel + len - k) % len,
                0 <= sel < len,
                1 <= k <= len - 1,
        ;
        assert(0 <= b < len && b != sel) by (nonlinear_arith)
            requires
                b == (sel + k) % len,
                0 <= sel < len,
                1 <= k <= len - 1,
        ;
        let p1 = if prev.contains(a) {
            prev
        } else {
            prev.push(a)
        };
        assert forall|p: int, q: int| 0 <= p < q < p1.len() implies #[trigger] p1[p] != #[trigger] p1[q] by {
            if !prev.contains(a) && q == prev.len() {
                assert(p1[p] == prev[p]);
            }
        }
        let p2 = if p1.contains(b) {
            p1
        } else {
            p1.push(b)
        };
        assert forall|p: int, q: int| 0 <= p < q < p2.len() implies #[trigger] p2[p] != #[trigger] p2[q] by {
            if !p1.contains(b) && q == p1.len() {
                assert(p2[p] == p1[p]);
            }
        }
        assert(nearby_upto(len, sel, k) == p2);
    }
}

/// What the picker shows for a wallpaper: the animation of a selected live one when animating
/// and it exists, else the poster when it exists, else nothing yet.
pub fn display_path(
    item: &WallpaperItem,
    key: &str,
    cache_dir: &str,
    selected: bool,
    animate_live: bool,
    animated_exists: bool,
    poster_exists: bool,
) -> (r: Option<String>)
    ensures
        match r {
            Some(p) => if selected && animate_live && item.kind == MediaKind::Live && animated_exists {
                p@ == animated_path_spec(cache_dir@, key@)
            } else {
                poster_exists && p@ == poster_path_spec(cache_dir@, key@)
            },
            None => !(selected && animate_live && item.kind == MediaKind::Live && animated_exists)
                && !poster_exists,
        },
{
    if selected && animate_live && item.is_live() && animated_exists {
        return Some(animated_path(cache_dir, key));
    }
    if poster_exists {
        return Some(poster_path(cache_dir, key));
    }
    None
}

/// The `ffmpeg` arguments that make a job's preview.
pub open spec fn preview_args(j: PreviewJob) -> Seq<Seq<char>> {
    seq!["-hide_banner"@, "-loglevel"@, "error"@, "-y"@, "-i"@, j.source@] + match j.kind {
        PreviewKind::Poster => seq![
            "-frames:v"@,
            "1"@,
            "-vf"@,
            "scale="@ + decimal(j.profile.static_width as nat) + ":-2:force_original_aspect_ratio=decrease"@,
        ],
        PreviewKind::Animated => seq![
            "-t"@,
            decimal(j.profile.animated_duration_secs as nat),
            "-vf"@,
            "fps="@ + decimal(j.profile.animated_fps as nat) + ",scale="@ + decimal(
                j.profile.animated_width as nat,
            ) + ":-2:force_original_aspect_ratio=decrease"@,
            "-loop"@,
            "0"@,
        ],
    } + seq![j.output@]
}

/// The `ffmpeg` command that makes a job's preview.
pub fn preview_command(job: &PreviewJob) -> (c: CommandSpec)
    ensures
        c.program@ == "ffmpeg"@,
        texts(c.args@) == preview_args(*job),
{
    let mut args: Vec<String> = Vec::new();
    args.push(owned("-hide_banner"));
    args.push(owned("-loglevel"));
    args.push(owned("error"));
    args.push(owned("-y"));
    args.push(owned("-i"));
    args.push(job.source.clone());
    match job.kind {
        PreviewKind::Poster => {
            args.push(owned("-frames:v"));
            args.push(owned("1"));
            args.push(owned("-vf"));
            let w = decimal_string(job.profile.static_width as u64);
            args.push(cat3("scale=", w.as_str(), ":-2:force_original_aspect_ratio=decrease"));
        },
        PreviewKind::Animated => {
            args.push(owned("-t"));
            args.push(decimal_string(job.profile.animated_duration_secs as u64));
            args.push(owned("-vf"));
            let f = decimal_string(job.profile.animated_fps as u64);
            let w = decimal_string(job.profile.animated_width as u64);
            let a = cat3("fps=", f.as_str(), ",scale=");
            args.push(cat3(a.as_str(), w.as_str(), ":-2:force_original_aspect_ratio=decrease"));
            args.push(owned("-loop"));
            args.push(owned("0"));
        },
    }
    args.push(job.output.clone());
    assert(texts(args@) =~= preview_args(*job));
    CommandSpec::new("ffmpeg", args)
}

} // verus!
