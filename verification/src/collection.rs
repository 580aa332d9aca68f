//! Walking a collection of wallpapers: next, previous and shuffle, with or
//! without the progress recorded in the state.
//!
//! Paths are compared as `Path`s (`path::path_eq`). Callers pass paths already
//! resolved (`fs::canonicalize`), since resolving reads the disk.
use vstd::prelude::*;
use crate::path::{path_eq, paths_equal, path_lt, path_less, lemma_path_eq, lemma_path_lt_total, lemma_path_lt_transitive};
use crate::media::{path_kind, has_supported_extension};
use crate::text::cat;
use crate::state::CollectionState;
use crate::text::texts;

verus! {

/// Position of the first entry equal (as a path) to `x`, or `c.len()`.
pub open spec fn find_path(c: Seq<Seq<char>>, x: Seq<char>) -> int
    decreases c.len(),
{
    if c.len() == 0 {
        0
    } else if path_eq(c[0], x) {
        0
    } else {
        1 + find_path(c.drop_first(), x)
    }
}

pub proof fn lemma_find_path(c: Seq<Seq<char>>, x: Seq<char>)
    ensures
        0 <= find_path(c, x) <= c.len(),
        find_path(c, x) < c.len() ==> path_eq(c[find_path(c, x)], x),
        forall|j: int| 0 <= j < find_path(c, x) ==> !path_eq(#[trigger] c[j], x),
    decreases c.len(),
{
    if c.len() > 0 && !path_eq(c[0], x) {
        lemma_find_path(c.drop_first(), x);
        assert forall|j: int| 0 <= j < find_path(c, x) implies !path_eq(#[trigger] c[j], x) by {
            if j > 0 {
                assert(c[j] == c.drop_first()[j - 1]);
            }
        }
    }
}

/// `Some(position)` of the first entry equal to `x`.
pub open spec fn index_of_spec(c: Seq<Seq<char>>, x: Seq<char>) -> Option<int> {
    if find_path(c, x) < c.len() {
        Some(find_path(c, x))
    } else {
        None
    }
}

/// The position one step away from `cur` (forward for a positive step), wrapping around.
pub open spec fn step_index(len: int, cur: int, step: int) -> int {
    if step > 0 {
        if cur + 1 == len {
            0
        } else {
            cur + 1
        }
    } else {
        if cur == 0 {
            len - 1
        } else {
            cur - 1
        }
    }
}

/// Where a step starts: the current position, else the last entry going forward and the
/// first going backward (so the first step lands on the first or the last entry).
pub open spec fn start_index(len: int, cur: Option<int>, step: int) -> int {
    match cur {
        Some(i) => i,
        None => if step >= 0 {
            len - 1
        } else {
            0
        },
    }
}

/// The position of the first entry equal to `current` (as a path).
pub fn index_of_path(collection: &[String], current: &str) -> (r: Option<usize>)
    ensures
        r matches Some(i) ==> Some(i as int) == index_of_spec(texts(collection@), current@),
        r is None ==> index_of_spec(texts(collection@), current@) is None,
{
    proof {
        lemma_find_path(texts(collection@), current@);
    }
    let mut i: usize = 0;
    while i < collection.len()
        invariant
            0 <= i <= collection@.len(),
            forall|j: int| 0 <= j < i ==> !path_eq(#[trigger] texts(collection@)[j], current@),
        decreases collection.len() - i,
    {
        if paths_equal(collection[i].as_str(), current) {
            proof {
                lemma_find_path(texts(collection@), current@);
                let f = find_path(texts(collection@), current@);
                if f < i {
                    assert(path_eq(texts(collection@)[f], current@));
                }
                assert(path_eq(texts(collection@)[i as int], current@));
            }
            return Some(i);
        }
        i += 1;
    }
    proof {
        let f = find_path(texts(collection@), current@);
        if f < collection@.len() {
            assert(path_eq(texts(collection@)[f], current@));
        }
    }
    None
}

fn step_from(len: usize, cur: usize, step: isize) -> (r: usize)
    requires
        cur < len,
        step == 1 || step == -1,
    ensures
        r as int == step_index(len as int, cur as int, step as int),
        r < len,
{
    if step > 0 {
        if cur + 1 == len {
            0
        } else {
            cur + 1
        }
    } else {
        if cur == 0 {
            len - 1
        } else {
            cur - 1
        }
    }
}

/// The path one step away from `current` (the first step of a walk when it is not in the
/// collection); the empty path for an empty collection.
fn select_relative(collection: &[String], current: Option<&str>, step: isize) -> (r: String)
    requires
        step == 1 || step == -1,
    ensures
        collection@.len() == 0 ==> r@.len() == 0,
        collection@.len() > 0 ==> r@ == texts(collection@)[step_index(
            collection@.len() as int,
            start_index(
                collection@.len() as int,
                match current {
                    Some(c) => index_of_spec(texts(collection@), c@),
                    None => None,
                },
                step as int,
            ),
            step as int,
        )],
{
    if collection.len() == 0 {
        return String::new();
    }
    let found = match current {
        Some(c) => index_of_path(collection, c),
        None => None,
    };
    let start = match found {
        Some(i) => i,
        None => if step >= 0 {
            collection.len() - 1
        } else {
            0
        },
    };
    let index = step_from(collection.len(), start, step);
    collection[index].clone()
}

/// The path after `current`, wrapping to the first.
pub fn select_next(collection: &[String], current: Option<&str>) -> (r: String)
    ensures
        collection@.len() == 0 ==> r@.len() == 0,
        collection@.len() > 0 ==> r@ == texts(collection@)[step_index(
            collection@.len() as int,
            start_index(
                collection@.len() as int,
                match current {
                    Some(c) => index_of_spec(texts(collection@), c@),
                    None => None,
                },
                1,
            ),
            1,
        )],
{
    select_relative(collection, current, 1)
}

/// The path before `current`, wrapping to the last.
pub fn select_previous(collection: &[String], current: Option<&str>) -> (r: String)
    ensures
        collection@.len() == 0 ==> r@.len() == 0,
        collection@.len() > 0 ==> r@ == texts(collection@)[step_index(
            collection@.len() as int,
            start_index(
                collection@.len() as int,
                match current {
                    Some(c) => index_of_spec(texts(collection@), c@),
                    None => None,
                },
                -1,
            ),
            -1,
        )],
{
    select_relative(collection, current, -1)
}

/// The position a shuffle picks: `seed` modulo the length, moved one on when it is the
/// current position.
pub open spec fn shuffle_index(len: int, cur: Option<int>, seed: u64) -> int {
    let i = ((seed as usize) as int) % len;
    if cur == Some(i) {
        (i + 1) % len
    } else {
        i
    }
}

/// A shuffle never lands on the current wallpaper when the collection holds another.
pub proof fn lemma_shuffle_avoids_current(len: int, cur: int, seed: u64)
    requires
        len > 1,
        0 <= cur < len,
    ensures
        0 <= shuffle_index(len, Some(cur), seed) < len,
        shuffle_index(len, Some(cur), seed) != cur,
{
    let x = (seed as usize) as int;
    vstd::arithmetic::div_mod::lemma_mod_pos_bound(x, len);
    if x % len == cur {
        if cur + 1 < len {
            vstd::arithmetic::div_mod::lemma_small_mod((cur + 1) as nat, len as nat);
        } else {
            vstd::arithmetic::div_mod::lemma_mod_self_0(len);
        }
    }
}

/// A pseudo-random pick that avoids `current` when there is another choice.
pub fn select_shuffle(collection: &[String], current: Option<&str>, seed: u64) -> (r: String)
    requires
        collection@.len() > 0,
    ensures
        collection@.len() == 1 ==> r@ == collection@[0]@,
        collection@.len() > 1 ==> r@ == texts(collection@)[shuffle_index(
            collection@.len() as int,
            match current {
                Some(c) => index_of_spec(texts(collection@), c@),
                None => None,
            },
            seed,
        )],
{
    if collection.len() == 1 {
        return collection[0].clone();
    }
    let current_index = match current {
        Some(c) => index_of_path(collection, c),
        None => None,
    };
    let mut index = (#[verifier::truncate] (seed as usize)) % collection.len();
    if current_index == Some(index) {
        index = (index + 1) % collection.len();
    }
    collection[index].clone()
}

/// A recorded collection progress, read through an optional reference.
pub open spec fn opt_progress(s: Option<&CollectionState>) -> Option<CollectionState> {
    match s {
        Some(x) => Some(*x),
        None => None,
    }
}

/// An optional text, as a sequence.
pub open spec fn opt_text(s: Option<&str>) -> Option<Seq<char>> {
    match s {
        Some(f) => Some(f@),
        None => None,
    }
}

/// The position a persistent step of `step` (1 or -1) picks.
pub open spec fn relative_pick(c: Seq<Seq<char>>, st: Option<CollectionState>, fallback: Option<Seq<char>>, step: int) -> int {
    step_index(c.len() as int, start_index(c.len() as int, current_index_spec(c, st, fallback), step), step)
}

/// The position a persistent shuffle picks.
pub open spec fn shuffle_pick(c: Seq<Seq<char>>, st: Option<CollectionState>, fallback: Option<Seq<char>>, seed: u64) -> int {
    if c.len() == 1 {
        0
    } else {
        let h = match st {
            Some(s) => texts(s.shuffle_history@),
            None => Seq::<Seq<char>>::empty(),
        };
        let cands = shuffle_candidates(c, h);
        cands[shuffle_slot(cands, current_index_spec(c, st, fallback), seed)]
    }
}

/// Where the persistent walk stands: the recorded index when it is in range, else the
/// recorded wallpaper's position, else `fallback`'s position.
pub open spec fn current_index_spec(
    c: Seq<Seq<char>>,
    st: Option<CollectionState>,
    fallback: Option<Seq<char>>,
) -> Option<int> {
    let by_index = match st {
        Some(s) => match s.last_index {
            Some(i) => if i < c.len() {
                Some(i as int)
            } else {
                None
            },
            None => None,
        },
        None => None,
    };
    let by_wallpaper = match st {
        Some(s) => match s.last_wallpaper {
            Some(w) => index_of_spec(c, w@),
            None => None,
        },
        None => None,
    };
    let by_fallback = match fallback {
        Some(f) => index_of_spec(c, f),
        None => None,
    };
    if by_index is Some {
        by_index
    } else if by_wallpaper is Some {
        by_wallpaper
    } else {
        by_fallback
    }
}

fn opt_state_view(s: Option<&CollectionState>) -> (r: Ghost<Option<CollectionState>>)
    ensures
        r@ == match s {
            Some(x) => Some(*x),
            None => None,
        },
{
    Ghost(
        match s {
            Some(x) => Some(*x),
            None => None,
        },
    )
}

/// Where the persistent walk stands in `collection`.
pub fn current_index(
    collection: &[String],
    collection_state: Option<&CollectionState>,
    fallback_current: Option<&str>,
) -> (r: Option<usize>)
    ensures
        ({
            let spec_r = current_index_spec(
                texts(collection@),
                match collection_state {
                    Some(x) => Some(*x),
                    None => None,
                },
                match fallback_current {
                    Some(f) => Some(f@),
                    None => None,
                },
            );
            &&& r matches Some(i) ==> spec_r == Some(i as int)
            &&& r is None ==> spec_r is None
        }),
{
    if let Some(state) = collection_state {
        if let Some(i) = state.last_index {
            if i < collection.len() {
                return Some(i);
            }
        }
        if let Some(w) = &state.last_wallpaper {
            if let Some(i) = index_of_path(collection, w.as_str()) {
                return Some(i);
            }
        }
    }
    match fallback_current {
        Some(f) => index_of_path(collection, f),
        None => None,
    }
}

fn select_relative_persistent(
    collection: &[String],
    collection_state: Option<&CollectionState>,
    fallback_current: Option<&str>,
    step: isize,
) -> (r: (usize, String))
    requires
        collection@.len() > 0,
        step == 1 || step == -1,
    ensures
        r.0 as int == step_index(
            collection@.len() as int,
            start_index(
                collection@.len() as int,
                current_index_spec(
                    texts(collection@),
                    match collection_state {
                        Some(x) => Some(*x),
                        None => None,
                    },
                    match fallback_current {
                        Some(f) => Some(f@),
                        None => None,
                    },
                ),
                step as int,
            ),
            step as int,
        ),
        r.0 < collection@.len(),
        r.1@ == collection@[r.0 as int]@,
{
    let cur = current_index(collection, collection_state, fallback_current);
    let start = match cur {
        Some(i) => i,
        None => if step >= 0 {
            collection.len() - 1
        } else {
            0
        },
    };
    proof {
        lemma_find_path(texts(collection@), Seq::<char>::empty());
    }
    assert(start < collection@.len()) by {
        if cur is Some {
            let ghost c = texts(collection@);
            let ghost st = match collection_state {
                Some(x) => Some(*x),
                None => None,
            };
            let ghost fb = match fallback_current {
                Some(f) => Some(f@),
                None => None,
            };
            lemma_current_index_in_range(c, st, fb);
        }
    }
    let index = step_from(collection.len(), start, step);
    (index, collection[index].clone())
}

proof fn lemma_current_index_in_range(
    c: Seq<Seq<char>>,
    st: Option<CollectionState>,
    fallback: Option<Seq<char>>,
)
    ensures
        current_index_spec(c, st, fallback) matches Some(i) ==> 0 <= i < c.len(),
{
    if let Some(s) = st {
        if let Some(w) = s.last_wallpaper {
            lemma_find_path(c, w@);
        }
    }
    if let Some(f) = fallback {
        lemma_find_path(c, f);
    }
}

/// The next wallpaper after the recorded progress, with its position.
pub fn select_next_persistent(
    collection: &[String],
    collection_state: Option<&CollectionState>,
    fallback_current: Option<&str>,
) -> (r: (usize, String))
    requires
        collection@.len() > 0,
    ensures
        r.0 as int == step_index(
            collection@.len() as int,
            start_index(
                collection@.len() as int,
                current_index_spec(
                    texts(collection@),
                    match collection_state {
                        Some(x) => Some(*x),
                        None => None,
                    },
                    match fallback_current {
                        Some(f) => Some(f@),
                        None => None,
                    },
                ),
                1,
            ),
            1,
        ),
        r.0 < collection@.len(),
        r.1@ == collection@[r.0 as int]@,
{
    select_relative_persistent(collection, collection_state, fallback_current, 1)
}

/// The wallpaper before the recorded progress, with its position.
pub fn select_previous_persistent(
    collection: &[String],
    collection_state: Option<&CollectionState>,
    fallback_current: Option<&str>,
) -> (r: (usize, String))
    requires
        collection@.len() > 0,
    ensures
        r.0 as int == step_index(
            collection@.len() as int,
            start_index(
                collection@.len() as int,
                current_index_spec(
                    texts(collection@),
                    match collection_state {
                        Some(x) => Some(*x),
                        None => None,
                    },
                    match fallback_current {
                        Some(f) => Some(f@),
                        None => None,
                    },
                ),
                -1,
            ),
            -1,
        ),
        r.0 < collection@.len(),
        r.1@ == collection@[r.0 as int]@,
{
    select_relative_persistent(collection, collection_state, fallback_current, -1)
}

/// Whether a path is absent from a shuffle history.
pub open spec fn unseen(history: Seq<Seq<char>>, p: Seq<char>) -> bool {
    forall|j: int| 0 <= j < history.len() ==> !path_eq(#[trigger] history[j], p)
}

/// Positions below `n` whose path is not in the history, in order.
pub open spec fn unseen_upto(c: Seq<Seq<char>>, h: Seq<Seq<char>>, n: int) -> Seq<int>
    decreases n,
{
    if n <= 0 {
        seq![]
    } else {
        unseen_upto(c, h, n - 1) + if unseen(h, c[n - 1]) {
            seq![n - 1]
        } else {
            seq![]
        }
    }
}

/// The positions a persistent shuffle chooses from: the unseen ones, or all when none is.
pub open spec fn shuffle_candidates(c: Seq<Seq<char>>, h: Seq<Seq<char>>) -> Seq<int> {
    let u = unseen_upto(c, h, c.len() as int);
    if u.len() == 0 {
        Seq::new(c.len(), |i: int| i)
    } else {
        u
    }
}

/// The candidate slot a persistent shuffle takes.
pub open spec fn shuffle_slot(cands: Seq<int>, cur: Option<int>, seed: u64) -> int {
    let s = ((seed as usize) as int) % (cands.len() as int);
    if cands.len() > 1 && cur == Some(cands[s]) {
        (s + 1) % (cands.len() as int)
    } else {
        s
    }
}

proof fn lemma_unseen_upto(c: Seq<Seq<char>>, h: Seq<Seq<char>>, n: int)
    requires
        0 <= n <= c.len(),
    ensures
        forall|k: int| 0 <= k < unseen_upto(c, h, n).len() ==> 0 <= #[trigger] unseen_upto(c, h, n)[k] < n
            && unseen(h, c[unseen_upto(c, h, n)[k]]),
        forall|a: int, b: int|
            0 <= a < b < unseen_upto(c, h, n).len() ==> #[trigger] unseen_upto(c, h, n)[a]
                < #[trigger] unseen_upto(c, h, n)[b],
        forall|i: int| 0 <= i < n && unseen(h, c[i]) ==> unseen_upto(c, h, n).len() > 0,
    decreases n,
{
    if n > 0 {
        lemma_unseen_upto(c, h, n - 1);
        let p = unseen_upto(c, h, n - 1);
        let r = unseen_upto(c, h, n);
        assert forall|k: int| 0 <= k < r.len() implies 0 <= #[trigger] r[k] < n && unseen(h, c[r[k]]) by {
            if k < p.len() {
                assert(r[k] == p[k]);
            }
        }
        assert forall|a: int, b: int| 0 <= a < b < r.len() implies #[trigger] r[a] < #[trigger] r[b] by {
            if b < p.len() {
                assert(r[a] == p[a] && r[b] == p[b]);
            } else {
                assert(r[a] == p[a]);
            }
        }
    }
}

/// The shuffle history of a collection's recorded progress.
pub open spec fn history_of(st: Option<CollectionState>) -> Seq<Seq<char>> {
    match st {
        Some(s) => texts(s.shuffle_history@),
        None => Seq::<Seq<char>>::empty(),
    }
}

/// A persistent shuffle does not repeat itself until it has been through the collection: while
/// some wallpaper is not in the shuffle history, it picks one that is not.
pub proof fn lemma_shuffle_picks_unseen(
    c: Seq<Seq<char>>,
    st: Option<CollectionState>,
    fallback: Option<Seq<char>>,
    seed: u64,
)
    requires
        c.len() > 1,
        exists|i: int| 0 <= i < c.len() && unseen(history_of(st), #[trigger] c[i]),
    ensures
        0 <= shuffle_pick(c, st, fallback, seed) < c.len(),
        unseen(history_of(st), c[shuffle_pick(c, st, fallback, seed)]),
{
    let h = history_of(st);
    lemma_unseen_upto(c, h, c.len() as int);
    let u = unseen_upto(c, h, c.len() as int);
    let i = choose|i: int| 0 <= i < c.len() && unseen(h, #[trigger] c[i]);
    assert(u.len() > 0);
    let x = (seed as usize) as int;
    let len = u.len() as int;
    vstd::arithmetic::div_mod::lemma_mod_pos_bound(x, len);
    let s0 = x % len;
    vstd::arithmetic::div_mod::lemma_mod_pos_bound(s0 + 1, len);
    let slot = shuffle_slot(u, current_index_spec(c, st, fallback), seed);
    assert(0 <= slot < len);
    assert(shuffle_candidates(c, h) == u);
}

/// Shuffles over the wallpapers not yet in the shuffle history (over all of them once
/// every one has been shown), avoiding the current one when there is another choice.
pub fn select_shuffle_persistent(
    collection: &[String],
    collection_state: Option<&CollectionState>,
    fallback_current: Option<&str>,
    seed: u64,
) -> (r: (usize, String))
    requires
        collection@.len() > 0,
    ensures
        r.0 < collection@.len(),
        r.1@ == collection@[r.0 as int]@,
        ({
            let c = texts(collection@);
            let h = match collection_state {
                Some(s) => texts(s.shuffle_history@),
                None => Seq::<Seq<char>>::empty(),
            };
            let cur = current_index_spec(
                c,
                match collection_state {
                    Some(x) => Some(*x),
                    None => None,
                },
                match fallback_current {
                    Some(f) => Some(f@),
                    None => None,
                },
            );
            let cands = shuffle_candidates(c, h);
            &&& collection@.len() == 1 ==> r.0 == 0
            &&& collection@.len() > 1 ==> r.0 as int == cands[shuffle_slot(cands, cur, seed)]
            &&& (exists|i: int| 0 <= i < c.len() && unseen(h, c[i])) ==> unseen(h, c[r.0 as int])
            &&& (cands.len() > 1 && cur is Some) ==> Some(r.0 as int) != cur
        }),
{
    let ghost c = texts(collection@);
    let ghost h = match collection_state {
        Some(s) => texts(s.shuffle_history@),
        None => Seq::<Seq<char>>::empty(),
    };
    proof {
        lemma_unseen_upto(c, h, c.len() as int);
    }
    if collection.len() == 1 {
        proof {
            if exists|i: int| 0 <= i < c.len() && unseen(h, c[i]) {
                let i = choose|i: int| 0 <= i < c.len() && unseen(h, c[i]);
                assert(i == 0);
            }
            let u = unseen_upto(c, h, 1);
            if u.len() > 1 {
                assert(u[0] < u[1]);
            }
        }
        return (0, collection[0].clone());
    }
    let empty: Vec<String> = Vec::new();
    let history: &Vec<String> = match collection_state {
        Some(s) => &s.shuffle_history,
        None => &empty,
    };
    assert(texts(history@) == h);
    let mut unseen_idx: Vec<usize> = Vec::new();
    let mut i: usize = 0;
    while i < collection.len()
        invariant
            0 <= i <= collection@.len(),
            c == texts(collection@),
            h == texts(history@),
            unseen_idx@.map_values(|x: usize| x as int) == unseen_upto(c, h, i as int),
        decreases collection.len() - i,
    {
        let ghost before = unseen_idx@.map_values(|x: usize| x as int);
        let mut seen = false;
        let mut j: usize = 0;
        while j < history.len()
            invariant
                0 <= i < collection@.len(),
                0 <= j <= history@.len(),
                c == texts(collection@),
                h == texts(history@),
                seen == exists|k: int| 0 <= k < j && path_eq(#[trigger] h[k], c[i as int]),
            decreases history.len() - j,
        {
            assert(h[j as int] == history@[j as int]@);
            assert(c[i as int] == collection@[i as int]@);
            if paths_equal(history[j].as_str(), collection[i].as_str()) {
                seen = true;
            }
            j += 1;
        }
        assert(seen == !unseen(h, c[i as int]));
        if !seen {
            unseen_idx.push(i);
            assert(unseen_idx@.map_values(|x: usize| x as int) =~= before.push(i as int));
        } else {
            assert(before + Seq::<int>::empty() =~= before);
        }
        i += 1;
    }
    let mut candidates: Vec<usize> = Vec::new();
    if unseen_idx.len() == 0 {
        let mut k: usize = 0;
        while k < collection.len()
            invariant
                0 <= k <= collection@.len(),
                candidates@.len() == k,
                forall|t: int| 0 <= t < k ==> candidates@[t] == t,
            decreases collection.len() - k,
        {
            candidates.push(k);
            k += 1;
        }
        assert(candidates@.map_values(|x: usize| x as int) =~= Seq::new(collection@.len(), |t: int| t));
    } else {
        candidates = unseen_idx;
    }
    let ghost cands = candidates@.map_values(|x: usize| x as int);
    assert(cands == shuffle_candidates(c, h));
    let cur = current_index(collection, collection_state, fallback_current);
    let mut selected = (#[verifier::truncate] (seed as usize)) % candidates.len();
    if candidates.len() > 1 && cur == Some(candidates[selected]) {
        selected = (selected + 1) % candidates.len();
    }
    let index = candidates[selected];
    proof {
        assert(cands[selected as int] == index as int);
        let u = unseen_upto(c, h, c.len() as int);
        assert(forall|a: int, b: int| 0 <= a < b < cands.len() ==> cands[a] < cands[b]);
        if candidates.len() > 1 && cur is Some {
            let s0 = ((seed as usize) as int) % (cands.len() as int);
            if Some(cands[s0]) == current_index_spec(
                c,
                match collection_state {
                    Some(x) => Some(*x),
                    None => None,
                },
                match fallback_current {
                    Some(f) => Some(f@),
                    None => None,
                },
            ) {
                let n = cands.len() as int;
                let x = (seed as usize) as int;
                let s1 = (s0 + 1) % n;
                assert(0 <= s0 < n) by (nonlinear_arith)
                    requires
                        n > 0,
                        x >= 0,
                        s0 == x % n,
                ;
                assert(s1 == if s0 + 1 == n {
                    0
                } else {
                    s0 + 1
                }) by (nonlinear_arith)
                    requires
                        0 <= s0 < n,
                        s1 == (s0 + 1) % n,
                ;
                if s1 < s0 {
                    assert(cands[s1] < cands[s0]);
                } else {
                    assert(cands[s0] < cands[s1]);
                }
            }
        }
    }
    (index, collection[index].clone())
}

} // verus!

verus! {

/// One entry of a directory listing: its path, whether it is a regular file, and the path it
/// resolves to when resolving it succeeded.
#[derive(Debug)]
pub struct DirEntry {
    pub path: String,
    pub is_file: bool,
    pub canonical: Option<String>,
}

/// The wallpaper an entry contributes: a file with a supported extension, by its resolved path
/// when it has one.
pub open spec fn entry_candidate(e: DirEntry) -> Option<Seq<char>> {
    if e.is_file && path_kind(e.path@) is Some {
        Some(
            match e.canonical {
                Some(c) => c@,
                None => e.path@,
            },
        )
    } else {
        None
    }
}

/// The wallpapers the entries contribute, in listing order.
pub open spec fn candidates(es: Seq<DirEntry>) -> Seq<Seq<char>>
    decreases es.len(),
{
    if es.len() == 0 {
        seq![]
    } else {
        candidates(es.drop_last()) + match entry_candidate(es.last()) {
            Some(p) => seq![p],
            None => seq![],
        }
    }
}

/// Strictly increasing as `Path`s.
pub open spec fn path_sorted(v: Seq<Seq<char>>) -> bool {
    forall|i: int, j: int| 0 <= i < j < v.len() ==> path_lt(#[trigger] v[i], #[trigger] v[j])
}

/// In a sorted collection each entry is the first entry that is its path.
pub proof fn lemma_sorted_index(c: Seq<Seq<char>>, n: int)
    requires
        path_sorted(c),
        0 <= n < c.len(),
    ensures
        index_of_spec(c, c[n]) == Some(n),
{
    lemma_find_path(c, c[n]);
    lemma_path_eq(c[n], c[n], c[n]);
    let f = find_path(c, c[n]);
    if f > n {
        assert(!path_eq(c[n], c[n]));
    }
    if f < n {
        assert(path_lt(c[f], c[n]));
        lemma_path_eq(c[f], c[f], c[n]);
        assert(path_lt(c[f], c[f]));
        reveal(path_lt);
        crate::path::lemma_comps_lt_irreflexive(crate::path::components(c[f]));
    }
}

/// The entry a step from `current` lands on (`step` 1 forward, -1 backward), as `select_next`
/// and `select_previous` take it.
pub open spec fn stepped(c: Seq<Seq<char>>, current: Option<Seq<char>>, step: int) -> Seq<char> {
    c[step_index(
        c.len() as int,
        start_index(
            c.len() as int,
            match current {
                Some(x) => index_of_spec(c, x),
                None => None,
            },
            step,
        ),
        step,
    )]
}

/// In a sorted collection (as a scan leaves it), a step forward and then a step back, or a step
/// back and then a step forward, come back to the entry that is the current wallpaper.
pub proof fn lemma_step_round_trip(c: Seq<Seq<char>>, current: Seq<char>)
    requires
        path_sorted(c),
        index_of_spec(c, current) is Some,
    ensures
        stepped(c, Some(stepped(c, Some(current), 1)), -1) == c[index_of_spec(c, current).unwrap()],
        stepped(c, Some(stepped(c, Some(current), -1)), 1) == c[index_of_spec(c, current).unwrap()],
{
    lemma_find_path(c, current);
    let len = c.len() as int;
    let i = index_of_spec(c, current).unwrap();
    let forward = step_index(len, i, 1);
    let back = step_index(len, i, -1);
    lemma_sorted_index(c, forward);
    lemma_sorted_index(c, back);
    assert(step_index(len, forward, -1) == i);
    assert(step_index(len, back, 1) == i);
}

/// No two entries are the same path.
pub open spec fn paths_distinct(c: Seq<Seq<char>>) -> bool {
    forall|i: int, j: int| 0 <= i < j < c.len() ==> !path_eq(#[trigger] c[i], #[trigger] c[j])
}

/// In a collection without repeated paths, each entry is found at its own position.
pub proof fn lemma_distinct_index(c: Seq<Seq<char>>, n: int)
    requires
        paths_distinct(c),
        0 <= n < c.len(),
    ensures
        index_of_spec(c, c[n]) == Some(n),
{
    lemma_find_path(c, c[n]);
    lemma_path_eq(c[n], c[n], c[n]);
    let f = find_path(c, c[n]);
    if f > n {
        assert(!path_eq(c[n], c[n]));
    }
    if f < n {
        assert(path_eq(c[f], c[n]));
    }
}

/// In a collection without repeated paths, the next wallpaper's previous one, and the previous
/// wallpaper's next one, is the wallpaper itself.
pub proof fn lemma_next_previous_round_trip(c: Seq<Seq<char>>, k: int)
    requires
        paths_distinct(c),
        0 <= k < c.len(),
    ensures
        stepped(c, Some(stepped(c, Some(c[k]), 1)), -1) == c[k],
        stepped(c, Some(stepped(c, Some(c[k]), -1)), 1) == c[k],
{
    let len = c.len() as int;
    lemma_distinct_index(c, k);
    let forward = step_index(len, k, 1);
    let back = step_index(len, k, -1);
    lemma_distinct_index(c, forward);
    lemma_distinct_index(c, back);
    assert(step_index(len, forward, -1) == k);
    assert(step_index(len, back, 1) == k);
}

/// `y` is among `c`, and no earlier entry of `c` is the same path.
#[verifier::opaque]
pub open spec fn first_of_class(c: Seq<Seq<char>>, y: Seq<char>) -> bool {
    exists|i: int|
        0 <= i < c.len() && #[trigger] c[i] == y && forall|j: int| 0 <= j < i ==> !path_eq(#[trigger] c[j], y)
}

/// Every path of `c` has one of `v` equal to it.
#[verifier::opaque]
pub open spec fn covers(v: Seq<Seq<char>>, c: Seq<Seq<char>>) -> bool {
    forall|i: int|
        0 <= i < c.len() ==> exists|k: int| #![trigger v[k]] 0 <= k < v.len() && path_eq(#[trigger] c[i], v[k])
}

/// Each entry of `v` is the first of its path in `c`.
#[verifier::opaque]
pub open spec fn firsts(v: Seq<Seq<char>>, c: Seq<Seq<char>>) -> bool {
    forall|k: int| 0 <= k < v.len() ==> first_of_class(c, #[trigger] v[k])
}

/// `v` is `c` sorted as paths with repeats dropped (`sort` then `dedup`): strictly increasing,
/// each entry the first of its path in `c`, every path of `c` present.
pub open spec fn sorted_unique_paths(v: Seq<Seq<char>>, c: Seq<Seq<char>>) -> bool {
    &&& path_sorted(v)
    &&& firsts(v, c)
    &&& covers(v, c)
}

proof fn lemma_first_extends(c: Seq<Seq<char>>, x: Seq<char>, y: Seq<char>)
    requires
        first_of_class(c, y),
    ensures
        first_of_class(c.push(x), y),
{
    reveal(first_of_class);
    let c2 = c.push(x);
    let i = choose|i: int|
        0 <= i < c.len() && #[trigger] c[i] == y && forall|j: int| 0 <= j < i ==> !path_eq(#[trigger] c[j], y);
    assert(c2[i] == y);
    assert forall|j: int| 0 <= j < i implies !path_eq(#[trigger] c2[j], y) by {
        assert(c2[j] == c[j]);
    }
}

pub proof fn lemma_cover_at(v: Seq<Seq<char>>, c: Seq<Seq<char>>, i: int) -> (k: int)
    requires
        covers(v, c),
        0 <= i < c.len(),
    ensures
        0 <= k < v.len(),
        path_eq(c[i], v[k]),
{
    reveal(covers);
    choose|k: int| 0 <= k < v.len() && path_eq(c[i], v[k])
}

proof fn lemma_firsts_at(v: Seq<Seq<char>>, c: Seq<Seq<char>>, k: int)
    requires
        firsts(v, c),
        0 <= k < v.len(),
    ensures
        first_of_class(c, v[k]),
{
    reveal(firsts);
}

/// Appending a path that none of `v` equals makes it the first of its kind.
proof fn lemma_first_new(v: Seq<Seq<char>>, c: Seq<Seq<char>>, x: Seq<char>)
    requires
        covers(v, c),
        forall|k: int| 0 <= k < v.len() ==> !path_eq(#[trigger] v[k], x),
    ensures
        first_of_class(c.push(x), x),
{
    reveal(first_of_class);
    let c2 = c.push(x);
    let n = c.len() as int;
    assert(c2[n] == x);
    assert forall|j: int| 0 <= j < n implies !path_eq(#[trigger] c2[j], x) by {
        assert(c2[j] == c[j]);
        let q = lemma_cover_at(v, c, j);
        lemma_path_eq(c[j], v[q], x);
        lemma_path_eq(v[q], c[j], x);
    }
}

proof fn lemma_covers_push(v: Seq<Seq<char>>, w: Seq<Seq<char>>, c: Seq<Seq<char>>, x: Seq<char>, pos: spec_fn(
    int,
) -> int, q: int)
    requires
        covers(v, c),
        forall|k: int| 0 <= k < v.len() ==> 0 <= #[trigger] pos(k) < w.len() && w[pos(k)] == v[k],
        0 <= q < w.len(),
        path_eq(x, w[q]),
    ensures
        covers(w, c.push(x)),
{
    let c2 = c.push(x);
    assert forall|i: int| 0 <= i < c2.len() implies exists|k: int|
        #![trigger w[k]]
        0 <= k < w.len() && path_eq(#[trigger] c2[i], w[k]) by {
        if i == c.len() {
            assert(c2[i] == x);
            assert(path_eq(c2[i], w[q]));
        } else {
            let k = lemma_cover_at(v, c, i);
            assert(c2[i] == c[i]);
            assert(w[pos(k)] == v[k]);
            assert(path_eq(c2[i], w[pos(k)]));
        }
    }
    reveal(covers);
}

proof fn lemma_repeat_path(v: Seq<Seq<char>>, c: Seq<Seq<char>>, x: Seq<char>, p: int)
    requires
        sorted_unique_paths(v, c),
        0 <= p < v.len(),
        path_eq(v[p], x),
    ensures
        sorted_unique_paths(v, c.push(x)),
{
    let c2 = c.push(x);
    assert forall|k: int| 0 <= k < v.len() implies first_of_class(c2, #[trigger] v[k]) by {
        lemma_firsts_at(v, c, k);
        lemma_first_extends(c, x, v[k]);
    }
    reveal(firsts);
    lemma_path_eq(v[p], x, x);
    lemma_covers_push(v, v, c, x, |k: int| k, p);
}

proof fn lemma_new_path_sorted(v: Seq<Seq<char>>, x: Seq<char>, p: int)
    requires
        path_sorted(v),
        0 <= p <= v.len(),
        forall|k: int| 0 <= k < p ==> path_lt(#[trigger] v[k], x),
        p < v.len() ==> path_lt(x, v[p]),
    ensures
        path_sorted(v.insert(p, x)),
{
    let w = v.insert(p, x);
    assert forall|a: int, b: int| 0 <= a < b < w.len() implies path_lt(#[trigger] w[a], #[trigger] w[b]) by {
        if b < p {
            assert(w[a] == v[a] && w[b] == v[b]);
        } else if b == p {
            assert(w[a] == v[a]);
        } else if a < p {
            assert(w[a] == v[a] && w[b] == v[b - 1]);
            lemma_path_lt_transitive(v[a], x, v[p]);
            if b - 1 > p {
                lemma_path_lt_transitive(v[a], v[p], v[b - 1]);
            }
        } else if a == p {
            assert(w[b] == v[b - 1]);
            if b - 1 > p {
                lemma_path_lt_transitive(x, v[p], v[b - 1]);
            }
        } else {
            assert(w[a] == v[a - 1] && w[b] == v[b - 1]);
        }
    }
}

proof fn lemma_new_path(v: Seq<Seq<char>>, c: Seq<Seq<char>>, x: Seq<char>, p: int)
    requires
        sorted_unique_paths(v, c),
        0 <= p <= v.len(),
        forall|k: int| 0 <= k < p ==> path_lt(#[trigger] v[k], x),
        p < v.len() ==> !path_lt(v[p], x) && !path_eq(v[p], x),
    ensures
        sorted_unique_paths(v.insert(p, x), c.push(x)),
{
    let c2 = c.push(x);
    let w = v.insert(p, x);
    if p < v.len() {
        lemma_path_lt_total(v[p], x);
    }
    lemma_new_path_sorted(v, x, p);
    assert forall|k: int| 0 <= k < v.len() implies !path_eq(#[trigger] v[k], x) by {
        if k < p {
            lemma_path_lt_total(v[k], x);
        } else if k > p {
            lemma_path_lt_total(v[p], v[k]);
            lemma_path_eq(v[p], v[k], x);
        }
    }
    lemma_first_new(v, c, x);
    assert forall|k: int| 0 <= k < w.len() implies first_of_class(c2, #[trigger] w[k]) by {
        if k < p {
            assert(w[k] == v[k]);
            lemma_firsts_at(v, c, k);
            lemma_first_extends(c, x, v[k]);
        } else if k > p {
            assert(w[k] == v[k - 1]);
            lemma_firsts_at(v, c, k - 1);
            lemma_first_extends(c, x, v[k - 1]);
        }
    }
    reveal(firsts);
    lemma_path_eq(x, x, x);
    assert(w[p] == x);
    lemma_covers_push(v, w, c, x, |k: int| if k < p { k } else { k + 1 }, p);
}

pub(crate) fn insert_sorted(out: &mut Vec<String>, x: String, Ghost(c): Ghost<Seq<Seq<char>>>)
    requires
        sorted_unique_paths(texts(old(out)@), c),
    ensures
        sorted_unique_paths(texts(final(out)@), c.push(x@)),
{
    let ghost v = texts(out@);
    let mut p: usize = 0;
    while p < out.len() && path_less(out[p].as_str(), x.as_str())
        invariant
            0 <= p <= out@.len(),
            v == texts(out@),
            forall|k: int| 0 <= k < p ==> path_lt(#[trigger] v[k], x@),
        decreases out.len() - p,
    {
        p += 1;
    }
    if p < out.len() && paths_equal(out[p].as_str(), x.as_str()) {
        proof {
            lemma_repeat_path(v, c, x@, p as int);
        }
        return;
    }
    proof {
        lemma_new_path(v, c, x@, p as int);
    }
    let ghost xv = x@;
    out.insert(p, x);
    assert(texts(out@) == v.insert(p as int, xv));
}

/// No paths, sorted, from no candidates.
pub proof fn empty_sorted_unique()
    ensures
        sorted_unique_paths(Seq::<Seq<char>>::empty(), Seq::<Seq<char>>::empty()),
{
    reveal(firsts);
    reveal(covers);
}

/// Adds the wallpapers that directory entries contribute to a sorted, repeat-free list.
pub(crate) fn add_entry_candidates(out: &mut Vec<String>, entries: &[DirEntry], Ghost(c0): Ghost<Seq<Seq<char>>>)
    requires
        sorted_unique_paths(texts(old(out)@), c0),
        old(out)@.len() == 0 <==> c0.len() == 0,
    ensures
        sorted_unique_paths(texts(final(out)@), c0 + candidates(entries@)),
        final(out)@.len() == 0 <==> (c0 + candidates(entries@)).len() == 0,
{
    let mut i: usize = 0;
    assert(c0 + candidates(entries@.take(0)) == c0) by {
        assert(entries@.take(0).len() == 0);
        assert(candidates(entries@.take(0)).len() == 0);
        assert(c0 + candidates(entries@.take(0)) =~= c0);
    }
    while i < entries.len()
        invariant
            0 <= i <= entries@.len(),
            sorted_unique_paths(texts(out@), c0 + candidates(entries@.take(i as int))),
            out@.len() == 0 <==> (c0 + candidates(entries@.take(i as int))).len() == 0,
        decreases entries.len() - i,
    {
        let ghost before = c0 + candidates(entries@.take(i as int));
        assert(entries@.take(i + 1).drop_last() == entries@.take(i as int));
        let e = &entries[i];
        if e.is_file && has_supported_extension(e.path.as_str()) {
            let p = match &e.canonical {
                Some(c) => c.clone(),
                None => e.path.clone(),
            };
            let ghost pv = p@;
            assert(candidates(entries@.take(i + 1)) == candidates(entries@.take(i as int)).push(pv));
            assert(c0 + candidates(entries@.take(i + 1)) =~= before.push(pv));
            insert_sorted(out, p, Ghost(before));
            proof {
                let c2 = before.push(pv);
                assert(c2[before.len() as int] == pv);
                let k = lemma_cover_at(texts(out@), c2, before.len() as int);
            }
        } else {
            assert(candidates(entries@.take(i + 1)) =~= candidates(entries@.take(i as int)));
        }
        i += 1;
    }
    assert(entries@.take(entries@.len() as int) == entries@);
}

/// The wallpapers of a collection directory: its files with a supported extension (each by
/// its resolved path when resolving succeeded), sorted as paths, each path once. An error
/// when the path is not a directory, or when no wallpaper is found.
pub fn collection_wallpapers(dir: &str, is_dir: bool, entries: &[DirEntry]) -> (r: Result<Vec<String>, String>)
    ensures
        !is_dir ==> (r matches Err(m) && m@ == "collection path is not a directory: "@ + dir@),
        is_dir && candidates(entries@).len() == 0 ==> (r matches Err(m) && m@
            == "collection has no supported wallpapers: "@ + dir@),
        is_dir && candidates(entries@).len() > 0 ==> (r matches Ok(v) && v@.len() > 0
            && sorted_unique_paths(texts(v@), candidates(entries@))),
{
    if !is_dir {
        return Err(cat("collection path is not a directory: ", dir));
    }
    let mut out: Vec<String> = Vec::new();
    proof {
        empty_sorted_unique();
        assert(texts(out@) =~= Seq::<Seq<char>>::empty());
    }
    add_entry_candidates(&mut out, entries, Ghost(Seq::<Seq<char>>::empty()));
    assert(Seq::<Seq<char>>::empty() + candidates(entries@) == candidates(entries@));
    if out.len() == 0 {
        return Err(cat("collection has no supported wallpapers: ", dir));
    }
    Ok(out)
}


/// With no saved position or saved wallpaper found in the collection, a persistent step starts
/// from the current wallpaper (`fallback`, the first entry that is its path): next gives the
/// entry after it and previous the entry before it, wrapping around; with more than one entry
/// neither is the current wallpaper's position, and with no repeated paths neither is the
/// current wallpaper.
pub proof fn lemma_step_from_current_wallpaper(
    c: Seq<Seq<char>>,
    st: Option<CollectionState>,
    fallback: Seq<char>,
    i: int,
)
    requires
        0 <= i < c.len(),
        path_eq(c[i], fallback),
        forall|j: int| 0 <= j < i ==> !path_eq(#[trigger] c[j], fallback),
        st matches Some(s) ==> (s.last_index matches Some(k) ==> k >= c.len()),
        st matches Some(s) ==> (s.last_wallpaper matches Some(w) ==> forall|j: int|
            0 <= j < c.len() ==> !path_eq(#[trigger] c[j], w@)),
    ensures
        relative_pick(c, st, Some(fallback), 1) == (i + 1) % (c.len() as int),
        relative_pick(c, st, Some(fallback), -1) == (i + c.len() - 1) % (c.len() as int),
        c.len() > 1 ==> relative_pick(c, st, Some(fallback), 1) != i && relative_pick(c, st, Some(fallback), -1)
            != i,
        c.len() > 1 && paths_distinct(c) ==> !path_eq(c[relative_pick(c, st, Some(fallback), 1)], fallback)
            && !path_eq(c[relative_pick(c, st, Some(fallback), -1)], fallback),
{
    let len = c.len() as int;
    lemma_find_path(c, fallback);
    if let Some(s) = st {
        if let Some(w) = s.last_wallpaper {
            lemma_find_path(c, w@);
        }
    }
    assert(index_of_spec(c, fallback) == Some(i));
    assert(current_index_spec(c, st, Some(fallback)) == Some(i));
    let nx = relative_pick(c, st, Some(fallback), 1);
    let pv = relative_pick(c, st, Some(fallback), -1);
    if i + 1 < len {
        assert((i + 1) % len == i + 1) by {
            vstd::arithmetic::div_mod::lemma_small_mod((i + 1) as nat, len as nat);
        }
    } else {
        assert((i + 1) % len == 0) by {
            vstd::arithmetic::div_mod::lemma_mod_self_0(len);
        }
    }
    if i > 0 {
        assert((i + len - 1) % len == i - 1) by {
            vstd::arithmetic::div_mod::lemma_mod_add_multiples_vanish(i - 1, len);
            vstd::arithmetic::div_mod::lemma_small_mod((i - 1) as nat, len as nat);
        }
    } else {
        assert((i + len - 1) % len == len - 1) by {
            vstd::arithmetic::div_mod::lemma_small_mod((len - 1) as nat, len as nat);
        }
    }
    if len > 1 && paths_distinct(c) {
        lemma_path_eq(c[i], fallback, c[i]);
        lemma_path_eq(c[nx], fallback, c[i]);
        lemma_path_eq(c[pv], fallback, c[i]);
        lemma_path_eq(c[nx], c[i], c[i]);
        lemma_path_eq(c[pv], c[i], c[i]);
        if nx < i {
            assert(!path_eq(c[nx], c[i]));
        } else if nx > i {
            assert(!path_eq(c[i], c[nx]));
        }
        if pv < i {
            assert(!path_eq(c[pv], c[i]));
        } else if pv > i {
            assert(!path_eq(c[i], c[pv]));
        }
    }
}


/// Saved progress decides where a persistent step starts: a saved position inside the
/// collection, first; else the first entry that is the saved wallpaper, whatever the current
/// wallpaper; with neither and no current wallpaper found, next gives the first entry and
/// previous the last.
pub proof fn lemma_step_from_saved_progress(c: Seq<Seq<char>>, s: CollectionState, fallback: Option<Seq<char>>)
    requires
        c.len() > 0,
    ensures
        s.last_index matches Some(k) ==> (k < c.len() ==> relative_pick(c, Some(s), fallback, 1) == (k + 1) % (
        c.len() as int) && relative_pick(c, Some(s), fallback, -1) == (k + c.len() - 1) % (c.len() as int)),
        forall|i: int|
            #![trigger c[i]]
            0 <= i < c.len() && !(s.last_index matches Some(k) && k < c.len()) && (s.last_wallpaper matches Some(
                w,
            ) && path_eq(c[i], w@) && forall|j: int| 0 <= j < i ==> !path_eq(#[trigger] c[j], w@))
                ==> relative_pick(c, Some(s), fallback, 1) == (i + 1) % (c.len() as int),
        (!(s.last_index matches Some(k) && k < c.len()) && (s.last_wallpaper matches Some(w) ==> forall|j: int|
            0 <= j < c.len() ==> !path_eq(#[trigger] c[j], w@)) && (fallback matches Some(f) ==> forall|j: int|
            0 <= j < c.len() ==> !path_eq(#[trigger] c[j], f))) ==> relative_pick(c, Some(s), fallback, 1) == 0
            && relative_pick(c, Some(s), fallback, -1) == c.len() - 1,
{
    let len = c.len() as int;
    if let Some(w) = s.last_wallpaper {
        lemma_find_path(c, w@);
    }
    if let Some(f) = fallback {
        lemma_find_path(c, f);
    }
    if let Some(k) = s.last_index {
        if k < len {
            lemma_wrap_steps(k as int, len);
        }
    }
    assert forall|i: int|
        #![trigger c[i]]
        0 <= i < c.len() && !(s.last_index matches Some(k) && k < c.len()) && (s.last_wallpaper matches Some(w)
            && path_eq(c[i], w@) && forall|j: int| 0 <= j < i ==> !path_eq(#[trigger] c[j], w@))
            implies relative_pick(c, Some(s), fallback, 1) == (i + 1) % (c.len() as int) by {
        let w = s.last_wallpaper.unwrap();
        assert(index_of_spec(c, w@) == Some(i));
        lemma_wrap_steps(i, len);
    }
}

/// One step forward or back from `i`, wrapping around `len` entries, as remainders.
proof fn lemma_wrap_steps(i: int, len: int)
    requires
        0 <= i < len,
    ensures
        (i + 1) % len == (if i + 1 == len { 0 } else { i + 1 }),
        (i + len - 1) % len == (if i == 0 { len - 1 } else { i - 1 }),
{
    if i + 1 < len {
        vstd::arithmetic::div_mod::lemma_small_mod((i + 1) as nat, len as nat);
    } else {
        vstd::arithmetic::div_mod::lemma_mod_self_0(len);
    }
    if i > 0 {
        vstd::arithmetic::div_mod::lemma_mod_add_multiples_vanish(i - 1, len);
        vstd::arithmetic::div_mod::lemma_small_mod((i - 1) as nat, len as nat);
    } else {
        vstd::arithmetic::div_mod::lemma_small_mod((len - 1) as nat, len as nat);
    }
}

} // verus!
