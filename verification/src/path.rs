//! Unix paths as text, with the meaning that `std::path::Path` gives them.
//!
//! A path is held as a `String`. Its components are computed as
//! `Path::components` computes them on Unix: a leading `/` is the root, empty
//! parts and `.` parts are dropped (a `.` that starts a relative path is kept),
//! `..` stays. A component is written as its text: `/` for the root, `.` for the
//! current directory, `..` for the parent and the name itself otherwise. Two
//! paths are equal when their components are, and they are ordered as
//! `Path`'s `Ord` orders them: component by component, the root before `.`,
//! `.` before `..`, `..` before any name, and names by their characters.
use vstd::prelude::*;
use crate::text::{chars_of, seq_eq, string_of, string_of_range, cat3, owned};

verus! {

// ---------------------------------------------------------------------------
// Components
// ---------------------------------------------------------------------------

/// The component that one `/`-separated part contributes (`first`: it starts a relative path).
pub open spec fn part_component(part: Seq<char>, first: bool) -> Seq<Seq<char>> {
    if part.len() == 0 {
        seq![]
    } else if part == seq!['.'] {
        if first {
            seq![part]
        } else {
            seq![]
        }
    } else {
        seq![part]
    }
}

/// Components of the rest of a path after its root, `cur` being the part already read.
pub open spec fn comps_from(s: Seq<char>, cur: Seq<char>, first: bool) -> Seq<Seq<char>>
    decreases s.len(),
{
    if s.len() == 0 {
        part_component(cur, first)
    } else if s[0] == '/' {
        part_component(cur, first) + comps_from(s.drop_first(), seq![], false)
    } else {
        comps_from(s.drop_first(), cur.push(s[0]), first)
    }
}

/// `Path::components`, each component written as its text.
pub open spec fn components(s: Seq<char>) -> Seq<Seq<char>> {
    if s.len() > 0 && s[0] == '/' {
        seq![seq!['/']] + comps_from(s.drop_first(), seq![], false)
    } else {
        comps_from(s, seq![], true)
    }
}

pub open spec fn comps_view(r: Seq<Vec<char>>) -> Seq<Seq<char>> {
    r.map_values(|c: Vec<char>| c@)
}

/// A component that is a name (not the root, `.` or `..`).
pub open spec fn is_normal(c: Seq<char>) -> bool {
    c != seq!['/'] && c != seq!['.'] && c != seq!['.', '.']
}

/// The components of a path.
pub fn path_components(s: &str) -> (r: Vec<Vec<char>>)
    ensures
        comps_view(r@) == components(s@),
{
    let v = chars_of(s);
    let mut out: Vec<Vec<char>> = Vec::new();
    let mut i: usize = 0;
    let mut first = true;
    let ghost start = s@;
    if v.len() > 0 && v[0] == '/' {
        let mut root: Vec<char> = Vec::new();
        root.push('/');
        assert(root@ =~= seq!['/']);
        out.push(root);
        i = 1;
        first = false;
        assert(comps_view(out@) =~= seq![seq!['/']]);
        assert(v@.skip(1) == s@.drop_first());
    } else {
        assert(comps_view(out@) =~= Seq::<Seq<char>>::empty());
        assert(v@.skip(0) == v@);
        assert(Seq::<Seq<char>>::empty() + comps_from(s@, seq![], true) =~= comps_from(s@, seq![], true));
    }
    let mut cur: Vec<char> = Vec::new();
    assert(cur@ =~= Seq::<char>::empty());
    while i < v.len()
        invariant
            0 <= i <= v.len(),
            v@ == s@,
            comps_view(out@) + comps_from(v@.skip(i as int), cur@, first) == components(s@),
        decreases v.len() - i,
    {
        let ghost before = comps_view(out@);
        assert(v@.skip(i as int).drop_first() == v@.skip(i + 1));
        if v[i] == '/' {
            let ghost part = part_component(cur@, first);
            push_part(&mut out, cur, first);
            assert(before + (part + comps_from(v@.skip(i + 1), seq![], false)) == (before + part)
                + comps_from(v@.skip(i + 1), seq![], false));
            cur = Vec::new();
            assert(cur@ =~= Seq::<char>::empty());
            first = false;
        } else {
            cur.push(v[i]);
        }
        i += 1;
    }
    assert(v@.skip(i as int).len() == 0);
    push_part(&mut out, cur, first);
    out
}

/// Appends the component of one part, if it gives one.
fn push_part(out: &mut Vec<Vec<char>>, part: Vec<char>, first: bool)
    ensures
        comps_view(final(out)@) == comps_view(old(out)@) + part_component(part@, first),
{
    let ghost before = comps_view(out@);
    if part.len() == 0 {
        assert(comps_view(out@) + part_component(part@, first) =~= comps_view(out@));
        return;
    }
    let is_dot = part.len() == 1 && part[0] == '.';
    assert(is_dot == (part@ == seq!['.'])) by {
        if part@ == seq!['.'] {
            assert(part@[0] == '.');
        }
        if is_dot {
            assert(part@ =~= seq!['.']);
        }
    }
    if is_dot && !first {
        assert(comps_view(out@) + part_component(part@, first) =~= comps_view(out@));
        return;
    }
    let ghost pv = part@;
    out.push(part);
    assert(comps_view(out@) =~= before + seq![pv]);
}

// ---------------------------------------------------------------------------
// Equality and order
// ---------------------------------------------------------------------------

/// Characters compared one by one, a proper prefix first (`str`'s `Ord`).
pub open spec fn seq_lt(a: Seq<char>, b: Seq<char>) -> bool
    decreases a.len(),
{
    if a.len() == 0 {
        b.len() > 0
    } else if b.len() == 0 {
        false
    } else if a[0] < b[0] {
        true
    } else if a[0] > b[0] {
        false
    } else {
        seq_lt(a.drop_first(), b.drop_first())
    }
}

/// The rank of a component in `Component`'s order: root, `.`, `..`, then names.
pub open spec fn rank(c: Seq<char>) -> int {
    if c == seq!['/'] {
        0
    } else if c == seq!['.'] {
        1
    } else if c == seq!['.', '.'] {
        2
    } else {
        3
    }
}

pub open spec fn comp_lt(a: Seq<char>, b: Seq<char>) -> bool {
    rank(a) < rank(b) || (rank(a) == 3 && rank(b) == 3 && seq_lt(a, b))
}

/// Component lists compared one by one, a proper prefix first.
pub open spec fn comps_lt(a: Seq<Seq<char>>, b: Seq<Seq<char>>) -> bool
    decreases a.len(),
{
    if a.len() == 0 {
        b.len() > 0
    } else if b.len() == 0 {
        false
    } else if comp_lt(a[0], b[0]) {
        true
    } else if a[0] != b[0] {
        false
    } else {
        comps_lt(a.drop_first(), b.drop_first())
    }
}

/// `Path == Path`: the same components.
#[verifier::opaque]
pub open spec fn path_eq(a: Seq<char>, b: Seq<char>) -> bool {
    components(a) == components(b)
}

/// `Path < Path`.
#[verifier::opaque]
pub open spec fn path_lt(a: Seq<char>, b: Seq<char>) -> bool {
    comps_lt(components(a), components(b))
}

/// `str < str`.
pub fn str_lt(a: &Vec<char>, b: &Vec<char>) -> (r: bool)
    ensures
        r == seq_lt(a@, b@),
{
    let mut i: usize = 0;
    assert(a@.skip(0) == a@);
    assert(b@.skip(0) == b@);
    while i < a.len() && i < b.len() && a[i] == b[i]
        invariant
            0 <= i <= a.len(),
            i <= b.len(),
            seq_lt(a@, b@) == seq_lt(a@.skip(i as int), b@.skip(i as int)),
        decreases a.len() - i,
    {
        assert(a@.skip(i as int).drop_first() == a@.skip(i + 1));
        assert(b@.skip(i as int).drop_first() == b@.skip(i + 1));
        i += 1;
    }
    if i == a.len() {
        i < b.len()
    } else if i == b.len() {
        false
    } else {
        a[i] < b[i]
    }
}

fn rank_exec(c: &Vec<char>) -> (r: u8)
    ensures
        r as int == rank(c@),
{
    if c.len() == 1 && c[0] == '/' {
        assert(c@ =~= seq!['/']);
        0
    } else if c.len() == 1 && c[0] == '.' {
        assert(c@ =~= seq!['.']);
        assert(c@ != seq!['/']);
        1
    } else if c.len() == 2 && c[0] == '.' && c[1] == '.' {
        assert(c@ =~= seq!['.', '.']);
        2
    } else {
        assert(c@ != seq!['/']) by {
            if c@ == seq!['/'] {
                assert(c@[0] == '/');
            }
        }
        assert(c@ != seq!['.']) by {
            if c@ == seq!['.'] {
                assert(c@[0] == '.');
            }
        }
        assert(c@ != seq!['.', '.']) by {
            if c@ == seq!['.', '.'] {
                assert(c@[0] == '.' && c@[1] == '.');
            }
        }
        3
    }
}

fn comp_lt_exec(a: &Vec<char>, b: &Vec<char>) -> (r: bool)
    ensures
        r == comp_lt(a@, b@),
{
    let ra = rank_exec(a);
    let rb = rank_exec(b);
    ra < rb || (ra == 3 && rb == 3 && str_lt(a, b))
}

fn comps_eq_at(a: &Vec<Vec<char>>, b: &Vec<Vec<char>>, i: usize) -> (r: bool)
    requires
        i < a.len(),
        i < b.len(),
    ensures
        r == (a@[i as int]@ == b@[i as int]@),
{
    seq_eq(&a[i], &b[i])
}

/// Whether two paths are equal as `Path`s.
pub fn paths_equal(a: &str, b: &str) -> (r: bool)
    ensures
        r == path_eq(a@, b@),
{
    reveal(path_eq);
    let ca = path_components(a);
    let cb = path_components(b);
    assert(comps_view(ca@).len() == ca@.len());
    assert(comps_view(cb@).len() == cb@.len());
    if ca.len() != cb.len() {
        return false;
    }
    let mut i: usize = 0;
    while i < ca.len()
        invariant
            ca.len() == cb.len(),
            comps_view(ca@) == components(a@),
            comps_view(cb@) == components(b@),
            0 <= i <= ca.len(),
            forall|j: int| 0 <= j < i ==> ca@[j]@ == cb@[j]@,
        decreases ca.len() - i,
    {
        if !comps_eq_at(&ca, &cb, i) {
            assert(comps_view(ca@)[i as int] == ca@[i as int]@);
            assert(comps_view(cb@)[i as int] == cb@[i as int]@);
            assert(comps_view(ca@)[i as int] != comps_view(cb@)[i as int]);
            reveal(path_eq);
            return false;
        }
        i += 1;
    }
    assert(comps_view(ca@) =~= comps_view(cb@));
    true
}

/// Whether `a < b` as `Path`s.
pub fn path_less(a: &str, b: &str) -> (r: bool)
    ensures
        r == path_lt(a@, b@),
{
    reveal(path_lt);
    let ca = path_components(a);
    let cb = path_components(b);
    let ghost va = comps_view(ca@);
    let ghost vb = comps_view(cb@);
    let mut i: usize = 0;
    assert(va.skip(0) == va);
    assert(vb.skip(0) == vb);
    while i < ca.len() && i < cb.len() && comps_eq_at(&ca, &cb, i)
        invariant
            0 <= i <= ca.len(),
            i <= cb.len(),
            va == comps_view(ca@),
            vb == comps_view(cb@),
            comps_lt(va, vb) == comps_lt(va.skip(i as int), vb.skip(i as int)),
        decreases ca.len() - i,
    {
        assert(va.skip(i as int).drop_first() == va.skip(i + 1));
        assert(vb.skip(i as int).drop_first() == vb.skip(i + 1));
        assert(va.skip(i as int)[0] == vb.skip(i as int)[0]);
        assert(!comp_lt(va.skip(i as int)[0], vb.skip(i as int)[0])) by {
            let x = va.skip(i as int)[0];
            lemma_seq_lt_irreflexive(x);
        }
        i += 1;
    }
    if i == ca.len() {
        i < cb.len()
    } else if i == cb.len() {
        false
    } else {
        assert(va.skip(i as int)[0] == va[i as int]);
        assert(vb.skip(i as int)[0] == vb[i as int]);
        comp_lt_exec(&ca[i], &cb[i])
    }
}

pub proof fn lemma_seq_lt_irreflexive(a: Seq<char>)
    ensures
        !seq_lt(a, a),
    decreases a.len(),
{
    if a.len() > 0 {
        lemma_seq_lt_irreflexive(a.drop_first());
    }
}

pub proof fn lemma_seq_lt_trichotomy(a: Seq<char>, b: Seq<char>)
    ensures
        a == b || seq_lt(a, b) || seq_lt(b, a),
        !(seq_lt(a, b) && seq_lt(b, a)),
    decreases a.len(),
{
    if a.len() > 0 && b.len() > 0 && a[0] == b[0] {
        lemma_seq_lt_trichotomy(a.drop_first(), b.drop_first());
        if a.drop_first() == b.drop_first() {
            assert forall|i: int| 0 <= i < a.len() implies a[i] == b[i] by {
                if i > 0 {
                    assert(a[i] == a.drop_first()[i - 1]);
                    assert(b[i] == b.drop_first()[i - 1]);
                }
            }
            assert(a =~= b);
        }
    }
    if a.len() == 0 && b.len() == 0 {
        assert(a =~= b);
    }
}

pub proof fn lemma_seq_lt_transitive(a: Seq<char>, b: Seq<char>, c: Seq<char>)
    requires
        seq_lt(a, b),
        seq_lt(b, c),
    ensures
        seq_lt(a, c),
    decreases a.len(),
{
    if a.len() > 0 && b.len() > 0 && c.len() > 0 && a[0] == b[0] && b[0] == c[0] {
        lemma_seq_lt_transitive(a.drop_first(), b.drop_first(), c.drop_first());
    }
}

pub proof fn lemma_comp_lt_total(a: Seq<char>, b: Seq<char>)
    ensures
        a == b || comp_lt(a, b) || comp_lt(b, a),
        !(comp_lt(a, b) && comp_lt(b, a)),
        !comp_lt(a, a),
{
    lemma_seq_lt_trichotomy(a, b);
    lemma_seq_lt_irreflexive(a);
}

pub proof fn lemma_comp_lt_transitive(a: Seq<char>, b: Seq<char>, c: Seq<char>)
    requires
        comp_lt(a, b),
        comp_lt(b, c),
    ensures
        comp_lt(a, c),
{
    if rank(a) == 3 && rank(b) == 3 && rank(c) == 3 {
        lemma_seq_lt_transitive(a, b, c);
    }
}

pub proof fn lemma_comps_lt_irreflexive(a: Seq<Seq<char>>)
    ensures
        !comps_lt(a, a),
    decreases a.len(),
{
    if a.len() > 0 {
        lemma_comp_lt_total(a[0], a[0]);
        lemma_comps_lt_irreflexive(a.drop_first());
    }
}

pub proof fn lemma_comps_lt_trichotomy(a: Seq<Seq<char>>, b: Seq<Seq<char>>)
    ensures
        a == b || comps_lt(a, b) || comps_lt(b, a),
        !(comps_lt(a, b) && comps_lt(b, a)),
    decreases a.len(),
{
    if a.len() > 0 && b.len() > 0 {
        lemma_comp_lt_total(a[0], b[0]);
        if a[0] == b[0] {
            lemma_comps_lt_trichotomy(a.drop_first(), b.drop_first());
            if a.drop_first() == b.drop_first() {
                assert forall|i: int| 0 <= i < a.len() implies a[i] == b[i] by {
                    if i > 0 {
                        assert(a[i] == a.drop_first()[i - 1]);
                        assert(b[i] == b.drop_first()[i - 1]);
                    }
                }
                assert(a =~= b);
            }
        }
    }
    if a.len() == 0 && b.len() == 0 {
        assert(a =~= b);
    }
}

pub proof fn lemma_comps_lt_transitive(a: Seq<Seq<char>>, b: Seq<Seq<char>>, c: Seq<Seq<char>>)
    requires
        comps_lt(a, b),
        comps_lt(b, c),
    ensures
        comps_lt(a, c),
    decreases a.len(),
{
    if a.len() > 0 && b.len() > 0 && c.len() > 0 {
        lemma_comp_lt_total(a[0], b[0]);
        lemma_comp_lt_total(b[0], c[0]);
        lemma_comp_lt_total(a[0], c[0]);
        if comp_lt(a[0], b[0]) && comp_lt(b[0], c[0]) {
            lemma_comp_lt_transitive(a[0], b[0], c[0]);
        } else if a[0] == b[0] && b[0] == c[0] {
            lemma_comps_lt_transitive(a.drop_first(), b.drop_first(), c.drop_first());
        }
    }
}

/// `Path`'s order is a strict total order up to `Path` equality.
pub proof fn lemma_path_lt_total(a: Seq<char>, b: Seq<char>)
    ensures
        path_eq(a, b) || path_lt(a, b) || path_lt(b, a),
        !(path_lt(a, b) && path_lt(b, a)),
        path_eq(a, b) ==> !path_lt(a, b),
{
    reveal(path_eq);
    reveal(path_lt);
    lemma_comps_lt_trichotomy(components(a), components(b));
    lemma_comps_lt_irreflexive(components(a));
}

pub proof fn lemma_path_lt_transitive(a: Seq<char>, b: Seq<char>, c: Seq<char>)
    requires
        path_lt(a, b),
        path_lt(b, c),
    ensures
        path_lt(a, c),
{
    reveal(path_lt);
    lemma_comps_lt_transitive(components(a), components(b), components(c));
}

/// `Path` equality is an equivalence, and `<` reads paths only up to it.
pub proof fn lemma_path_eq(a: Seq<char>, b: Seq<char>, c: Seq<char>)
    ensures
        path_eq(a, a),
        path_eq(a, b) ==> path_eq(b, a),
        path_eq(a, b) && path_eq(b, c) ==> path_eq(a, c),
        path_eq(b, c) ==> (path_lt(a, b) == path_lt(a, c)) && (path_lt(b, a) == path_lt(c, a)),
{
    reveal(path_eq);
    reveal(path_lt);
}

// ---------------------------------------------------------------------------
// Names and extensions
// ---------------------------------------------------------------------------

/// `Path::file_name`: the last component when it is a name.
pub open spec fn file_name(s: Seq<char>) -> Option<Seq<char>> {
    let c = components(s);
    if c.len() > 0 && is_normal(c.last()) {
        Some(c.last())
    } else {
        None
    }
}

/// Position of the last `.` in a name, or `-1`.
pub open spec fn last_dot(name: Seq<char>) -> int
    decreases name.len(),
{
    if name.len() == 0 {
        -1
    } else if name.last() == '.' {
        name.len() - 1
    } else {
        last_dot(name.drop_last())
    }
}

pub proof fn lemma_last_dot(name: Seq<char>)
    ensures
        -1 <= last_dot(name) < name.len(),
        last_dot(name) >= 0 ==> name[last_dot(name)] == '.',
        forall|j: int| last_dot(name) < j < name.len() ==> name[j] != '.',
    decreases name.len(),
{
    if name.len() > 0 && name.last() != '.' {
        lemma_last_dot(name.drop_last());
        assert forall|j: int| last_dot(name) < j < name.len() implies name[j] != '.' by {
            if j < name.len() - 1 {
                assert(name[j] == name.drop_last()[j]);
            }
        }
    }
}

/// The extension of a file name, as `Path::extension` takes it from the name.
pub open spec fn name_extension(name: Seq<char>) -> Option<Seq<char>> {
    if name == seq!['.', '.'] || last_dot(name) <= 0 {
        None
    } else {
        Some(name.skip(last_dot(name) + 1))
    }
}

/// The stem of a file name, as `Path::file_stem` takes it from the name.
pub open spec fn name_stem(name: Seq<char>) -> Seq<char> {
    if name == seq!['.', '.'] || last_dot(name) <= 0 {
        name
    } else {
        name.take(last_dot(name))
    }
}

/// `Path::extension`.
pub open spec fn extension(s: Seq<char>) -> Option<Seq<char>> {
    match file_name(s) {
        Some(name) => name_extension(name),
        None => None,
    }
}

/// `Path::file_stem`.
pub open spec fn file_stem(s: Seq<char>) -> Option<Seq<char>> {
    match file_name(s) {
        Some(name) => Some(name_stem(name)),
        None => None,
    }
}

/// `Path::file_name`.
pub fn path_file_name(s: &str) -> (r: Option<String>)
    ensures
        r is Some <==> file_name(s@) is Some,
        r matches Some(name) ==> Some(name@) == file_name(s@),
{
    let comps = path_components(s);
    if comps.len() == 0 {
        return None;
    }
    let last = &comps[comps.len() - 1];
    assert(comps_view(comps@).last() == last@);
    let r = rank_exec(last);
    if r != 3 {
        return None;
    }
    Some(string_of(last))
}

fn find_last_dot(v: &Vec<char>) -> (k: usize)
    ensures
        k as int == last_dot(v@) + 1,
        k <= v.len(),
{
    proof {
        lemma_last_dot(v@);
    }
    let mut k = v.len();
    while k > 0 && v[k - 1] != '.'
        invariant
            0 <= k <= v.len(),
            forall|j: int| k <= j < v.len() ==> v@[j] != '.',
        decreases k,
    {
        k -= 1;
    }
    proof {
        let d = last_dot(v@);
        if d + 1 < k {
            assert(v@[d] == '.');
        }
        if d + 1 > k {
            assert(v@[k - 1] == '.');
        }
    }
    k
}

fn is_dot_dot(v: &Vec<char>) -> (r: bool)
    ensures
        r == (v@ == seq!['.', '.']),
{
    if v.len() == 2 && v[0] == '.' && v[1] == '.' {
        assert(v@ =~= seq!['.', '.']);
        true
    } else {
        assert(v@ != seq!['.', '.']) by {
            if v@ == seq!['.', '.'] {
                assert(v@[0] == '.' && v@[1] == '.');
            }
        }
        false
    }
}

/// The extension of a file name.
pub fn name_extension_of(name: &str) -> (r: Option<String>)
    ensures
        r is Some <==> name_extension(name@) is Some,
        r matches Some(e) ==> Some(e@) == name_extension(name@),
{
    let v = chars_of(name);
    let k = find_last_dot(&v);
    if is_dot_dot(&v) || k <= 1 {
        None
    } else {
        Some(string_of_range(&v, k, v.len()))
    }
}

/// The stem of a file name.
pub fn name_stem_of(name: &str) -> (r: String)
    ensures
        r@ == name_stem(name@),
{
    let v = chars_of(name);
    let k = find_last_dot(&v);
    if is_dot_dot(&v) || k <= 1 {
        owned(name)
    } else {
        string_of_range(&v, 0, k - 1)
    }
}

/// `Path::extension`.
pub fn path_extension(s: &str) -> (r: Option<String>)
    ensures
        r is Some <==> extension(s@) is Some,
        r matches Some(e) ==> Some(e@) == extension(s@),
{
    match path_file_name(s) {
        Some(name) => name_extension_of(&name),
        None => None,
    }
}

/// `Path::file_stem`.
pub fn path_file_stem(s: &str) -> (r: Option<String>)
    ensures
        r is Some <==> file_stem(s@) is Some,
        r matches Some(e) ==> Some(e@) == file_stem(s@),
{
    match path_file_name(s) {
        Some(name) => Some(name_stem_of(&name)),
        None => None,
    }
}

// ---------------------------------------------------------------------------
// Joining and prefixes
// ---------------------------------------------------------------------------

/// `Path::join` (`PathBuf::push`): an absolute `rest` replaces `base`, else a `/` is put
/// between them when `base` is not empty and does not end with one.
pub open spec fn join(base: Seq<char>, rest: Seq<char>) -> Seq<char> {
    if rest.len() > 0 && rest[0] == '/' {
        rest
    } else if base.len() > 0 && base.last() != '/' {
        base + seq!['/'] + rest
    } else {
        base + rest
    }
}

/// `Path::join`.
pub fn path_join(base: &str, rest: &str) -> (r: String)
    ensures
        r@ == join(base@, rest@),
{
    let b = chars_of(base);
    let t = chars_of(rest);
    if t.len() > 0 && t[0] == '/' {
        owned(rest)
    } else if b.len() > 0 && b[b.len() - 1] != '/' {
        proof {
            reveal_strlit("/");
        }
        cat3(base, "/", rest)
    } else {
        let mut r = owned(base);
        r.append(rest);
        r
    }
}

/// `Path::starts_with`: the components of `base` begin those of `path`.
pub open spec fn path_starts_with(path: Seq<char>, base: Seq<char>) -> bool {
    components(base).len() <= components(path).len() && components(path).take(
        components(base).len() as int,
    ) == components(base)
}

/// `Path::starts_with`.
pub fn path_has_prefix(path: &str, base: &str) -> (r: bool)
    ensures
        r == path_starts_with(path@, base@),
{
    let cp = path_components(path);
    let cb = path_components(base);
    assert(comps_view(cp@).len() == cp@.len());
    assert(comps_view(cb@).len() == cb@.len());
    if cb.len() > cp.len() {
        return false;
    }
    let mut i: usize = 0;
    while i < cb.len()
        invariant
            cb.len() <= cp.len(),
            comps_view(cp@) == components(path@),
            comps_view(cb@) == components(base@),
            0 <= i <= cb.len(),
            forall|j: int| 0 <= j < i ==> cp@[j]@ == cb@[j]@,
        decreases cb.len() - i,
    {
        if !comps_eq_at(&cp, &cb, i) {
            assert(comps_view(cp@)[i as int] == cp@[i as int]@);
            assert(comps_view(cb@)[i as int] == cb@[i as int]@);
            assert(comps_view(cp@).take(cb.len() as int)[i as int] != comps_view(cb@)[i as int]);
            return false;
        }
        i += 1;
    }
    assert(comps_view(cp@).take(cb.len() as int) =~= comps_view(cb@));
    true
}

} // verus!
