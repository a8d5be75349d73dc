//! The order of relative paths: component by component, each component
//! compared character by character (for UTF-8 text, the same as comparing
//! bytes), a path sorting before any longer path it begins. Paths are in the
//! portable form described in `scanner`: component names joined by `/`.
use vstd::prelude::*;
use crate::text::{char_views, chars_eq, chars_of};

verus! {

/// The pieces of a `/`-separated path, between its slashes (an empty piece
/// where two slashes meet or at either end).
pub open spec fn pieces(p: Seq<char>) -> Seq<Seq<char>>
    decreases p.len(),
{
    if p.len() == 0 {
        seq![Seq::<char>::empty()]
    } else {
        let q = pieces(p.drop_last());
        if p.last() == '/' {
            q.push(Seq::<char>::empty())
        } else {
            q.update(q.len() - 1, q.last().push(p.last()))
        }
    }
}

/// A piece that names something: not empty and not `.`.
pub open spec fn is_plain_piece(s: Seq<char>) -> bool {
    s.len() > 0 && s != "."@
}

/// The pieces that name something, in order.
pub open spec fn kept_pieces(ps: Seq<Seq<char>>) -> Seq<Seq<char>>
    decreases ps.len(),
{
    if ps.len() == 0 {
        ps
    } else {
        let r = kept_pieces(ps.drop_last());
        if is_plain_piece(ps.last()) {
            r.push(ps.last())
        } else {
            r
        }
    }
}

/// The components of a relative path: what `Path::components` gives for a
/// relative path whose components are all plain names.
pub open spec fn path_components(p: Seq<char>) -> Seq<Seq<char>> {
    kept_pieces(pieces(p))
}

fn is_plain(cur: &Vec<char>) -> (r: bool)
    ensures
        r == is_plain_piece(cur@),
{
    cur.len() > 0 && !chars_eq(cur, &chars_of("."))
}

/// Splits a relative path into its components.
pub fn path_components_of(path: &str) -> (r: Vec<Vec<char>>)
    ensures
        char_views(r@) == path_components(path@),
{
    let v = chars_of(path);
    let mut comps: Vec<Vec<char>> = Vec::new();
    let mut cur: Vec<char> = Vec::new();
    let mut i: usize = 0;
    assert(v@.take(0) =~= Seq::<char>::empty());
    while i < v.len()
        invariant
            i <= v.len(),
            pieces(v@.take(i as int)).len() >= 1,
            pieces(v@.take(i as int)).last() == cur@,
            char_views(comps@) == kept_pieces(pieces(v@.take(i as int)).drop_last()),
        decreases v.len() - i,
    {
        let ghost t = v@.take(i + 1);
        let ghost q = pieces(v@.take(i as int));
        assert(t.drop_last() =~= v@.take(i as int));
        assert(t.last() == v@[i as int]);
        let c = v[i];
        if c == '/' {
            let ghost before = comps@;
            assert(q.push(Seq::<char>::empty()).drop_last() =~= q);
            if is_plain(&cur) {
                comps.push(cur);
                assert(char_views(comps@) =~= char_views(before).push(q.last()));
            }
            cur = Vec::new();
        } else {
            let ghost old_cur = cur@;
            cur.push(c);
            assert(q.update(q.len() - 1, q.last().push(c)).drop_last() =~= q.drop_last());
        }
        i = i + 1;
    }
    assert(v@.take(v.len() as int) =~= v@);
    if is_plain(&cur) {
        let ghost before = comps@;
        comps.push(cur);
        assert(char_views(comps@) =~= char_views(before).push(pieces(v@).last()));
    }
    comps
}

/// Character-by-character order of two texts: negative, zero or positive.
pub open spec fn compare_chars(a: Seq<char>, b: Seq<char>) -> int
    decreases a.len(),
{
    if a.len() == 0 {
        if b.len() == 0 {
            0
        } else {
            -1
        }
    } else if b.len() == 0 {
        1
    } else if a[0] < b[0] {
        -1
    } else if a[0] > b[0] {
        1
    } else {
        compare_chars(a.drop_first(), b.drop_first())
    }
}

/// Component-by-component order of two component lists.
pub open spec fn compare_paths(a: Seq<Seq<char>>, b: Seq<Seq<char>>) -> int
    decreases a.len(),
{
    if a.len() == 0 {
        if b.len() == 0 {
            0
        } else {
            -1
        }
    } else if b.len() == 0 {
        1
    } else if compare_chars(a[0], b[0]) != 0 {
        compare_chars(a[0], b[0])
    } else {
        compare_paths(a.drop_first(), b.drop_first())
    }
}

/// Whether path `a` sorts no later than path `b`.
pub open spec fn path_le(a: Seq<char>, b: Seq<char>) -> bool {
    compare_paths(path_components(a), path_components(b)) <= 0
}

/// The character order is a three-way comparison that flips with its arguments
/// and is zero only for equal texts.
pub proof fn lemma_compare_chars_basics(a: Seq<char>, b: Seq<char>)
    ensures
        -1 <= compare_chars(a, b) <= 1,
        compare_chars(a, b) == -compare_chars(b, a),
        compare_chars(a, b) == 0 <==> a == b,
    decreases a.len(),
{
    if a.len() == 0 && b.len() == 0 {
        assert(a =~= b);
    } else if a.len() > 0 && b.len() > 0 && a[0] == b[0] {
        lemma_compare_chars_basics(a.drop_first(), b.drop_first());
        if a.drop_first() == b.drop_first() {
            assert(a =~= seq![a[0]] + a.drop_first());
            assert(b =~= seq![b[0]] + b.drop_first());
            assert(a =~= b);
        }
        if a == b {
            assert(a.drop_first() =~= b.drop_first());
        }
    } else if a.len() > 0 && b.len() > 0 {
        assert(a != b);
    } else {
        assert(a.len() != b.len());
    }
}

/// The character order is transitive.
pub proof fn lemma_compare_chars_transitive(a: Seq<char>, b: Seq<char>, c: Seq<char>)
    requires
        compare_chars(a, b) <= 0,
        compare_chars(b, c) <= 0,
    ensures
        compare_chars(a, c) <= 0,
    decreases a.len(),
{
    if a.len() > 0 && b.len() > 0 && c.len() > 0 && a[0] == b[0] && b[0] == c[0] {
        lemma_compare_chars_transitive(a.drop_first(), b.drop_first(), c.drop_first());
    }
}

/// The path order is a three-way comparison that flips with its arguments and
/// is zero only for equal component lists.
pub proof fn lemma_compare_paths_basics(a: Seq<Seq<char>>, b: Seq<Seq<char>>)
    ensures
        -1 <= compare_paths(a, b) <= 1,
        compare_paths(a, b) == -compare_paths(b, a),
        compare_paths(a, b) == 0 <==> a == b,
    decreases a.len(),
{
    if a.len() == 0 && b.len() == 0 {
        assert(a =~= b);
    } else if a.len() > 0 && b.len() > 0 {
        lemma_compare_chars_basics(a[0], b[0]);
        lemma_compare_paths_basics(a.drop_first(), b.drop_first());
        if a[0] == b[0] && a.drop_first() == b.drop_first() {
            assert(a =~= seq![a[0]] + a.drop_first());
            assert(b =~= seq![b[0]] + b.drop_first());
            assert(a =~= b);
        }
        if a == b {
            assert(a.drop_first() =~= b.drop_first());
        }
    } else {
        assert(a.len() != b.len());
    }
}

/// The path order is transitive.
pub proof fn lemma_compare_paths_transitive(a: Seq<Seq<char>>, b: Seq<Seq<char>>, c: Seq<Seq<char>>)
    requires
        compare_paths(a, b) <= 0,
        compare_paths(b, c) <= 0,
    ensures
        compare_paths(a, c) <= 0,
    decreases a.len(),
{
    if a.len() > 0 && b.len() > 0 && c.len() > 0 {
        lemma_compare_chars_basics(a[0], b[0]);
        lemma_compare_chars_basics(b[0], c[0]);
        lemma_compare_chars_basics(a[0], c[0]);
        if compare_chars(a[0], b[0]) <= 0 && compare_chars(b[0], c[0]) <= 0 {
            lemma_compare_chars_transitive(a[0], b[0], c[0]);
        }
        if compare_chars(a[0], b[0]) == 0 && compare_chars(b[0], c[0]) == 0 {
            lemma_compare_paths_transitive(a.drop_first(), b.drop_first(), c.drop_first());
        }
    }
}

/// Every path sorts no later than itself, and of two paths one sorts no later
/// than the other.
pub proof fn lemma_path_le_total(a: Seq<char>, b: Seq<char>)
    ensures
        path_le(a, a),
        path_le(a, b) || path_le(b, a),
{
    lemma_compare_paths_basics(path_components(a), path_components(a));
    lemma_compare_paths_basics(path_components(a), path_components(b));
}

/// The path order is transitive.
pub proof fn lemma_path_le_transitive(a: Seq<char>, b: Seq<char>, c: Seq<char>)
    requires
        path_le(a, b),
        path_le(b, c),
    ensures
        path_le(a, c),
{
    lemma_compare_paths_transitive(path_components(a), path_components(b), path_components(c));
}

/// Compares two texts character by character.
pub fn compare_chars_exec(a: &Vec<char>, b: &Vec<char>) -> (r: i8)
    ensures
        r as int == compare_chars(a@, b@),
{
    let mut i: usize = 0;
    assert(a@.skip(0) =~= a@);
    assert(b@.skip(0) =~= b@);
    while i < a.len() && i < b.len() && a[i] == b[i]
        invariant
            i <= a.len(),
            i <= b.len(),
            compare_chars(a@, b@) == compare_chars(a@.skip(i as int), b@.skip(i as int)),
        decreases a.len() - i,
    {
        assert(a@.skip(i as int).drop_first() =~= a@.skip(i + 1));
        assert(b@.skip(i as int).drop_first() =~= b@.skip(i + 1));
        i = i + 1;
    }
    if i == a.len() {
        if i == b.len() {
            0
        } else {
            -1
        }
    } else if i == b.len() {
        1
    } else if a[i] < b[i] {
        -1
    } else {
        1
    }
}

/// Compares two component lists component by component.
pub fn compare_components_exec(a: &Vec<Vec<char>>, b: &Vec<Vec<char>>) -> (r: i8)
    ensures
        r as int == compare_paths(char_views(a@), char_views(b@)),
{
    let ghost av = char_views(a@);
    let ghost bv = char_views(b@);
    let mut i: usize = 0;
    assert(av.skip(0) =~= av);
    assert(bv.skip(0) =~= bv);
    while i < a.len() && i < b.len()
        invariant
            i <= a.len(),
            i <= b.len(),
            av == char_views(a@),
            bv == char_views(b@),
            compare_paths(av, bv) == compare_paths(av.skip(i as int), bv.skip(i as int)),
        decreases a.len() - i,
    {
        let c = compare_chars_exec(&a[i], &b[i]);
        assert(av.skip(i as int)[0] == a@[i as int]@);
        assert(bv.skip(i as int)[0] == b@[i as int]@);
        if c != 0 {
            return c;
        }
        assert(av.skip(i as int).drop_first() =~= av.skip(i + 1));
        assert(bv.skip(i as int).drop_first() =~= bv.skip(i + 1));
        i = i + 1;
    }
    if i == a.len() {
        if i == b.len() {
            0
        } else {
            -1
        }
    } else {
        1
    }
}

} // verus!
