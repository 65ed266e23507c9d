//! Sets of strings kept as strictly increasing vectors.
//!
//! The original collects strings in `BTreeSet`s and sorted `Vec`s; here the
//! same values are held in a `Vec<String>` whose views are strictly increasing
//! in the lexicographic order of `str`.
use vstd::prelude::*;

use crate::text::{chars_of, copy_string, seq_less, strictly_sorted, views};

verus! {

/// `seq_less` never holds of equal sequences.
pub proof fn lemma_seq_less_irreflexive(a: Seq<char>)
    ensures
        !seq_less(a, a),
    decreases a.len(),
{
    if a.len() > 0 {
        lemma_seq_less_irreflexive(a.drop_first());
    }
}

/// `seq_less` is transitive.
pub proof fn lemma_seq_less_transitive(a: Seq<char>, b: Seq<char>, c: Seq<char>)
    requires
        seq_less(a, b),
        seq_less(b, c),
    ensures
        seq_less(a, c),
    decreases a.len(),
{
    if a.len() > 0 && b.len() > 0 && c.len() > 0 {
        if a[0] == b[0] && b[0] == c[0] {
            lemma_seq_less_transitive(a.drop_first(), b.drop_first(), c.drop_first());
        }
    }
}

/// Two different sequences are ordered one way or the other.
pub proof fn lemma_seq_less_total(a: Seq<char>, b: Seq<char>)
    ensures
        a == b || seq_less(a, b) || seq_less(b, a),
    decreases a.len(),
{
    if a.len() > 0 && b.len() > 0 && a[0] == b[0] {
        lemma_seq_less_total(a.drop_first(), b.drop_first());
        if a.drop_first() == b.drop_first() {
            assert(a =~= seq![a[0]] + a.drop_first());
            assert(b =~= seq![b[0]] + b.drop_first());
        }
    } else if a.len() == 0 && b.len() == 0 {
        assert(a =~= b);
    }
}

/// `seq_less` is asymmetric.
pub proof fn lemma_seq_less_asymmetric(a: Seq<char>, b: Seq<char>)
    requires
        seq_less(a, b),
    ensures
        !seq_less(b, a),
{
    if seq_less(b, a) {
        lemma_seq_less_transitive(a, b, a);
        lemma_seq_less_irreflexive(a);
    }
}

/// Whether `a` comes before `b` in the lexicographic order of `str`.
pub fn chars_less(a: &Vec<char>, b: &Vec<char>) -> (r: bool)
    ensures
        r == seq_less(a@, b@),
{
    let mut i: usize = 0;
    assert(a@.skip(0) =~= a@ && b@.skip(0) =~= b@);
    while i < a.len() && i < b.len() && a[i] == b[i]
        invariant
            i <= a.len(),
            i <= b.len(),
            forall|k: int| 0 <= k < i ==> a@[k] == b@[k],
            seq_less(a@, b@) == seq_less(a@.skip(i as int), b@.skip(i as int)),
        decreases a.len() - i,
    {
        let ghost sa = a@.skip(i as int);
        let ghost sb = b@.skip(i as int);
        assert(sa.drop_first() =~= a@.skip(i + 1));
        assert(sb.drop_first() =~= b@.skip(i + 1));
        i = i + 1;
    }
    let ghost sa = a@.skip(i as int);
    let ghost sb = b@.skip(i as int);
    if i == a.len() {
        i < b.len()
    } else if i == b.len() {
        false
    } else {
        assert(sa[0] == a@[i as int] && sb[0] == b@[i as int]);
        a[i] < b[i]
    }
}

/// Whether `a` comes before `b` in the lexicographic order of `str`.
pub fn str_less(a: &str, b: &str) -> (r: bool)
    ensures
        r == seq_less(a@, b@),
{
    let va = chars_of(a);
    let vb = chars_of(b);
    chars_less(&va, &vb)
}

/// The set of views of a vector of strings.
pub open spec fn view_set(v: Seq<String>) -> Set<Seq<char>> {
    views(v).to_set()
}

/// Inserts `s` into the strictly increasing vector `v` unless it is already there.
pub fn insert_sorted(v: &mut Vec<String>, s: String)
    requires
        strictly_sorted(views(old(v)@)),
    ensures
        strictly_sorted(views(final(v)@)),
        view_set(final(v)@) == view_set(old(v)@).insert(s@),
{
    let ghost old_views = views(v@);
    let mut i: usize = 0;
    while i < v.len() && str_less(v[i].as_str(), s.as_str())
        invariant
            i <= v.len(),
            v@ == old(v)@,
            strictly_sorted(views(v@)),
            forall|k: int| 0 <= k < i ==> seq_less(#[trigger] views(v@)[k], s@),
        decreases v.len() - i,
    {
        i = i + 1;
    }
    if i < v.len() && crate::text::str_eq(v[i].as_str(), s.as_str()) {
        assert(views(v@)[i as int] == v@[i as int]@);
        assert(view_set(v@).insert(s@) =~= view_set(v@));
        return ;
    }
    // every element from i on is greater than s
    proof {
        if i < v.len() {
            assert(views(v@)[i as int] == v@[i as int]@);
            lemma_seq_less_total(views(v@)[i as int], s@);
            assert(seq_less(s@, views(v@)[i as int]));
        }
    }
    let ghost before = v@;
    v.insert(i, s);
    proof {
        let nv = views(v@);
        assert(nv =~= views(before).insert(i as int, s@));
        assert forall|a: int, b: int| 0 <= a < b < nv.len() implies seq_less(
            #[trigger] nv[a],
            #[trigger] nv[b],
        ) by {
            let ov = views(before);
            if b < i {
                assert(nv[a] == ov[a] && nv[b] == ov[b]);
            } else if b == i {
                assert(nv[a] == ov[a]);
            } else if a == i {
                assert(nv[b] == ov[b - 1]);
                if b - 1 > i {
                    assert(seq_less(ov[i as int], ov[b - 1]));
                    lemma_seq_less_transitive(s@, ov[i as int], ov[b - 1]);
                }
            } else if a < i {
                assert(nv[a] == ov[a] && nv[b] == ov[b - 1]);
            } else {
                assert(nv[a] == ov[a - 1] && nv[b] == ov[b - 1]);
            }
        }
        assert forall|x: Seq<char>| view_set(v@).contains(x) <==> view_set(before).insert(
            s@,
        ).contains(x) by {
            let ov = views(before);
            if view_set(v@).contains(x) {
                let k = choose|k: int| 0 <= k < nv.len() && nv[k] == x;
                if k < i {
                    assert(ov[k] == x);
                } else if k > i {
                    assert(ov[k - 1] == x);
                }
            }
            if view_set(before).contains(x) {
                let k = choose|k: int| 0 <= k < ov.len() && ov[k] == x;
                if k < i {
                    assert(nv[k] == x);
                } else {
                    assert(nv[k + 1] == x);
                }
            }
            if x == s@ {
                assert(nv[i as int] == x);
            }
        }
        assert(view_set(v@) =~= view_set(before).insert(s@));
    }
}

/// A copy of a vector of strings.
pub fn copy_strings(v: &Vec<String>) -> (r: Vec<String>)
    ensures
        views(r@) == views(v@),
{
    let mut r: Vec<String> = Vec::new();
    let mut i: usize = 0;
    while i < v.len()
        invariant
            i <= v.len(),
            views(r@) == views(v@).take(i as int),
        decreases v.len() - i,
    {
        let c = copy_string(&v[i]);
        let ghost before = r@;
        r.push(c);
        assert(views(r@) =~= views(before).push(c@));
        assert(views(v@).take(i + 1) =~= views(v@).take(i as int).push(v@[i as int]@));
        i = i + 1;
    }
    assert(views(v@).take(v.len() as int) =~= views(v@));
    r
}

/// Inserts every string of `src` into the strictly increasing vector `v`.
pub fn insert_all_sorted(v: &mut Vec<String>, src: &Vec<String>)
    requires
        strictly_sorted(views(old(v)@)),
    ensures
        strictly_sorted(views(final(v)@)),
        view_set(final(v)@) == view_set(old(v)@).union(view_set(src@)),
{
    let mut i: usize = 0;
    while i < src.len()
        invariant
            i <= src.len(),
            strictly_sorted(views(v@)),
            view_set(v@) == view_set(old(v)@).union(views(src@).take(i as int).to_set()),
        decreases src.len() - i,
    {
        insert_sorted(v, copy_string(&src[i]));
        assert(views(src@).take(i + 1) =~= views(src@).take(i as int).push(src@[i as int]@));
        proof {
            lemma_push_to_set(views(src@).take(i as int), src@[i as int]@);
        }
        i = i + 1;
    }
    assert(views(src@).take(src.len() as int) =~= views(src@));
}

/// Pushing an element adds it to the set of a sequence.
pub proof fn lemma_push_to_set<A>(s: Seq<A>, x: A)
    ensures
        s.push(x).to_set() == s.to_set().insert(x),
{
    let t = s.push(x);
    assert forall|y: A| t.to_set().contains(y) <==> s.to_set().insert(x).contains(y) by {
        if t.to_set().contains(y) {
            let k = choose|k: int| 0 <= k < t.len() && t[k] == y;
            if k < s.len() {
                assert(s[k] == y);
            }
        }
        if s.to_set().contains(y) {
            let k = choose|k: int| 0 <= k < s.len() && s[k] == y;
            assert(t[k] == y);
        }
        if y == x {
            assert(t[s.len() as int] == y);
        }
    }
    assert(t.to_set() =~= s.to_set().insert(x));
}

/// Sorts a list of strings and removes duplicates.
pub fn sorted_unique(src: &Vec<String>) -> (r: Vec<String>)
    ensures
        strictly_sorted(views(r@)),
        view_set(r@) == view_set(src@),
{
    let mut r: Vec<String> = Vec::new();
    assert(view_set(r@) =~= Set::<Seq<char>>::empty());
    insert_all_sorted(&mut r, src);
    assert(Set::<Seq<char>>::empty().union(view_set(src@)) =~= view_set(src@));
    r
}

/// The strictly increasing sequence of a finite set of strings is determined by
/// the set: two strictly increasing sequences with the same elements are equal.
pub proof fn lemma_sorted_unique_determined(a: Seq<Seq<char>>, b: Seq<Seq<char>>)
    requires
        strictly_sorted(a),
        strictly_sorted(b),
        a.to_set() == b.to_set(),
    ensures
        a == b,
    decreases a.len(),
{
    if a.len() == 0 {
        if b.len() > 0 {
            assert(b.to_set().contains(b[0]));
        }
    } else if b.len() == 0 {
        assert(a.to_set().contains(a[0]));
    } else {
        // the first elements are the minima of the same set
        assert(a.to_set().contains(a[0]));
        assert(b.to_set().contains(b[0]));
        let ia = choose|k: int| 0 <= k < a.len() && a[k] == b[0];
        let ib = choose|k: int| 0 <= k < b.len() && b[k] == a[0];
        if a[0] != b[0] {
            assert(ia > 0 && ib > 0);
            assert(seq_less(a[0], a[ia]));
            assert(seq_less(b[0], b[ib]));
            lemma_seq_less_asymmetric(a[0], b[0]);
        }
        let ta = a.drop_first();
        let tb = b.drop_first();
        assert forall|x: Seq<char>| ta.to_set().contains(x) <==> tb.to_set().contains(x) by {
            if ta.to_set().contains(x) {
                let k = choose|k: int| 0 <= k < ta.len() && ta[k] == x;
                assert(a[k + 1] == x);
                assert(seq_less(a[0], x));
                assert(b.to_set().contains(x));
                let j = choose|j: int| 0 <= j < b.len() && b[j] == x;
                if j == 0 {
                    lemma_seq_less_irreflexive(x);
                }
                assert(tb[j - 1] == x);
            }
            if tb.to_set().contains(x) {
                let k = choose|k: int| 0 <= k < tb.len() && tb[k] == x;
                assert(b[k + 1] == x);
                assert(seq_less(b[0], x));
                assert(a.to_set().contains(x));
                let j = choose|j: int| 0 <= j < a.len() && a[j] == x;
                if j == 0 {
                    lemma_seq_less_irreflexive(x);
                }
                assert(ta[j - 1] == x);
            }
        }
        assert(ta.to_set() =~= tb.to_set());
        assert(strictly_sorted(ta)) by {
            assert forall|i: int, j: int| 0 <= i < j < ta.len() implies seq_less(
                #[trigger] ta[i],
                #[trigger] ta[j],
            ) by {
                assert(ta[i] == a[i + 1] && ta[j] == a[j + 1]);
            }
        }
        assert(strictly_sorted(tb)) by {
            assert forall|i: int, j: int| 0 <= i < j < tb.len() implies seq_less(
                #[trigger] tb[i],
                #[trigger] tb[j],
            ) by {
                assert(tb[i] == b[i + 1] && tb[j] == b[j + 1]);
            }
        }
        lemma_sorted_unique_determined(ta, tb);
        assert(a =~= seq![a[0]] + ta);
        assert(b =~= seq![b[0]] + tb);
    }
}

/// A sequence of strings in increasing order, repetitions allowed.
pub open spec fn nondecreasing(s: Seq<Seq<char>>) -> bool {
    forall|i: int, j: int| 0 <= i < j < s.len() ==> !seq_less(#[trigger] s[j], #[trigger] s[i])
}

/// Inserting `x` where nothing before it is greater and the next element is
/// greater keeps a sequence in increasing order.
pub proof fn lemma_insert_nondecreasing(s: Seq<Seq<char>>, pos: int, x: Seq<char>)
    requires
        nondecreasing(s),
        0 <= pos <= s.len(),
        forall|k: int| 0 <= k < pos ==> !seq_less(x, #[trigger] s[k]),
        pos < s.len() ==> seq_less(x, s[pos]),
    ensures
        nondecreasing(s.insert(pos, x)),
{
    let n = s.insert(pos, x);
    assert forall|a: int, b: int| 0 <= a < b < n.len() implies !seq_less(#[trigger] n[b], #[trigger] n[a]) by {
        if b < pos {
            assert(n[a] == s[a] && n[b] == s[b]);
        } else if b == pos {
            assert(n[a] == s[a]);
        } else if a == pos {
            assert(n[b] == s[b - 1]);
            assert(seq_less(x, s[b - 1])) by {
                if b - 1 > pos {
                    assert(!seq_less(s[b - 1], s[pos]));
                    lemma_seq_less_total(s[pos], s[b - 1]);
                    if s[pos] != s[b - 1] {
                        lemma_seq_less_transitive(x, s[pos], s[b - 1]);
                    }
                }
            }
            lemma_seq_less_asymmetric(x, s[b - 1]);
        } else if a < pos {
            assert(n[a] == s[a] && n[b] == s[b - 1]);
        } else {
            assert(n[a] == s[a - 1] && n[b] == s[b - 1]);
        }
    }
}

/// The strings of `v` in increasing order, repetitions kept.
pub fn sort_strings(v: &Vec<String>) -> (r: Vec<String>)
    ensures
        nondecreasing(views(r@)),
        views(r@).to_multiset() == views(v@).to_multiset(),
{
    let mut r: Vec<String> = Vec::new();
    let mut i: usize = 0;
    assert(views(v@).take(0) =~= Seq::<Seq<char>>::empty());
    assert(views(r@) =~= Seq::<Seq<char>>::empty());
    while i < v.len()
        invariant
            i <= v.len(),
            nondecreasing(views(r@)),
            views(r@).to_multiset() == views(v@).take(i as int).to_multiset(),
        decreases v.len() - i,
    {
        let s = v[i].as_str();
        let mut pos: usize = 0;
        while pos < r.len() && !str_less(s, r[pos].as_str())
            invariant
                pos <= r.len(),
                s@ == v@[i as int]@,
                forall|k: int| 0 <= k < pos ==> !seq_less(s@, #[trigger] views(r@)[k]),
            decreases r.len() - pos,
        {
            pos = pos + 1;
        }
        let ghost before = views(r@);
        r.insert(pos, copy_string(&v[i]));
        proof {
            assert(views(r@) =~= before.insert(pos as int, s@));
            lemma_insert_nondecreasing(before, pos as int, s@);
            vstd::seq_lib::to_multiset_insert(before, pos as int, s@);
            assert(views(v@).take(i + 1) =~= views(v@).take(i as int).push(s@));
            vstd::seq_lib::to_multiset_build(views(v@).take(i as int), s@);
        }
        i = i + 1;
    }
    assert(views(v@).take(v.len() as int) =~= views(v@));
    r
}

} // verus!
