//! Stable sorting by a strict order, and the lexicographic order of text.
use vstd::prelude::*;
use crate::text::{chars_of, views};

verus! {

/// Text order of `String`: lexicographic by Unicode scalar value, which is
/// also the order of the UTF-8 bytes.
pub open spec fn lex_lt(a: Seq<char>, b: Seq<char>) -> bool
    decreases a.len(),
{
    if a.len() == 0 {
        b.len() > 0
    } else if b.len() == 0 {
        false
    } else if a[0] != b[0] {
        (a[0] as u32) < (b[0] as u32)
    } else {
        lex_lt(a.drop_first(), b.drop_first())
    }
}

/// `lex_lt` is irreflexive.
pub proof fn lemma_lex_irreflexive(a: Seq<char>)
    ensures
        !lex_lt(a, a),
    decreases a.len(),
{
    if a.len() > 0 {
        lemma_lex_irreflexive(a.drop_first());
    }
}

/// `lex_lt` is transitive.
pub proof fn lemma_lex_transitive(a: Seq<char>, b: Seq<char>, c: Seq<char>)
    requires
        lex_lt(a, b),
        lex_lt(b, c),
    ensures
        lex_lt(a, c),
    decreases a.len(),
{
    if a.len() > 0 && b.len() > 0 && c.len() > 0 && a[0] == b[0] && b[0] == c[0] {
        lemma_lex_transitive(a.drop_first(), b.drop_first(), c.drop_first());
    }
}

/// `lex_lt` is total on distinct texts.
pub proof fn lemma_lex_total(a: Seq<char>, b: Seq<char>)
    ensures
        a != b ==> lex_lt(a, b) || lex_lt(b, a),
    decreases a.len(),
{
    if a.len() > 0 && b.len() > 0 && a[0] == b[0] {
        lemma_lex_total(a.drop_first(), b.drop_first());
        if a.drop_first() == b.drop_first() {
            assert(a =~= seq![a[0]] + a.drop_first());
            assert(b =~= seq![b[0]] + b.drop_first());
        }
    } else if a.len() == 0 && b.len() == 0 {
        assert(a =~= b);
    } else if a.len() > 0 && b.len() > 0 && a[0] != b[0] {
        vstd::utf8::char_u32_cast(a[0], a[0] as u32);
        vstd::utf8::char_u32_cast(b[0], b[0] as u32);
    }
}

/// Whether `a` comes before `b` in text order.
pub fn text_lt(a: &str, b: &str) -> (r: bool)
    ensures
        r == lex_lt(a@, b@),
{
    let va = chars_of(a);
    let vb = chars_of(b);
    let mut i: usize = 0;
    assert(va@.skip(0) =~= va@);
    assert(vb@.skip(0) =~= vb@);
    loop
        invariant
            va@ == a@,
            vb@ == b@,
            i <= va.len(),
            i <= vb.len(),
            lex_lt(a@, b@) == lex_lt(va@.skip(i as int), vb@.skip(i as int)),
        decreases va.len() - i,
    {
        if i == va.len() {
            return i < vb.len();
        }
        if i == vb.len() {
            return false;
        }
        assert(va@.skip(i as int)[0] == va@[i as int]);
        assert(vb@.skip(i as int)[0] == vb@[i as int]);
        if va[i] != vb[i] {
            return (va[i] as u32) < (vb[i] as u32);
        }
        assert(va@.skip(i as int).drop_first() =~= va@.skip(i + 1));
        assert(vb@.skip(i as int).drop_first() =~= vb@.skip(i + 1));
        i = i + 1;
    }
}

/// Values with a strict order that sorting follows.
pub trait Ranked: Sized {
    /// `self` comes strictly before `other`.
    spec fn before(&self, other: &Self) -> bool;

    proof fn lemma_irreflexive(a: &Self)
        ensures
            !a.before(a),
    ;

    proof fn lemma_transitive(a: &Self, b: &Self, c: &Self)
        requires
            a.before(b),
            b.before(c),
        ensures
            a.before(c),
    ;

    /// Whether `self` comes strictly before `other`.
    fn precedes(&self, other: &Self) -> (r: bool)
        ensures
            r == self.before(other),
    ;
}

/// No element comes strictly before an earlier one.
pub open spec fn sorted_by<T: Ranked>(s: Seq<T>) -> bool {
    forall|i: int, j: int| 0 <= i < j < s.len() ==> !s[j].before(&s[i])
}

/// Where `x` is inserted: before the first element it strictly precedes.
pub open spec fn insert_pos<T: Ranked>(s: Seq<T>, x: T) -> int
    decreases s.len(),
{
    if s.len() == 0 {
        0
    } else if x.before(&s[0]) {
        0
    } else {
        1 + insert_pos(s.drop_first(), x)
    }
}

/// Stable insertion sort: each element, in input order, is inserted after
/// every element it does not strictly precede.
pub open spec fn stable_sorted<T: Ranked>(s: Seq<T>) -> Seq<T>
    decreases s.len(),
{
    if s.len() == 0 {
        Seq::empty()
    } else {
        let rest = stable_sorted(s.drop_last());
        rest.insert(insert_pos(rest, s.last()), s.last())
    }
}

/// `insert_pos` is the first position whose element `x` precedes.
pub proof fn lemma_insert_pos<T: Ranked>(s: Seq<T>, x: T)
    ensures
        0 <= insert_pos(s, x) <= s.len(),
        forall|k: int| 0 <= k < insert_pos(s, x) ==> !x.before(&s[k]),
        insert_pos(s, x) < s.len() ==> x.before(&s[insert_pos(s, x)]),
    decreases s.len(),
{
    if s.len() > 0 && !x.before(&s[0]) {
        lemma_insert_pos(s.drop_first(), x);
        assert forall|k: int| 0 <= k < insert_pos(s, x) implies !x.before(&s[k]) by {
            if k > 0 {
                assert(s[k] == s.drop_first()[k - 1]);
            }
        }
    }
}

/// Inserting at `insert_pos` keeps a sorted sequence sorted.
pub proof fn lemma_insert_sorted<T: Ranked>(s: Seq<T>, x: T)
    requires
        sorted_by(s),
    ensures
        sorted_by(s.insert(insert_pos(s, x), x)),
{
    lemma_insert_pos(s, x);
    let p = insert_pos(s, x);
    let t = s.insert(p, x);
    assert forall|i: int, j: int| 0 <= i < j < t.len() implies !t[j].before(&t[i]) by {
        if j == p {
            assert(t[i] == s[i]);
        } else if i == p {
            assert(t[j] == s[j - 1]);
            if t[j].before(&x) {
                T::lemma_transitive(&s[j - 1], &x, &s[p]);
                if j - 1 == p {
                    T::lemma_irreflexive(&s[p]);
                }
            }
        } else {
            let si = if i < p { i } else { i - 1 };
            let sj = if j < p { j } else { j - 1 };
            assert(t[i] == s[si]);
            assert(t[j] == s[sj]);
        }
    }
}

/// The stable sort is sorted and holds the same elements.
pub proof fn lemma_stable_sorted<T: Ranked>(s: Seq<T>)
    ensures
        sorted_by(stable_sorted(s)),
        stable_sorted(s).to_multiset() == s.to_multiset(),
    decreases s.len(),
{
    broadcast use vstd::seq_lib::group_to_multiset_ensures;
    if s.len() > 0 {
        lemma_stable_sorted(s.drop_last());
        let rest = stable_sorted(s.drop_last());
        lemma_insert_pos(rest, s.last());
        lemma_insert_sorted(rest, s.last());
        vstd::seq_lib::to_multiset_insert(rest, insert_pos(rest, s.last()), s.last());
        assert(s.drop_last().push(s.last()) =~= s);
    }
}

/// Position at which `x` goes into the sorted `out`.
fn find_insert_pos<T: Ranked>(out: &Vec<T>, x: &T) -> (r: usize)
    ensures
        r == insert_pos(out@, *x),
{
    proof {
        lemma_insert_pos(out@, *x);
    }
    let mut j: usize = 0;
    assert(out@.skip(0) =~= out@);
    while j < out.len()
        invariant
            j <= out.len(),
            insert_pos(out@, *x) == j + insert_pos(out@.skip(j as int), *x),
        decreases out.len() - j,
    {
        assert(out@.skip(j as int)[0] == out@[j as int]);
        if x.precedes(&out[j]) {
            return j;
        }
        assert(out@.skip(j as int).drop_first() =~= out@.skip(j + 1));
        j = j + 1;
    }
    j
}

/// The elements in stable sorted order.
pub fn sort_stable<T: Ranked>(v: Vec<T>) -> (r: Vec<T>)
    ensures
        r@ == stable_sorted(v@),
        sorted_by(r@),
        r@.to_multiset() == v@.to_multiset(),
{
    proof {
        lemma_stable_sorted(v@);
    }
    let ghost orig = v@;
    assert(orig.len() == v.len());
    // Reverse the input so that popping yields the elements in order.
    let mut input = v;
    let mut rev: Vec<T> = Vec::new();
    while input.len() > 0
        invariant
            rev@ + input@.reverse() == orig.reverse(),
        decreases input.len(),
    {
        let ghost before_pop = input@;
        let x = input.pop().unwrap();
        assert(before_pop =~= input@.push(x));
        assert(before_pop.reverse() =~= seq![x] + input@.reverse());
        rev.push(x);
        assert(rev@ + input@.reverse() =~= orig.reverse());
    }
    assert(rev@ =~= orig.reverse());
    let mut out: Vec<T> = Vec::new();
    let mut n: usize = 0;
    while rev.len() > 0
        invariant
            n + rev@.len() == orig.len(),
            orig.len() <= usize::MAX,
            rev@ == orig.skip(n as int).reverse(),
            out@ == stable_sorted(orig.take(n as int)),
        decreases rev.len(),
    {
        let x = rev.pop().unwrap();
        assert(orig.skip(n as int).reverse().last() == orig[n as int]);
        assert(x == orig[n as int]);
        let p = find_insert_pos(&out, &x);
        proof {
            lemma_insert_pos(out@, x);
        }
        out.insert(p, x);
        assert(orig.take(n + 1).drop_last() =~= orig.take(n as int));
        assert(orig.take(n + 1).last() == orig[n as int]);
        n = n + 1;
        assert(rev@ =~= orig.skip(n as int).reverse());
    }
    assert(orig.take(n as int) =~= orig);
    out
}

impl Ranked for String {
    open spec fn before(&self, other: &Self) -> bool {
        lex_lt(self@, other@)
    }

    proof fn lemma_irreflexive(a: &Self) {
        lemma_lex_irreflexive(a@);
    }

    proof fn lemma_transitive(a: &Self, b: &Self, c: &Self) {
        lemma_lex_transitive(a@, b@, c@);
    }

    fn precedes(&self, other: &Self) -> (r: bool) {
        text_lt(self.as_str(), other.as_str())
    }
}

/// Strings in ascending text order.
pub open spec fn lex_sorted(s: Seq<Seq<char>>) -> bool {
    forall|i: int, j: int| 0 <= i < j < s.len() ==> !lex_lt(s[j], s[i])
}

/// Strings sorted in ascending text order (`Vec::sort` on strings).
pub fn sort_strings(v: Vec<String>) -> (r: Vec<String>)
    ensures
        lex_sorted(views(r@)),
        r@.to_multiset() == v@.to_multiset(),
{
    let r = sort_stable(v);
    assert forall|i: int, j: int| 0 <= i < j < views(r@).len() implies !lex_lt(views(r@)[j], views(r@)[i]) by {
        assert(!r@[j].before(&r@[i]));
    }
    r
}

} // verus!
