//! Ordering of lists by a strict "comes before" relation, and the stable
//! insertion sort that every ranked listing goes through.

use vstd::prelude::*;

verus! {

broadcast use vstd::seq_lib::group_to_multiset_ensures;

/// A value that can be ranked against others of its kind, under an
/// ordering chosen by `C`.
pub trait Ranked<C>: Sized {
    /// Whether `self` is to be listed strictly before `other` under `by`.
    spec fn before(self, other: Self, by: C) -> bool;

    /// Nothing comes before something that comes before it.
    proof fn lemma_before_asymmetric(a: Self, b: Self, by: C)
        ensures
            a.before(b, by) ==> !b.before(a, by),
    ;

    /// "Comes before" chains.
    proof fn lemma_before_transitive(a: Self, b: Self, c: Self, by: C)
        ensures
            a.before(b, by) && b.before(c, by) ==> a.before(c, by),
    ;

    /// Computes `before`.
    fn precedes(&self, other: &Self, by: &C) -> (r: bool)
        ensures
            r == self.before(*other, *by),
    ;
}

/// A value that can be copied into an equal one.
pub trait Duplicate: Sized {
    /// A copy of the value.
    fn duplicate(&self) -> (r: Self)
        ensures
            r == *self,
    ;
}

/// No element is listed after one that should come after it.
pub open spec fn is_ranked<C, T: Ranked<C>>(s: Seq<T>, by: C) -> bool {
    forall|i: int, j: int| 0 <= i < j < s.len() ==> !s[j].before(s[i], by)
}

proof fn lemma_insert_multiset<T>(s: Seq<T>, p: int, x: T)
    requires
        0 <= p <= s.len(),
    ensures
        s.insert(p, x).to_multiset() =~= s.to_multiset().insert(x),
{
    let t = s.insert(p, x);
    assert(t.remove(p) =~= s);
    assert(t[p] == x);
    assert(t.contains(x));
    assert(t.to_multiset().count(x) > 0);
}

/// The same items, stably sorted so that nothing comes after an item that
/// should follow it.
pub fn ranked_copy<C, T: Ranked<C> + Duplicate>(items: &Vec<T>, by: &C) -> (r: Vec<T>)
    ensures
        r@.to_multiset() == items@.to_multiset(),
        is_ranked(r@, *by),
        r@.len() == items@.len(),
{
    let mut out: Vec<T> = Vec::new();
    let n = items.len();
    let mut i: usize = 0;
    assert(items@.take(0) =~= Seq::<T>::empty());
    while i < n
        invariant
            n == items@.len(),
            i <= n,
            out@.to_multiset() == items@.take(i as int).to_multiset(),
            is_ranked(out@, *by),
            out@.len() == i,
        decreases n - i,
    {
        let x = items[i].duplicate();
        let m = out.len();
        let mut p: usize = 0;
        while p < m && !x.precedes(&out[p], by)
            invariant
                m == out@.len(),
                p <= m,
                forall|k: int| 0 <= k < p ==> !x.before(#[trigger] out@[k], *by),
            decreases m - p,
        {
            p = p + 1;
        }
        let ghost old_out = out@;
        proof {
            assert forall|k: int| p < k < m implies !(#[trigger] old_out[k]).before(x, *by) by {
                T::lemma_before_transitive(old_out[k], x, old_out[p as int], *by);
                T::lemma_before_asymmetric(old_out[p as int], old_out[k], *by);
            }
            if p < m {
                T::lemma_before_asymmetric(x, old_out[p as int], *by);
            }
            lemma_insert_multiset(old_out, p as int, x);
            assert(items@.take(i + 1) =~= items@.take(i as int).push(items@[i as int]));
        }
        out.insert(p, x);
        proof {
            let s = out@;
            assert(s =~= old_out.insert(p as int, x));
            assert forall|a: int, b: int| 0 <= a < b < s.len() implies !s[b].before(s[a], *by) by {
                if a < p && b < p {
                    assert(s[a] == old_out[a] && s[b] == old_out[b]);
                } else if a < p && b == p {
                    assert(s[a] == old_out[a]);
                } else if a < p && b > p {
                    assert(s[a] == old_out[a] && s[b] == old_out[b - 1]);
                } else if a == p {
                    assert(s[b] == old_out[b - 1]);
                } else {
                    assert(s[a] == old_out[a - 1] && s[b] == old_out[b - 1]);
                }
            }
        }
        i = i + 1;
    }
    assert(items@.take(n as int) =~= items@);
    out
}


/// The same items, moved rather than copied into a stable order in which
/// nothing comes after an item that should follow it.
pub fn ranked<C, T: Ranked<C>>(items: Vec<T>, by: &C) -> (r: Vec<T>)
    ensures
        r@.to_multiset() == items@.to_multiset(),
        is_ranked(r@, *by),
        r@.len() == items@.len(),
{
    let ghost all = items@;
    let mut rest = items;
    let mut out: Vec<T> = Vec::new();
    let n = rest.len();
    let mut i: usize = 0;
    assert(all.take(0) =~= Seq::<T>::empty());
    assert(all.skip(0) =~= all);
    while i < n
        invariant
            n == all.len(),
            i <= n,
            rest@ == all.skip(i as int),
            out@.to_multiset() == all.take(i as int).to_multiset(),
            is_ranked(out@, *by),
            out@.len() == i,
        decreases n - i,
    {
        let x = rest.remove(0);
        assert(x == all[i as int]);
        assert(rest@ =~= all.skip(i + 1));
        let m = out.len();
        let mut p: usize = 0;
        while p < m && !x.precedes(&out[p], by)
            invariant
                m == out@.len(),
                p <= m,
                forall|k: int| 0 <= k < p ==> !x.before(#[trigger] out@[k], *by),
            decreases m - p,
        {
            p = p + 1;
        }
        let ghost old_out = out@;
        proof {
            assert forall|k: int| p < k < m implies !(#[trigger] old_out[k]).before(x, *by) by {
                T::lemma_before_transitive(old_out[k], x, old_out[p as int], *by);
                T::lemma_before_asymmetric(old_out[p as int], old_out[k], *by);
            }
            if p < m {
                T::lemma_before_asymmetric(x, old_out[p as int], *by);
            }
            lemma_insert_multiset(old_out, p as int, x);
            assert(all.take(i + 1) =~= all.take(i as int).push(all[i as int]));
        }
        out.insert(p, x);
        proof {
            let s = out@;
            assert(s =~= old_out.insert(p as int, x));
            assert forall|a: int, b: int| 0 <= a < b < s.len() implies !s[b].before(s[a], *by) by {
                if a < p && b < p {
                    assert(s[a] == old_out[a] && s[b] == old_out[b]);
                } else if a < p && b == p {
                    assert(s[a] == old_out[a]);
                } else if a < p && b > p {
                    assert(s[a] == old_out[a] && s[b] == old_out[b - 1]);
                } else if a == p {
                    assert(s[b] == old_out[b - 1]);
                } else {
                    assert(s[a] == old_out[a - 1] && s[b] == old_out[b - 1]);
                }
            }
        }
        i = i + 1;
    }
    assert(all.take(n as int) =~= all);
    out
}

/// Orders in which only equal values tie: every ranked arrangement of a list
/// is then the same arrangement.
pub open spec fn ties_only_equal<C, T: Ranked<C>>(s: Seq<T>, by: C) -> bool {
    forall|i: int, j: int|
        0 <= i < s.len() && 0 <= j < s.len() && !s[i].before(s[j], by) && !s[j].before(s[i], by) ==> s[i]
            == s[j]
}

/// The ranked arrangement of `s`.
pub open spec fn ranked_of<C, T: Ranked<C>>(s: Seq<T>, by: C) -> Seq<T> {
    choose|r: Seq<T>| is_ranked(r, by) && r.to_multiset() == s.to_multiset()
}

/// Two ranked arrangements of the same items are equal when only equal
/// values tie.
pub proof fn lemma_ranked_unique<C, T: Ranked<C>>(a: Seq<T>, b: Seq<T>, by: C)
    requires
        is_ranked(a, by),
        is_ranked(b, by),
        a.to_multiset() == b.to_multiset(),
        ties_only_equal(a, by),
    ensures
        a == b,
    decreases a.len(),
{
    a.to_multiset_ensures();
    b.to_multiset_ensures();
    assert(a.len() == b.len());
    if a.len() > 0 {
        assert(b.contains(a[0])) by {
            assert(a.to_multiset().count(a[0]) > 0);
        }
        assert(a.contains(b[0])) by {
            assert(b.to_multiset().count(b[0]) > 0);
        }
        let k = choose|k: int| 0 <= k < b.len() && b[k] == a[0];
        let m = choose|m: int| 0 <= m < a.len() && a[m] == b[0];
        T::lemma_before_asymmetric(a[0], a[0], by);
        T::lemma_before_asymmetric(b[0], b[0], by);
        assert(!a[0].before(b[0], by)) by {
            if k > 0 {
                assert(!b[k].before(b[0], by));
            }
        }
        assert(!b[0].before(a[0], by)) by {
            if m > 0 {
                assert(!a[m].before(a[0], by));
            }
        }
        assert(a[0] == b[0]) by {
            assert(!a[0].before(a[m], by) && !a[m].before(a[0], by));
        }
        let a1 = a.drop_first();
        let b1 = b.drop_first();
        assert(a.remove(0) =~= a1);
        assert(b.remove(0) =~= b1);
        assert(a1.to_multiset() =~= b1.to_multiset());
        assert(ties_only_equal(a1, by)) by {
            assert forall|i: int, j: int|
                0 <= i < a1.len() && 0 <= j < a1.len() && !a1[i].before(a1[j], by) && !a1[j].before(
                    a1[i],
                    by,
                ) implies a1[i] == a1[j] by {
                assert(a1[i] == a[i + 1] && a1[j] == a[j + 1]);
            }
        }
        lemma_ranked_unique(a1, b1, by);
        assert(a =~= seq![a[0]] + a1);
        assert(b =~= seq![b[0]] + b1);
    } else {
        assert(a =~= b);
    }
}

/// A ranked arrangement of `s` is *the* ranked arrangement when only equal
/// values tie.
pub proof fn lemma_is_ranked_of<C, T: Ranked<C>>(r: Seq<T>, s: Seq<T>, by: C)
    requires
        is_ranked(r, by),
        r.to_multiset() == s.to_multiset(),
        ties_only_equal(r, by),
    ensures
        r == ranked_of(s, by),
{
    let c = ranked_of(s, by);
    assert(is_ranked(c, by) && c.to_multiset() == s.to_multiset());
    lemma_ranked_unique(r, c, by);
}

} // verus!
