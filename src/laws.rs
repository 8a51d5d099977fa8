//! Properties of the tracker that relate several operations, proved over the
//! spec functions that the operations' own contracts use.

use vstd::prelude::*;
use vstd::std_specs::cmp::{PartialOrdIs, PartialOrdSpec};

use vstd::pervasive::strictly_cloned;

use crate::minmax::{clones_exactly, greater, lesser, max_over, min_over, MinMax};

verus! {

/// `T`'s `<` is irreflexive and transitive, and `>` is its converse: the
/// consistent ordering that the tracker assumes of its samples.
pub open spec fn strict_order<T: PartialOrd>() -> bool {
    &&& T::obeys_partial_cmp_spec()
    &&& forall|a: T| !(#[trigger] a.partial_cmp_spec(&a) == Some(core::cmp::Ordering::Less))
    &&& forall|a: T, b: T, c: T|
        #![trigger a.partial_cmp_spec(&b), b.partial_cmp_spec(&c)]
        a.is_lt(&b) && b.is_lt(&c) ==> a.is_lt(&c)
    &&& forall|a: T, b: T| #![trigger a.partial_cmp_spec(&b)] a.is_gt(&b) <==> b.is_lt(&a)
}

/// A strict order in which two values that are neither below the other are
/// equal: then the least and greatest samples are unique.
pub open spec fn total_order<T: PartialOrd>() -> bool {
    &&& strict_order::<T>()
    &&& forall|a: T, b: T| #![trigger a.partial_cmp_spec(&b)]
        !a.is_lt(&b) && !b.is_lt(&a) ==> a == b
}

/// The unsigned and signed machine integers meet what `add`, `extend` and
/// `from_vec` ask of a sample type, and are totally ordered.
pub proof fn lemma_integer_samples()
    ensures
        total_order::<usize>() && clones_exactly::<usize>(),
        total_order::<u64>() && clones_exactly::<u64>(),
        total_order::<i64>() && clones_exactly::<i64>(),
{
    assert forall|a: usize, b: usize| #[trigger] strictly_cloned(a, b) implies a == b by {}
    assert forall|a: u64, b: u64| #[trigger] strictly_cloned(a, b) implies a == b by {}
    assert forall|a: i64, b: i64| #[trigger] strictly_cloned(a, b) implies a == b by {}
}

/// Two optional bounds are interchangeable: both absent, or both present
/// and neither below the other.
pub open spec fn tied<T: PartialOrd>(a: Option<T>, b: Option<T>) -> bool {
    match (a, b) {
        (None, None) => true,
        (Some(x), Some(y)) => !x.is_lt(&y) && !y.is_lt(&x),
        _ => false,
    }
}

/// Adding one sample `x` to an empty tracker makes `x` both its minimum and
/// its maximum, and its count one.
pub proof fn lemma_single_add<T: PartialOrd>(empty: MinMax<T>, x: T)
    requires
        empty.wf(),
        empty.count() == 0,
    ensures
        empty.count() + 1 == 1,
        lesser(empty.low(), Some(x)) == Some(x),
        greater(empty.high(), Some(x)) == Some(x),
{
}

/// `m` is the starting bound `cur` or one of `s`, and neither `cur` nor any
/// sample of `s` lies below it.
pub open spec fn is_least<T: PartialOrd>(m: T, cur: Option<T>, s: Seq<T>) -> bool {
    &&& (cur == Some(m) || s.contains(m))
    &&& (cur is Some ==> !cur->0.is_lt(&m))
    &&& forall|i: int| 0 <= i < s.len() ==> !s[i].is_lt(&m)
}

/// `m` is the starting bound `cur` or one of `s`, and neither `cur` nor any
/// sample of `s` lies above it.
pub open spec fn is_greatest<T: PartialOrd>(m: T, cur: Option<T>, s: Seq<T>) -> bool {
    &&& (cur == Some(m) || s.contains(m))
    &&& (cur is Some ==> !cur->0.is_gt(&m))
    &&& forall|i: int| 0 <= i < s.len() ==> !s[i].is_gt(&m)
}

/// Under a strict order `>` is irreflexive and transitive too, and under a
/// total order two values neither above the other are equal.
proof fn lemma_converse<T: PartialOrd>()
    requires
        strict_order::<T>(),
    ensures
        forall|a: T| !(#[trigger] a.partial_cmp_spec(&a) == Some(core::cmp::Ordering::Greater)),
        forall|a: T, b: T, c: T|
            #![trigger a.partial_cmp_spec(&b), b.partial_cmp_spec(&c)]
            a.is_gt(&b) && b.is_gt(&c) ==> a.is_gt(&c),
        total_order::<T>() ==> forall|a: T, b: T| #![trigger a.partial_cmp_spec(&b)]
            !a.is_gt(&b) && !b.is_gt(&a) ==> a == b,
{
    assert forall|a: T| !(#[trigger] a.partial_cmp_spec(&a) == Some(core::cmp::Ordering::Greater)) by {
        assert(!a.is_lt(&a));
    }
    assert forall|a: T, b: T, c: T|
        #![trigger a.partial_cmp_spec(&b), b.partial_cmp_spec(&c)]
        a.is_gt(&b) && b.is_gt(&c) implies a.is_gt(&c) by {
        assert(b.is_lt(&a));
        assert(c.is_lt(&b));
        assert(c.is_lt(&a));
    }
    if total_order::<T>() {
        assert forall|a: T, b: T| #![trigger a.partial_cmp_spec(&b)]
            !a.is_gt(&b) && !b.is_gt(&a) implies a == b by {
            assert(!b.is_lt(&a));
            assert(!a.is_lt(&b));
        }
    }
}

/// Starting from the bound `cur` and adding `s` in order leaves no minimum
/// only when both are empty, and otherwise the least of them.
pub proof fn lemma_min_over_is_least<T: PartialOrd>(cur: Option<T>, s: Seq<T>)
    requires
        strict_order::<T>(),
    ensures
        min_over(cur, s) is None <==> (cur is None && s.len() == 0),
        min_over(cur, s) is Some ==> is_least(min_over(cur, s)->0, cur, s),
    decreases s.len(),
{
    if s.len() == 0 {
        if cur is Some {
            assert(!cur->0.is_lt(&cur->0));
        }
    } else {
        let p = s.drop_last();
        let x = s.last();
        lemma_min_over_is_least(cur, p);
        assert(!x.is_lt(&x));
        assert(forall|i: int| 0 <= i < p.len() ==> p[i] == s[i]);
        assert(s[s.len() - 1] == x);
        if min_over(cur, p) is Some {
            let m = min_over(cur, p)->0;
            if x.is_lt(&m) {
                assert forall|i: int| 0 <= i < s.len() implies !s[i].is_lt(&x) by {
                    if i < p.len() && s[i].is_lt(&x) {
                        assert(s[i].is_lt(&m));
                    }
                }
                if cur is Some && cur->0.is_lt(&x) {
                    assert(cur->0.is_lt(&m));
                }
            } else if p.contains(m) {
                let j = choose|j: int| 0 <= j < p.len() && p[j] == m;
                assert(s[j] == m);
            }
        }
    }
}

/// Starting from the bound `cur` and adding `s` in order leaves no maximum
/// only when both are empty, and otherwise the greatest of them.
pub proof fn lemma_max_over_is_greatest<T: PartialOrd>(cur: Option<T>, s: Seq<T>)
    requires
        strict_order::<T>(),
    ensures
        max_over(cur, s) is None <==> (cur is None && s.len() == 0),
        max_over(cur, s) is Some ==> is_greatest(max_over(cur, s)->0, cur, s),
    decreases s.len(),
{
    lemma_converse::<T>();
    if s.len() == 0 {
        if cur is Some {
            assert(!cur->0.is_gt(&cur->0));
        }
    } else {
        let p = s.drop_last();
        let x = s.last();
        lemma_max_over_is_greatest(cur, p);
        assert(!x.is_gt(&x));
        assert(forall|i: int| 0 <= i < p.len() ==> p[i] == s[i]);
        assert(s[s.len() - 1] == x);
        if max_over(cur, p) is Some {
            let m = max_over(cur, p)->0;
            if x.is_gt(&m) {
                assert forall|i: int| 0 <= i < s.len() implies !s[i].is_gt(&x) by {
                    if i < p.len() && s[i].is_gt(&x) {
                        assert(s[i].is_gt(&m));
                    }
                }
                if cur is Some && cur->0.is_gt(&x) {
                    assert(cur->0.is_gt(&m));
                }
            } else if p.contains(m) {
                let j = choose|j: int| 0 <= j < p.len() && p[j] == m;
                assert(s[j] == m);
            }
        }
    }
}

/// Least values of the same start and the same samples, in any order, are
/// interchangeable.
proof fn lemma_least_unique<T: PartialOrd>(m1: T, m2: T, cur: Option<T>, s: Seq<T>, t: Seq<T>)
    requires
        strict_order::<T>(),
        s.to_multiset() == t.to_multiset(),
        is_least(m1, cur, s),
        is_least(m2, cur, t),
    ensures
        !m1.is_lt(&m2) && !m2.is_lt(&m1),
{
    s.to_multiset_ensures();
    t.to_multiset_ensures();
    if cur != Some(m2) {
        assert(s.to_multiset().count(m2) > 0);
        let i = choose|i: int| 0 <= i < s.len() && s[i] == m2;
    }
    if cur != Some(m1) {
        assert(t.to_multiset().count(m1) > 0);
        let j = choose|j: int| 0 <= j < t.len() && t[j] == m1;
    }
}

/// Greatest values of the same start and the same samples, in any order, are
/// interchangeable.
proof fn lemma_greatest_unique<T: PartialOrd>(m1: T, m2: T, cur: Option<T>, s: Seq<T>, t: Seq<T>)
    requires
        strict_order::<T>(),
        s.to_multiset() == t.to_multiset(),
        is_greatest(m1, cur, s),
        is_greatest(m2, cur, t),
    ensures
        !m1.is_gt(&m2) && !m2.is_gt(&m1),
{
    s.to_multiset_ensures();
    t.to_multiset_ensures();
    if cur != Some(m2) {
        assert(s.to_multiset().count(m2) > 0);
        let i = choose|i: int| 0 <= i < s.len() && s[i] == m2;
    }
    if cur != Some(m1) {
        assert(t.to_multiset().count(m1) > 0);
        let j = choose|j: int| 0 <= j < t.len() && t[j] == m1;
    }
}

/// Adding the same samples in any order to trackers with the same bounds
/// gives the same count and interchangeable bounds; under a total order the
/// bounds are equal.
pub proof fn lemma_order_independent<T: PartialOrd>(lo: Option<T>, hi: Option<T>, s: Seq<T>, t: Seq<T>)
    requires
        strict_order::<T>(),
        s.to_multiset() == t.to_multiset(),
    ensures
        s.len() == t.len(),
        tied(min_over(lo, s), min_over(lo, t)),
        tied(max_over(hi, s), max_over(hi, t)),
        total_order::<T>() ==> min_over(lo, s) == min_over(lo, t),
        total_order::<T>() ==> max_over(hi, s) == max_over(hi, t),
{
    s.to_multiset_ensures();
    t.to_multiset_ensures();
    lemma_converse::<T>();
    lemma_min_over_is_least(lo, s);
    lemma_min_over_is_least(lo, t);
    lemma_max_over_is_greatest(hi, s);
    lemma_max_over_is_greatest(hi, t);
    if min_over(lo, s) is Some {
        lemma_least_unique(min_over(lo, s)->0, min_over(lo, t)->0, lo, s, t);
    }
    if max_over(hi, s) is Some {
        lemma_greatest_unique(max_over(hi, s)->0, max_over(hi, t)->0, hi, s, t);
    }
}

/// Adding `s` and then `t` is adding their concatenation.
proof fn lemma_fold_concat<T: PartialOrd>(lo: Option<T>, hi: Option<T>, s: Seq<T>, t: Seq<T>)
    ensures
        min_over(lo, s + t) == min_over(min_over(lo, s), t),
        max_over(hi, s + t) == max_over(max_over(hi, s), t),
    decreases t.len(),
{
    if t.len() == 0 {
        assert(s + t =~= s);
    } else {
        assert((s + t).drop_last() =~= s + t.drop_last());
        assert((s + t).last() == t.last());
        lemma_fold_concat(lo, hi, s, t.drop_last());
    }
}

/// Merging the tracker built from `s` with the one built from `t` gives the
/// bounds of the tracker built from both: merging is adding the samples.
pub proof fn lemma_merge_is_concat<T: PartialOrd>(s: Seq<T>, t: Seq<T>)
    requires
        total_order::<T>(),
    ensures
        lesser(min_over(None, s), min_over(None, t)) == min_over(None, s + t),
        greater(max_over(None, s), max_over(None, t)) == max_over(None, s + t),
{
    lemma_converse::<T>();
    lemma_fold_concat(None, None, s, t);
    let a = min_over(None, s);
    let b = min_over(None, t);
    let l = lesser(a, b);
    lemma_min_over_is_least(None, t);
    lemma_min_over_is_least(a, t);
    if l is Some {
        if a is Some && b is Some {
            let x = a->0;
            let y = b->0;
            assert(!x.is_lt(&x));
            if y.is_lt(&x) {
                if x.is_lt(&y) {
                    assert(x.is_lt(&x));
                }
            } else {
                assert forall|i: int| 0 <= i < t.len() implies !t[i].is_lt(&x) by {
                    if t[i].is_lt(&x) && x.is_lt(&y) {
                        assert(t[i].is_lt(&y));
                    }
                }
            }
        } else if a is Some {
            assert(!a->0.is_lt(&a->0));
        }
        assert(is_least(l->0, a, t));
        lemma_least_unique(l->0, min_over(a, t)->0, a, t, t);
    }
    let c = max_over(None, s);
    let d = max_over(None, t);
    let g = greater(c, d);
    lemma_max_over_is_greatest(None, t);
    lemma_max_over_is_greatest(c, t);
    if g is Some {
        if c is Some && d is Some {
            let x = c->0;
            let y = d->0;
            assert(!x.is_gt(&x));
            if y.is_gt(&x) {
                if x.is_gt(&y) {
                    assert(x.is_gt(&x));
                }
            } else {
                assert forall|i: int| 0 <= i < t.len() implies !t[i].is_gt(&x) by {
                    if t[i].is_gt(&x) && x.is_gt(&y) {
                        assert(t[i].is_gt(&y));
                    }
                }
            }
        } else if c is Some {
            assert(!c->0.is_gt(&c->0));
        }
        assert(is_greatest(g->0, c, t));
        lemma_greatest_unique(g->0, max_over(c, t)->0, c, t, t);
    }
}

/// Merging `a` into `b` or `b` into `a` gives the same count and
/// interchangeable bounds; under a total order the bounds are equal.
pub proof fn lemma_merge_commutes<T: PartialOrd>(a: MinMax<T>, b: MinMax<T>)
    requires
        strict_order::<T>(),
        a.wf(),
        b.wf(),
    ensures
        a.count() + b.count() == b.count() + a.count(),
        tied(lesser(a.low(), b.low()), lesser(b.low(), a.low())),
        tied(greater(a.high(), b.high()), greater(b.high(), a.high())),
        total_order::<T>() ==> lesser(a.low(), b.low()) == lesser(b.low(), a.low()),
        total_order::<T>() ==> greater(a.high(), b.high()) == greater(b.high(), a.high()),
{
    lemma_converse::<T>();
    if a.low() is Some && b.low() is Some {
        let x = a.low()->0;
        let y = b.low()->0;
        assert(!x.is_lt(&x) && !y.is_lt(&y));
        if x.is_lt(&y) && y.is_lt(&x) {
            assert(x.is_lt(&x));
        }
    } else if a.low() is Some {
        assert(!a.low()->0.is_lt(&a.low()->0));
    } else if b.low() is Some {
        assert(!b.low()->0.is_lt(&b.low()->0));
    }
    if a.high() is Some && b.high() is Some {
        let x = a.high()->0;
        let y = b.high()->0;
        assert(!x.is_lt(&x) && !y.is_lt(&y));
        if x.is_lt(&y) && y.is_lt(&x) {
            assert(x.is_lt(&x));
        }
    } else if a.high() is Some {
        assert(!a.high()->0.is_lt(&a.high()->0));
    } else if b.high() is Some {
        assert(!b.high()->0.is_lt(&b.high()->0));
    }
}

/// Merging an empty tracker into `t`, or `t` into an empty tracker, leaves
/// `t`'s count and bounds as they were.
pub proof fn lemma_merge_empty_identity<T: PartialOrd>(t: MinMax<T>, empty: MinMax<T>)
    requires
        empty.wf(),
        empty.count() == 0,
    ensures
        t.count() + empty.count() == t.count(),
        empty.count() + t.count() == t.count(),
        lesser(t.low(), empty.low()) == t.low(),
        greater(t.high(), empty.high()) == t.high(),
        lesser(empty.low(), t.low()) == t.low(),
        greater(empty.high(), t.high()) == t.high(),
{
}

} // verus!
