//! The capability shared by accumulators whose partial results can be
//! combined in any order.

use vstd::prelude::*;

verus! {

/// An accumulator that can absorb another of its kind.
pub trait Commute: Sized {
    /// `other` may be folded into `self` (its counts fit, its samples compare).
    spec fn can_merge(&self, other: &Self) -> bool;

    /// `after` is what folding `other` into `before` yields.
    spec fn merged(before: &Self, other: &Self, after: &Self) -> bool;

    /// Folds `other` into `self`, consuming it.
    fn merge(&mut self, other: Self)
        requires
            old(self).can_merge(&other),
        ensures
            Self::merged(old(self), &other, final(self)),
    ;
}

} // verus!
