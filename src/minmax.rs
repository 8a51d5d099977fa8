use vstd::pervasive::strictly_cloned;
use vstd::prelude::*;
use vstd::std_specs::cmp::{PartialOrdIs, PartialOrdSpec};

use crate::commute::Commute;

verus! {

/// `T`'s `clone` hands back a value equal to its argument.
pub open spec fn clones_exactly<T: Clone>() -> bool {
    forall|a: T, b: T| #[trigger] strictly_cloned(a, b) ==> a == b
}

/// The smaller of two optional bounds: an absent bound yields to a present
/// one, and on a tie (neither below the other) the first is kept.
pub open spec fn lesser<T: PartialOrd>(a: Option<T>, b: Option<T>) -> Option<T> {
    match (a, b) {
        (Some(x), Some(y)) => if y.is_lt(&x) {
            b
        } else {
            a
        },
        (None, _) => b,
        (_, None) => a,
    }
}

/// The larger of two optional bounds: an absent bound yields to a present
/// one, and on a tie (neither above the other) the first is kept.
pub open spec fn greater<T: PartialOrd>(a: Option<T>, b: Option<T>) -> Option<T> {
    match (a, b) {
        (Some(x), Some(y)) => if y.is_gt(&x) {
            b
        } else {
            a
        },
        (None, _) => b,
        (_, None) => a,
    }
}

/// The minimum held after starting from `cur` and adding `s` in order.
pub open spec fn min_over<T: PartialOrd>(cur: Option<T>, s: Seq<T>) -> Option<T>
    decreases s.len(),
{
    if s.len() == 0 {
        cur
    } else {
        lesser(min_over(cur, s.drop_last()), Some(s.last()))
    }
}

/// The maximum held after starting from `cur` and adding `s` in order.
pub open spec fn max_over<T: PartialOrd>(cur: Option<T>, s: Seq<T>) -> Option<T>
    decreases s.len(),
{
    if s.len() == 0 {
        cur
    } else {
        greater(max_over(cur, s.drop_last()), Some(s.last()))
    }
}

/// A commutative data structure for tracking minimum and maximum values.
///
/// This also stores the number of samples.
#[derive(Clone)]
pub struct MinMax<T> {
    len: usize,
    min: Option<T>,
    max: Option<T>,
}

impl<T> MinMax<T> {
    /// Number of samples incorporated so far.
    pub closed spec fn count(&self) -> nat {
        self.len as nat
    }

    /// The stored minimum, if any.
    pub closed spec fn low(&self) -> Option<T> {
        self.min
    }

    /// The stored maximum, if any.
    pub closed spec fn high(&self) -> Option<T> {
        self.max
    }

    /// Both bounds are present exactly when at least one sample was seen.
    pub open spec fn wf(&self) -> bool {
        &&& (self.low() is Some <==> self.count() > 0)
        &&& (self.high() is Some <==> self.count() > 0)
        &&& self.count() <= usize::MAX
    }
}

impl<T: PartialOrd + Clone> MinMax<T> {
    /// Create an empty state where min and max values do not exist.
    pub fn new() -> (r: MinMax<T>)
        ensures
            r.wf(),
            r.count() == 0,
            r.low() is None,
            r.high() is None,
    {
        MinMax { len: 0, min: None, max: None }
    }

    /// Add a sample to the data.
    ///
    /// A new minimum is stored as a clone of `sample` and a new maximum as
    /// `sample` itself; a sample equal to a stored bound leaves it in place.
    pub fn add(&mut self, sample: T)
        requires
            old(self).wf(),
            old(self).count() < usize::MAX,
            T::obeys_partial_cmp_spec(),
            clones_exactly::<T>(),
        ensures
            final(self).wf(),
            final(self).count() == old(self).count() + 1,
            final(self).low() == lesser(old(self).low(), Some(sample)),
            final(self).high() == greater(old(self).high(), Some(sample)),
    {
        self.len = self.len + 1;
        let below = match &self.min {
            Some(m) => sample < *m,
            None => true,
        };
        if below {
            let copy = sample.clone();
            proof {
                assert(strictly_cloned(sample, copy));
            }
            self.min = Some(copy);
        }
        let above = match &self.max {
            Some(m) => sample > *m,
            None => true,
        };
        if above {
            self.max = Some(sample);
        }
    }

    /// Returns the minimum of the data set.
    ///
    /// `None` is returned if and only if the number of samples is `0`.
    pub fn min(&self) -> (r: Option<&T>)
        ensures
            r is Some <==> self.low() is Some,
            r is Some ==> *r->0 == self.low()->0,
    {
        self.min.as_ref()
    }

    /// Returns the maximum of the data set.
    ///
    /// `None` is returned if and only if the number of samples is `0`.
    pub fn max(&self) -> (r: Option<&T>)
        ensures
            r is Some <==> self.high() is Some,
            r is Some ==> *r->0 == self.high()->0,
    {
        self.max.as_ref()
    }

    /// Returns the number of data point.
    pub fn len(&self) -> (r: usize)
        ensures
            r == self.count(),
    {
        self.len
    }

    /// Adds every sample of `samples`, in order.
    pub fn extend(&mut self, samples: Vec<T>)
        requires
            old(self).wf(),
            old(self).count() + samples@.len() <= usize::MAX,
            T::obeys_partial_cmp_spec(),
            clones_exactly::<T>(),
        ensures
            final(self).wf(),
            final(self).count() == old(self).count() + samples@.len(),
            final(self).low() == min_over(old(self).low(), samples@),
            final(self).high() == max_over(old(self).high(), samples@),
    {
        let ghost start = *self;
        let ghost all = samples@;
        for sample in it: samples
            invariant
                it.seq() == all,
                self.wf(),
                start.count() + all.len() <= usize::MAX,
                self.count() == start.count() + it.index(),
                self.low() == min_over(start.low(), all.take(it.index() as int)),
                self.high() == max_over(start.high(), all.take(it.index() as int)),
                T::obeys_partial_cmp_spec(),
                clones_exactly::<T>(),
        {
            proof {
                let k = it.index() as int;
                assert(all.take(k + 1).drop_last() == all.take(k));
            }
            self.add(sample);
        }
        proof {
            assert(all.take(all.len() as int) == all);
        }
    }

    /// Builds a state from `samples`, as if each were added in order to an
    /// empty one.
    pub fn from_vec(samples: Vec<T>) -> (r: MinMax<T>)
        requires
            T::obeys_partial_cmp_spec(),
            clones_exactly::<T>(),
        ensures
            r.wf(),
            r.count() == samples@.len(),
            r.low() == min_over(None, samples@),
            r.high() == max_over(None, samples@),
    {
        let mut v = MinMax::new();
        // nothing to add leaves the empty state as it is
        if samples.len() > 0 {
            v.extend(samples);
        }
        v
    }
}

impl<T: PartialOrd> MinMax<T> {
    /// Folds `other` into this state: counts add up, and each bound becomes
    /// the more extreme of the two, this state's bound winning ties.
    pub fn merge(&mut self, other: MinMax<T>)
        requires
            old(self).wf(),
            other.wf(),
            old(self).count() + other.count() <= usize::MAX,
            T::obeys_partial_cmp_spec(),
        ensures
            final(self).wf(),
            final(self).count() == old(self).count() + other.count(),
            final(self).low() == lesser(old(self).low(), other.low()),
            final(self).high() == greater(old(self).high(), other.high()),
    {
        self.len = self.len + other.len;
        let MinMax { len: _, min, max } = other;
        let take_min = match &min {
            Some(a) => match &self.min {
                Some(b) => *a < *b,
                None => true,
            },
            None => false,
        };
        if take_min {
            self.min = min;
        }
        let take_max = match &max {
            Some(a) => match &self.max {
                Some(b) => *a > *b,
                None => true,
            },
            None => false,
        };
        if take_max {
            self.max = max;
        }
    }
}

impl<T: PartialOrd> Commute for MinMax<T> {
    open spec fn can_merge(&self, other: &Self) -> bool {
        &&& self.wf()
        &&& other.wf()
        &&& self.count() + other.count() <= usize::MAX
        &&& T::obeys_partial_cmp_spec()
    }

    open spec fn merged(before: &Self, other: &Self, after: &Self) -> bool {
        &&& after.wf()
        &&& after.count() == before.count() + other.count()
        &&& after.low() == lesser(before.low(), other.low())
        &&& after.high() == greater(before.high(), other.high())
    }

    fn merge(&mut self, other: Self) {
        MinMax::merge(self, other)
    }
}

impl<T: PartialOrd> Default for MinMax<T> {
    fn default() -> (r: MinMax<T>)
        ensures
            r.wf(),
            r.count() == 0,
            r.low() is None,
            r.high() is None,
    {
        MinMax { len: 0, min: None, max: None }
    }
}

/// Relies on std's `format!` with `{:?}`: the value's `Debug` form.
#[verifier::external_body]
fn debug_form<T: std::fmt::Debug>(x: &T) -> String {
    format!("{:?}", x)
}

impl<T: std::fmt::Debug> MinMax<T> {
    /// Human-readable form: `[min, max]` once a sample was seen, each bound in
    /// its `Debug` form, and `N/A` before.
    pub fn summary(&self) -> (r: String)
        requires
            self.wf(),
        ensures
            self.count() == 0 ==> r@ == "N/A"@,
            self.count() > 0 ==> exists|lo: Seq<char>, hi: Seq<char>|
                r@ == "["@ + lo + ", "@ + hi + "]"@,
    {
        match (&self.min, &self.max) {
            (Some(lo), Some(hi)) => {
                let lo_text = debug_form(lo);
                let hi_text = debug_form(hi);
                let mut r = String::from_str("[");
                r.append(lo_text.as_str());
                r.append(", ");
                r.append(hi_text.as_str());
                r.append("]");
                proof {
                    reveal_strlit("[");
                    reveal_strlit(", ");
                    reveal_strlit("]");
                    assert(r@ == "["@ + lo_text@ + ", "@ + hi_text@ + "]"@);
                }
                r
            },
            _ => {
                proof {
                    reveal_strlit("N/A");
                }
                "N/A".to_owned()
            },
        }
    }
}

} // verus!
