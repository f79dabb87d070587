//! Fractions: the thresholds that the configuration sets.

use vstd::prelude::*;

verus! {

/// A fraction with a positive denominator.
#[derive(Debug, Clone, Copy, PartialEq, Eq)]
pub struct Ratio {
    num: i32,
    den: u32,
}

impl DeepView for Ratio {
    type V = (int, int);

    closed spec fn deep_view(&self) -> (int, int) {
        (self.num as int, self.den as int)
    }
}

impl Ratio {
    #[verifier::type_invariant]
    spec fn wf(self) -> bool {
        self.den > 0
    }

    /// `num` over `den`; none where `den` is zero.
    pub fn new(num: i32, den: u32) -> (r: Option<Ratio>)
        ensures
            r.deep_view() == if den > 0 {
                Some((num as int, den as int))
            } else {
                None
            },
    {
        if den > 0 {
            Some(Ratio::over(num, den))
        } else {
            None
        }
    }

    /// `num` over `den`.
    pub(crate) fn over(num: i32, den: u32) -> (r: Ratio)
        requires
            den > 0,
        ensures
            r.deep_view() == (num as int, den as int),
    {
        Ratio { num, den }
    }

    /// The numerator and the denominator.
    pub fn parts(self) -> (r: (i32, u32))
        ensures
            self.deep_view() == (r.0 as int, r.1 as int),
            r.1 > 0,
    {
        proof {
            use_type_invariant(self);
        }
        (self.num, self.den)
    }
}

} // verus!
