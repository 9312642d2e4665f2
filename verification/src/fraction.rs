//! A ratio between zero and one, compared by cross-multiplication.

use vstd::prelude::*;

verus! {

/// A fraction between 0 and 1, both inclusive: a numerator over a positive
/// denominator, no larger than it.
///
/// Fractions compare as ratios, by cross-multiplication, so `1/2` equals
/// `4/8` and `500/1001` is less than `1/2`.
#[derive(Clone, Debug)]
pub struct Fraction {
    /// Numerator of the ratio.
    numerator: u32,
    /// Denominator of the ratio.
    denominator: u32,
}

impl Fraction {
    /// Validity: the denominator is positive and the ratio is at most one.
    pub closed spec fn valid(self) -> bool {
        0 < self.denominator && self.numerator <= self.denominator
    }

    /// The numerator.
    pub closed spec fn num(self) -> u32 {
        self.numerator
    }

    /// The denominator.
    pub closed spec fn den(self) -> u32 {
        self.denominator
    }

    /// Check that the fraction is valid: the denominator is positive and the
    /// ratio no more than one.
    pub fn assert_valid(&self)
        requires
            self.valid(),
    {
        assert(0 < self.denominator);
        assert(self.numerator <= self.denominator);
    }

    /// Build the fraction `numerator / denominator`, which must be a valid
    /// ratio between 0 and 1.
    pub fn new(numerator: u32, denominator: u32) -> (r: Fraction)
        requires
            0 < denominator,
            numerator <= denominator,
        ensures
            r.num() == numerator,
            r.den() == denominator,
            r.valid(),
    {
        let value = Fraction { numerator, denominator };
        value.assert_valid();
        value
    }
}

impl PartialEq for Fraction {
    /// Cross-multiplied equality: `a/b` equals `c/d` when `a·d == c·b`.
    fn eq(&self, other: &Fraction) -> (r: bool) {
        let a = self.numerator;
        let b = self.denominator;
        let c = other.numerator;
        let d = other.denominator;
        proof {
            assert((a as u64) * (d as u64) <= u64::MAX && (c as u64) * (b as u64) <= u64::MAX)
                by (nonlinear_arith);
        }
        (a as u64) * (d as u64) == (c as u64) * (b as u64)
    }
}

impl vstd::std_specs::cmp::PartialEqSpecImpl for Fraction {
    open spec fn obeys_eq_spec() -> bool {
        true
    }

    closed spec fn eq_spec(&self, other: &Fraction) -> bool {
        self.numerator * other.denominator == other.numerator * self.denominator
    }
}

impl PartialOrd for Fraction {
    /// Cross-multiplied ordering: `a/b` relates to `c/d` as `a·d` to `c·b`.
    fn partial_cmp(&self, other: &Fraction) -> (r: Option<core::cmp::Ordering>) {
        let a = self.numerator;
        let b = self.denominator;
        let c = other.numerator;
        let d = other.denominator;
        proof {
            assert((a as u64) * (d as u64) <= u64::MAX && (c as u64) * (b as u64) <= u64::MAX)
                by (nonlinear_arith);
        }
        let left = (a as u64) * (d as u64);
        let right = (c as u64) * (b as u64);
        if left < right {
            Some(core::cmp::Ordering::Less)
        } else if left == right {
            Some(core::cmp::Ordering::Equal)
        } else {
            Some(core::cmp::Ordering::Greater)
        }
    }
}

impl vstd::std_specs::cmp::PartialOrdSpecImpl for Fraction {
    open spec fn obeys_partial_cmp_spec() -> bool {
        true
    }

    closed spec fn partial_cmp_spec(&self, other: &Fraction) -> Option<core::cmp::Ordering> {
        if self.numerator * other.denominator < other.numerator * self.denominator {
            Some(core::cmp::Ordering::Less)
        } else if self.numerator * other.denominator == other.numerator * self.denominator {
            Some(core::cmp::Ordering::Equal)
        } else {
            Some(core::cmp::Ordering::Greater)
        }
    }
}

} // verus!
