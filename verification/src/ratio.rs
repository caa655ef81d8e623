//! Non-negative reals that the crate names itself, as exact ratios.

use vstd::prelude::*;

verus! {

/// The real `numerator / denominator`.
#[derive(Clone, Copy, Debug, PartialEq, Eq, Structural)]
pub struct Ratio {
    pub numerator: u64,
    pub denominator: u64,
}

impl Ratio {
    /// The ratio names a real: its denominator is not zero.
    pub open spec fn wf(&self) -> bool {
        self.denominator > 0
    }

    /// `self <= other` as reals.
    pub open spec fn le(&self, other: Ratio) -> bool {
        self.numerator * other.denominator <= other.numerator * self.denominator
    }

    /// `self == k * unit` as reals.
    pub open spec fn is_multiple(&self, k: nat, unit: Ratio) -> bool {
        self.numerator * unit.denominator == k * unit.numerator * self.denominator
    }

    /// The ratio of the two numbers, unless the second is zero.
    pub fn new(numerator: u64, denominator: u64) -> (r: Option<Ratio>)
        ensures
            r == (if denominator > 0 {
                Some(Ratio { numerator, denominator })
            } else {
                None
            }),
    {
        if denominator > 0 {
            Some(Ratio { numerator, denominator })
        } else {
            None
        }
    }

    /// `k` times the ratio, over the same denominator, unless the numerator
    /// leaves the machine word.
    pub fn times(&self, k: u64) -> (r: Option<Ratio>)
        ensures
            r == (if self.numerator * k <= u64::MAX {
                Some(Ratio { numerator: (self.numerator * k) as u64, denominator: self.denominator })
            } else {
                None
            }),
    {
        if k == 0 {
            Some(Ratio { numerator: 0, denominator: self.denominator })
        } else if self.numerator > u64::MAX / k {
            assert(self.numerator * k > u64::MAX) by (nonlinear_arith)
                requires
                    k > 0,
                    self.numerator > u64::MAX / k,
            ;
            None
        } else {
            assert(self.numerator * k <= u64::MAX) by (nonlinear_arith)
                requires
                    k > 0,
                    self.numerator <= u64::MAX / k,
            ;
            Some(Ratio { numerator: self.numerator * k, denominator: self.denominator })
        }
    }
}

/// Multiples of one ratio are ordered as their factors are.
pub proof fn lemma_multiples_ordered(unit: Ratio, a: nat, b: nat)
    requires
        unit.wf(),
        a <= b,
        unit.numerator * b <= u64::MAX,
    ensures
        unit.numerator * a <= u64::MAX,
        (Ratio { numerator: (unit.numerator * a) as u64, denominator: unit.denominator }).le(
            Ratio { numerator: (unit.numerator * b) as u64, denominator: unit.denominator },
        ),
{
    let n = unit.numerator as int;
    let d = unit.denominator as int;
    assert(n * a <= n * b) by (nonlinear_arith)
        requires
            0 <= n,
            a <= b,
    ;
    assert((n * a) * d <= (n * b) * d) by (nonlinear_arith)
        requires
            n * a <= n * b,
            0 < d,
    ;
}

} // verus!
