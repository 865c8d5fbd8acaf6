//! Exact fractions: an executable unreduced fraction type and a
//! specification-level rational model.

use vstd::prelude::*;

verus! {

/// A mathematical rational number `num / den`, for specifications.
pub struct Rat {
    pub num: int,
    pub den: int,
}

/// Builds a rational from a numerator and a denominator.
pub open spec fn rat(num: int, den: int) -> Rat {
    Rat { num, den }
}

/// Two fractions denote the same rational number exactly when their cross
/// products agree.
pub open spec fn rat_eqv(a: Rat, b: Rat) -> bool {
    a.num * b.den == b.num * a.den
}

/// The quotient of two rationals.
pub open spec fn rat_div(a: Rat, b: Rat) -> Rat {
    rat(a.num * b.den, a.den * b.num)
}

/// Half of a rational.
pub open spec fn rat_half(a: Rat) -> Rat {
    rat(a.num, 2 * a.den)
}

/// An exact nonnegative fraction, held unreduced as a 128-bit numerator over
/// a 128-bit denominator.
#[derive(Clone, Copy, PartialEq, Eq, Structural)]
pub struct Frac {
    pub num: u128,
    pub den: u128,
}

impl Frac {
    /// The rational number this fraction denotes.
    pub open spec fn as_rat(self) -> Rat {
        rat(self.num as int, self.den as int)
    }

    /// A fraction is well formed when its denominator is not zero.
    pub open spec fn wf(self) -> bool {
        self.den > 0
    }
}

} // verus!
