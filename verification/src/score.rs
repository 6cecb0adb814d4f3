//! Scores: double-precision numbers held by their bit patterns, with the order of IEEE 754.

use vstd::arithmetic::power2::*;
use vstd::prelude::*;

use crate::views::Duplicate;

verus! {

/// A double-precision number, held by its bit pattern.
#[derive(Clone, Copy, Debug, PartialEq, Eq, Structural)]
pub struct Score {
    pub bits: u64,
}

/// The weight of the sign bit.
pub const SIGN: u64 = 0x8000_0000_0000_0000;

/// The bit pattern of positive infinity.
pub const INFINITY: u64 = 0x7ff0_0000_0000_0000;

/// The bit pattern of one.
pub const ONE: u64 = 0x3ff0_0000_0000_0000;

/// The weight of the lowest exponent bit.
pub const IMPLICIT: u64 = 0x10_0000_0000_0000;

impl View for Score {
    type V = Score;

    open spec fn view(&self) -> Score {
        *self
    }
}

impl Duplicate for Score {
    fn duplicate(&self) -> (r: Self) {
        *self
    }
}

impl Score {
    /// The pattern without its sign.
    pub open spec fn magnitude(self) -> int {
        self.bits as int % SIGN as int
    }

    /// Whether this is not a number.
    pub open spec fn nan(self) -> bool {
        self.magnitude() > INFINITY
    }

    /// Whether this is a number that is not infinite.
    pub open spec fn finite(self) -> bool {
        self.magnitude() < INFINITY
    }

    /// The place of the number in the order: patterns of one sign are ordered by magnitude, and
    /// the two zeros share a place.
    pub open spec fn place(self) -> int {
        if self.bits < SIGN {
            self.magnitude()
        } else {
            -self.magnitude()
        }
    }

    /// Whether this number is less than `other`; never where one of them is not a number.
    pub open spec fn lt(self, other: Score) -> bool {
        !self.nan() && !other.nan() && self.place() < other.place()
    }

    /// Whether this number is at least `other`; never where one of them is not a number.
    pub open spec fn ge(self, other: Score) -> bool {
        !self.nan() && !other.nan() && self.place() >= other.place()
    }

    /// Whether the two are the same number; never where one of them is not a number.
    pub open spec fn same(self, other: Score) -> bool {
        !self.nan() && !other.nan() && self.place() == other.place()
    }

    /// The greater of the two, or the one that is a number.
    pub open spec fn greater(self, other: Score) -> Score {
        if self.nan() || self.lt(other) {
            other
        } else {
            self
        }
    }

    /// Zero.
    pub fn zero() -> (r: Score)
        ensures
            r.bits == 0,
            !r.nan(),
            r.place() == 0,
    {
        Score { bits: 0 }
    }

    /// One.
    pub fn one() -> (r: Score)
        ensures
            r.bits == ONE,
            !r.nan(),
    {
        Score { bits: ONE }
    }

    /// Whether this is not a number.
    pub fn is_nan(&self) -> (r: bool)
        ensures
            r == self.nan(),
    {
        self.bits % SIGN > INFINITY
    }

    /// Whether this is a number that is not infinite.
    pub fn is_finite(&self) -> (r: bool)
        ensures
            r == self.finite(),
    {
        self.bits % SIGN < INFINITY
    }

    /// Whether this number is less than `other`.
    pub fn less_than(&self, other: &Score) -> (r: bool)
        ensures
            r == self.lt(*other),
    {
        let a: u64 = self.bits % SIGN;
        let b: u64 = other.bits % SIGN;
        let negative_a: bool = self.bits >= SIGN;
        let negative_b: bool = other.bits >= SIGN;
        if a > INFINITY || b > INFINITY {
            false
        } else if negative_a && negative_b {
            a > b
        } else if negative_a {
            a > 0 || b > 0
        } else if negative_b {
            false
        } else {
            a < b
        }
    }

    /// Whether this number is at least `other`.
    pub fn at_least(&self, other: &Score) -> (r: bool)
        ensures
            r == self.ge(*other),
    {
        !self.is_nan() && !other.is_nan() && !self.less_than(other)
    }

    /// Whether the two are the same number.
    pub fn same_number(&self, other: &Score) -> (r: bool)
        ensures
            r == self.same(*other),
    {
        self.at_least(other) && !other.less_than(self)
    }

    /// The greater of the two, or the one that is a number.
    pub fn max(&self, other: &Score) -> (r: Score)
        ensures
            r == self.greater(*other),
    {
        if self.is_nan() || self.less_than(other) {
            *other
        } else {
            *self
        }
    }

    /// The double nearest to `n`, ties going to the even significand.
    pub fn from_u64(n: u64) -> (r: Score)
        ensures
            r.bits as int == nearest_double(n as nat),
    {
        if n == 0 {
            return Score { bits: 0 };
        }
        let e: u64 = binary_exponent(n);
        proof {
            lemma_exponent(n as nat);
            lemma_exponent_bounded(n as nat);
            lemma2_to64();
            lemma2_to64_rest();
        }
        if e <= 52 {
            let scale: u64 = power_of_two(52 - e);
            proof {
                lemma_pow2_adds(exponent(n as nat), (52 - e) as nat);
                assert(n * scale < 2 * pow2(52) && n * scale >= pow2(52)) by (nonlinear_arith)
                    requires
                        pow2(e as nat) <= n < 2 * pow2(e as nat),
                        pow2(e as nat) * scale == pow2(52),
                        scale > 0,
                ;
            }
            Score { bits: (e + 1023) * IMPLICIT + (n * scale - IMPLICIT) }
        } else {
            let unit: u64 = power_of_two(e - 52);
            let q: u64 = n / unit;
            let rest: u64 = n % unit;
            proof {
                lemma_pow2_adds(52, (e - 52) as nat);
                assert(pow2(52) <= n / unit < 2 * pow2(52)) by (nonlinear_arith)
                    requires
                        pow2(e as nat) <= n < 2 * pow2(e as nat),
                        pow2(52) * unit == pow2(e as nat),
                        unit > 0,
                ;
            }
            let half: u64 = unit / 2;
            proof {
                lemma_pow2_unfold((e - 52) as nat);
            }
            let carry: u64 = if rest > half || (rest == half && q % 2 == 1) {
                1
            } else {
                0
            };
            Score { bits: (e + 1023) * IMPLICIT + (q - IMPLICIT) + carry }
        }
    }
}

/// The exponent of the greatest power of two that is at most `n`.
pub open spec fn exponent(n: nat) -> nat
    decreases n,
{
    if n < 2 {
        0
    } else {
        1 + exponent(n / 2)
    }
}

/// The bit pattern of the double nearest to `n`. Where `n` has more than 53 binary digits, what
/// stands below the 53rd is rounded to nearest, ties going to the even significand.
pub open spec fn nearest_double(n: nat) -> int {
    let e = exponent(n) as int;
    let biased = (e + 1023) * IMPLICIT;
    if n == 0 {
        0
    } else if e <= 52 {
        biased + (n * pow2((52 - e) as nat) - IMPLICIT)
    } else {
        let unit = pow2((e - 52) as nat) as int;
        let q = n as int / unit;
        let rest = n as int % unit;
        let carry: int = if 2 * rest > unit || (2 * rest == unit && q % 2 == 1) {
            1
        } else {
            0
        };
        biased + (q - IMPLICIT) + carry
    }
}

pub proof fn lemma_exponent(n: nat)
    requires
        n > 0,
    ensures
        pow2(exponent(n)) <= n < 2 * pow2(exponent(n)),
    decreases n,
{
    lemma2_to64();
    if n >= 2 {
        lemma_exponent(n / 2);
        lemma_pow2_unfold(exponent(n));
    }
}

proof fn lemma_exponent_bounded(n: nat)
    requires
        0 < n <= u64::MAX,
    ensures
        exponent(n) < 64,
{
    lemma_exponent(n);
    lemma2_to64();
    lemma2_to64_rest();
    if exponent(n) >= 64 {
        if exponent(n) > 64 {
            lemma_pow2_strictly_increases(64, exponent(n));
        }
    }
}

fn binary_exponent(n: u64) -> (r: u64)
    ensures
        r == exponent(n as nat),
        r < 64,
    decreases n,
{
    proof {
        if n > 0 {
            lemma_exponent_bounded(n as nat);
        }
    }
    if n < 2 {
        0
    } else {
        1 + binary_exponent(n / 2)
    }
}

fn power_of_two(e: u64) -> (r: u64)
    requires
        e < 64,
    ensures
        r == pow2(e as nat),
        r > 0,
    decreases e,
{
    proof {
        lemma2_to64();
        lemma2_to64_rest();
        lemma_pow2_pos(e as nat);
    }
    if e == 0 {
        1
    } else {
        proof {
            lemma_pow2_unfold(e as nat);
            if e < 63 {
                lemma_pow2_strictly_increases(e as nat, 63);
            }
        }
        2 * power_of_two(e - 1)
    }
}

} // verus!
