//! Laws of scores.

use vstd::arithmetic::power2::{lemma2_to64, lemma2_to64_rest, lemma_pow2_adds, pow2};
use vstd::prelude::*;

use crate::score::{exponent, lemma_exponent, nearest_double, Score};

verus! {

/// What is below the sign, up to positive infinity, is a number; the same above it is a negative
/// number; the rest is none.
pub open spec fn number(bits: u64) -> bool {
    bits <= 0x7ff0_0000_0000_0000 || 0x8000_0000_0000_0000 <= bits <= 0xfff0_0000_0000_0000
}

/// The order of scores by their patterns: numbers that are not negative are ordered as their
/// patterns are, negative ones the other way round, and those before these but for the two zeros.
/// What is no number is neither less nor greater than anything.
pub proof fn scores_are_ordered_as_numbers(a: u64, b: u64)
    ensures
        ({
            let x = Score { bits: a };
            let y = Score { bits: b };
            let sign: int = 0x8000_0000_0000_0000;
            &&& x.nan() <==> !number(a)
            &&& !number(a) || !number(b) ==> !x.lt(y) && !x.ge(y) && !x.same(y)
            &&& number(a) && number(b) ==> {
                &&& a < sign && b < sign ==> (x.lt(y) <==> a < b)
                &&& a >= sign && b >= sign ==> (x.lt(y) <==> b < a)
                &&& a >= sign && b < sign ==> (x.lt(y) <==> !(a == sign && b == 0))
                &&& a < sign && b >= sign ==> !x.lt(y)
                &&& x.ge(y) <==> !x.lt(y)
                &&& x.same(y) <==> !x.lt(y) && !y.lt(x)
            }
        }),
{
}

/// Being less is an order.
pub proof fn being_less_is_an_order(a: Score, b: Score, c: Score)
    ensures
        !a.lt(a),
        a.lt(b) ==> !b.lt(a),
        a.lt(b) && b.lt(c) ==> a.lt(c),
        !a.nan() && !b.nan() && !c.nan() && !a.lt(b) && !b.lt(c) ==> !a.lt(c),
{
}

/// The greater of two scores is one of them, and less than neither; where one of them is no number
/// it is the other.
pub proof fn the_greater_is_less_than_neither(a: Score, b: Score)
    ensures
        a.greater(b) == a || a.greater(b) == b,
        !a.greater(b).lt(a),
        !a.greater(b).lt(b),
        a.nan() ==> a.greater(b) == b,
        b.nan() && !a.nan() ==> a.greater(b) == a,
{
}

/// An integer below two to the power of 53 has its double exactly: one with the significand and
/// the exponent that make the integer.
pub proof fn small_integers_are_exact(n: nat)
    requires
        0 < n < 0x20_0000_0000_0000,
    ensures
        ({
            let bits = nearest_double(n);
            let power = bits / 0x10_0000_0000_0000 - 1023;
            let significand = 0x10_0000_0000_0000 + bits % 0x10_0000_0000_0000;
            &&& 0 <= power <= 52
            &&& significand == n * pow2((52 - power) as nat)
        }),
        nearest_double(0) == 0,
        nearest_double(1) == 0x3ff0_0000_0000_0000,
{
    lemma2_to64();
    lemma2_to64_rest();
    lemma_exponent(n);
    let e = exponent(n);
    if e > 52 {
        lemma_pow2_adds(53, (e - 53) as nat);
        vstd::arithmetic::power2::lemma_pow2_pos((e - 53) as nat);
        assert(pow2(53) <= pow2(53) * pow2((e - 53) as nat)) by (nonlinear_arith)
            requires
                pow2((e - 53) as nat) >= 1,
                pow2(53) >= 0,
        ;
    }
    let scale = pow2((52 - e) as nat);
    lemma_pow2_adds(e, (52 - e) as nat);
    assert(0x10_0000_0000_0000 <= n * scale < 0x20_0000_0000_0000) by (nonlinear_arith)
        requires
            pow2(e) <= n < 2 * pow2(e),
            pow2(e) * scale == 0x10_0000_0000_0000,
            scale > 0,
    ;
    let bits = nearest_double(n);
    let below = n * scale - 0x10_0000_0000_0000;
    assert(bits == (e + 1023) * 0x10_0000_0000_0000 + below);
    assert(bits / 0x10_0000_0000_0000 == e + 1023);
    assert(bits % 0x10_0000_0000_0000 == below);
    assert(exponent(1) == 0);
}

/// A greater integer has the double nearest to it: none with the same exponent is nearer, and of
/// two that are as near it is the one with the even significand.
pub proof fn great_integers_are_rounded_to_the_nearest(n: nat)
    requires
        n >= 0x20_0000_0000_0000,
    ensures
        ({
            let power = exponent(n) as int;
            let unit = pow2((power - 52) as nat) as int;
            let significand = nearest_double(n) - (power + 1022) * 0x10_0000_0000_0000;
            &&& pow2(power as nat) <= n < 2 * pow2(power as nat)
            &&& -unit <= 2 * (n - significand * unit) <= unit
            &&& 2 * (n - significand * unit) == unit || 2 * (n - significand * unit) == -unit
                ==> significand % 2 == 0
        }),
{
    lemma2_to64();
    lemma2_to64_rest();
    lemma_exponent(n);
    let e = exponent(n);
    if e <= 52 {
        lemma_pow2_adds(e, (52 - e) as nat);
        vstd::arithmetic::power2::lemma_pow2_pos((52 - e) as nat);
        assert(pow2(e) <= pow2(e) * pow2((52 - e) as nat)) by (nonlinear_arith)
            requires
                pow2((52 - e) as nat) >= 1,
                pow2(e) >= 0,
        ;
    }
    let unit = pow2((e - 52) as nat) as int;
    vstd::arithmetic::power2::lemma_pow2_pos((e - 52) as nat);
    let q = n as int / unit;
    let rest = n as int % unit;
    vstd::arithmetic::div_mod::lemma_fundamental_div_mod(n as int, unit);
    let significand = nearest_double(n) - (e + 1022) * 0x10_0000_0000_0000;
    assert((q + 1) * unit == q * unit + unit) by (nonlinear_arith);
    assert(unit * q == q * unit) by (nonlinear_arith);
    if significand == q {
        assert(2 * (n - significand * unit) == 2 * rest);
    } else {
        assert(significand == q + 1);
        assert(2 * (n - significand * unit) == 2 * rest - 2 * unit);
    }
}

} // verus!
