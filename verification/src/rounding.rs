//! Rounding of non-negative rationals, the building block of the
//! dimension arithmetic.

use vstd::prelude::*;

verus! {

/// `num / den` rounded to the nearest integer, a tie going to the even
/// neighbour.
pub open spec fn round_half_even(num: nat, den: nat) -> nat
    recommends
        den > 0,
{
    let q = num / den;
    let r = num % den;
    if 2 * r < den {
        q
    } else if 2 * r > den {
        q + 1
    } else if q % 2 == 0 {
        q
    } else {
        q + 1
    }
}

/// `num / den` rounded to the nearest integer, a tie going upwards
/// (away from zero, as the value is never negative).
pub open spec fn round_half_up(num: nat, den: nat) -> nat
    recommends
        den > 0,
{
    (2 * num + den) / (2 * den)
}

/// Computes [`round_half_even`].
pub fn div_round_half_even(num: u128, den: u128) -> (r: u128)
    requires
        den > 0,
        den <= u128::MAX / 2,
    ensures
        r == round_half_even(num as nat, den as nat),
{
    let q: u128 = num / den;
    let rem: u128 = num % den;
    proof {
        lemma_quotient_below(num as nat, den as nat);
    }
    if 2 * rem < den {
        q
    } else if 2 * rem > den {
        q + 1
    } else if q % 2 == 0 {
        q
    } else {
        q + 1
    }
}

/// Rounding to nearest moves a ratio by at most one half.
pub proof fn lemma_round_half_even_error(num: nat, den: nat)
    requires
        den > 0,
    ensures
        2 * num - den <= 2 * (round_half_even(num, den) * den) <= 2 * num + den,
{
    let q = num / den;
    let r = num % den;
    lemma_quotient_below(num, den);
    vstd::arithmetic::div_mod::lemma_mod_bound(num as int, den as int);
    assert((q + 1) * den == q * den + den) by (nonlinear_arith);
    assert(q * den == den * q) by (nonlinear_arith);
}

/// Rounding half up yields the integer within one half of the ratio, the
/// upper one on a tie.
pub proof fn lemma_round_half_up_error(num: nat, den: nat)
    requires
        den > 0,
    ensures
        2 * (round_half_up(num, den) * den) - den <= 2 * num < 2 * (round_half_up(num, den) * den) + den,
{
    let r = round_half_up(num, den);
    let d = 2 * den;
    let n = 2 * num + den;
    lemma_quotient_below(n, d);
    vstd::arithmetic::div_mod::lemma_mod_bound(n as int, d as int);
    assert(d * r == 2 * (r * den)) by (nonlinear_arith)
        requires
            d == 2 * den,
    ;
}

/// A division that leaves a remainder has a quotient below its dividend.
pub proof fn lemma_quotient_below(num: nat, den: nat)
    requires
        den > 0,
    ensures
        num == den * (num / den) + num % den,
        num % den > 0 ==> num / den < num,
{
    vstd::arithmetic::div_mod::lemma_fundamental_div_mod(num as int, den as int);
    let q = num / den;
    assert(den * q >= q) by (nonlinear_arith)
        requires
            den >= 1,
            q >= 0,
    ;
}

} // verus!
