//! Scaling one side of an image by the ratio `max_side / longest`, where
//! `longest` is the image's longest side and `max_side` the length it is to
//! have, smaller or larger.
//!
//! The ratio is first rounded to a binary64 number, the side is multiplied
//! by it and the product rounded to binary64 again, and the result is then
//! rounded to the nearest integer, a tie going away from zero.

use vstd::prelude::*;
use vstd::arithmetic::power2::{pow2, lemma_pow2_pos, lemma_pow2_unfold};
use crate::binary64::{
    nearest_mantissa, normal_shift, lemma_shift_to_reach_bounds, MANTISSA_MIN, MANTISSA_MAX,
    lemma_round_half_even_between, quotient, product, round_to_integer,
};
use crate::rounding::{round_half_up, lemma_round_half_even_error, lemma_round_half_up_error};

verus! {

/// `length * (max_side / longest)` as double-precision arithmetic computes
/// it, rounded to the nearest integer.
pub open spec fn scaled_length(length: nat, max_side: nat, longest: nat) -> nat {
    let mantissa = nearest_mantissa(max_side, longest);
    let unit = pow2(normal_shift(max_side, longest));
    let exact = length * mantissa;
    round_half_up(nearest_mantissa(exact, unit), pow2(normal_shift(exact, unit)))
}

/// Three roundings, each off by at most one half of its unit, leave the
/// result less than one away from the exact ratio.
proof fn lemma_error_chain(r: int, q: int, m: int, w: int, mx: int, l: int, d: int, e: int)
    requires
        l > 0,
        d > 0,
        e >= 2,
        w >= 0,
        4 * w <= d,
        2 * (mx * d) - l <= 2 * (m * l) <= 2 * (mx * d) + l,
        2 * ((w * m) * e) - d <= 2 * (q * d) <= 2 * ((w * m) * e) + d,
        2 * (r * e) - e <= 2 * q < 2 * (r * e) + e,
    ensures
        -l < r * l - w * mx < l,
{
    let ml = m * l;
    let wm = w * m;
    let qd = q * d;
    let re = r * e;
    let ed = e * d;
    let we = w * e;
    let t = r * l - w * mx;
    assert(ed > 0) by (nonlinear_arith)
        requires
            ed == e * d,
            e >= 2,
            d > 0,
    ;
    assert(we + d < ed) by (nonlinear_arith)
        requires
            ed == e * d,
            we == w * e,
            e >= 2,
            d > 0,
            w >= 0,
            4 * w <= d,
    ;
    assert(wm * e * l == ml * we) by (nonlinear_arith)
        requires
            wm == w * m,
            ml == m * l,
            we == w * e,
    ;
    assert(we >= 0) by (nonlinear_arith)
        requires
            we == w * e,
            w >= 0,
            e >= 2,
    ;
    // the exact product, seen through the first rounding
    assert(2 * (ml * we) <= 2 * (w * mx) * ed + l * we) by (nonlinear_arith)
        requires
            2 * ml <= 2 * (mx * d) + l,
            we >= 0,
            we == w * e,
            ed == e * d,
    ;
    assert(2 * (ml * we) >= 2 * (w * mx) * ed - l * we) by (nonlinear_arith)
        requires
            2 * ml >= 2 * (mx * d) - l,
            we >= 0,
            we == w * e,
            ed == e * d,
    ;
    // upper side
    assert((2 * re - e) * d <= 2 * qd) by (nonlinear_arith)
        requires
            2 * re - e <= 2 * q,
            d > 0,
            qd == q * d,
    ;
    assert((2 * re - e) * d * l <= (2 * (wm * e) + d) * l) by (nonlinear_arith)
        requires
            (2 * re - e) * d <= 2 * (wm * e) + d,
            l > 0,
    ;
    assert((2 * re - e) * d * l == 2 * (r * l) * ed - ed * l) by (nonlinear_arith)
        requires
            re == r * e,
            ed == e * d,
    ;
    assert((2 * (wm * e) + d) * l == 2 * (wm * e * l) + d * l) by (nonlinear_arith);
    assert(2 * t * ed <= l * (ed + we + d)) by (nonlinear_arith)
        requires
            2 * (r * l) * ed - ed * l <= 2 * (ml * we) + d * l,
            2 * (ml * we) <= 2 * (w * mx) * ed + l * we,
            t == r * l - w * mx,
    ;
    assert(t < l) by (nonlinear_arith)
        requires
            2 * t * ed <= l * (ed + we + d),
            we + d < ed,
            ed > 0,
            l > 0,
    ;
    // lower side
    assert(2 * qd < (2 * re + e) * d) by (nonlinear_arith)
        requires
            2 * q < 2 * re + e,
            d > 0,
            qd == q * d,
    ;
    assert((2 * (wm * e) - d) * l < (2 * re + e) * d * l) by (nonlinear_arith)
        requires
            2 * (wm * e) - d < (2 * re + e) * d,
            l > 0,
    ;
    assert((2 * re + e) * d * l == 2 * (r * l) * ed + ed * l) by (nonlinear_arith)
        requires
            re == r * e,
            ed == e * d,
    ;
    assert((2 * (wm * e) - d) * l == 2 * (wm * e * l) - d * l) by (nonlinear_arith);
    assert(-2 * t * ed < l * (ed + we + d)) by (nonlinear_arith)
        requires
            2 * (ml * we) - d * l < 2 * (r * l) * ed + ed * l,
            2 * (ml * we) >= 2 * (w * mx) * ed - l * we,
            t == r * l - w * mx,
    ;
    assert(-t < l) by (nonlinear_arith)
        requires
            -2 * t * ed < l * (ed + we + d),
            we + d < ed,
            ed > 0,
            l > 0,
    ;
}

/// What is known of the binary64 ratio `max_side / longest` of two positive
/// 32-bit numbers: its unit exceeds `2^20 * longest`, its mantissa is
/// normal and within one half of `max_side * unit / longest`.
pub proof fn lemma_ratio_facts(max_side: nat, longest: nat)
    requires
        0 < max_side <= u32::MAX,
        0 < longest <= u32::MAX,
    ensures
        pow2(normal_shift(max_side, longest)) >= 0x10_0000 * longest,
        MANTISSA_MIN <= nearest_mantissa(max_side, longest) <= MANTISSA_MAX,
        2 * (max_side * pow2(normal_shift(max_side, longest))) - longest <= 2 * (nearest_mantissa(
            max_side,
            longest,
        ) * longest) <= 2 * (max_side * pow2(normal_shift(max_side, longest))) + longest,
{
    let s = normal_shift(max_side, longest);
    let d = pow2(s);
    let bound = MANTISSA_MIN as nat * longest;
    lemma_shift_to_reach_bounds(max_side, bound);
    lemma_pow2_pos(s);
    vstd::arithmetic::power2::lemma2_to64();
    assert(bound > max_side) by (nonlinear_arith)
        requires
            bound == MANTISSA_MIN as nat * longest,
            MANTISSA_MIN == 0x10_0000_0000_0000,
            0 < max_side <= 0xffff_ffff,
            0 < longest,
    ;
    if s == 0 {
        assert(max_side * pow2(0) == max_side) by (nonlinear_arith)
            requires
                pow2(0) == 1,
        ;
    }
    assert(s > 0);
    lemma_pow2_unfold(s);
    let half = pow2((s - 1) as nat);
    assert(max_side * d < MANTISSA_MAX as nat * longest) by (nonlinear_arith)
        requires
            max_side * half < bound,
            d == 2 * half,
            bound == MANTISSA_MIN as nat * longest,
            MANTISSA_MAX == 2 * MANTISSA_MIN,
    ;
    assert(d >= 0x10_0000 * longest) by (nonlinear_arith)
        requires
            max_side * d >= bound,
            bound == 0x10_0000_0000_0000 * longest,
            0 < max_side <= 0xffff_ffff,
            d > 0,
    ;
    lemma_round_half_even_between(
        max_side * d,
        longest,
        MANTISSA_MIN as nat,
        MANTISSA_MAX as nat,
    );
    lemma_round_half_even_error(max_side * d, longest);
}

/// A zero ratio is the binary64 zero, and a zero product rounds to zero.
pub proof fn lemma_zero_ratio(den: nat)
    requires
        den > 0,
    ensures
        normal_shift(0, den) == 0,
        nearest_mantissa(0, den) == 0,
        round_half_up(0, pow2(0)) == 0,
{
    vstd::arithmetic::power2::lemma2_to64();
    vstd::arithmetic::div_mod::lemma_small_mod(0, den);
    vstd::arithmetic::div_mod::lemma_div_basics(den as int);
    assert(0 * pow2(0) == 0) by (nonlinear_arith);
    assert(pow2(0) == 1);
    vstd::arithmetic::div_mod::lemma_basic_div(1, 2);
}

/// The scaled length is less than one away from the exact ratio
/// `length * max_side / longest`.
pub proof fn lemma_scaled_length_close(length: nat, max_side: nat, longest: nat)
    requires
        0 < longest <= u32::MAX,
        length <= longest,
        max_side <= u32::MAX,
    ensures
        -longest < scaled_length(length, max_side, longest) * longest - length * max_side
            < longest,
{
    let m = nearest_mantissa(max_side, longest);
    let d = pow2(normal_shift(max_side, longest));
    let exact = length * m;
    let s2 = normal_shift(exact, d);
    let e = pow2(s2);
    let q = nearest_mantissa(exact, d);
    let r = round_half_up(q, e);
    lemma_pow2_pos(normal_shift(max_side, longest));
    if max_side == 0 || length == 0 {
        if max_side == 0 {
            lemma_zero_ratio(longest);
        }
        assert(exact == 0) by (nonlinear_arith)
            requires
                exact == length * m,
                length == 0 || m == 0,
        ;
        lemma_zero_ratio(d);
        assert(r == 0);
        assert(r * longest - length * max_side == 0) by (nonlinear_arith)
            requires
                r == 0,
                max_side == 0 || length == 0,
        ;
    } else {
        lemma_ratio_facts(max_side, longest);
        let bound = MANTISSA_MIN as nat * d;
        assert(0 < exact < bound) by (nonlinear_arith)
            requires
                exact == length * m,
                bound == MANTISSA_MIN as nat * d,
                0 < length <= longest,
                0x10_0000_0000_0000 <= m <= 0x20_0000_0000_0000,
                d >= 0x10_0000 * longest,
                MANTISSA_MIN == 0x10_0000_0000_0000,
        ;
        lemma_shift_to_reach_bounds(exact, bound);
        assert(s2 > 0);
        lemma_pow2_unfold(s2);
        lemma_pow2_pos((s2 - 1) as nat);
        lemma_pow2_pos(s2);
        lemma_round_half_even_error(exact * e, d);
        lemma_round_half_up_error(q, e);
        lemma_error_chain(
            r as int,
            q as int,
            m as int,
            length as int,
            max_side as int,
            longest as int,
            d as int,
            e as int,
        );
    }
}

/// A side no longer than the longest one scales to at most `max_side`.
pub proof fn lemma_scaled_length_bound(length: nat, max_side: nat, longest: nat)
    requires
        0 < longest <= u32::MAX,
        length <= longest,
        max_side <= u32::MAX,
    ensures
        scaled_length(length, max_side, longest) <= max_side,
{
    lemma_scaled_length_close(length, max_side, longest);
    let r = scaled_length(length, max_side, longest);
    assert(r <= max_side) by (nonlinear_arith)
        requires
            r * longest - length * max_side < longest,
            length <= longest,
            longest > 0,
            r >= 0,
            max_side >= 0,
    ;
}

/// Scaling by a ratio of at most one never lengthens a side.
pub proof fn lemma_scaled_length_shrinks(length: nat, max_side: nat, longest: nat)
    requires
        0 < longest <= u32::MAX,
        length <= longest,
        max_side <= longest,
    ensures
        scaled_length(length, max_side, longest) <= length,
{
    lemma_scaled_length_close(length, max_side, longest);
    let r = scaled_length(length, max_side, longest);
    assert(r <= length) by (nonlinear_arith)
        requires
            r * longest - length * max_side < longest,
            max_side <= longest,
            longest > 0,
            r >= 0,
            length >= 0,
    ;
}

/// Where the exact ratio is an integer, the scaled length is that integer:
/// the roundings of double-precision arithmetic do not show.
pub proof fn lemma_scaled_length_exact(length: nat, max_side: nat, longest: nat, exact: nat)
    requires
        0 < longest <= u32::MAX,
        length <= longest,
        max_side <= u32::MAX,
        length * max_side == exact * longest,
    ensures
        scaled_length(length, max_side, longest) == exact,
{
    lemma_scaled_length_close(length, max_side, longest);
    let r = scaled_length(length, max_side, longest);
    assert(r == exact) by (nonlinear_arith)
        requires
            -longest < r * longest - exact * longest < longest,
            longest > 0,
    ;
}

/// The longest side scales to `max_side` exactly.
pub proof fn lemma_scaled_longest(max_side: nat, longest: nat)
    requires
        0 < longest <= u32::MAX,
        max_side <= u32::MAX,
    ensures
        scaled_length(longest, max_side, longest) == max_side,
{
    lemma_scaled_length_close(longest, max_side, longest);
    let r = scaled_length(longest, max_side, longest);
    assert(r == max_side) by (nonlinear_arith)
        requires
            -longest < r * longest - longest * max_side < longest,
            longest > 0,
    ;
}

/// Computes [`scaled_length`] for a side of an image, given its longest
/// side and the length that side is to have.
pub fn scale_length(length: u32, max_side: u32, longest: u32) -> (r: u32)
    requires
        longest > 0,
        length <= longest,
    ensures
        r == scaled_length(length as nat, max_side as nat, longest as nat),
        r <= max_side,
{
    let (mantissa, shift) = quotient(max_side, longest);
    proof {
        lemma_pow2_pos(shift as nat);
        if max_side > 0 {
            lemma_ratio_facts(max_side as nat, longest as nat);
            assert(length * mantissa < MANTISSA_MAX * pow2(shift as nat)) by (nonlinear_arith)
                requires
                    length <= longest,
                    longest > 0,
                    mantissa <= 0x20_0000_0000_0000,
                    pow2(shift as nat) >= 0x10_0000 * longest,
                    MANTISSA_MAX == 0x20_0000_0000_0000,
            ;
        } else {
            assert(length * mantissa == 0) by (nonlinear_arith)
                requires
                    mantissa == 0,
            ;
            assert(MANTISSA_MAX * pow2(shift as nat) > 0) by (nonlinear_arith)
                requires
                    pow2(shift as nat) > 0,
                    MANTISSA_MAX == 0x20_0000_0000_0000,
            ;
        }
    }
    let (rounded, exponent) = product(length, mantissa, shift);
    let r: u64 = round_to_integer(rounded, exponent);
    proof {
        lemma_scaled_length_bound(length as nat, max_side as nat, longest as nat);
    }
    r as u32
}

} // verus!
