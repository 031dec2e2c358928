//! Double-precision arithmetic on non-negative ratios, carried out in
//! integers.
//!
//! A positive binary64 number is written here as `mantissa / 2^shift` with
//! `2^52 <= mantissa <= 2^53`; zero is `0 / 2^0`. Rounding a ratio to such a
//! number follows IEEE 754: nearest value, a tie going to the even mantissa.
//! Only magnitudes below `2^53` occur, so no mantissa ever has to be scaled
//! down and no exponent leaves the normal range.

use vstd::prelude::*;
use vstd::arithmetic::power2::{pow2, lemma_pow2_pos, lemma_pow2_unfold, lemma2_to64};
use crate::rounding::{round_half_even, div_round_half_even};

verus! {

/// `2^52`, the least mantissa of a positive number.
pub const MANTISSA_MIN: u64 = 0x10_0000_0000_0000;

/// `2^53`, the bound below which every mantissa lies before rounding.
pub const MANTISSA_MAX: u64 = 0x20_0000_0000_0000;

/// The least `s` with `num * 2^s >= bound`; zero when `num` is zero.
pub open spec fn shift_to_reach(num: nat, bound: nat) -> nat
    decreases (if num < bound { bound - num } else { 0 }),
{
    if num == 0 || num >= bound {
        0
    } else {
        1 + shift_to_reach(2 * num, bound)
    }
}

/// The least `s` with `num * 2^s >= 2^52 * den`: the shift that brings the
/// ratio `num / den` into the mantissa range. Zero for a zero ratio.
pub open spec fn normal_shift(num: nat, den: nat) -> nat {
    shift_to_reach(num, MANTISSA_MIN as nat * den)
}

/// The mantissa of the binary64 number nearest to `num / den`.
pub open spec fn nearest_mantissa(num: nat, den: nat) -> nat {
    round_half_even(num * pow2(normal_shift(num, den)), den)
}

/// `2^e` as a machine integer.
pub fn power_of_two(e: u32) -> (r: u128)
    requires
        e < 127,
    ensures
        r == pow2(e as nat),
{
    let mut r: u128 = 1;
    let mut i: u32 = 0;
    proof {
        lemma2_to64();
        lemma_pow2_126();
    }
    while i < e
        invariant
            i <= e,
            e < 127,
            r == pow2(i as nat),
            r <= pow2(126),
        decreases e - i,
    {
        proof {
            lemma_pow2_unfold((i + 1) as nat);
            lemma_pow2_bound((i + 1) as nat, 126);
            lemma_pow2_126();
        }
        r = r * 2;
        i = i + 1;
    }
    r
}

/// The binary64 number nearest to `num / den`, as its mantissa and shift.
pub fn quotient(num: u32, den: u32) -> (r: (u64, u32))
    requires
        den > 0,
    ensures
        r.0 == nearest_mantissa(num as nat, den as nat),
        r.1 == normal_shift(num as nat, den as nat),
        num == 0 ==> r.0 == 0 && r.1 == 0,
        num > 0 ==> MANTISSA_MIN <= r.0 <= MANTISSA_MAX && r.1 <= 84,
{
    if num == 0 {
        proof {
            lemma2_to64();
            vstd::arithmetic::div_mod::lemma_small_mod(0, den as nat);
            vstd::arithmetic::div_mod::lemma_div_basics(den as int);
        }
        return (0, 0);
    }
    assert(MANTISSA_MIN * den <= 0x10_0000_0000_0000 * 0xffff_ffff) by (nonlinear_arith)
        requires
            MANTISSA_MIN == 0x10_0000_0000_0000,
            den <= 0xffff_ffff,
    ;
    let bound: u128 = MANTISSA_MIN as u128 * (den as u128);
    let mut n: u128 = num as u128;
    let mut e: u32 = 0;
    proof {
        lemma2_to64();
        lemma_pow2_84();
    }
    while n < bound
        invariant
            den > 0,
            bound == MANTISSA_MIN * den,
            n == num * pow2(e as nat),
            n > 0,
            num > 0,
            n < 2 * bound,
            bound <= 0x10_0000_0000_0000 * 0xffff_ffff,
            e <= 84,
            shift_to_reach(num as nat, bound as nat) == e + shift_to_reach(n as nat, bound as nat),
        decreases 84 - e,
    {
        proof {
            lemma_pow2_unfold((e + 1) as nat);
            assert(num * pow2((e + 1) as nat) == 2 * n) by (nonlinear_arith)
                requires
                    n == num * pow2(e as nat),
                    pow2((e + 1) as nat) == 2 * pow2(e as nat),
            ;
            assert(pow2(e as nat) <= n) by (nonlinear_arith)
                requires
                    n == num * pow2(e as nat),
                    num >= 1,
            ;
            lemma_pow2_84();
            if e >= 84 {
                lemma_pow2_bound(84, e as nat);
            }
            assert(e < 84);
        }
        n = n * 2;
        e = e + 1;
    }
    proof {
        lemma_round_half_even_between(n as nat, den as nat, MANTISSA_MIN as nat, MANTISSA_MAX as nat);
    }
    let mantissa: u128 = div_round_half_even(n, den as u128);
    (mantissa as u64, e)
}

/// The binary64 number nearest to `length * mantissa / 2^shift`: the
/// product of an integer and a binary64 number, rounded once.
pub fn product(length: u32, mantissa: u64, shift: u32) -> (r: (u64, u32))
    requires
        mantissa == 0 || MANTISSA_MIN <= mantissa <= MANTISSA_MAX,
        shift <= 84,
        length * mantissa < MANTISSA_MAX * pow2(shift as nat),
    ensures
        r.0 == nearest_mantissa((length * mantissa) as nat, pow2(shift as nat)),
        r.1 == normal_shift((length * mantissa) as nat, pow2(shift as nat)),
        length * mantissa == 0 ==> r.0 == 0 && r.1 == 0,
        length * mantissa > 0 ==> MANTISSA_MIN <= r.0 <= MANTISSA_MAX && r.1 <= shift,
{
    let ghost den = pow2(shift as nat);
    proof {
        lemma_pow2_pos(shift as nat);
        lemma2_to64();
    }
    assert(length * mantissa <= 0xffff_ffff * 0x20_0000_0000_0000) by (nonlinear_arith)
        requires
            length <= 0xffff_ffff,
            mantissa <= 0x20_0000_0000_0000,
    ;
    let p: u128 = length as u128 * (mantissa as u128);
    if p == 0 {
        proof {
            vstd::arithmetic::div_mod::lemma_small_mod(0, den);
            vstd::arithmetic::div_mod::lemma_div_basics(den as int);
        }
        return (0, 0);
    }
    assert(p >= MANTISSA_MIN) by (nonlinear_arith)
        requires
            p == length * mantissa,
            p != 0,
            mantissa == 0 || MANTISSA_MIN <= mantissa,
    ;
    let mut unit: u128 = 1;
    let mut k: u32 = 0;
    while p >= MANTISSA_MAX as u128 * unit
        invariant
            unit == pow2(k as nat),
            p >= MANTISSA_MIN * unit,
            p <= 0xffff_ffff * 0x20_0000_0000_0000,
            unit <= 0x1_0000_0000,
            k <= 32,
        decreases 32 - k,
    {
        proof {
            lemma_pow2_unfold((k + 1) as nat);
            assert(unit < 0x1_0000_0000) by (nonlinear_arith)
                requires
                    p >= MANTISSA_MAX * unit,
                    MANTISSA_MAX == 0x20_0000_0000_0000,
                    p <= 0xffff_ffff * 0x20_0000_0000_0000,
            ;
            lemma2_to64();
            if k >= 32 {
                lemma_pow2_bound(32, k as nat);
            }
            assert(k < 32);
            lemma_pow2_bound((k + 1) as nat, 32);
        }
        unit = unit * 2;
        k = k + 1;
    }
    proof {
        // 2^52 * 2^k <= p < 2^53 * 2^shift, hence k <= shift
        if k > shift {
            lemma_pow2_bound((shift + 1) as nat, k as nat);
            lemma_pow2_unfold((shift + 1) as nat);
        }
        assert(k <= shift);
        let rest = pow2((shift - k) as nat);
        vstd::arithmetic::power2::lemma_pow2_adds(k as nat, (shift - k) as nat);
        lemma_pow2_pos((shift - k) as nat);
        assert(den == unit * rest);
        assert(p * rest >= MANTISSA_MIN * den) by (nonlinear_arith)
            requires
                p >= MANTISSA_MIN * unit,
                den == unit * rest,
        ;
        if shift - k > 0 {
            let less = pow2((shift - k - 1) as nat);
            lemma_pow2_unfold((shift - k) as nat);
            assert(p * less < MANTISSA_MIN * den) by (nonlinear_arith)
                requires
                    p < MANTISSA_MAX * unit,
                    den == unit * rest,
                    rest == 2 * less,
                    less > 0,
                    MANTISSA_MAX == 2 * MANTISSA_MIN,
            ;
        }
        lemma_shift_to_reach_is(p as nat, MANTISSA_MIN as nat * den, (shift - k) as nat);
        lemma_round_half_even_cancel(p as nat, unit as nat, rest);
        assert(unit * rest == rest * unit) by (nonlinear_arith);
        lemma_round_half_even_between(p as nat, unit as nat, MANTISSA_MIN as nat, MANTISSA_MAX as nat);
    }
    let rounded: u128 = div_round_half_even(p, unit);
    (rounded as u64, shift - k)
}

/// The binary64 number `mantissa / 2^shift` rounded to the nearest integer,
/// a tie going away from zero.
pub fn round_to_integer(mantissa: u64, shift: u32) -> (r: u64)
    requires
        mantissa <= MANTISSA_MAX,
        shift <= 84,
    ensures
        r == crate::rounding::round_half_up(mantissa as nat, pow2(shift as nat)),
{
    proof {
        lemma_pow2_84();
        lemma_pow2_bound(shift as nat, 84);
        lemma_pow2_pos(shift as nat);
    }
    let unit: u128 = power_of_two(shift);
    let r: u128 = (2 * (mantissa as u128) + unit) / (2 * unit);
    assert(r <= mantissa + 1) by {
        assert(2 * mantissa + unit < (2 * unit) * (mantissa + 2)) by (nonlinear_arith)
            requires
                unit >= 1,
        ;
        vstd::arithmetic::div_mod::lemma_multiply_divide_lt(
            (2 * mantissa + unit) as int, (2 * unit) as int, (mantissa + 2) as int);
    }
    r as u64
}

/// The shift that [`shift_to_reach`] names is the only one that reaches
/// the bound without overshooting it.
pub proof fn lemma_shift_to_reach_is(num: nat, bound: nat, s: nat)
    requires
        num > 0,
        num * pow2(s) >= bound,
        s > 0 ==> num * pow2((s - 1) as nat) < bound,
    ensures
        shift_to_reach(num, bound) == s,
    decreases s,
{
    lemma2_to64();
    if s == 0 {
        assert(num * pow2(0) == num) by (nonlinear_arith)
            requires
                pow2(0) == 1,
        ;
    } else {
        let less = pow2((s - 1) as nat);
        lemma_pow2_pos((s - 1) as nat);
        lemma_pow2_unfold(s);
        assert(num <= num * less) by (nonlinear_arith)
            requires
                less >= 1,
        ;
        assert((2 * num) * less == num * pow2(s)) by (nonlinear_arith)
            requires
                pow2(s) == 2 * less,
        ;
        if s > 1 {
            lemma_pow2_unfold((s - 1) as nat);
            let least = pow2((s - 2) as nat);
            assert((2 * num) * least == num * less) by (nonlinear_arith)
                requires
                    less == 2 * least,
            ;
        }
        lemma_shift_to_reach_is(2 * num, bound, (s - 1) as nat);
    }
}

/// The shift that [`shift_to_reach`] names reaches the bound, and one
/// doubling fewer does not.
pub proof fn lemma_shift_to_reach_bounds(num: nat, bound: nat)
    requires
        num > 0,
    ensures
        num * pow2(shift_to_reach(num, bound)) >= bound,
        shift_to_reach(num, bound) > 0 ==> num * pow2((shift_to_reach(num, bound) - 1) as nat)
            < bound,
    decreases (if num < bound { bound - num } else { 0 }),
{
    lemma2_to64();
    if num >= bound {
        assert(num * pow2(0) == num) by (nonlinear_arith)
            requires
                pow2(0) == 1,
        ;
    } else {
        let rest = shift_to_reach(2 * num, bound);
        lemma_shift_to_reach_bounds(2 * num, bound);
        lemma_pow2_unfold(rest + 1);
        assert(num * pow2(rest + 1) == (2 * num) * pow2(rest)) by (nonlinear_arith)
            requires
                pow2(rest + 1) == 2 * pow2(rest),
        ;
        if rest > 0 {
            lemma_pow2_unfold(rest);
            assert(num * pow2(rest) == (2 * num) * pow2((rest - 1) as nat)) by (nonlinear_arith)
                requires
                    pow2(rest) == 2 * pow2((rest - 1) as nat),
            ;
        } else {
            assert(num * pow2(0) == num) by (nonlinear_arith)
                requires
                    pow2(0) == 1,
            ;
        }
    }
}

/// Rounding a ratio does not depend on a common factor of its two terms.
pub proof fn lemma_round_half_even_cancel(num: nat, den: nat, factor: nat)
    requires
        den > 0,
        factor > 0,
    ensures
        round_half_even(num * factor, den * factor) == round_half_even(num, den),
{
    vstd::arithmetic::div_mod::lemma_div_multiples_vanish_quotient(factor as int, num as int, den as int);
    vstd::arithmetic::div_mod::lemma_truncate_middle(num as int, factor as int, den as int);
    assert(num * factor == factor * num) by (nonlinear_arith);
    assert(den * factor == factor * den) by (nonlinear_arith);
    let r = num % den;
    assert((num * factor) % (den * factor) == factor * r);
    assert(2 * (factor * r) < den * factor <==> 2 * r < den) by (nonlinear_arith)
        requires
            factor > 0,
    ;
    assert(2 * (factor * r) > den * factor <==> 2 * r > den) by (nonlinear_arith)
        requires
            factor > 0,
    ;
}

/// The value of `2^84`: above every `2^52 * den` with a 32-bit `den`.
pub proof fn lemma_pow2_84()
    ensures
        pow2(84) == 0x1_0000_0000 * 0x10_0000_0000_0000,
        pow2(52) == 0x10_0000_0000_0000,
        pow2(53) == 0x20_0000_0000_0000,
{
    lemma2_to64();
    vstd::arithmetic::power2::lemma_pow2_adds(32, 20);
    vstd::arithmetic::power2::lemma_pow2_adds(32, 21);
    vstd::arithmetic::power2::lemma_pow2_adds(32, 52);
    assert(pow2(32) * pow2(20) == 0x10_0000_0000_0000) by (nonlinear_arith)
        requires
            pow2(32) == 0x1_0000_0000,
            pow2(20) == 0x10_0000,
    ;
    assert(pow2(32) * pow2(21) == 0x20_0000_0000_0000) by (nonlinear_arith)
        requires
            pow2(32) == 0x1_0000_0000,
            pow2(21) == 0x20_0000,
    ;
}

/// A ratio between two integers rounds to a value between them.
pub proof fn lemma_round_half_even_between(num: nat, den: nat, low: nat, high: nat)
    requires
        den > 0,
        low * den <= num <= high * den,
    ensures
        low <= round_half_even(num, den) <= high,
{
    let q = num / den;
    let r = num % den;
    vstd::arithmetic::div_mod::lemma_fundamental_div_mod(num as int, den as int);
    vstd::arithmetic::div_mod::lemma_mod_bound(num as int, den as int);
    assert(low <= q) by (nonlinear_arith)
        requires
            low * den <= num,
            num == den * q + r,
            r < den,
            den > 0,
    ;
    assert(q < high || (q == high && r == 0)) by (nonlinear_arith)
        requires
            num <= high * den,
            num == den * q + r,
            0 <= r,
            den > 0,
    ;
}

/// Powers of two grow with the exponent.
pub proof fn lemma_pow2_bound(a: nat, b: nat)
    requires
        a <= b,
    ensures
        pow2(a) <= pow2(b),
{
    if a < b {
        vstd::arithmetic::power2::lemma_pow2_strictly_increases(a, b);
    }
}

/// The value of `2^126`, which bounds the powers held in 128 bits.
pub proof fn lemma_pow2_126()
    ensures
        pow2(126) == 0x4000_0000_0000_0000_0000_0000_0000_0000,
{
    lemma2_to64();
    vstd::arithmetic::power2::lemma_pow2_adds(64, 62);
    vstd::arithmetic::power2::lemma_pow2_adds(32, 30);
    assert(pow2(62) == 0x4000_0000_0000_0000) by {
        assert(pow2(32) * pow2(30) == 0x4000_0000_0000_0000) by (nonlinear_arith)
            requires
                pow2(32) == 0x1_0000_0000,
                pow2(30) == 0x4000_0000,
        ;
    }
    assert(pow2(64) * pow2(62) == 0x4000_0000_0000_0000_0000_0000_0000_0000) by (nonlinear_arith)
        requires
            pow2(64) == 0x1_0000_0000_0000_0000,
            pow2(62) == 0x4000_0000_0000_0000,
    ;
}

} // verus!
