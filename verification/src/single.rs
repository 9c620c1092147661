//! Single-precision rounding in integer arithmetic.
//!
//! The iron reports its readings as 32-bit integers; they are shown and compared as
//! single-precision numbers (24 significant bits, nearest value, ties to even). Everything
//! here is exact: a reading in tenths is a whole number of steps of 2^-27, the spacing of
//! single-precision numbers next to one tenth.

use crate::text::{decimal, fixed_decimal};
use crate::text::{push_decimal, push_fixed_decimal};
use vstd::prelude::*;

verus! {

/// The first whole number with more than 24 significant bits.
pub const EXACT_LIMIT: u32 = 0x100_0000;

/// Steps per unit of a quotient by ten.
pub const STEPS_PER_UNIT: u32 = 0x800_0000;

/// The spacing of whole single-precision numbers around `q`: the power of two that leaves
/// 24 significant bits.
pub open spec fn spacing(q: nat) -> nat
    decreases q,
{
    if q < EXACT_LIMIT {
        1
    } else {
        2 * spacing(q / 2)
    }
}

/// `n / d` rounded to the nearest whole number, ties to the even one.
pub open spec fn half_even(n: nat, d: nat) -> nat {
    let q = n / d;
    let r = n % d;
    if 2 * r < d || (2 * r == d && q % 2 == 0) {
        q
    } else {
        q + 1
    }
}

/// `n / d` rounded to the nearest whole number of at most 24 significant bits, ties to even.
pub open spec fn single_quotient(n: nat, d: nat) -> nat {
    half_even(n, d * spacing(n / d)) * spacing(n / d)
}

/// The single-precision number nearest to `n`.
pub open spec fn single(n: nat) -> nat {
    single_quotient(n, 1)
}

/// The single-precision quotient of the single-precision `n` by ten, in steps of 2^-27.
pub open spec fn tenths_steps(n: nat) -> nat {
    single_quotient(single(n) * STEPS_PER_UNIT as nat, 10)
}

/// Ten to the power `k`.
pub open spec fn pow10(k: nat) -> nat
    decreases k,
{
    if k == 0 {
        1
    } else {
        10 * pow10((k - 1) as nat)
    }
}

/// A whole reading, shown without decimals.
pub open spec fn whole_text(n: nat) -> Seq<char> {
    decimal(single(n))
}

/// A reading in tenths, shown with `places` decimals (rounded to nearest, ties to even).
pub open spec fn tenths_text(n: nat, places: nat) -> Seq<char> {
    let shown = half_even(tenths_steps(n) * pow10(places), STEPS_PER_UNIT as nat);
    if places == 0 {
        decimal(shown)
    } else {
        decimal(shown / pow10(places)) + seq!['.'] + fixed_decimal(shown % pow10(places), places)
    }
}

/// The spacing leaves 24 significant bits: a leading bit and 23 more.
pub proof fn lemma_spacing(q: nat)
    ensures
        1 <= spacing(q),
        q < EXACT_LIMIT * spacing(q),
        q >= EXACT_LIMIT ==> spacing(q) >= 2 && EXACT_LIMIT * spacing(q) <= 2 * q,
    decreases q,
{
    if q >= EXACT_LIMIT {
        lemma_spacing(q / 2);
    }
}

/// Rounding moves a quotient by less than its divisor allows.
proof fn lemma_half_even(n: nat, d: nat)
    requires
        d > 0,
    ensures
        n / d <= half_even(n, d) <= n / d + 1,
        half_even(n, d) * d <= 2 * n + d,
        (n / d) * d <= n,
{
    vstd::arithmetic::div_mod::lemma_fundamental_div_mod(n as int, d as int);
    let q = n / d;
    assert(q * d == d * q) by (nonlinear_arith);
    assert((q + 1) * d == q * d + d) by (nonlinear_arith);
}

/// A single-precision number is at most twice what it rounds.
proof fn lemma_single_quotient_bound(n: nat, d: nat)
    requires
        d > 0,
    ensures
        single_quotient(n, d) <= 2 * (n / d) + 1,
{
    let q = n / d;
    let s = spacing(q);
    lemma_spacing(q);
    assert(d * s > 0) by (nonlinear_arith)
        requires
            d > 0,
            s > 0,
    ;
    lemma_half_even(n, d * s);
    vstd::arithmetic::div_mod::lemma_div_denominator(n as int, d as int, s as int);
    assert(n / (d * s) == q / s);
    vstd::arithmetic::div_mod::lemma_fundamental_div_mod(q as int, s as int);
    assert((q / s + 1) * s == s * (q / s) + s) by (nonlinear_arith);
    assert(half_even(n, d * s) * s <= (q / s + 1) * s) by (nonlinear_arith)
        requires
            half_even(n, d * s) <= q / s + 1,
            s >= 0,
    ;
    if q < EXACT_LIMIT {
        assert(s == 1);
    }
}

/// Readings below 2^24 are represented exactly.
pub proof fn law_small_readings_are_exact(n: nat)
    requires
        n < EXACT_LIMIT,
    ensures
        single(n) == n,
{
    assert(n / 1 == n && n % 1 == 0);
    assert(1 * spacing(n) == 1);
    assert(half_even(n, 1) * 1 == n);
}

/// A reading compares with a small threshold as its single-precision value does.
pub proof fn law_thresholds_survive_rounding(n: nat, limit: nat)
    requires
        limit < EXACT_LIMIT,
    ensures
        single(n) >= limit <==> n >= limit,
        single(n) > limit <==> n > limit,
{
    if n < EXACT_LIMIT {
        law_small_readings_are_exact(n);
    } else {
        let s = spacing(n);
        lemma_spacing(n);
        lemma_half_even(n, s);
        assert(n / 1 == n && 1 * s == s);
        assert(single(n) == half_even(n, s) * s);
        assert(n / s >= 0x80_0000) by (nonlinear_arith)
            requires
                0x100_0000 * s <= 2 * n,
                s > 0,
        ;
        assert(half_even(n, s) * s >= 0x80_0000 * 2) by (nonlinear_arith)
            requires
                half_even(n, s) >= 0x80_0000,
                s >= 2,
        ;
    }
}

/// Computes [`spacing`].
fn compute_spacing(q: u128) -> (r: u128)
    requires
        q <= 0x1_0000_0000_0000_0000,
    ensures
        r == spacing(q as nat),
        1 <= r <= q + 1,
    decreases q,
{
    proof {
        lemma_spacing(q as nat);
        lemma_spacing(q as nat / 2);
    }
    if q < EXACT_LIMIT as u128 {
        1
    } else {
        2 * compute_spacing(q / 2)
    }
}

/// Computes [`half_even`].
fn compute_half_even(n: u128, d: u128) -> (r: u128)
    requires
        0 < d <= 0xffff_ffff_ffff_ffff_ffff_ffff,
        n <= 0xffff_ffff_ffff_ffff_ffff_ffff,
    ensures
        r == half_even(n as nat, d as nat),
{
    let q: u128 = n / d;
    let rem: u128 = n % d;
    proof {
        lemma_half_even(n as nat, d as nat);
        assert(q <= n) by (nonlinear_arith)
            requires
                q * d <= n,
                d >= 1,
        ;
    }
    if 2 * rem < d || (2 * rem == d && q % 2 == 0) {
        q
    } else {
        q + 1
    }
}

/// Computes [`single_quotient`].
fn compute_single_quotient(n: u128, d: u128) -> (r: u128)
    requires
        n <= 0x1_0000_0000_0000_0000,
        1 <= d <= 10,
    ensures
        r == single_quotient(n as nat, d as nat),
        r <= 2 * n + 1,
{
    proof {
        vstd::arithmetic::div_mod::lemma_div_is_ordered_by_denominator(n as int, 1, d as int);
        lemma_single_quotient_bound(n as nat, d as nat);
    }
    let s: u128 = compute_spacing(n / d);
    assert(1 <= d * s <= 10 * (n + 1)) by (nonlinear_arith)
        requires
            1 <= d <= 10,
            1 <= s <= n + 1,
    ;
    compute_half_even(n, d * s) * s
}

/// The single-precision number nearest to `n`.
pub fn nearest_single(n: u64) -> (r: u128)
    ensures
        r == single(n as nat),
        r <= 2 * n + 1,
{
    compute_single_quotient(n as u128, 1)
}

/// Appends a whole reading, without decimals.
pub fn push_whole(out: &mut String, n: u32)
    ensures
        final(out)@ == old(out)@ + whole_text(n as nat),
{
    push_decimal(out, nearest_single(n as u64));
}

/// Appends a reading in tenths, with `places` decimals.
pub fn push_tenths(out: &mut String, n: u32, places: u8)
    requires
        places <= 2,
    ensures
        final(out)@ == old(out)@ + tenths_text(n as nat, places as nat),
{
    let scale: u128 = if places == 0 {
        1
    } else if places == 1 {
        10
    } else {
        100
    };
    proof {
        reveal_with_fuel(pow10, 3);
        reveal_strlit(".");
    }
    let whole: u128 = nearest_single(n as u64);
    assert(whole * STEPS_PER_UNIT <= 0x2_0000_0000 * 0x800_0000) by (nonlinear_arith)
        requires
            whole <= 0x2_0000_0000,
            STEPS_PER_UNIT == 0x800_0000,
    ;
    let steps: u128 = compute_single_quotient(whole * STEPS_PER_UNIT as u128, 10);
    assert(steps * scale <= 100 * (2 * 0x2_0000_0000 * 0x800_0000 + 1)) by (nonlinear_arith)
        requires
            steps <= 2 * 0x2_0000_0000 * 0x800_0000 + 1,
            scale <= 100,
    ;
    let shown: u128 = compute_half_even(steps * scale, STEPS_PER_UNIT as u128);
    if places == 0 {
        push_decimal(out, shown);
    } else {
        push_decimal(out, shown / scale);
        out.append(".");
        push_fixed_decimal(out, shown % scale, places);
    }
}

} // verus!
