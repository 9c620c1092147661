//! What rounding to single precision does, and how rounded readings are shown.

use crate::single::{half_even, pow10, single, single_quotient, spacing};
use crate::single::{law_small_readings_are_exact, lemma_spacing};
use crate::single::{tenths_steps, tenths_text, whole_text, EXACT_LIMIT, STEPS_PER_UNIT};
use crate::text::{decimal, fixed_decimal};
use crate::text_laws::{law_decimal_reads_back, law_fixed_decimal_reads_back};
use crate::text_laws::{reads, reads_point};
use vstd::arithmetic::div_mod::{lemma_fundamental_div_mod, lemma_fundamental_div_mod_converse};
use vstd::arithmetic::power::pow;
use vstd::arithmetic::power2::{lemma_pow2_adds, lemma_pow2_pos, lemma_pow2_unfold, pow2};
use vstd::prelude::*;

verus! {

/// Whether `v` has at most 24 significant bits: it is a number below 2^24 (or 2^24 itself) times
/// a power of two.
pub open spec fn is_single(v: nat) -> bool {
    exists|m: nat, k: nat| m <= 0x100_0000 && v == #[trigger] times_pow2(m, k)
}

/// `m` times the power `k` of two.
pub open spec fn times_pow2(m: nat, k: nat) -> nat {
    m * pow2(k)
}

/// How far `a` is from `b`.
pub open spec fn distance(a: nat, b: nat) -> nat {
    if a < b {
        (b - a) as nat
    } else {
        (a - b) as nat
    }
}

/// Rounding a quotient to a whole number finds a nearest one, and of two nearest ones the even
/// one.
pub proof fn law_half_even_is_nearest(n: nat, d: nat, other: nat)
    requires
        d > 0,
    ensures
        distance(half_even(n, d) * d, n) <= distance(other * d, n),
        2 * distance(half_even(n, d) * d, n) <= d,
        distance(half_even(n, d) * d, n) == distance(other * d, n) && other
            != half_even(n, d) ==> half_even(n, d) % 2 == 0 && distance(
            half_even(n, d),
            other,
        ) == 1,
{
    let q = n / d;
    let r = n % d;
    lemma_fundamental_div_mod(n as int, d as int);
    assert(n == d * q + r);
    assert(d * q == q * d) by (nonlinear_arith);
    assert((q + 1) * d == q * d + d) by (nonlinear_arith);
    if other < q {
        assert(other * d <= q * d - d) by (nonlinear_arith)
            requires
                other + 1 <= q,
                d > 0,
        ;
    } else if other > q + 1 {
        assert(other * d >= q * d + 2 * d) by (nonlinear_arith)
            requires
                other >= q + 2,
                d > 0,
        ;
    } else {
        assert(other == q || other == q + 1);
    }
}

proof fn lemma_spacing_is_power(q: nat) -> (k: nat)
    ensures
        spacing(q) == pow2(k),
    decreases q,
{
    if q < EXACT_LIMIT {
        vstd::arithmetic::power2::lemma2_to64();
        0
    } else {
        let k = lemma_spacing_is_power(q / 2);
        lemma_pow2_unfold(k + 1);
        k + 1
    }
}

/// Rounding a quotient to single precision finds a number of at most 24 significant bits, and no
/// other such number is nearer to the quotient. Where another is as near, the two are neighbours
/// and the one that is found has a zero as its last bit.
pub proof fn law_single_is_nearest(n: nat, d: nat, other: nat)
    requires
        d > 0,
        is_single(other),
    ensures
        is_single(single_quotient(n, d)),
        distance(single_quotient(n, d) * d, n) <= distance(other * d, n),
        distance(single_quotient(n, d) * d, n) == distance(other * d, n) && other
            != single_quotient(n, d) ==> exists|k: nat|
            distance(single_quotient(n, d), other) == #[trigger] pow2(k)
                && single_quotient(n, d) % (2 * pow2(k)) == 0,
{
    let q = n / d;
    let s = spacing(q);
    lemma_spacing(q);
    let k = lemma_spacing_is_power(q);
    lemma_pow2_pos(k);
    let ds = d * s;
    assert(ds > 0) by (nonlinear_arith)
        requires
            d > 0,
            s > 0,
            ds == d * s,
    ;
    let h = half_even(n, ds);
    let r = single_quotient(n, d);
    assert(r == h * s);
    assert(r * d == h * ds) by (nonlinear_arith)
        requires
            r == h * s,
            ds == d * s,
    ;
    lemma_fundamental_div_mod(n as int, d as int);
    assert(q * d <= n < q * d + d) by {
        assert(d * q == q * d) by (nonlinear_arith);
    }
    assert(h <= 0x100_0000) by {
        law_half_even_is_nearest(n, ds, 0x100_0000);
        assert(0x100_0000 * ds > n) by (nonlinear_arith)
            requires
                q < 0x100_0000 * s,
                n < q * d + d,
                ds == d * s,
                d > 0,
        ;
        if h > 0x100_0000 {
            assert(h * ds >= 0x100_0000 * ds + ds) by (nonlinear_arith)
                requires
                    h >= 0x100_0000 + 1,
                    ds > 0,
            ;
        }
    }
    assert(r == times_pow2(h, k));
    let (m, j) = choose|m: nat, j: nat| m <= 0x100_0000 && other == #[trigger] times_pow2(m, j);
    lemma_pow2_pos(j);
    if j >= k {
        lemma_pow2_adds((j - k) as nat, k);
        let p = m * pow2((j - k) as nat);
        assert(other == p * s) by (nonlinear_arith)
            requires
                other == m * pow2(j),
                pow2(j) == pow2((j - k) as nat) * pow2(k),
                s == pow2(k),
                p == m * pow2((j - k) as nat),
        ;
        lemma_multiple_is_no_nearer(n, d, s, k, p, other);
    } else {
        // Below the finest multiple that the spacing allows.
        lemma_pow2_adds(j, (k - j) as nat);
        lemma_pow2_unfold((k - j) as nat);
        lemma_pow2_pos((k - j - 1) as nat);
        let low = 0x80_0000 * s;
        if q < EXACT_LIMIT {
            assert(s == 1);
            assert(pow2(j) * pow2((k - j) as nat) >= 2) by (nonlinear_arith)
                requires
                    pow2(j) >= 1,
                    pow2((k - j) as nat) >= 2,
            ;
            assert(false);
        }
        assert(other <= low) by (nonlinear_arith)
            requires
                other == m * pow2(j),
                m <= 0x100_0000,
                s == pow2(j) * pow2((k - j) as nat),
                pow2((k - j) as nat) >= 2,
                low == 0x80_0000 * s,
        ;
        assert(low <= q);
        assert(low * d <= q * d) by (nonlinear_arith)
            requires
                low <= q,
                d > 0,
        ;
        lemma_multiple_is_no_nearer(n, d, s, k, 0x80_0000, low);
        if other < low {
            assert(other * d < low * d) by (nonlinear_arith)
                requires
                    other < low,
                    d > 0,
            ;
        }
    }
}

proof fn lemma_multiple_is_no_nearer(n: nat, d: nat, s: nat, k: nat, p: nat, other: nat)
    requires
        d > 0,
        s == spacing(n / d),
        s == pow2(k),
        s > 0,
        other == p * s,
    ensures
        distance(single_quotient(n, d) * d, n) <= distance(other * d, n),
        distance(single_quotient(n, d) * d, n) == distance(other * d, n) && other
            != single_quotient(n, d) ==> distance(single_quotient(n, d), other)
            == pow2(k) && single_quotient(n, d) % (2 * pow2(k)) == 0,
{
    let ds = d * s;
    assert(ds > 0) by (nonlinear_arith)
        requires
            d > 0,
            s > 0,
            ds == d * s,
    ;
    let h = half_even(n, ds);
    let r = single_quotient(n, d);
    assert(r * d == h * ds) by (nonlinear_arith)
        requires
            r == h * s,
            ds == d * s,
    ;
    assert(other * d == p * ds) by (nonlinear_arith)
        requires
            other == p * s,
            ds == d * s,
    ;
    law_half_even_is_nearest(n, ds, p);
    if distance(r * d, n) == distance(other * d, n) && other != r {
        assert(p != h);
        assert(h % 2 == 0);
        assert(distance(r, other) == s) by (nonlinear_arith)
            requires
                r == h * s,
                other == p * s,
                h == p + 1 || p == h + 1,
                s > 0,
        ;
        let half = h / 2;
        assert(r == half * (2 * s)) by (nonlinear_arith)
            requires
                r == h * s,
                h == 2 * half,
        ;
        lemma_fundamental_div_mod_converse(r as int, (2 * s) as int, half as int, 0);
    }
}

/// A whole reading is shown as the single-precision number nearest to it; below 2^24 that is the
/// reading itself.
pub proof fn law_whole_readings_read_back(n: nat)
    ensures
        reads(whole_text(n), single(n)),
        n < 0x100_0000 ==> reads(whole_text(n), n),
{
    law_decimal_reads_back(single(n));
    if n < EXACT_LIMIT {
        law_small_readings_are_exact(n);
    }
}

/// A whole reading is rounded to a number of at most 24 significant bits that no other such number
/// is nearer to; where another is as near, the one that is found has a zero as its last bit.
pub proof fn law_whole_readings_are_nearest(n: nat, other: nat)
    requires
        is_single(other),
    ensures
        is_single(single(n)),
        distance(single(n), n) <= distance(other, n),
        distance(single(n), n) == distance(other, n) && other != single(n) ==> exists|k: nat|
            distance(single(n), other) == #[trigger] pow2(k) && single(n) % (2 * pow2(k)) == 0,
{
    law_single_is_nearest(n, 1, other);
    assert(single(n) * 1 == single(n) && other * 1 == other);
}

/// A tenth of a reading, in steps of 2^-27, is rounded to a number of at most 24 significant bits
/// that no other such number is nearer to; where another is as near, the one that is found has a
/// zero as its last bit.
pub proof fn law_tenths_are_nearest(n: nat, other: nat)
    requires
        is_single(other),
    ensures
        is_single(tenths_steps(n)),
        ({
            let exact = single(n) * 0x800_0000;
            let found = distance(tenths_steps(n) * 10, exact);
            &&& found <= distance(other * 10, exact)
            &&& found == distance(other * 10, exact) && other != tenths_steps(n) ==> exists|k: nat|
                distance(tenths_steps(n), other) == #[trigger] pow2(k) && tenths_steps(n) % (2
                    * pow2(k)) == 0
        }),
{
    law_single_is_nearest(single(n) * STEPS_PER_UNIT as nat, 10, other);
}

/// Whether a text shows `scaled`, a number of units of the last of its `places` decimals.
pub open spec fn shows(text: Seq<char>, scaled: nat, places: nat) -> bool {
    if places == 0 {
        reads(text, scaled)
    } else {
        reads_point(text, scaled, places)
    }
}

proof fn lemma_pow10(k: nat)
    ensures
        pow10(k) == pow(10, k),
        pow10(k) > 0,
    decreases k,
{
    reveal(pow);
    if k > 0 {
        lemma_pow10((k - 1) as nat);
    }
}

proof fn lemma_shown(n: nat, places: nat)
    ensures
        shows(
            tenths_text(n, places),
            half_even(tenths_steps(n) * pow10(places), STEPS_PER_UNIT as nat),
            places,
        ),
{
    let scale = pow10(places);
    lemma_pow10(places);
    let x = half_even(tenths_steps(n) * scale, STEPS_PER_UNIT as nat);
    let text = tenths_text(n, places);
    if places == 0 {
        law_decimal_reads_back(x);
    } else {
        let whole = decimal(x / scale);
        let rest = fixed_decimal(x % scale, places);
        law_decimal_reads_back(x / scale);
        law_fixed_decimal_reads_back(x % scale, places);
        lemma_fundamental_div_mod(x as int, scale as int);
        assert((x % scale) % scale == x % scale) by {
            vstd::arithmetic::div_mod::lemma_mod_twice(x as int, scale as int);
        }
        let at = text.len() - 1 - places;
        assert(text.take(at) =~= whole);
        assert(text.skip(at + 1) =~= rest);
        assert(text[at] == '.');
        assert((x / scale) * scale == scale * (x / scale)) by (nonlinear_arith);
    }
}

/// A reading in tenths is shown, to so many decimals, as a number that is at most half a unit of
/// the last decimal away from its single-precision value; where it is exactly half a unit, the
/// last decimal is even.
pub proof fn law_tenths_read_back(n: nat, places: nat)
    ensures
        exists|x: nat| #[trigger]
            shows(tenths_text(n, places), x, places) && 2 * distance(
                x * 0x800_0000,
                tenths_steps(n) * pow(10, places) as nat,
            ) <= 0x800_0000 && (2 * distance(x * 0x800_0000, tenths_steps(n) * pow(10, places) as nat)
                == 0x800_0000 ==> x % 2 == 0),
{
    let scale = pow10(places);
    lemma_pow10(places);
    lemma_shown(n, places);
    let t = tenths_steps(n) * scale;
    let d = STEPS_PER_UNIT as nat;
    let x = half_even(t, d);
    law_half_even_is_nearest(t, d, x + 1);
    if x > 0 {
        law_half_even_is_nearest(t, d, (x - 1) as nat);
    }
    lemma_fundamental_div_mod(t as int, d as int);
    assert(shows(tenths_text(n, places), x, places));
}

proof fn lemma_spacing_below(q: nat)
    requires
        q < 0x1000_0000_0000,
    ensures
        spacing(q) <= 0x10_0000,
{
    lemma_spacing(q);
    if spacing(q) > 0x10_0000 {
        let k = lemma_spacing_is_power(q);
        vstd::arithmetic::power2::lemma2_to64();
        if k <= 20 {
            if k < 20 {
                vstd::arithmetic::power2::lemma_pow2_strictly_increases(k, 20);
            }
            assert(false);
        }
        if k > 21 {
            vstd::arithmetic::power2::lemma_pow2_strictly_increases(21, k);
        }
        assert(spacing(q) >= 0x20_0000);
        assert(false);
    }
}

proof fn lemma_small_tenths(n: nat)
    requires
        n < 1310720,
    ensures
        single(n) == n,
        distance(tenths_steps(n) * 10, n * 0x800_0000) <= 5 * 0x10_0000,
{
    law_small_readings_are_exact(n);
    let t = n * 0x800_0000;
    let q = t / 10;
    assert(q < 0x1000_0000_0000);
    lemma_spacing_below(q);
    lemma_spacing(q);
    let s = spacing(q);
    let ds = 10 * s;
    law_half_even_is_nearest(t, ds, 0);
    let h = half_even(t, ds);
    assert((h * s) * 10 == h * ds) by (nonlinear_arith)
        requires
            ds == 10 * s,
    ;
}

/// A reading of less than 131072 units is shown in tenths as it was reported: the digits behind
/// the point are the tenths, and a second decimal is zero.
pub proof fn law_tenths_are_shown_exactly(n: nat)
    requires
        n < 1310720,
    ensures
        reads_point(tenths_text(n, 1), n, 1),
        reads_point(tenths_text(n, 2), 10 * n, 2),
{
    lemma_small_tenths(n);
    reveal_with_fuel(pow10, 3);
    lemma_shown(n, 1);
    lemma_shown(n, 2);
    let t = tenths_steps(n);
    let d = STEPS_PER_UNIT as nat;
    law_half_even_is_nearest(t * 10, d, 0);
    law_half_even_is_nearest(t * 100, d, 0);
    assert(half_even(t * 10, d) == n);
    assert(half_even(t * 100, d) == 10 * n);
}

/// A reading of less than 131072 units is shown without decimals as the nearest whole number of
/// units; five tenths go to the even one.
pub proof fn law_tenths_are_shown_rounded(n: nat)
    requires
        n < 1310720,
    ensures
        exists|x: nat| #[trigger]
            reads(tenths_text(n, 0), x) && distance(10 * x, n) <= 5 && (n % 10 == 5 ==> x % 2
                == 0),
{
    lemma_small_tenths(n);
    reveal_with_fuel(pow10, 1);
    lemma_shown(n, 0);
    let t = tenths_steps(n);
    let d = STEPS_PER_UNIT as nat;
    let x = half_even(t, d);
    assert(t * 1 == t);
    law_half_even_is_nearest(t, d, 0);
    assert(distance(10 * x, n) <= 5);
    if n % 10 == 5 {
        let m = n / 10;
        let v: nat = (2 * m + 1) * 0x400_0000;
        assert(n * 0x800_0000 == v * 10);
        vstd::arithmetic::power2::lemma2_to64();
        assert(v == times_pow2(2 * m + 1, 26));
        assert(is_single(v));
        law_tenths_are_nearest(n, v);
        assert(t == v);
        law_half_even_is_nearest(t, d, m);
        law_half_even_is_nearest(t, d, m + 1);
    }
    assert(reads(tenths_text(n, 0), x));
}

} // verus!
