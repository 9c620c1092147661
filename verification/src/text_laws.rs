//! What numbers and durations read, once they have been written.

use crate::text::{decimal, duration_text, fixed_decimal, fixed_hex};
use vstd::arithmetic::div_mod::lemma_mod_breakdown;
use vstd::arithmetic::power::{lemma_pow0, lemma_pow_positive, pow};
use vstd::prelude::*;

verus! {

/// The number that decimal digits spell.
pub open spec fn decimal_value(text: Seq<char>) -> nat
    decreases text.len(),
{
    if text.len() == 0 {
        0
    } else {
        10 * decimal_value(text.drop_last()) + (text.last() as nat - '0' as nat) as nat
    }
}

/// Whether a text is made of decimal digits alone.
pub open spec fn is_digits(text: Seq<char>) -> bool {
    forall|i: int| 0 <= i < text.len() ==> '0' <= #[trigger] text[i] <= '9'
}

/// Whether a text is a decimal number as people write it: digits, none of them a leading zero.
pub open spec fn is_decimal(text: Seq<char>) -> bool {
    &&& text.len() > 0
    &&& is_digits(text)
    &&& text[0] == '0' ==> text.len() == 1
}

/// Whether a text reads `n`.
pub open spec fn reads(text: Seq<char>, n: nat) -> bool {
    is_decimal(text) && decimal_value(text) == n
}

/// Whether a text reads `n` in exactly `width` digits.
pub open spec fn reads_fixed(text: Seq<char>, n: nat, width: nat) -> bool {
    text.len() == width && is_digits(text) && decimal_value(text) == n
}

/// Whether a text reads `n`, and then says `unit`.
pub open spec fn reads_with(text: Seq<char>, n: nat, unit: Seq<char>) -> bool {
    &&& text.len() > unit.len()
    &&& text.skip(text.len() - unit.len()) == unit
    &&& reads(text.take(text.len() - unit.len()), n)
}

/// Whether a text reads `scaled`, a number of units of the last of its `places` decimals.
pub open spec fn reads_point(text: Seq<char>, scaled: nat, places: nat) -> bool {
    let at = text.len() - 1 - places;
    &&& places > 0
    &&& text.len() > places + 1
    &&& text[at] == '.'
    &&& is_decimal(text.take(at))
    &&& is_digits(text.skip(at + 1))
    &&& decimal_value(text.take(at)) * pow(10, places) + decimal_value(text.skip(at + 1)) == scaled
}

/// A number that is written in decimal reads as that number.
pub proof fn law_decimal_reads_back(n: nat)
    ensures
        reads(decimal(n), n),
        n > 0 ==> decimal(n)[0] != '0',
    decreases n,
{
    let text = decimal(n);
    if n < 10 {
        assert(text.drop_last() =~= Seq::<char>::empty());
        assert(decimal_value(text.drop_last()) == 0);
    } else {
        law_decimal_reads_back(n / 10);
        assert(text.drop_last() =~= decimal(n / 10));
        assert(text[0] == decimal(n / 10)[0]);
        assert forall|i: int| 0 <= i < text.len() implies '0' <= #[trigger] text[i] <= '9' by {
            if i < text.len() - 1 {
                assert(text[i] == decimal(n / 10)[i]);
            }
        }
    }
}

/// A number that is written in so many digits reads as its last so many digits.
pub proof fn law_fixed_decimal_reads_back(n: nat, width: nat)
    ensures
        reads_fixed(fixed_decimal(n, width), n % (pow(10, width) as nat), width),
    decreases width,
{
    lemma_pow_positive(10, width);
    let text = fixed_decimal(n, width);
    if width == 0 {
        lemma_pow0(10);
        assert(n % 1 == 0);
    } else {
        let front = fixed_decimal(n / 10, (width - 1) as nat);
        law_fixed_decimal_reads_back(n / 10, (width - 1) as nat);
        lemma_pow_positive(10, (width - 1) as nat);
        assert(pow(10, width) == 10 * pow(10, (width - 1) as nat)) by {
            reveal(pow);
        }
        lemma_mod_breakdown(n as int, 10, pow(10, (width - 1) as nat));
        assert(text.drop_last() =~= front);
        assert forall|i: int| 0 <= i < text.len() implies '0' <= #[trigger] text[i] <= '9' by {
            if i < text.len() - 1 {
                assert(text[i] == front[i]);
            }
        }
    }
}

/// The number that hexadecimal digits spell.
pub open spec fn hex_value(text: Seq<char>) -> nat
    decreases text.len(),
{
    if text.len() == 0 {
        0
    } else {
        let c = text.last();
        16 * hex_value(text.drop_last()) + if c <= '9' {
            (c as nat - '0' as nat) as nat
        } else {
            (c as nat - 'a' as nat + 10) as nat
        }
    }
}

/// A number that is written in so many hexadecimal digits, in lower case, reads as its last so
/// many.
pub proof fn law_fixed_hex_reads_back(n: nat, width: nat)
    ensures
        ({
            let text = fixed_hex(n, width);
            &&& text.len() == width
            &&& forall|i: int|
                0 <= i < width ==> ('0' <= #[trigger] text[i] <= '9' || 'a' <= text[i] <= 'f')
            &&& hex_value(text) == n % (pow(16, width) as nat)
        }),
    decreases width,
{
    lemma_pow_positive(16, width);
    let text = fixed_hex(n, width);
    if width == 0 {
        lemma_pow0(16);
        assert(n % 1 == 0);
    } else {
        let front = fixed_hex(n / 16, (width - 1) as nat);
        law_fixed_hex_reads_back(n / 16, (width - 1) as nat);
        lemma_pow_positive(16, (width - 1) as nat);
        assert(pow(16, width) == 16 * pow(16, (width - 1) as nat)) by {
            reveal(pow);
        }
        lemma_mod_breakdown(n as int, 16, pow(16, (width - 1) as nat));
        assert(text.drop_last() =~= front);
        assert forall|i: int| 0 <= i < text.len() implies ('0' <= #[trigger] text[i] <= '9' || 'a'
            <= text[i] <= 'f') by {
            if i < text.len() - 1 {
                assert(text[i] == front[i]);
            }
        }
    }
}

/// A duration reads as its seconds: two digits of seconds below sixty behind the last colon; in
/// front of it the minutes, or, from one hour on, the hours, a colon and two digits of minutes
/// below sixty.
pub proof fn law_duration_reads_back(secs: nat)
    ensures
        ({
            let text = duration_text(secs);
            let n = text.len();
            &&& n >= 4
            &&& text[n - 3] == ':'
            &&& reads_fixed(text.skip(n - 2), secs % 60, 2)
            &&& if secs < 3600 {
                reads(text.take(n - 3), secs / 60)
            } else {
                &&& n >= 7
                &&& text[n - 6] == ':'
                &&& reads_fixed(text.subrange(n - 5, n - 3), secs / 60 % 60, 2)
                &&& reads(text.take(n - 6), secs / 3600)
            }
        }),
{
    let h = secs / 3600;
    let m = (secs % 3600) / 60;
    let s = secs % 60;
    lemma_clock(secs);
    if secs < 3600 {
        law_decimal_reads_back(m);
        lemma_two_digits(decimal(m), s);
    } else {
        law_decimal_reads_back(h);
        lemma_hours(decimal(h), m, s);
    }
}

/// Hours, minutes and seconds.
proof fn lemma_clock(secs: nat)
    ensures
        (secs % 3600) / 60 == secs / 60 % 60,
        secs / 60 % 60 < 60,
        secs % 60 < 60,
        secs < 3600 ==> secs / 3600 == 0 && (secs % 3600) / 60 == secs / 60,
        secs >= 3600 ==> secs / 3600 > 0,
{
}

/// What stands behind and between the last two colons, and in front of them.
proof fn lemma_hours(front: Seq<char>, m: nat, s: nat)
    requires
        m < 60,
        s < 60,
    ensures
        ({
            let text = front + seq![':'] + fixed_decimal(m, 2) + seq![':'] + fixed_decimal(s, 2);
            let n = text.len();
            &&& n == front.len() + 6
            &&& text[n - 3] == ':'
            &&& reads_fixed(text.skip(n - 2), s, 2)
            &&& text[n - 6] == ':'
            &&& reads_fixed(text.subrange(n - 5, n - 3), m, 2)
            &&& text.take(n - 6) == front
        }),
{
    let head = front + seq![':'] + fixed_decimal(m, 2);
    let text = head + seq![':'] + fixed_decimal(s, 2);
    let n = text.len();
    lemma_two_digits(front, m);
    lemma_two_digits(head, s);
    assert(text.subrange(n - 5, n - 3) =~= head.skip(head.len() - 2));
    assert(text.take(n - 6) =~= head.take(head.len() - 3));
    assert(text[n - 6] == head[head.len() - 3]);
}

/// What stands behind and in front of the last colon.
proof fn lemma_two_digits(front: Seq<char>, m: nat)
    requires
        m < 60,
    ensures
        ({
            let text = front + seq![':'] + fixed_decimal(m, 2);
            let n = text.len();
            &&& n == front.len() + 3
            &&& text[n - 3] == ':'
            &&& text.take(n - 3) == front
            &&& reads_fixed(text.skip(n - 2), m, 2)
        }),
{
    assert(pow(10, 2) == 100) by {
        reveal_with_fuel(pow, 3);
    }
    law_fixed_decimal_reads_back(m, 2);
    assert(m % 100 == m);
    let text = front + seq![':'] + fixed_decimal(m, 2);
    let n = text.len();
    assert(text.take(n - 3) =~= front);
    assert(text.skip(n - 2) =~= fixed_decimal(m, 2));
}

/// A written number reads as one number only: texts that read the same are the same.
pub proof fn law_decimal_is_unique(a: Seq<char>, b: Seq<char>)
    requires
        is_decimal(a),
        is_decimal(b),
        decimal_value(a) == decimal_value(b),
    ensures
        a == b,
{
    lemma_decimal_of_value(a);
    lemma_decimal_of_value(b);
}

proof fn lemma_decimal_of_value(text: Seq<char>)
    requires
        is_decimal(text),
    ensures
        decimal(decimal_value(text)) == text,
        text[0] != '0' ==> decimal_value(text) > 0,
    decreases text.len(),
{
    let front = text.drop_last();
    let last = (text.last() as nat - '0' as nat) as nat;
    if text.len() == 1 {
        assert(decimal_value(front) == 0);
        assert(decimal(last) =~= text);
    } else {
        assert(is_decimal(front)) by {
            assert(front[0] == text[0]);
            assert forall|i: int| 0 <= i < front.len() implies '0' <= #[trigger] front[i]
                <= '9' by {
                assert(front[i] == text[i]);
            }
        }
        lemma_decimal_of_value(front);
        let n = decimal_value(text);
        assert(n / 10 == decimal_value(front) && n % 10 == last);
        assert(decimal(n) =~= front.push(text.last()));
        assert(front.push(text.last()) =~= text);
    }
}

/// A number with a unit behind it reads as that number with that unit.
pub proof fn law_units_are_kept(n: nat, unit: Seq<char>)
    ensures
        reads_with(decimal(n) + unit, n, unit),
{
    law_decimal_reads_back(n);
    let text = decimal(n) + unit;
    assert(text.skip(text.len() - unit.len()) =~= unit);
    assert(text.take(text.len() - unit.len()) =~= decimal(n));
}

} // verus!
