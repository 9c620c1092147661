//! Number formatting: decimal and hexadecimal digits, zero padding, durations.

use vstd::prelude::*;

verus! {

/// The character of a digit value, in lower case above nine.
pub open spec fn digit_char(d: nat) -> char {
    if d < 10 {
        (48 + d) as char
    } else {
        (87 + d) as char
    }
}

/// The shortest decimal representation of `n`.
pub open spec fn decimal(n: nat) -> Seq<char>
    decreases n,
{
    if n < 10 {
        seq![digit_char(n)]
    } else {
        decimal(n / 10).push(digit_char(n % 10))
    }
}

/// The last `width` decimal digits of `n`, with leading zeros.
pub open spec fn fixed_decimal(n: nat, width: nat) -> Seq<char>
    decreases width,
{
    if width == 0 {
        Seq::empty()
    } else {
        fixed_decimal(n / 10, (width - 1) as nat).push(digit_char(n % 10))
    }
}

/// The last `width` hexadecimal digits of `n`, with leading zeros.
pub open spec fn fixed_hex(n: nat, width: nat) -> Seq<char>
    decreases width,
{
    if width == 0 {
        Seq::empty()
    } else {
        fixed_hex(n / 16, (width - 1) as nat).push(digit_char(n % 16))
    }
}

/// A duration as `h:mm:ss`, or `m:ss` below one hour.
pub open spec fn duration_text(secs: nat) -> Seq<char> {
    let h = secs / 3600;
    let m = (secs % 3600) / 60;
    let s = secs % 60;
    if h > 0 {
        decimal(h) + seq![':'] + fixed_decimal(m, 2) + seq![':'] + fixed_decimal(s, 2)
    } else {
        decimal(m) + seq![':'] + fixed_decimal(s, 2)
    }
}

/// Strings as sequences of characters.
pub open spec fn strings_view(strings: Seq<String>) -> Seq<Seq<char>> {
    strings.map_values(|s: String| s@)
}

/// The text of bytes that should be UTF-8, with replacement characters for what is not.
pub uninterp spec fn utf8_lossy(bytes: Seq<u8>) -> Seq<char>;

/// `String::from_utf8_lossy`: the text of the bytes, which for valid UTF-8 is what they encode.
#[verifier::external_body]
pub(crate) fn decode_lossy(bytes: &Vec<u8>) -> (r: String)
    ensures
        r@ == utf8_lossy(bytes@),
        vstd::utf8::valid_utf8(bytes@) ==> r@ == vstd::utf8::decode_utf8(bytes@),
{
    String::from_utf8_lossy(bytes).to_string()
}

/// A copy of `s` as an owned string.
pub fn owned(s: &str) -> (r: String)
    ensures
        r@ == s@,
{
    s.to_owned()
}

/// One digit as a string.
fn digit(d: u8) -> (r: &'static str)
    requires
        d < 16,
    ensures
        r@ == seq![digit_char(d as nat)],
{
    proof {
        reveal_strlit("0");
        reveal_strlit("1");
        reveal_strlit("2");
        reveal_strlit("3");
        reveal_strlit("4");
        reveal_strlit("5");
        reveal_strlit("6");
        reveal_strlit("7");
        reveal_strlit("8");
        reveal_strlit("9");
        reveal_strlit("a");
        reveal_strlit("b");
        reveal_strlit("c");
        reveal_strlit("d");
        reveal_strlit("e");
        reveal_strlit("f");
    }
    match d {
        0 => "0",
        1 => "1",
        2 => "2",
        3 => "3",
        4 => "4",
        5 => "5",
        6 => "6",
        7 => "7",
        8 => "8",
        9 => "9",
        10 => "a",
        11 => "b",
        12 => "c",
        13 => "d",
        14 => "e",
        _ => "f",
    }
}

/// Appends `n` in decimal.
pub fn push_decimal(out: &mut String, n: u128)
    ensures
        final(out)@ == old(out)@ + decimal(n as nat),
    decreases n,
{
    if n >= 10 {
        push_decimal(out, n / 10);
    }
    out.append(digit((n % 10) as u8));
}

/// Appends the last `width` decimal digits of `n`, with leading zeros.
pub fn push_fixed_decimal(out: &mut String, n: u128, width: u8)
    ensures
        final(out)@ == old(out)@ + fixed_decimal(n as nat, width as nat),
    decreases width,
{
    if width > 0 {
        push_fixed_decimal(out, n / 10, width - 1);
        out.append(digit((n % 10) as u8));
    }
}

/// Appends the last `width` hexadecimal digits of `n`, with leading zeros.
pub fn push_fixed_hex(out: &mut String, n: u128, width: u8)
    ensures
        final(out)@ == old(out)@ + fixed_hex(n as nat, width as nat),
    decreases width,
{
    if width > 0 {
        push_fixed_hex(out, n / 16, width - 1);
        out.append(digit((n % 16) as u8));
    }
}

/// Formats a number of seconds as `h:mm:ss`, or `m:ss` below one hour.
pub fn fmt_duration(secs: u32) -> (r: String)
    ensures
        r@ == duration_text(secs as nat),
{
    let h: u32 = secs / 3600;
    let m: u32 = (secs % 3600) / 60;
    let s: u32 = secs % 60;
    let mut out = String::new();
    proof {
        reveal_strlit(":");
    }
    if h > 0 {
        push_decimal(&mut out, h as u128);
        out.append(":");
        push_fixed_decimal(&mut out, m as u128, 2);
    } else {
        push_decimal(&mut out, m as u128);
    }
    out.append(":");
    push_fixed_decimal(&mut out, s as u128, 2);
    out
}

} // verus!
