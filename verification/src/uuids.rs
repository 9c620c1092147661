//! Bluetooth UUIDs as 128-bit numbers.

use vstd::prelude::*;

verus! {

/// What `uuid` reports for text that is no UUID.
#[verifier::external_type_specification]
#[verifier::external_body]
pub struct ExUuidError(uuid::Error);

/// Whether `c` is a hexadecimal digit, in either case.
pub open spec fn is_hex_digit(c: char) -> bool {
    '0' <= c <= '9' || 'a' <= c <= 'f' || 'A' <= c <= 'F'
}

/// The value of a hexadecimal digit.
pub open spec fn hex_digit_value(c: char) -> nat {
    if '0' <= c <= '9' {
        (c as int - 48) as nat
    } else if 'a' <= c <= 'f' {
        (c as int - 87) as nat
    } else {
        (c as int - 55) as nat
    }
}

/// Whether four hexadecimal digits stand at `at`.
pub open spec fn is_group(text: Seq<char>, at: int) -> bool {
    &&& is_hex_digit(text[at])
    &&& is_hex_digit(text[at + 1])
    &&& is_hex_digit(text[at + 2])
    &&& is_hex_digit(text[at + 3])
}

/// The number that the four hexadecimal digits at `at` spell.
pub open spec fn group_value(text: Seq<char>, at: int) -> nat {
    0x1000 * hex_digit_value(text[at]) + 0x100 * hex_digit_value(text[at + 1])
        + 0x10 * hex_digit_value(text[at + 2]) + hex_digit_value(text[at + 3])
}

/// Whether `text` has the form `8-4-4-4-12`: groups of hexadecimal digits between hyphens.
pub open spec fn is_hyphenated(text: Seq<char>) -> bool {
    &&& text.len() == 36
    &&& is_group(text, 0) && is_group(text, 4)
    &&& text[8] == '-' && is_group(text, 9)
    &&& text[13] == '-' && is_group(text, 14)
    &&& text[18] == '-' && is_group(text, 19)
    &&& text[23] == '-' && is_group(text, 24) && is_group(text, 28) && is_group(text, 32)
}

/// The 128-bit number that the digits of a hyphenated UUID spell, first digit most significant.
pub open spec fn uuid_value(text: Seq<char>) -> nat {
    group_value(text, 0) * 0x1_0000_0000_0000_0000_0000_0000_0000
        + group_value(text, 4) * 0x1_0000_0000_0000_0000_0000_0000
        + group_value(text, 9) * 0x1_0000_0000_0000_0000_0000
        + group_value(text, 14) * 0x1_0000_0000_0000_0000
        + group_value(text, 19) * 0x1_0000_0000_0000
        + group_value(text, 24) * 0x1_0000_0000
        + group_value(text, 28) * 0x1_0000
        + group_value(text, 32)
}

/// `uuid::Uuid::parse_str`, with the UUID read as a number by `uuid::Uuid::as_u128`: text in
/// the hyphenated form is accepted, and its 32 digits are the number, most significant first.
#[verifier::external_body]
fn parse_hyphenated(text: &str) -> (r: Result<u128, uuid::Error>)
    requires
        is_hyphenated(text@),
    ensures
        r is Ok,
        r->Ok_0 == uuid_value(text@),
{
    uuid::Uuid::parse_str(text).map(|u| u.as_u128())
}

/// The number of a UUID in the hyphenated form.
pub(crate) fn parse_uuid(text: &str) -> (r: u128)
    requires
        is_hyphenated(text@),
    ensures
        r == uuid_value(text@),
{
    parse_hyphenated(text).unwrap()
}

} // verus!
