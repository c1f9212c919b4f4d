//! Identifiers of memories: UUIDs, kept as 128-bit numbers.
use vstd::prelude::*;

use crate::text::ascii_uppercase;

verus! {

/// The lower-case character of a hexadecimal digit.
pub open spec fn hex_char(d: nat) -> char {
    if d < 10 {
        ('0' as nat + d) as char
    } else {
        ('a' as nat + (d - 10)) as char
    }
}

/// The digit that a character stands for in hexadecimal, in either case.
pub open spec fn hex_digit(c: char) -> Option<nat> {
    if '0' <= c <= '9' {
        Some((c as nat - '0' as nat) as nat)
    } else if 'a' <= c <= 'f' {
        Some((c as nat - 'a' as nat + 10) as nat)
    } else if 'A' <= c <= 'F' {
        Some((c as nat - 'A' as nat + 10) as nat)
    } else {
        None
    }
}

/// The last `count` hexadecimal digits of a number.
pub open spec fn hex_text(n: nat, count: nat) -> Seq<char>
    decreases count,
{
    if count == 0 {
        Seq::empty()
    } else {
        hex_text(n / 16, (count - 1) as nat).push(hex_char(n % 16))
    }
}

/// The number that a text writes in hexadecimal, if all its characters are digits.
pub open spec fn hex_number(text: Seq<char>) -> Option<nat>
    decreases text.len(),
{
    if text.len() == 0 {
        Some(0)
    } else {
        match (hex_number(text.drop_last()), hex_digit(text.last())) {
            (Some(head), Some(d)) => Some(16 * head + d),
            _ => None,
        }
    }
}

/// The five groups of the hyphenated form, with the hyphens.
pub open spec fn with_hyphens(digits: Seq<char>) -> Seq<char> {
    digits.subrange(0, 8) + seq!['-'] + digits.subrange(8, 12) + seq!['-'] + digits.subrange(12, 16)
        + seq!['-'] + digits.subrange(16, 20) + seq!['-'] + digits.subrange(20, 32)
}

/// The five groups of the hyphenated form, without the hyphens.
pub open spec fn without_hyphens(text: Seq<char>) -> Seq<char> {
    text.subrange(0, 8) + text.subrange(9, 13) + text.subrange(14, 18) + text.subrange(19, 23)
        + text.subrange(24, 36)
}

/// A UUID in lower-case hyphenated form.
pub open spec fn uuid_text(id: u128) -> Seq<char> {
    with_hyphens(hex_text(id as nat, 32))
}

/// The UUID that a hyphenated text stands for.
pub open spec fn hyphenated_uuid(text: Seq<char>) -> Option<nat> {
    if text.len() == 36 && text[8] == '-' && text[13] == '-' && text[18] == '-' && text[23] == '-' {
        hex_number(without_hyphens(text))
    } else {
        None
    }
}

/// The UUID that a text stands for: in hyphenated form, bare, within braces or after `urn:uuid:`,
/// or as 32 digits.
pub open spec fn uuid_of(text: Seq<char>) -> Option<nat> {
    if text.len() == 32 {
        hex_number(text)
    } else if text.len() == 36 {
        hyphenated_uuid(text)
    } else if text.len() == 38 && text[0] == '{' && text[37] == '}' {
        hyphenated_uuid(text.subrange(1, 37))
    } else if text.len() == 45 && ascii_uppercase(text.subrange(0, 9)) == "URN:UUID:"@ {
        hyphenated_uuid(text.subrange(9, 45))
    } else {
        None
    }
}

/// The number is that of a random UUID: its version is 4, its variant that of RFC 9562.
pub open spec fn is_random_uuid(id: u128) -> bool {
    &&& (id as nat / 0x1000_0000_0000_0000_0000) % 16 == 4
    &&& (id as nat / 0x4000_0000_0000_0000) % 4 == 2
}

/// Writes a UUID with `Uuid::to_string` of `uuid`: in lower case, with hyphens after the 8th, 12th,
/// 16th and 20th digit.
#[verifier::external_body]
pub(crate) fn uuid_to_string(id: u128) -> (r: String)
    ensures
        r@ == uuid_text(id),
{
    uuid::Uuid::from_u128(id).to_string()
}

/// What the error of `Uuid::parse_str` says of a text that is no UUID.
pub uninterp spec fn uuid_complaint(text: Seq<char>) -> Seq<char>;

/// Reads a UUID with `Uuid::parse_str` of `uuid`. The error is told as `uuid` tells it.
#[verifier::external_body]
pub(crate) fn parse_uuid(text: &str) -> (r: Result<u128, String>)
    ensures
        match r {
            Ok(id) => uuid_of(text@) == Some(id as nat),
            Err(m) => uuid_of(text@) is None && m@ == uuid_complaint(text@),
        },
{
    match uuid::Uuid::parse_str(text) {
        Ok(id) => Ok(id.as_u128()),
        Err(e) => Err(e.to_string()),
    }
}

/// Draws a UUID with `Uuid::new_v4` of `uuid`: all but its version and variant is random.
#[verifier::external_body]
pub(crate) fn new_uuid() -> (r: u128)
    ensures
        is_random_uuid(r),
{
    uuid::Uuid::new_v4().as_u128()
}

/// The UUID that a text stands for, or the nil UUID.
pub open spec fn uuid_or_nil(text: Seq<char>) -> u128 {
    match uuid_of(text) {
        Some(id) => id as u128,
        None => 0,
    }
}

/// The UUID that a text stands for, or the nil UUID.
pub fn uuid_or_default(text: &str) -> (r: u128)
    ensures
        r == uuid_or_nil(text@),
{
    match parse_uuid(text) {
        Ok(id) => id,
        Err(_) => 0,
    }
}

/// How many numbers `count` hexadecimal digits can write.
spec fn hex_span(count: nat) -> nat
    decreases count,
{
    if count == 0 {
        1
    } else {
        16 * hex_span((count - 1) as nat)
    }
}

proof fn hex_text_is_read_back(n: nat, count: nat)
    requires
        n < hex_span(count),
    ensures
        hex_text(n, count).len() == count,
        hex_number(hex_text(n, count)) == Some(n),
    decreases count,
{
    if count > 0 {
        hex_text_is_read_back(n / 16, (count - 1) as nat);
        assert(hex_text(n, count).drop_last() =~= hex_text(n / 16, (count - 1) as nat));
        assert(hex_digit(hex_char(n % 16)) == Some(n % 16));
    }
}

/// Reading a UUID gives back the one that was written.
pub proof fn uuid_text_is_read_back(id: u128)
    ensures
        uuid_of(uuid_text(id)) == Some(id as nat),
{
    let digits = hex_text(id as nat, 32);
    assert(hex_span(32) == 0x1_0000_0000_0000_0000_0000_0000_0000_0000) by {
        reveal_with_fuel(hex_span, 33);
    }
    hex_text_is_read_back(id as nat, 32);
    assert(without_hyphens(uuid_text(id)) =~= digits);
}

} // verus!
