//! Random identifiers, taken from the `uuid` crate.

use vstd::prelude::*;

verus! {

/// The lower-case hexadecimal digit of a nibble (`0`-`9`, then `a`-`f`).
pub open spec fn hex_digit(nibble: u128) -> char {
    if nibble < 10 {
        (48 + nibble) as char
    } else {
        (87 + nibble) as char
    }
}

/// The simple text of the UUID with the bits `id`: its 32 lower-case hex
/// digits, most significant first.
pub open spec fn uuid_simple_text(id: u128) -> Seq<char> {
    Seq::new(32, |k: int| hex_digit((id >> ((124 - 4 * k) as u128)) & 0xfu128))
}

/// The hyphenated text of the UUID with the bits `id`: its hex digits in
/// groups of 8, 4, 4, 4 and 12, joined by `-`.
pub open spec fn uuid_hyphenated_text(id: u128) -> Seq<char> {
    let d = uuid_simple_text(id);
    d.subrange(0, 8) + seq!['-'] + d.subrange(8, 12) + seq!['-'] + d.subrange(12, 16) + seq!['-']
        + d.subrange(16, 20) + seq!['-'] + d.subrange(20, 32)
}

/// Calls `uuid::Uuid::new_v4` and returns the bits of the random UUID
/// (`Uuid::as_u128`). Claimed: only that its version nibble is 4 and its
/// variant bits are `10`, as the crate's `new_v4` masks them; the rest is
/// random.
#[verifier::external_body]
pub(crate) fn new_v4_bits() -> (id: u128)
    ensures
        (id >> 76u128) & 0xfu128 == 4,
        (id >> 62u128) & 0x3u128 == 2,
{
    uuid::Uuid::new_v4().as_u128()
}

/// Calls `Uuid::from_u128(id).hyphenated().to_string()`. Claimed: the text
/// is the hyphenated lower-case hex form of `id`, as the crate's
/// `format_hyphenated` writes it (`from_u128` takes the bytes big-endian).
#[verifier::external_body]
pub(crate) fn hyphenated_text(id: u128) -> (s: String)
    ensures
        s@ == uuid_hyphenated_text(id),
{
    uuid::Uuid::from_u128(id).hyphenated().to_string()
}

/// Calls `Uuid::from_u128(id).simple().to_string()`. Claimed: the text is
/// the 32 lower-case hex digits of `id`, as the crate's `format_simple`
/// writes them (`from_u128` takes the bytes big-endian).
#[verifier::external_body]
pub(crate) fn simple_text(id: u128) -> (s: String)
    ensures
        s@ == uuid_simple_text(id),
{
    uuid::Uuid::from_u128(id).simple().to_string()
}

} // verus!
