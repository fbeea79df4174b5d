//! 128-bit identifiers of contexts, branches, recipes and requests.

use vstd::prelude::*;

verus! {

/// A UUID, by its 128 bits in the order in which its text writes them.
pub type Uuid = u128;

/// The bits by which RFC 4122 marks a UUID as random: version nibble 4, variant bits 10.
pub open spec fn is_random_uuid(id: Uuid) -> bool {
    id & 0xF000_C000_0000_0000_0000u128 == 0x4000_8000_0000_0000_0000u128
}

/// The sixteen bytes of an identifier, the most significant first.
pub open spec fn uuid_bytes(id: Uuid) -> Seq<u8> {
    Seq::new(16, |i: int| ((id >> ((8 * (15 - i)) as u128)) & 0xff) as u8)
}

/// The lower-case hexadecimal digit of a nibble.
pub open spec fn hex_digit(nibble: u128) -> char {
    if nibble < 10 {
        ('0' as u128 + nibble) as char
    } else {
        ('a' as u128 + (nibble - 10)) as char
    }
}

/// The `k`-th of the 32 hexadecimal digits of an identifier, from the left.
pub open spec fn uuid_digit(id: Uuid, k: int) -> char {
    hex_digit((id >> ((4 * (31 - k)) as u128)) & 0xf)
}

/// The text of an identifier: its 32 lower-case hexadecimal digits in groups of 8, 4, 4, 4 and 12
/// with a hyphen between two groups.
pub open spec fn uuid_text(id: Uuid) -> Seq<char> {
    Seq::new(
        36,
        |i: int|
            if i == 8 || i == 13 || i == 18 || i == 23 {
                '-'
            } else if i < 8 {
                uuid_digit(id, i)
            } else if i < 13 {
                uuid_digit(id, i - 1)
            } else if i < 18 {
                uuid_digit(id, i - 2)
            } else if i < 23 {
                uuid_digit(id, i - 3)
            } else {
                uuid_digit(id, i - 4)
            },
    )
}

/// Draws a random identifier with `uuid::Uuid::new_v4`, which takes 122 bits from the operating
/// system's source of randomness and sets the version and the variant. Which identifier comes is
/// left open; that it carries the marks of a random UUID is not.
#[verifier::external_body]
pub(crate) fn draw_uuid() -> (id: Uuid)
    ensures
        is_random_uuid(id),
{
    uuid::Uuid::new_v4().as_u128()
}

/// Lays an identifier out with `uuid::Uuid::as_bytes`: sixteen bytes, the most significant first.
#[verifier::external_body]
pub(crate) fn uuid_to_bytes(id: Uuid) -> (bytes: Vec<u8>)
    ensures
        bytes@ == uuid_bytes(id),
{
    uuid::Uuid::from_u128(id).as_bytes().to_vec()
}

/// Writes an identifier with the `Display` of `uuid::Uuid`: lower-case, hyphenated.
#[verifier::external_body]
pub(crate) fn uuid_to_text(id: Uuid) -> (text: String)
    ensures
        text@ == uuid_text(id),
{
    uuid::Uuid::from_u128(id).to_string()
}

} // verus!
