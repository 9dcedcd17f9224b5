//! Random keys (version 4 UUIDs) and their text form.

use vstd::prelude::*;

verus! {

/// The bits that mark a random (version 4, RFC 4122 variant) UUID.
pub const UUID_V4_MASK: u128 = 0xF000_C000_0000_0000_0000;

/// The value of the marking bits of a random UUID.
pub const UUID_V4_BITS: u128 = 0x4000_8000_0000_0000_0000;

/// The lower-case hexadecimal digit of a nibble.
pub open spec fn hex_char(n: u128) -> char {
    if n < 10 {
        ((n + 48) as u32) as char
    } else {
        ((n + 87) as u32) as char
    }
}

/// The `k`-th hexadecimal digit of `u`, counting from the most significant.
pub open spec fn nibble(u: u128, k: int) -> u128 {
    (u >> ((4 * (31 - k)) as u128)) & 0xF
}

/// The digit position that character `i` of the hyphenated form shows.
pub open spec fn digit_index(i: int) -> int {
    if i < 8 {
        i
    } else if i < 13 {
        i - 1
    } else if i < 18 {
        i - 2
    } else if i < 23 {
        i - 3
    } else {
        i - 4
    }
}

/// The hyphenated lower-case form of a UUID: 32 hexadecimal digits in groups
/// of 8, 4, 4, 4 and 12, separated by dashes.
pub open spec fn hyphenated(u: u128) -> Seq<char> {
    Seq::new(
        36,
        |i: int|
            if i == 8 || i == 13 || i == 18 || i == 23 {
                '-'
            } else {
                hex_char(nibble(u, digit_index(i)))
            },
    )
}

/// A fresh random key, drawn by `uuid::Uuid::new_v4` and given as its 128-bit
/// value.  The value is random; the contract states only that its version
/// and variant bits mark it as a random UUID, which `new_v4` sets on every
/// call.
#[verifier::external_body]
pub(crate) fn new_random_key() -> (r: u128)
    ensures
        r & UUID_V4_MASK == UUID_V4_BITS,
{
    uuid::Uuid::new_v4().as_u128()
}

/// The text form of a key, as `uuid::Uuid::from_u128(key).to_string()`
/// writes it: the hyphenated lower-case form.
#[verifier::external_body]
pub(crate) fn key_string(key: u128) -> (r: String)
    ensures
        r@ == hyphenated(key),
{
    uuid::Uuid::from_u128(key).to_string()
}

} // verus!
