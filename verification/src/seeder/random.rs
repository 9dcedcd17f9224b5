//! Random values drawn with `rand`'s thread generator.

use vstd::prelude::*;

verus! {

/// A character `rand`'s `Alphanumeric` can give: an ASCII letter or digit.
pub open spec fn is_alphanumeric(c: char) -> bool {
    ('A' <= c <= 'Z') || ('a' <= c <= 'z') || ('0' <= c <= '9')
}

/// A random ASCII letter or digit, drawn by `rand`'s thread generator from
/// the `Alphanumeric` distribution.  Which character is random; the contract
/// states only the set it comes from.
#[verifier::external_body]
pub(crate) fn random_alphanumeric() -> (r: char)
    ensures
        is_alphanumeric(r),
{
    rand::Rng::sample(&mut rand::rng(), rand::distr::Alphanumeric) as char
}

/// A random number in `0..n`, drawn by `rand`'s thread generator with
/// `random_range`.  Which number is random; the contract states only the
/// range.
#[verifier::external_body]
fn random_below(n: u64) -> (r: u64)
    requires
        n > 0,
    ensures
        r < n,
{
    rand::Rng::random_range(&mut rand::rng(), 0..n)
}

/// A fair random choice, drawn by `rand`'s thread generator (`random` for a
/// `bool`).  Which value is random.
#[verifier::external_body]
pub(crate) fn random_bool() -> (r: bool) {
    rand::Rng::random::<bool>(&mut rand::rng())
}

/// A random number in `low..=high`.
pub(crate) fn random_in_range(low: i32, high: i32) -> (r: i32)
    requires
        low <= high,
    ensures
        low <= r <= high,
{
    let span = (high as i64 - low as i64 + 1) as u64;
    let offset = random_below(span);
    (low as i64 + offset as i64) as i32
}

/// A random number in `low..high`.
pub(crate) fn random_i64_below(low: i64, high: i64) -> (r: i64)
    requires
        low < high,
    ensures
        low <= r < high,
{
    let span = (high as i128 - low as i128) as u64;
    let offset = random_below(span);
    (low as i128 + offset as i128) as i64
}

/// A random index into a list of `len` items, as `choose` on a slice picks.
pub(crate) fn random_index(len: usize) -> (r: usize)
    requires
        len > 0,
    ensures
        r < len,
{
    random_below(len as u64) as usize
}

} // verus!
