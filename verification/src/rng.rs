//! Random draws and name comparison used by the spawners.
//!
//! Every draw goes through the thread-local generator of `fastrand`.
use vstd::prelude::*;

verus! {

/// Draws a `u32` uniformly in `low..=high` with `fastrand::u32`.
///
/// Trusted: `fastrand::u32` panics on an empty range (hence `low <= high`)
/// and otherwise returns a value of the range. Which value comes back
/// depends on the generator's hidden state and is not stated.
#[verifier::external_body]
pub(crate) fn random_u32_in(low: u32, high: u32) -> (r: u32)
    requires
        low <= high,
    ensures
        low <= r <= high,
{
    fastrand::u32(low..=high)
}

/// Draws a `usize` uniformly in `low..=high` with `fastrand::usize`.
///
/// Trusted: `fastrand::usize` panics on an empty range (hence `low <= high`)
/// and otherwise returns a value of the range. Which value comes back
/// depends on the generator's hidden state and is not stated.
#[verifier::external_body]
pub(crate) fn random_usize_in(low: usize, high: usize) -> (r: usize)
    requires
        low <= high,
    ensures
        low <= r <= high,
{
    fastrand::usize(low..=high)
}

/// Tosses a fair coin with `fastrand::bool`.
///
/// Trusted: any `bool` may come back; which one depends on the generator's
/// hidden state and is not stated.
#[verifier::external_body]
pub(crate) fn random_bool() -> (r: bool) {
    fastrand::bool()
}

/// Do two names hold the same characters?
pub fn same_name(a: &str, b: &str) -> (r: bool)
    ensures
        r == (a@ == b@),
{
    let n = a.unicode_len();
    if n != b.unicode_len() {
        return false;
    }
    let mut i: usize = 0;
    while i < n
        invariant
            n == a@.len(),
            n == b@.len(),
            i <= n,
            forall|j: int| 0 <= j < i ==> a@[j] == b@[j],
        decreases n - i,
    {
        if a.get_char(i) != b.get_char(i) {
            return false;
        }
        i = i + 1;
    }
    assert(a@ =~= b@);
    true
}

} // verus!
