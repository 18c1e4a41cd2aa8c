//! Randomness, supplied by the `rand` crate behind trusted wrappers.
//! Nothing is assumed about which value comes back, only about its shape.

use vstd::prelude::*;
use crate::text::is_alphanumeric_char;

verus! {

/// Relies on rand's `thread_rng` and `Rng::gen_range(0, n)`: a draw from
/// `[0, n)`; the call panics unless the range is non-empty.
#[verifier::external_body]
pub fn random_below(n: usize) -> (r: usize)
    requires
        n > 0,
    ensures
        r < n,
{
    rand::Rng::gen_range(&mut rand::thread_rng(), 0, n)
}

/// Relies on rand's `Alphanumeric` distribution: every sampled character is
/// one of `A`-`Z`, `a`-`z`, `0`-`9`, and `take(len)` keeps exactly `len` of
/// them.
#[verifier::external_body]
pub fn random_alphanumeric(len: usize) -> (r: String)
    ensures
        r@.len() == len,
        forall|i: int| 0 <= i < r@.len() ==> is_alphanumeric_char(#[trigger] r@[i]),
{
    let it = rand::Rng::sample_iter(rand::thread_rng(), &rand::distributions::Alphanumeric);
    Iterator::take(it, len).collect()
}

} // verus!
