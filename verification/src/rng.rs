//! Trusted boundary to the `rand` crate.
//!
//! All randomness the library consumes enters through the two wrappers
//! below; every caller is verified against their contracts for every value
//! they may return.

use vstd::prelude::*;
use rand::Rng;

verus! {

/// Relies on `rand::Rng::gen` on `rand::thread_rng()`: returns a byte; no
/// particular value is promised, callers hold for every outcome.
#[verifier::external_body]
pub(crate) fn random_byte() -> u8 {
    rand::thread_rng().gen()
}

/// Relies on `rand::Rng::gen_range` on `rand::thread_rng()` over `0..n`:
/// returns a value of that range. `gen_range` panics on an empty range,
/// which the precondition rules out.
#[verifier::external_body]
pub(crate) fn random_below(n: usize) -> (r: usize)
    requires
        n >= 1,
    ensures
        r < n,
{
    rand::thread_rng().gen_range(0..n)
}

} // verus!
