//! Random words for agent placement and tie-breaking.
//!
//! Randomness enters the simulation only as plain 32-bit words handed to
//! otherwise deterministic functions, so every consumer is verified for
//! every possible drawn value.

use vstd::prelude::*;

verus! {

/// Relies on rand::random::<u32>: one draw from the thread-local generator,
/// uniformly distributed over all 32-bit words. Nothing can be promised of
/// the value itself.
#[verifier::external_body]
fn random_u32() -> u32 {
    rand::random::<u32>()
}

/// A vector of `n` freshly drawn random words.
pub fn random_words(n: usize) -> (r: Vec<u32>)
    ensures
        r@.len() == n,
{
    let mut out: Vec<u32> = Vec::new();
    let mut i: usize = 0;
    while i < n
        invariant
            i <= n,
            out@.len() == i,
        decreases n - i,
    {
        out.push(random_u32());
        i = i + 1;
    }
    out
}

} // verus!
