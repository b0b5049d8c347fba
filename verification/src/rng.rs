//! The crate's only source of chance: a draw below a bound. Every decision
//! that consumes a draw states what holds of each possible outcome.
use rand::Rng;
use vstd::prelude::*;

verus! {

/// Relies on rand::Rng::gen_range over the half-open range 0..n: it panics
/// only on an empty range and otherwise returns a value of the range,
/// sampled uniformly.
#[verifier::external_body]
pub(crate) fn draw_below(n: u64) -> (r: u64)
    requires
        n > 0,
    ensures
        r < n,
{
    rand::thread_rng().gen_range(0..n)
}

/// A draw among the valid indices of a collection of length `n`.
pub(crate) fn draw_index(n: usize) -> (r: usize)
    requires
        n > 0,
    ensures
        r < n,
{
    let d: u64 = draw_below(n as u64);
    d as usize
}

} // verus!
