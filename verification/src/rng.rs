//! The one randomness source of the simulation.

use vstd::prelude::*;
use rand::Rng;

verus! {

/// Relies on `rand::Rng::gen_range` over `0..n` on the generator returned by
/// `rand::thread_rng`: it returns a value of that range, and panics only when
/// the range is empty, which the precondition rules out.  Nothing more is
/// assumed of the draw.
#[verifier::external_body]
pub(crate) fn rand_below(n: u32) -> (r: u32)
    requires
        1 <= n,
    ensures
        r < n,
{
    rand::thread_rng().gen_range(0..n)
}

} // verus!
