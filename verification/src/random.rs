//! The random source of the map generator: the thread-local generator of the
//! `rand` crate. Which numbers it hands out is not known to the verifier,
//! only the range that they lie in.
use vstd::prelude::*;
use rand::rngs::ThreadRng;
use rand::Rng;

verus! {

/// `rand::rngs::ThreadRng`, a handle to the thread-local generator.
#[verifier::external_type_specification]
#[verifier::external_body]
pub struct ExThreadRng(ThreadRng);

/// Calls `rand::thread_rng()`, which hands out a handle to the generator of
/// this thread. Nothing is claimed of the handle. The call panics when the
/// system cannot seed the generator.
#[verifier::external_body]
pub(crate) fn thread_rng() -> (rng: ThreadRng) {
    rand::thread_rng()
}

/// Calls `Rng::gen_range` with the range `low..=high`, which panics on an
/// empty range and else returns a number in the range. Drawing from
/// `low..high` is, for integers, drawing from `low..=high - 1`.
#[verifier::external_body]
pub(crate) fn gen_range(rng: &mut ThreadRng, low: usize, high: usize) -> (drawn: usize)
    requires
        low <= high,
    ensures
        low <= drawn <= high,
{
    rng.gen_range(low..=high)
}

} // verus!
