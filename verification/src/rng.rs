//! Trusted access to the process random number generator.
//!
//! Everything random in the crate flows through the two draws below, so the
//! rest of the library can be verified for every value they may return.

use vstd::prelude::*;
use rand::seq::SliceRandom;
use rand::Rng;
use crate::shape::Shape;

verus! {

#[verifier::external_type_specification]
#[verifier::external_body]
pub struct ExThreadRng(rand::rngs::ThreadRng);

/// Relies on rand::thread_rng: a handle to the thread-local generator.
#[verifier::external_body]
pub(crate) fn new_rng() -> rand::rngs::ThreadRng {
    rand::thread_rng()
}

/// Relies on rand::Rng::gen_range on `0..bound`: a draw from that range,
/// which panics only when the range is empty.
#[verifier::external_body]
pub(crate) fn rand_below(rng: &mut rand::rngs::ThreadRng, bound: u8) -> (r: u8)
    requires
        bound >= 1,
    ensures
        r < bound,
{
    rng.gen_range(0..bound)
}

/// Relies on rand::seq::SliceRandom::shuffle: reorders the slice in place by
/// swaps, so the multiset of elements is unchanged.
#[verifier::external_body]
pub(crate) fn shuffle_shapes(rng: &mut rand::rngs::ThreadRng, shapes: &mut Vec<Shape>)
    ensures
        final(shapes)@.to_multiset() == old(shapes)@.to_multiset(),
{
    shapes.shuffle(rng)
}

} // verus!
