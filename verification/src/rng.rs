use vstd::prelude::*;
use rand::seq::SliceRandom;
use rand::Rng;

verus! {

#[verifier::external_type_specification]
#[verifier::external_body]
pub struct ExThreadRng(rand::rngs::ThreadRng);

/// Relies on rand::thread_rng: a handle to the thread-local random
/// generator. Nothing is assumed of the values it will produce.
#[verifier::external_body]
pub(crate) fn fresh_rng() -> rand::rngs::ThreadRng {
    rand::thread_rng()
}

/// Relies on rand::Rng::gen_range on the range 0..3: the draw lies in the
/// range, and the range is not empty, so the call returns.
#[verifier::external_body]
pub(crate) fn random_index_below_3(rng: &mut rand::rngs::ThreadRng) -> (r: usize)
    ensures
        r < 3,
{
    rng.gen_range(0..3)
}

/// Relies on rand::seq::SliceRandom::shuffle, a Fisher-Yates shuffle: it
/// reorders the entries in place by swaps, so afterwards the entries are
/// the same as before, taken as a multiset.
#[verifier::external_body]
pub(crate) fn shuffle(v: &mut Vec<usize>, rng: &mut rand::rngs::ThreadRng)
    ensures
        final(v)@.to_multiset() == old(v)@.to_multiset(),
{
    v.shuffle(rng);
}

} // verus!
