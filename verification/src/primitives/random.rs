//! Random picks from the generator of the current thread.

use rand::rngs::ThreadRng;
use rand::seq::SliceRandom;
use vstd::prelude::*;

verus! {

/// The handle to the random generator of the current thread.
#[verifier::external_type_specification]
#[verifier::external_body]
pub struct ExThreadRng(ThreadRng);

/// `rand::thread_rng`: the generator of the current thread.
pub assume_specification[ rand::thread_rng ]() -> (rng: ThreadRng);

/// `SliceRandom::choose`: one item of `pool`, which one is up to the
/// generator, and nothing where `pool` is empty.
#[verifier::external_body]
pub(crate) fn pick_one(pool: &[u8], rng: &mut ThreadRng) -> (picked: Option<u8>)
    ensures
        picked is Some <==> pool@.len() > 0,
        picked matches Some(c) ==> pool@.contains(c),
{
    pool.choose(rng).copied()
}

/// `SliceRandom::choose_multiple`: `amount` items of `pool` from different
/// positions, or all of them where `pool` has fewer, in an order that is up
/// to the generator.
#[verifier::external_body]
pub(crate) fn pick_several(pool: &[u8], rng: &mut ThreadRng, amount: usize) -> (picked: Vec<u8>)
    ensures
        picked@.len() == if amount <= pool@.len() { amount as nat } else { pool@.len() },
        picked@.to_multiset().subset_of(pool@.to_multiset()),
{
    pool.choose_multiple(rng, amount).copied().collect()
}

/// `SliceRandom::shuffle`: the same items in an order that is up to the
/// generator.
#[verifier::external_body]
pub(crate) fn shuffle(items: &mut Vec<u8>, rng: &mut ThreadRng)
    ensures
        final(items)@.to_multiset() == old(items)@.to_multiset(),
{
    items.shuffle(rng)
}

} // verus!
