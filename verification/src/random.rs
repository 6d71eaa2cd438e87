//! The single stream of pseudo-random numbers that drives an arrangement.
//!
//! The numbers come from `rand`'s standard generator. Nothing about that
//! generator is proved here: this module states what is taken on trust about
//! it, and the rest of the library is proved from those statements.

use crate::color::ColorBase;
use rand::rngs::StdRng;
use rand::seq::SliceRandom;
use rand::{Rng, SeedableRng};
use vstd::prelude::*;

verus! {

/// `rand::rngs::StdRng`, the generator behind a [`RandomStream`]. Nothing of
/// its inside is visible to proofs.
#[verifier::external_type_specification]
#[verifier::external_body]
pub struct ExStdRng(StdRng);

/// The internal state of a generator, as an opaque encoding. All that is
/// assumed of it is that a generator's next results depend on nothing else.
pub uninterp spec fn generator_state(rng: StdRng) -> Seq<u8>;

/// The state in which `StdRng::seed_from_u64` creates a generator for a seed.
pub uninterp spec fn seeded_state(seed: u64) -> Seq<u8>;

/// What `Rng::gen_range(0..bound)` on `u64` yields from a generator in the
/// given state: the number drawn, and the state the generator is left in.
pub uninterp spec fn draw_outcome(state: Seq<u8>, bound: u64) -> (u64, Seq<u8>);

/// What `SliceRandom::shuffle` makes of `items` with a generator in the given
/// state: the new order, and the state the generator is left in.
pub uninterp spec fn shuffle_outcome(state: Seq<u8>, items: Seq<ColorBase>) -> (
    Seq<ColorBase>,
    Seq<u8>,
);

/// Calls `StdRng::seed_from_u64`. Trusted: the generator's state is a function
/// of the seed alone.
#[verifier::external_body]
fn seed_generator(seed: u64) -> (rng: StdRng)
    ensures
        generator_state(rng) == seeded_state(seed),
{
    StdRng::seed_from_u64(seed)
}

/// Calls `Rng::gen_range` with the range `0..bound`, which panics when the
/// range is empty. Trusted: the number drawn is below `bound`, and both it
/// and the generator's new state are functions of the old state and `bound`.
#[verifier::external_body]
fn draw_below(rng: &mut StdRng, bound: u64) -> (value: u64)
    requires
        bound > 0,
    ensures
        value < bound,
        (value, generator_state(*final(rng))) == draw_outcome(generator_state(*old(rng)), bound),
{
    rng.gen_range(0..bound)
}

/// Calls `SliceRandom::shuffle` on the whole vector. Trusted: the items are
/// only reordered, and both the new order and the generator's new state are
/// functions of the old state and the old order.
#[verifier::external_body]
fn shuffle_items(rng: &mut StdRng, items: &mut Vec<ColorBase>)
    ensures
        final(items)@.to_multiset() == old(items)@.to_multiset(),
        (final(items)@, generator_state(*final(rng))) == shuffle_outcome(
            generator_state(*old(rng)),
            old(items)@,
        ),
{
    items.shuffle(rng);
}

/// A deterministic stream of pseudo-random numbers, started from a seed.
///
/// The view of a stream is the state of its generator. Every draw is a
/// function of that state, so two streams in the same state that are asked
/// the same questions give the same answers.
pub struct RandomStream {
    rng: StdRng,
}

impl View for RandomStream {
    type V = Seq<u8>;

    closed spec fn view(&self) -> Seq<u8> {
        generator_state(self.rng)
    }
}

impl RandomStream {
    /// Starts the stream that belongs to `seed`.
    pub fn from_seed(seed: u64) -> (stream: Self)
        ensures
            stream@ == seeded_state(seed),
    {
        RandomStream { rng: seed_generator(seed) }
    }

    /// Draws a number from `0..bound`.
    pub fn below(&mut self, bound: u64) -> (value: u64)
        requires
            bound > 0,
        ensures
            value < bound,
            (value, final(self)@) == draw_outcome(old(self)@, bound),
    {
        draw_below(&mut self.rng, bound)
    }

    /// Puts `items` into a random order.
    pub fn shuffle(&mut self, items: &mut Vec<ColorBase>)
        ensures
            final(items)@.to_multiset() == old(items)@.to_multiset(),
            final(items)@.len() == old(items)@.len(),
            (final(items)@, final(self)@) == shuffle_outcome(old(self)@, old(items)@),
    {
        shuffle_items(&mut self.rng, items);
        proof {
            old(items)@.to_multiset_ensures();
            items@.to_multiset_ensures();
        }
    }
}

} // verus!
