//! The one point where the engine touches a random source: shuffling the
//! deck through a seeded generator, behind a trusted boundary.

use vstd::prelude::*;

use rand::SeedableRng;
use rand::seq::SliceRandom;

use crate::card::Card;

verus! {

/// Relies on rand's `SliceRandom::shuffle` with a `StdRng` seeded from
/// `seed`: a Fisher-Yates shuffle that only swaps elements in place, so the
/// deck afterwards holds exactly the cards it held before, in some order.
#[verifier::external_body]
pub(crate) fn shuffle_cards(deck: &mut Vec<Card>, seed: u64)
    ensures
        final(deck)@.to_multiset() == old(deck)@.to_multiset(),
        final(deck)@.len() == old(deck)@.len(),
{
    let mut rng = rand::rngs::StdRng::seed_from_u64(seed);
    deck.shuffle(&mut rng);
}

} // verus!
