//! The engine's only source of randomness: a generator handle that the caller
//! passes in, and the three draws the engine makes from it.
//!
//! Nothing in this file is proved. Each function hands its arguments to the
//! `rand` crate and states what that crate's source guarantees of the result,
//! whatever the generator yields.

use crate::card::Card;
use rand::rngs::StdRng;
use rand::seq::SliceRandom;
use rand::Rng;
use vstd::prelude::*;

verus! {

/// `rand::rngs::StdRng`, the generator that callers hand to the engine.
/// Nothing is known of its state.
#[verifier::external_type_specification]
#[verifier::external_body]
pub struct ExStdRng(rand::rngs::StdRng);

/// Calls `rand::seq::SliceRandom::shuffle` on the cards.
///
/// The shuffle only swaps elements of the slice, so afterwards the pile holds
/// the same cards, each as often as before. Nothing is claimed of their order.
#[verifier::external_body]
pub(crate) fn shuffle(cards: &mut Vec<Card>, rng: &mut StdRng)
    ensures
        final(cards)@.to_multiset() == old(cards)@.to_multiset(),
{
    cards.shuffle(rng);
}

/// Calls `rand::seq::SliceRandom::choose` on the candidates.
///
/// The result is `None` exactly when there is no candidate; otherwise it is
/// one of the candidates. Nothing is claimed of which one.
#[verifier::external_body]
pub(crate) fn pick(candidates: &Vec<usize>, rng: &mut StdRng) -> (picked: Option<usize>)
    ensures
        candidates@.len() == 0 ==> picked is None,
        candidates@.len() > 0 ==> picked is Some && candidates@.contains(picked->0),
{
    candidates.choose(rng).copied()
}

/// Calls `rand::Rng::gen_range` with the inclusive range from 0 to 3.
///
/// The result lies in that range. Nothing else is claimed of it.
#[verifier::external_body]
pub(crate) fn roll_quarter(rng: &mut StdRng) -> (n: u8)
    ensures
        n <= 3,
{
    rng.gen_range(0..=3)
}

} // verus!
