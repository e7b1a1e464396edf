//! What is left to chance.

use rand::seq::SliceRandom;
use rand::{thread_rng, Rng};
use vstd::prelude::*;

verus! {

/// `rand::seq::SliceRandom::choose` with `rand::thread_rng`: nothing from no
/// cards, else a copy of one of the cards. Which one is left to chance.
#[verifier::external_body]
pub(crate) fn choose_card(cards: &Vec<String>) -> (card: Option<String>)
    ensures
        card is None <==> cards@.len() == 0,
        card matches Some(c) ==> exists|i: int|
            0 <= i < cards@.len() && c@ == (#[trigger] cards@[i])@,
{
    cards.choose(&mut thread_rng()).cloned()
}

/// `rand::seq::SliceRandom::shuffle` with `rand::thread_rng`: the same items, as
/// often as before. Their order is left to chance.
#[verifier::external_body]
pub(crate) fn shuffle(items: &mut Vec<usize>)
    ensures
        final(items)@.to_multiset() == old(items)@.to_multiset(),
{
    items.shuffle(&mut thread_rng());
}

/// `rand::Rng::gen_range` with `rand::thread_rng` on `0..bound`: a number below
/// `bound`. Which one is left to chance. It panics on an empty range.
#[verifier::external_body]
pub(crate) fn number_below(bound: usize) -> (n: usize)
    requires
        bound > 0,
    ensures
        n < bound,
{
    thread_rng().gen_range(0..bound)
}

} // verus!
