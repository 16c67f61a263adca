//! The random choice among moves that are equally good.

use vstd::prelude::*;
use rand::seq::SliceRandom;

verus! {

/// The seedable generator of the `rand` crate. Nothing is known of what it
/// holds.
#[verifier::external_type_specification]
#[verifier::external_body]
pub struct ExStdRng(rand::rngs::StdRng);

/// Picks one of `moves` at random with `SliceRandom::choose` of the `rand`
/// crate. Trusted, not proved: an empty list gives `None`, and any other
/// list gives one of its entries. Which entry is left open.
#[verifier::external_body]
pub(crate) fn choose_move(
    moves: &Vec<(usize, usize)>,
    rng: &mut rand::rngs::StdRng,
) -> (picked: Option<(usize, usize)>)
    ensures
        moves@.len() == 0 ==> picked is None,
        moves@.len() > 0 ==> picked is Some && moves@.contains(picked->0),
{
    moves.choose(rng).copied()
}

} // verus!
