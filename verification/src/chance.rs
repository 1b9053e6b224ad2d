//! The random draws that the game makes, each behind a contract that states
//! what holds of every outcome.

use crate::level::Attack;
use crate::playfield::Coord;
use rand::rngs::StdRng;
use rand::seq::IndexedRandom;
use rand::Rng;
use vstd::prelude::*;

verus! {

/// The generator of `rand` that every draw of this crate is taken from. Its
/// state is not visible to proofs.
#[verifier::external_type_specification]
#[verifier::external_body]
pub struct ExStdRng(StdRng);

/// `Rng::random_range` on the half-open range `0..bound` of `usize`: some index
/// below `bound`. The range must not be empty, or the call panics.
#[verifier::external_body]
pub(crate) fn random_index(rng: &mut StdRng, bound: usize) -> (index: usize)
    requires
        bound > 0,
    ensures
        index < bound,
{
    rng.random_range(0..bound)
}

/// `Rng::random_ratio`: a flip that comes up `true` with the odds of
/// `numerator` in `denominator`. The call panics on a denominator of zero and
/// on a numerator above the denominator. Odds of all in all always give
/// `true`, odds of none always `false`; of any other odds nothing is promised
/// of the side that comes up.
#[verifier::external_body]
pub(crate) fn random_ratio(rng: &mut StdRng, numerator: u32, denominator: u32) -> (flip: bool)
    requires
        denominator > 0,
        numerator <= denominator,
    ensures
        numerator == denominator ==> flip,
        numerator == 0 ==> !flip,
{
    rng.random_ratio(numerator, denominator)
}

/// `Rng::random_range` on the closed range `0..=top` of `i32`: some number from
/// 0 up to `top`. The range must not be empty, or the call panics.
#[verifier::external_body]
pub(crate) fn random_up_to(rng: &mut StdRng, top: i32) -> (number: i32)
    requires
        0 <= top,
    ensures
        0 <= number <= top,
{
    rng.random_range(0..=top)
}

/// A position drawn from the whole playfield, inner coordinate first.
pub fn random_position<const N: usize>(rng: &mut StdRng) -> (position: (Coord<N>, Coord<N>))
    requires
        N > 0,
    ensures
        position.0.on_ring(),
        position.1.on_ring(),
{
    let inner = Coord::new(random_index(rng, N));
    let outer = Coord::new(random_index(rng, N));
    (inner, outer)
}

/// The sum of the weights with which the attacks may start on `beat`.
pub open spec fn total_spawn_quarters<const N: usize>(attacks: Seq<Attack<N>>, beat: u64) -> nat
    decreases attacks.len(),
{
    if attacks.len() == 0 {
        0
    } else {
        total_spawn_quarters(attacks.drop_last(), beat) + attacks.last().spawn_quarters(beat)
    }
}

/// `IndexedRandom::choose_weighted` on the attacks, each weighted by
/// `Attack::spawn_weight` at `beat`. It gives one of the attacks, and never one
/// of weight zero. It fails where the weights add up to zero, as they do on an
/// empty list, and where their sum does not fit in `u128`.
#[verifier::external_body]
pub(crate) fn choose_weighted_attack<'a, const N: usize>(
    rng: &mut StdRng,
    attacks: &'a Vec<Attack<N>>,
    beat: u64,
) -> (chosen: Option<&'a Attack<N>>)
    ensures
        chosen matches Some(attack) ==> exists|i: int|
            0 <= i < attacks@.len() && #[trigger] attacks@[i] == *attack && attacks@[i].spawn_quarters(
                beat,
            ) > 0,
        chosen is None <==> total_spawn_quarters(attacks@, beat) == 0 || total_spawn_quarters(
            attacks@,
            beat,
        ) > u128::MAX,
{
    attacks.choose_weighted(rng, |attack| attack.spawn_weight(beat)).ok()
}

/// The weights add up to at most four quarters for each attack, and to zero
/// only where every attack has weight zero.
pub proof fn lemma_total_spawn_quarters<const N: usize>(attacks: Seq<Attack<N>>, beat: u64)
    ensures
        total_spawn_quarters(attacks, beat) <= 4 * attacks.len(),
        total_spawn_quarters(attacks, beat) == 0 <==> forall|i: int|
            0 <= i < attacks.len() ==> (#[trigger] attacks[i]).spawn_quarters(beat) == 0,
    decreases attacks.len(),
{
    if attacks.len() > 0 {
        let front = attacks.drop_last();
        lemma_total_spawn_quarters(front, beat);
        if total_spawn_quarters(attacks, beat) == 0 {
            assert forall|i: int| 0 <= i < attacks.len() implies (#[trigger] attacks[i]).spawn_quarters(
                beat,
            ) == 0 by {
                if i < front.len() {
                    assert(front[i] == attacks[i]);
                }
            }
        } else if total_spawn_quarters(front, beat) != 0 {
            let i = choose|i: int| 0 <= i < front.len() && (#[trigger] front[i]).spawn_quarters(beat) != 0;
            assert(attacks[i] == front[i]);
        }
    }
}

/// Picks the attack that starts on `beat`, at random among those whose length
/// divides the beat, each with the chance that its weight gives it; `None`
/// where no attack may start on this beat.
pub fn select_attack<const N: usize>(rng: &mut StdRng, attacks: &Vec<Attack<N>>, beat: u64) -> (chosen:
    Option<Attack<N>>)
    ensures
        chosen matches Some(attack) ==> attacks@.contains(attack) && attack.spawn_quarters(beat) > 0,
        chosen is None <==> forall|i: int|
            0 <= i < attacks@.len() ==> (#[trigger] attacks@[i]).spawn_quarters(beat) == 0,
{
    proof {
        lemma_total_spawn_quarters(attacks@, beat);
        assert(attacks.len() <= usize::MAX);
    }
    match choose_weighted_attack(rng, attacks, beat) {
        Some(attack) => Some(*attack),
        None => None,
    }
}

} // verus!
