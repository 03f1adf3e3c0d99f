//! The random source: a seeded generator of the `rand` crate, and the draws
//! that the simulation makes from it.

use crate::canvas::{BRIGHTEST, MAX_SIZE};
use crate::fixed::ONE;
use crate::force::{all_within, Color, Particle};
use crate::geometry::Vector;
use rand::rngs::StdRng;
use vstd::prelude::*;

verus! {

/// The generator of the `rand` crate, `rand::rngs::StdRng`. Its state is hidden.
#[verifier::external_type_specification]
#[verifier::external_body]
pub struct ExStdRng(StdRng);

/// Calls `rand::SeedableRng::seed_from_u64` for `StdRng`. Nothing is stated
/// of the generator it returns.
#[verifier::external_body]
pub(crate) fn seeded(seed: u64) -> StdRng {
    rand::SeedableRng::seed_from_u64(seed)
}

/// Calls `rand::Rng::gen_range(rng, 0, bound)`, which panics unless
/// `0 < bound` and otherwise returns a value of `[0, bound)`. Which value is
/// not stated.
#[verifier::external_body]
pub(crate) fn draw_below(rng: &mut StdRng, bound: i64) -> (r: i64)
    requires
        bound > 0,
    ensures
        0 <= r < bound,
{
    rand::Rng::gen_range(rng, 0, bound)
}

/// Calls `rand::seq::SliceRandom::shuffle` on the elements of `v`, which
/// only swaps elements: afterwards `v` holds the same values as often as
/// before. In which order is not stated.
#[verifier::external_body]
pub(crate) fn shuffle(v: &mut Vec<usize>, rng: &mut StdRng)
    ensures
        final(v)@.to_multiset() == old(v)@.to_multiset(),
{
    rand::seq::SliceRandom::shuffle(v.as_mut_slice(), rng)
}

/// Every channel of every particle's colour lies in `[0, 255)`.
pub open spec fn all_nominal(particles: Seq<Particle>) -> bool {
    forall|i: int|
        0 <= i < particles.len() ==> {
            let c = (#[trigger] particles[i]).color;
            0 <= c.r < BRIGHTEST && 0 <= c.g < BRIGHTEST && 0 <= c.b < BRIGHTEST
        }
}

/// Draws `count` particles for a torus of `side` cells: for each in turn its
/// two coordinates, anywhere on the torus, then its three colour channels,
/// each in `[0, 255)`.
pub fn random_particles(count: usize, side: u32, rng: &mut StdRng) -> (particles: Vec<Particle>)
    requires
        0 < side <= MAX_SIZE,
    ensures
        particles@.len() == count,
        all_within(particles@, side * ONE),
        all_nominal(particles@),
{
    let period: i64 = side as i64 * ONE;
    let mut particles: Vec<Particle> = Vec::new();
    let mut i: usize = 0;
    while i < count
        invariant
            i <= count,
            particles@.len() == i,
            period == side * ONE,
            period > 0,
            all_within(particles@, side * ONE),
            all_nominal(particles@),
        decreases count - i,
    {
        let x = draw_below(rng, period);
        let y = draw_below(rng, period);
        let r = draw_below(rng, BRIGHTEST);
        let g = draw_below(rng, BRIGHTEST);
        let b = draw_below(rng, BRIGHTEST);
        particles.push(Particle { pos: Vector { x, y }, color: Color { r, g, b } });
        i = i + 1;
    }
    particles
}

} // verus!
