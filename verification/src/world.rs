//! What a simulation is, as a mathematical value, and the laws of its
//! evolution: no particle leaves the torus, and a particle alone stays
//! where it is.

use crate::canvas::{lemma_painted_len, painted, MAX_SIZE};
use crate::fixed::ONE;
use crate::force::{all_within, Particle, NEUTRAL};
use crate::integrator::{moved, round_net, rounds_net, Shift};
use crate::pairing::{are_pairings, are_permutations, is_pairing};
use crate::random::all_nominal;
use vstd::arithmetic::div_mod::lemma_small_mod;
use vstd::prelude::*;

verus! {

/// What a simulation is: its parameters, its particles and the channels of its canvas.
#[verifier::ext_equal]
pub struct World {
    pub side: int,
    pub g_const: int,
    pub weight: int,
    pub particles: Seq<Particle>,
    pub cells: Seq<i64>,
}

impl World {
    /// The period of the torus, as a raw fixed-point value.
    pub open spec fn period(self) -> int {
        self.side * ONE
    }

    /// The side is within bounds, the canvas has a cell for every unit
    /// square of the plane, and every particle lies on the torus.
    pub open spec fn valid(self) -> bool {
        &&& 0 < self.side <= MAX_SIZE
        &&& self.cells.len() == 3 * self.side * self.side
        &&& all_within(self.particles, self.period())
    }

    /// The world after one major step with the given pairing rounds: all
    /// the rounds' movements are summed, then every particle moves, then
    /// every particle tints the cell it has reached.
    pub open spec fn advanced(self, rounds: Seq<Seq<usize>>) -> World {
        let particles = moved(self.particles, rounds, self.period(), self.g_const);
        World {
            particles,
            cells: painted(self.cells, self.side, particles, particles.len() as int, self.weight),
            ..self
        }
    }

    /// The world after one major step for each entry of `history`, in order.
    pub open spec fn evolved(self, history: Seq<Seq<Seq<usize>>>) -> World
        decreases history.len(),
    {
        if history.len() == 0 {
            self
        } else {
            self.evolved(history.drop_last()).advanced(history.last())
        }
    }
}

/// A major step keeps the world valid: whatever the rounds, every particle
/// is on the torus afterwards, with the colour it had. The parameters and
/// the number of particles stay as they were.
pub proof fn lemma_advanced_valid(world: World, rounds: Seq<Seq<usize>>)
    requires
        world.valid(),
    ensures
        world.advanced(rounds).valid(),
        world.advanced(rounds).side == world.side,
        world.advanced(rounds).g_const == world.g_const,
        world.advanced(rounds).weight == world.weight,
        world.advanced(rounds).particles.len() == world.particles.len(),
        forall|k: int|
            0 <= k < world.particles.len() ==> (#[trigger] world.advanced(rounds).particles[k]).color
                == world.particles[k].color,
{
    let particles = moved(world.particles, rounds, world.period(), world.g_const);
    assert(world.period() > 0) by (nonlinear_arith)
        requires
            world.side > 0,
            world.period() == world.side * 4294967296,
    ;
    assert(all_within(particles, world.period()));
    lemma_painted_len(world.cells, world.side, particles, particles.len() as int, world.weight);
}

/// Any number of major steps keeps the world valid: no particle ever
/// leaves the torus. The parameters and the number of particles stay as
/// they were.
pub proof fn lemma_evolved_valid(world: World, history: Seq<Seq<Seq<usize>>>)
    requires
        world.valid(),
    ensures
        world.evolved(history).valid(),
        world.evolved(history).side == world.side,
        world.evolved(history).g_const == world.g_const,
        world.evolved(history).weight == world.weight,
        world.evolved(history).particles.len() == world.particles.len(),
        forall|k: int|
            0 <= k < world.particles.len() ==> (#[trigger] world.evolved(history).particles[k]).color
                == world.particles[k].color,
    decreases history.len(),
{
    if history.len() > 0 {
        lemma_evolved_valid(world, history.drop_last());
        lemma_advanced_valid(world.evolved(history.drop_last()), history.last());
    }
}

/// The canvas after the particles, staying where they are, have painted it `times` times.
pub open spec fn repainted(
    cells: Seq<i64>,
    side: int,
    particles: Seq<Particle>,
    weight: int,
    times: int,
) -> Seq<i64>
    decreases times,
{
    if times <= 0 {
        cells
    } else {
        painted(
            repainted(cells, side, particles, weight, times - 1),
            side,
            particles,
            particles.len() as int,
            weight,
        )
    }
}

/// Where there is at most one particle, a round brings no movement.
proof fn lemma_lone_round_net(
    particles: Seq<Particle>,
    perm: Seq<usize>,
    upto: int,
    k: int,
    period: int,
    g_const: int,
)
    requires
        particles.len() <= 1,
        is_pairing(perm, particles.len() as int),
        0 <= upto <= particles.len(),
    ensures
        round_net(particles, perm, upto, k, period, g_const) == Shift::zero(),
    decreases upto,
{
    if upto > 0 {
        lemma_lone_round_net(particles, perm, upto - 1, k, period, g_const);
        assert(perm[upto - 1] == 0);
    }
}

/// Where there is at most one particle, no number of rounds brings any movement.
proof fn lemma_lone_rounds_net(
    particles: Seq<Particle>,
    rounds: Seq<Seq<usize>>,
    k: int,
    period: int,
    g_const: int,
)
    requires
        particles.len() <= 1,
        are_pairings(rounds, particles.len() as int),
    ensures
        rounds_net(particles, rounds, k, period, g_const) == Shift::zero(),
    decreases rounds.len(),
{
    if rounds.len() > 0 {
        assert(are_pairings(rounds.drop_last(), particles.len() as int)) by {
            assert forall|r: int| 0 <= r < rounds.drop_last().len() implies is_pairing(
                #[trigger] rounds.drop_last()[r],
                particles.len() as int,
            ) by {
                assert(rounds.drop_last()[r] == rounds[r]);
            }
        }
        lemma_lone_rounds_net(particles, rounds.drop_last(), k, period, g_const);
        assert(is_pairing(rounds[rounds.len() - 1], particles.len() as int));
        lemma_lone_round_net(
            particles,
            rounds.last(),
            particles.len() as int,
            k,
            period,
            g_const,
        );
    }
}

/// With at most one particle nothing interacts: a major step leaves the
/// particle where it is, and only lets it paint the cell under it.
pub proof fn lemma_lone_particle_rests(world: World, rounds: Seq<Seq<usize>>)
    requires
        world.valid(),
        world.particles.len() <= 1,
        are_pairings(rounds, world.particles.len() as int),
    ensures
        world.advanced(rounds).particles == world.particles,
        world.advanced(rounds).cells == painted(
            world.cells,
            world.side,
            world.particles,
            world.particles.len() as int,
            world.weight,
        ),
{
    let after = moved(world.particles, rounds, world.period(), world.g_const);
    assert forall|k: int| 0 <= k < world.particles.len() implies after[k] == world.particles[k] by {
        lemma_lone_rounds_net(world.particles, rounds, k, world.period(), world.g_const);
        let p = world.particles[k];
        lemma_small_mod(p.pos.x as nat, world.period() as nat);
        lemma_small_mod(p.pos.y as nat, world.period() as nat);
    }
    assert(after =~= world.particles);
}

/// With at most one particle, any number of major steps leaves the particle
/// where it is, and the canvas is what its painting the same cell once for
/// every step makes of it.
pub proof fn lemma_lone_particle_run(world: World, history: Seq<Seq<Seq<usize>>>)
    requires
        world.valid(),
        world.particles.len() <= 1,
        forall|s: int|
            0 <= s < history.len() ==> are_pairings(#[trigger] history[s], world.particles.len() as int),
    ensures
        world.evolved(history).particles == world.particles,
        world.evolved(history).cells == repainted(
            world.cells,
            world.side,
            world.particles,
            world.weight,
            history.len() as int,
        ),
    decreases history.len(),
{
    if history.len() > 0 {
        let earlier = history.drop_last();
        assert forall|s: int| 0 <= s < earlier.len() implies are_pairings(
            #[trigger] earlier[s],
            world.particles.len() as int,
        ) by {
            assert(earlier[s] == history[s]);
        }
        lemma_lone_particle_run(world, earlier);
        lemma_evolved_valid(world, earlier);
        assert(are_pairings(history[history.len() - 1], world.particles.len() as int));
        lemma_lone_particle_rests(world.evolved(earlier), history.last());
    }
}

/// `after` is `before` one major step later, the step having paired the
/// particles by `count` permutations, the rounds `rounds`.
pub open spec fn is_step(before: World, rounds: Seq<Seq<usize>>, count: int, after: World) -> bool {
    &&& rounds.len() == count
    &&& are_permutations(rounds, before.particles.len() as int)
    &&& after == before.advanced(rounds)
}

/// `after` is `before` after `steps` major steps, each of which paired the
/// particles by `perms` permutations: `history` holds the rounds of each step.
pub open spec fn is_run(
    before: World,
    history: Seq<Seq<Seq<usize>>>,
    steps: int,
    perms: int,
    after: World,
) -> bool {
    &&& history.len() == steps
    &&& forall|s: int|
        0 <= s < steps ==> (#[trigger] history[s]).len() == perms && are_permutations(
            history[s],
            before.particles.len() as int,
        )
    &&& after == before.evolved(history)
}

/// `start` is a fresh world for the given parameters: its canvas neutral
/// throughout, its particles on the torus with colours in `[0, 255)`.
pub open spec fn is_fresh(start: World, count: int, side: int, g_const: int, weight: int) -> bool {
    &&& start.valid()
    &&& start.side == side
    &&& start.g_const == g_const
    &&& start.weight == weight
    &&& start.particles.len() == count
    &&& all_nominal(start.particles)
    &&& forall|i: int| 0 <= i < start.cells.len() ==> start.cells[i] == NEUTRAL
}

} // verus!
