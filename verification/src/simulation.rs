//! The running simulation: particles on a torus and the canvas under them,
//! the major step that moves the particles and lets them paint, and the
//! whole run from a seed to a picture.

use crate::canvas::{rendered, Canvas, MAX_SIZE};
use crate::fixed::ONE;
use crate::force::{all_within, Particle, NEUTRAL};
use crate::geometry::{displaced, on_torus, wrapped, Vector};
use crate::integrator::{accumulate, lemma_wrapped_sum, moved, round_net, rounds_net, zeroed};
use crate::pairing::{are_pairings, are_permutations, check_pairing, is_pairing, random_permutation};
use crate::random::{random_particles, seeded};
use crate::raster::{raster_bytes, raster_side, to_raster, Raster};
use crate::world::{is_fresh, is_run, is_step, lemma_evolved_valid, World};
use rand::rngs::StdRng;
use vstd::arithmetic::div_mod::{lemma_add_mod_noop_right, lemma_small_mod};
use vstd::prelude::*;

verus! {

/// Why a simulation cannot be set up.
#[derive(Clone, Copy, Debug, PartialEq, Eq, Structural)]
pub enum ConfigError {
    /// The side of the plane is zero.
    ZeroSize,
    /// The side of the plane is beyond `MAX_SIZE`.
    SizeTooLarge,
    /// A particle lies outside the plane.
    ParticleOffTorus,
}

/// The rounds held in a vector of index vectors.
pub open spec fn as_rounds(rounds: Seq<Vec<usize>>) -> Seq<Seq<usize>> {
    Seq::new(rounds.len(), |r: int| rounds[r]@)
}

/// A population of coloured particles on a torus, and the canvas they paint.
pub struct Simulation {
    g_const: i64,
    weight: i64,
    particles: Vec<Particle>,
    canvas: Canvas,
}

impl View for Simulation {
    type V = World;

    closed spec fn view(&self) -> World {
        World {
            side: self.canvas@.side,
            g_const: self.g_const as int,
            weight: self.weight as int,
            particles: self.particles@,
            cells: self.canvas@.cells,
        }
    }
}

/// Whether every particle lies on the torus of period `period`.
fn check_within(particles: &Vec<Particle>, period: i64) -> (ok: bool)
    ensures
        ok == all_within(particles@, period as int),
{
    let mut i: usize = 0;
    while i < particles.len()
        invariant
            i <= particles.len(),
            forall|k: int| 0 <= k < i ==> on_torus(#[trigger] particles@[k].pos, period as int),
        decreases particles.len() - i,
    {
        let pos = particles[i].pos;
        if pos.x < 0 || pos.x >= period || pos.y < 0 || pos.y >= period {
            return false;
        }
        i = i + 1;
    }
    true
}

impl Simulation {
    /// The canvas has a cell for every unit square of the plane, and every
    /// particle lies on the torus.
    pub open spec fn wf(&self) -> bool {
        self@.valid()
    }

    /// A simulation of the given particles on a plane of `side` cells, with
    /// a canvas that is neutral throughout.
    pub fn new(side: u32, g_const: i64, weight: i64, particles: Vec<Particle>) -> (r: Result<
        Simulation,
        ConfigError,
    >)
        ensures
            side == 0 <==> r == Err::<Simulation, ConfigError>(ConfigError::ZeroSize),
            side > MAX_SIZE <==> r == Err::<Simulation, ConfigError>(ConfigError::SizeTooLarge),
            0 < side <= MAX_SIZE && !all_within(particles@, side * ONE) <==> r == Err::<
                Simulation,
                ConfigError,
            >(ConfigError::ParticleOffTorus),
            r is Ok <==> 0 < side <= MAX_SIZE && all_within(particles@, side * ONE),
            r is Ok ==> {
                let sim = r->Ok_0;
                &&& sim.wf()
                &&& sim@.side == side
                &&& sim@.g_const == g_const
                &&& sim@.weight == weight
                &&& sim@.particles == particles@
                &&& forall|i: int| 0 <= i < sim@.cells.len() ==> sim@.cells[i] == NEUTRAL
            },
    {
        if side == 0 {
            return Err(ConfigError::ZeroSize);
        }
        match Canvas::new(side) {
            None => Err(ConfigError::SizeTooLarge),
            Some(canvas) => {
                if !check_within(&particles, side as i64 * ONE) {
                    return Err(ConfigError::ParticleOffTorus);
                }
                Ok(Simulation { g_const, weight, particles, canvas })
            },
        }
    }

    /// The particles, in order.
    pub fn particles(&self) -> (r: &Vec<Particle>)
        ensures
            r@ == self@.particles,
    {
        &self.particles
    }

    /// The canvas.
    pub fn canvas(&self) -> (r: &Canvas)
        requires
            self.wf(),
        ensures
            r.wf(),
            r@.side == self@.side,
            r@.cells == self@.cells,
    {
        &self.canvas
    }

    /// Applies the running totals of the rounds to the particles, then lets
    /// the particles paint.
    fn settle(&mut self, totals: &Vec<Vector>, Ghost(rounds): Ghost<Seq<Seq<usize>>>)
        requires
            old(self).wf(),
            totals@.len() == old(self)@.particles.len(),
            forall|k: int|
                0 <= k < totals@.len() ==> {
                    let net = rounds_net(
                        old(self)@.particles,
                        rounds,
                        k,
                        old(self)@.period(),
                        old(self)@.g_const,
                    );
                    &&& (#[trigger] totals@[k]).x == wrapped(net.x, old(self)@.period())
                    &&& totals@[k].y == wrapped(net.y, old(self)@.period())
                },
        ensures
            final(self).wf(),
            final(self)@ == old(self)@.advanced(rounds),
    {
        let period: i64 = self.canvas.side() as i64 * ONE;
        let n = self.particles.len();
        let ghost before = self.particles@;
        let ghost g = self.g_const as int;
        let mut k: usize = 0;
        while k < n
            invariant
                k <= n,
                n == before.len(),
                self.particles@.len() == n,
                totals@.len() == n,
                period == self.canvas@.side * ONE,
                self.canvas.wf(),
                self.g_const == old(self).g_const,
                self.weight == old(self).weight,
                self.canvas == old(self).canvas,
                g == self.g_const,
                forall|m: int|
                    0 <= m < n ==> {
                        let net = rounds_net(before, rounds, m, period as int, g);
                        &&& (#[trigger] totals@[m]).x == wrapped(net.x, period as int)
                        &&& totals@[m].y == wrapped(net.y, period as int)
                    },
                forall|m: int| k <= m < n ==> self.particles@[m] == before[m],
                forall|m: int|
                    0 <= m < k ==> self.particles@[m] == moved(before, rounds, period as int, g)[m],
            decreases n - k,
        {
            let p = self.particles[k];
            proof {
                let net = rounds_net(before, rounds, k as int, period as int, g);
                lemma_add_mod_noop_right(p.pos.x as int, net.x, period as int);
                lemma_add_mod_noop_right(p.pos.y as int, net.y, period as int);
            }
            let pos = displaced(p.pos, totals[k], period);
            self.particles.set(k, Particle { pos, color: p.color });
            k = k + 1;
        }
        assert(self.particles@ =~= moved(before, rounds, period as int, g));
        self.canvas.paint_all(&self.particles, self.weight);
    }

    /// One major step with the given pairing rounds: every round's
    /// movements are summed, then every particle moves and paints. Nothing
    /// happens unless every round names a partner for each particle.
    pub fn advance(&mut self, rounds: &Vec<Vec<usize>>) -> (done: bool)
        requires
            old(self).wf(),
        ensures
            final(self).wf(),
            done == are_pairings(as_rounds(rounds@), old(self)@.particles.len() as int),
            done ==> final(self)@ == old(self)@.advanced(as_rounds(rounds@)),
            !done ==> final(self)@ == old(self)@,
    {
        let n = self.particles.len();
        let mut r: usize = 0;
        while r < rounds.len()
            invariant
                r <= rounds.len(),
                self.wf(),
                *self == *old(self),
                n == self@.particles.len(),
                forall|q: int| 0 <= q < r ==> is_pairing(#[trigger] as_rounds(rounds@)[q], n as int),
            decreases rounds.len() - r,
        {
            if !check_pairing(&rounds[r], n) {
                assert(!is_pairing(as_rounds(rounds@)[r as int], n as int));
                return false;
            }
            r = r + 1;
        }
        let period: i64 = self.canvas.side() as i64 * ONE;
        let mut totals = zeroed(n);
        let ghost all = as_rounds(rounds@);
        proof {
            assert forall|k: int| 0 <= k < n implies {
                let net = rounds_net(self@.particles, all.take(0), k, period as int, self@.g_const);
                &&& (#[trigger] totals@[k]).x == wrapped(net.x, period as int)
                &&& totals@[k].y == wrapped(net.y, period as int)
            } by {
                lemma_small_mod(0, period as nat);
            }
        }
        r = 0;
        while r < rounds.len()
            invariant
                r <= rounds.len(),
                self.wf(),
                *self == *old(self),
                n == self@.particles.len(),
                period == self@.period(),
                all == as_rounds(rounds@),
                are_pairings(all, n as int),
                totals@.len() == n,
                forall|k: int| 0 <= k < n ==> on_torus(#[trigger] totals@[k], period as int),
                forall|k: int|
                    0 <= k < n ==> {
                        let net = rounds_net(
                            self@.particles,
                            all.take(r as int),
                            k,
                            period as int,
                            self@.g_const,
                        );
                        &&& (#[trigger] totals@[k]).x == wrapped(net.x, period as int)
                        &&& totals@[k].y == wrapped(net.y, period as int)
                    },
            decreases rounds.len() - r,
        {
            let ghost before = totals@;
            assert(is_pairing(all[r as int], n as int));
            accumulate(&self.particles, &rounds[r], &mut totals, period, self.g_const);
            proof {
                assert(all.take(r + 1).drop_last() =~= all.take(r as int));
                assert(all.take(r + 1).last() == rounds@[r as int]@);
                assert forall|k: int| 0 <= k < n implies {
                    let net = rounds_net(
                        self@.particles,
                        all.take(r + 1),
                        k,
                        period as int,
                        self@.g_const,
                    );
                    &&& (#[trigger] totals@[k]).x == wrapped(net.x, period as int)
                    &&& totals@[k].y == wrapped(net.y, period as int)
                } by {
                    let so_far = rounds_net(
                        self@.particles,
                        all.take(r as int),
                        k,
                        period as int,
                        self@.g_const,
                    );
                    let gain = round_net(
                        self@.particles,
                        rounds@[r as int]@,
                        n as int,
                        k,
                        period as int,
                        self@.g_const,
                    );
                    assert(before[k].x == wrapped(so_far.x, period as int));
                    lemma_wrapped_sum(so_far.x, gain.x, period as int);
                    lemma_wrapped_sum(so_far.y, gain.y, period as int);
                }
            }
            r = r + 1;
        }
        assert(all.take(rounds.len() as int) =~= all);
        self.settle(&totals, Ghost(all));
        true
    }

    /// A simulation of `count` particles drawn from `rng`, on a plane of
    /// `side` cells, with a canvas that is neutral throughout.
    pub fn random(side: u32, g_const: i64, weight: i64, count: usize, rng: &mut StdRng) -> (r:
        Result<Simulation, ConfigError>)
        ensures
            side == 0 <==> r == Err::<Simulation, ConfigError>(ConfigError::ZeroSize),
            side > MAX_SIZE <==> r == Err::<Simulation, ConfigError>(ConfigError::SizeTooLarge),
            0 < side <= MAX_SIZE <==> r is Ok,
            r is Ok ==> r->Ok_0.wf() && is_fresh(
                r->Ok_0@,
                count as int,
                side as int,
                g_const as int,
                weight as int,
            ),
    {
        if side == 0 {
            return Err(ConfigError::ZeroSize);
        }
        if side > MAX_SIZE {
            return Err(ConfigError::SizeTooLarge);
        }
        let particles = random_particles(count, side, rng);
        Simulation::new(side, g_const, weight, particles)
    }

    /// One major step: `num_perms` rounds, each pairing the particles by a
    /// permutation drawn from `rng`, then every particle moves and paints.
    pub fn step(&mut self, num_perms: usize, rng: &mut StdRng)
        requires
            old(self).wf(),
        ensures
            final(self).wf(),
            exists|rounds: Seq<Seq<usize>>|
                #[trigger] is_step(old(self)@, rounds, num_perms as int, final(self)@),
    {
        let n = self.particles.len();
        let period: i64 = self.canvas.side() as i64 * ONE;
        let mut totals = zeroed(n);
        let ghost mut drawn: Seq<Seq<usize>> = Seq::empty();
        proof {
            assert forall|k: int| 0 <= k < n implies {
                let net = rounds_net(self@.particles, drawn, k, period as int, self@.g_const);
                &&& (#[trigger] totals@[k]).x == wrapped(net.x, period as int)
                &&& totals@[k].y == wrapped(net.y, period as int)
            } by {
                lemma_small_mod(0, period as nat);
            }
        }
        let mut r: usize = 0;
        while r < num_perms
            invariant
                r <= num_perms,
                self.wf(),
                *self == *old(self),
                n == self@.particles.len(),
                period == self@.period(),
                drawn.len() == r,
                are_permutations(drawn, n as int),
                totals@.len() == n,
                forall|k: int| 0 <= k < n ==> on_torus(#[trigger] totals@[k], period as int),
                forall|k: int|
                    0 <= k < n ==> {
                        let net = rounds_net(self@.particles, drawn, k, period as int, self@.g_const);
                        &&& (#[trigger] totals@[k]).x == wrapped(net.x, period as int)
                        &&& totals@[k].y == wrapped(net.y, period as int)
                    },
            decreases num_perms - r,
        {
            let perm = random_permutation(n, rng);
            let ghost before = totals@;
            let ghost earlier = drawn;
            accumulate(&self.particles, &perm, &mut totals, period, self.g_const);
            proof {
                drawn = earlier.push(perm@);
                assert(drawn.drop_last() =~= earlier);
                assert(drawn.last() == perm@);
                assert forall|k: int| 0 <= k < n implies {
                    let net = rounds_net(self@.particles, drawn, k, period as int, self@.g_const);
                    &&& (#[trigger] totals@[k]).x == wrapped(net.x, period as int)
                    &&& totals@[k].y == wrapped(net.y, period as int)
                } by {
                    let so_far = rounds_net(
                        self@.particles,
                        earlier,
                        k,
                        period as int,
                        self@.g_const,
                    );
                    let gain = round_net(
                        self@.particles,
                        perm@,
                        n as int,
                        k,
                        period as int,
                        self@.g_const,
                    );
                    assert(before[k].x == wrapped(so_far.x, period as int));
                    lemma_wrapped_sum(so_far.x, gain.x, period as int);
                    lemma_wrapped_sum(so_far.y, gain.y, period as int);
                }
            }
            r = r + 1;
        }
        self.settle(&totals, Ghost(drawn));
        assert(is_step(old(self)@, drawn, num_perms as int, self@));
    }

    /// `num_steps` major steps of `num_perms` rounds each, all drawn from `rng`.
    pub fn run(&mut self, num_steps: usize, num_perms: usize, rng: &mut StdRng)
        requires
            old(self).wf(),
        ensures
            final(self).wf(),
            exists|history: Seq<Seq<Seq<usize>>>|
                #[trigger] is_run(old(self)@, history, num_steps as int, num_perms as int, final(self)@),
    {
        let ghost mut history: Seq<Seq<Seq<usize>>> = Seq::empty();
        let mut s: usize = 0;
        while s < num_steps
            invariant
                s <= num_steps,
                self.wf(),
                self@.particles.len() == old(self)@.particles.len(),
                is_run(old(self)@, history, s as int, num_perms as int, self@),
            decreases num_steps - s,
        {
            let ghost before = self@;
            let ghost earlier = history;
            self.step(num_perms, rng);
            proof {
                let rounds = choose|rounds: Seq<Seq<usize>>|
                    is_step(before, rounds, num_perms as int, self@);
                history = earlier.push(rounds);
                assert(history.drop_last() =~= earlier);
                assert(history.last() == rounds);
            }
            s = s + 1;
        }
    }

    /// The picture of the canvas as it stands.
    pub fn render(&self) -> (raster: Raster)
        requires
            self.wf(),
        ensures
            raster_bytes(raster) == rendered(self@.cells),
            raster_side(raster) == self@.side,
    {
        to_raster(&self.canvas)
    }
}

/// The picture that `raster` shows is that of a fresh world `start` after
/// the run that `history` records.
pub open spec fn is_outcome(
    start: World,
    history: Seq<Seq<Seq<usize>>>,
    num_particles: int,
    num_perms: int,
    num_steps: int,
    size: int,
    g_const: int,
    weight: int,
    raster: Raster,
) -> bool {
    &&& is_fresh(start, num_particles, size, g_const, weight)
    &&& is_run(start, history, num_steps, num_perms, start.evolved(history))
    &&& raster_bytes(raster) == rendered(start.evolved(history).cells)
    &&& raster_side(raster) == size
}

/// Runs a whole simulation from a seed and returns the picture it paints:
/// `num_particles` random particles on a plane of `size` cells take
/// `num_steps` major steps of `num_perms` random pairing rounds each. A size
/// of zero, or one beyond `MAX_SIZE`, is refused.
pub fn draw(
    num_particles: usize,
    num_perms: usize,
    num_steps: usize,
    size: usize,
    g_const: i64,
    weight: i64,
    seed: u64,
) -> (r: Result<Raster, ConfigError>)
    ensures
        size == 0 <==> r == Err::<Raster, ConfigError>(ConfigError::ZeroSize),
        size > MAX_SIZE <==> r == Err::<Raster, ConfigError>(ConfigError::SizeTooLarge),
        0 < size <= MAX_SIZE <==> r is Ok,
        r is Ok ==> exists|start: World, history: Seq<Seq<Seq<usize>>>|
            #[trigger] is_outcome(
                start,
                history,
                num_particles as int,
                num_perms as int,
                num_steps as int,
                size as int,
                g_const as int,
                weight as int,
                r->Ok_0,
            ),
{
    if size == 0 {
        return Err(ConfigError::ZeroSize);
    }
    if size > MAX_SIZE as usize {
        return Err(ConfigError::SizeTooLarge);
    }
    let mut rng = seeded(seed);
    let mut sim = match Simulation::random(size as u32, g_const, weight, num_particles, &mut rng) {
        Ok(sim) => sim,
        Err(e) => {
            return Err(e);
        },
    };
    let ghost start = sim@;
    sim.run(num_steps, num_perms, &mut rng);
    let raster = sim.render();
    proof {
        let history = choose|history: Seq<Seq<Seq<usize>>>|
            is_run(start, history, num_steps as int, num_perms as int, sim@);
        lemma_evolved_valid(start, history);
        assert(is_outcome(
            start,
            history,
            num_particles as int,
            num_perms as int,
            num_steps as int,
            size as int,
            g_const as int,
            weight as int,
            raster,
        ));
        assert(exists|start: World, history: Seq<Seq<Seq<usize>>>|
            #[trigger] is_outcome(
                start,
                history,
                num_particles as int,
                num_perms as int,
                num_steps as int,
                size as int,
                g_const as int,
                weight as int,
                raster,
            ));
    }
    let outcome: Result<Raster, ConfigError> = Ok(raster);
    assert(outcome->Ok_0 == raster);
    outcome
}

} // verus!
