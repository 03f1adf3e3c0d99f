//! The step loop: pairing rounds add up a net displacement for every
//! particle, which is then applied to all of them at once.
//!
//! The running totals are kept wrapped onto the torus. Only their
//! remainder modulo the period bears on where a particle ends up, so the new
//! positions are exactly those of the unbounded sums.

use crate::force::{all_within, movements, push_x, push_y, Particle};
use crate::geometry::{displaced, on_torus, wrapped, Vector, MAX_PERIOD};
use crate::pairing::is_pairing;
use vstd::arithmetic::div_mod::{lemma_add_mod_noop_right, lemma_small_mod};
use vstd::prelude::*;

verus! {

/// An unbounded displacement.
pub struct Shift {
    pub x: int,
    pub y: int,
}

impl Shift {
    /// No displacement.
    pub open spec fn zero() -> Shift {
        Shift { x: 0, y: 0 }
    }

    /// The sum of two displacements.
    pub open spec fn plus(self, other: Shift) -> Shift {
        Shift { x: self.x + other.x, y: self.y + other.y }
    }

    /// The displacement in the opposite direction.
    pub open spec fn reversed(self) -> Shift {
        Shift { x: -self.x, y: -self.y }
    }
}

/// The movement of `a` caused by `b`.
pub open spec fn push(a: Particle, b: Particle, period: int, g_const: int) -> Shift {
    Shift { x: push_x(a, b, period, g_const), y: push_y(a, b, period, g_const) }
}

/// What particle `k` gains when particle `i` meets its partner `j`: nothing
/// if `i` is its own partner; otherwise `i` gains the movement that `j`
/// causes it and `j` gains the opposite.
pub open spec fn meeting(
    particles: Seq<Particle>,
    i: int,
    j: int,
    k: int,
    period: int,
    g_const: int,
) -> Shift {
    if i == j {
        Shift::zero()
    } else {
        let gain = push(particles[i], particles[j], period, g_const);
        (if k == i { gain } else { Shift::zero() }).plus(
            if k == j { gain.reversed() } else { Shift::zero() },
        )
    }
}

/// What particle `k` gains from the meetings of the first `upto` particles
/// with their partners in `perm`.
pub open spec fn round_net(
    particles: Seq<Particle>,
    perm: Seq<usize>,
    upto: int,
    k: int,
    period: int,
    g_const: int,
) -> Shift
    decreases upto,
{
    if upto <= 0 {
        Shift::zero()
    } else {
        round_net(particles, perm, upto - 1, k, period, g_const).plus(
            meeting(particles, upto - 1, perm[upto - 1] as int, k, period, g_const),
        )
    }
}

/// What particle `k` gains from all the meetings of all the rounds.
pub open spec fn rounds_net(
    particles: Seq<Particle>,
    rounds: Seq<Seq<usize>>,
    k: int,
    period: int,
    g_const: int,
) -> Shift
    decreases rounds.len(),
{
    if rounds.len() == 0 {
        Shift::zero()
    } else {
        rounds_net(particles, rounds.drop_last(), k, period, g_const).plus(
            round_net(particles, rounds.last(), particles.len() as int, k, period, g_const),
        )
    }
}

/// The particles after the net displacement of all the rounds has been
/// applied to each and each has been wrapped onto the torus.
pub open spec fn moved(
    particles: Seq<Particle>,
    rounds: Seq<Seq<usize>>,
    period: int,
    g_const: int,
) -> Seq<Particle> {
    Seq::new(
        particles.len(),
        |k: int|
            {
                let net = rounds_net(particles, rounds, k, period, g_const);
                Particle {
                    pos: Vector {
                        x: wrapped(particles[k].pos.x + net.x, period) as i64,
                        y: wrapped(particles[k].pos.y + net.y, period) as i64,
                    },
                    color: particles[k].color,
                }
            },
    )
}

/// Adding to a wrapped total and wrapping again is wrapping the sum.
pub proof fn lemma_wrapped_sum(total: int, gain: int, period: int)
    requires
        period > 0,
    ensures
        wrapped(wrapped(total, period) + gain, period) == wrapped(total + gain, period),
{
    lemma_add_mod_noop_right(gain, total, period);
}

/// A running total of `n` entries, all zero.
pub fn zeroed(n: usize) -> (totals: Vec<Vector>)
    ensures
        totals@.len() == n,
        forall|k: int| 0 <= k < n ==> totals[k] == (Vector { x: 0, y: 0 }),
{
    let mut totals: Vec<Vector> = Vec::new();
    let mut i: usize = 0;
    while i < n
        invariant
            i <= n,
            totals@.len() == i,
            forall|k: int| 0 <= k < i ==> totals[k] == (Vector { x: 0, y: 0 }),
        decreases n - i,
    {
        totals.push(Vector { x: 0, y: 0 });
        i = i + 1;
    }
    totals
}

/// One pairing round: every particle meets its partner in `perm`, and the
/// movements of each meeting are added to the running totals of the two,
/// which stay wrapped onto the torus of period `size`. A particle that is
/// its own partner meets nobody.
pub fn accumulate(
    particles: &Vec<Particle>,
    perm: &Vec<usize>,
    totals: &mut Vec<Vector>,
    size: i64,
    g_const: i64,
)
    requires
        0 < size <= MAX_PERIOD,
        all_within(particles@, size as int),
        is_pairing(perm@, particles@.len() as int),
        old(totals)@.len() == particles@.len(),
        forall|k: int| 0 <= k < old(totals)@.len() ==> on_torus(#[trigger] old(totals)@[k], size as int),
    ensures
        final(totals)@.len() == particles@.len(),
        forall|k: int|
            0 <= k < particles@.len() ==> on_torus(#[trigger] final(totals)@[k], size as int),
        forall|k: int|
            0 <= k < particles@.len() ==> {
                let gain = round_net(
                    particles@,
                    perm@,
                    particles@.len() as int,
                    k,
                    size as int,
                    g_const as int,
                );
                &&& (#[trigger] final(totals)@[k]).x == wrapped(old(totals)@[k].x + gain.x, size as int)
                &&& final(totals)@[k].y == wrapped(old(totals)@[k].y + gain.y, size as int)
            },
{
    let n = particles.len();
    let mut i: usize = 0;
    proof {
        assert forall|k: int| 0 <= k < n implies {
            &&& (#[trigger] totals@[k]).x == wrapped(totals@[k].x + 0, size as int)
            &&& totals@[k].y == wrapped(totals@[k].y + 0, size as int)
        } by {
            lemma_small_mod(totals@[k].x as nat, size as nat);
            lemma_small_mod(totals@[k].y as nat, size as nat);
        }
    }
    while i < n
        invariant
            i <= n,
            n == particles@.len(),
            0 < size <= MAX_PERIOD,
            all_within(particles@, size as int),
            is_pairing(perm@, n as int),
            totals@.len() == n,
            old(totals)@.len() == n,
            forall|k: int| 0 <= k < n ==> on_torus(#[trigger] totals@[k], size as int),
            forall|k: int|
                0 <= k < n ==> {
                    let gain = round_net(particles@, perm@, i as int, k, size as int, g_const as int);
                    &&& (#[trigger] totals@[k]).x == wrapped(old(totals)@[k].x + gain.x, size as int)
                    &&& totals@[k].y == wrapped(old(totals)@[k].y + gain.y, size as int)
                },
        decreases n - i,
    {
        let j = perm[i];
        let ghost before = totals@;
        if i != j {
            let updates = movements(particles[i], particles[j], size, g_const);
            let ti = displaced(totals[i], updates.0, size);
            totals.set(i, ti);
            let tj = displaced(totals[j], updates.1, size);
            totals.set(j, tj);
        }
        proof {
            assert forall|k: int| 0 <= k < n implies {
                let gain = round_net(particles@, perm@, i + 1, k, size as int, g_const as int);
                &&& (#[trigger] totals@[k]).x == wrapped(old(totals)@[k].x + gain.x, size as int)
                &&& totals@[k].y == wrapped(old(totals)@[k].y + gain.y, size as int)
            } by {
                let so_far = round_net(particles@, perm@, i as int, k, size as int, g_const as int);
                let now = meeting(particles@, i as int, j as int, k, size as int, g_const as int);
                lemma_wrapped_sum(old(totals)@[k].x + so_far.x, now.x, size as int);
                lemma_wrapped_sum(old(totals)@[k].y + so_far.y, now.y, size as int);
            }
        }
        i = i + 1;
    }
}

} // verus!
