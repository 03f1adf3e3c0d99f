//! The pairwise movement rule: the spatial force between two particles,
//! scaled by how alike their colours are.

use crate::fixed::{product, quotient, rescale, saturate, saturated, times, ONE};
use crate::geometry::{
    force_x, force_y, inv_r2, lemma_force_translation_invariant, on_torus, wrapped, Vector,
    MAX_PERIOD,
};
use vstd::prelude::*;

verus! {

/// The channel value that neither attracts nor repels, and leaves the canvas as it is: 128.
pub const NEUTRAL: i64 = 549755813888;

/// Three fixed-point colour channels, nominally within `[0, 255]`.
#[derive(Clone, Copy, Debug, PartialEq, Eq, Structural)]
pub struct Color {
    pub r: i64,
    pub g: i64,
    pub b: i64,
}

/// A coloured point of the torus.
#[derive(Clone, Copy, Debug, PartialEq, Eq, Structural)]
pub struct Particle {
    pub pos: Vector,
    pub color: Color,
}

/// Every particle lies on the torus of period `period`.
pub open spec fn all_within(particles: Seq<Particle>, period: int) -> bool {
    forall|i: int| 0 <= i < particles.len() ==> on_torus(#[trigger] particles[i].pos, period)
}

/// The fixed-point product of two channels' offsets from neutral, before clamping.
pub open spec fn channel_affinity(a: int, b: int) -> int {
    quotient((a - NEUTRAL) * (b - NEUTRAL), ONE as int)
}

/// The colour force: the dot product of the two colours' offsets from neutral.
pub open spec fn affinity(a: Color, b: Color) -> int {
    saturated(
        channel_affinity(a.r as int, b.r as int) + channel_affinity(a.g as int, b.g as int)
            + channel_affinity(a.b as int, b.b as int),
    )
}

/// The horizontal movement of `a` caused by `b`.
pub open spec fn push_x(a: Particle, b: Particle, period: int, g_const: int) -> int {
    product(product(force_x(a.pos, b.pos, period), affinity(a.color, b.color)), g_const)
}

/// The vertical movement of `a` caused by `b`.
pub open spec fn push_y(a: Particle, b: Particle, period: int, g_const: int) -> int {
    product(product(force_y(a.pos, b.pos, period), affinity(a.color, b.color)), g_const)
}

/// The product of two channels' offsets from neutral.
fn channel_force(a: i64, b: i64) -> (f: i128)
    ensures
        f == channel_affinity(a as int, b as int),
        -0x8000_0000_0000_0000_0000_0000 <= f <= 0x8000_0000_0000_0000_0000_0000,
{
    let da: i128 = a as i128 - 549755813888i128;
    let db: i128 = b as i128 - 549755813888i128;
    assert(-0x4000_0200_0000_0000_0000_0000_0000_0000 <= da * db
        <= 0x4000_0200_0000_0000_0000_0000_0000_0000) by (nonlinear_arith)
        requires
            -0x8000_0080_0000_0000 <= da <= 0x8000_0080_0000_0000,
            -0x8000_0080_0000_0000 <= db <= 0x8000_0080_0000_0000,
    ;
    rescale(da * db)
}

/// The scalar colour force between two colours: positive when their
/// channels deviate from neutral in the same direction, negative when they
/// deviate oppositely, zero when either colour is neutral.
pub fn color_force(a: Color, b: Color) -> (f: i64)
    ensures
        f == affinity(a, b),
{
    saturate(channel_force(a.r, b.r) + channel_force(a.g, b.g) + channel_force(a.b, b.b))
}

/// The movements that the pair `a`, `b` imposes on each other on a torus of
/// period `size`: the force on `a` scaled by the colour force and by
/// `g_const`, and its exact negation for `b`.
pub fn movements(a: Particle, b: Particle, size: i64, g_const: i64) -> (r: (Vector, Vector))
    requires
        0 < size <= MAX_PERIOD,
        on_torus(a.pos, size as int),
        on_torus(b.pos, size as int),
    ensures
        r.0.x == push_x(a, b, size as int, g_const as int),
        r.0.y == push_y(a, b, size as int, g_const as int),
        r.1.x == -r.0.x,
        r.1.y == -r.0.y,
{
    let pos_force = inv_r2(a.pos, b.pos, size);
    let clr_force = color_force(a.color, b.color);
    let a_movement = Vector {
        x: times(times(pos_force.x, clr_force), g_const),
        y: times(times(pos_force.y, clr_force), g_const),
    };
    let b_movement = Vector { x: -a_movement.x, y: -a_movement.y };
    (a_movement, b_movement)
}

/// The colour force of a colour with itself is the sum of the squares of its
/// channels' offsets from neutral: never negative, and zero for the neutral colour.
pub proof fn lemma_affinity_with_itself(c: Color)
    ensures
        affinity(c, c) == saturated(
            ((c.r - NEUTRAL) * (c.r - NEUTRAL)) / (ONE as int) + ((c.g - NEUTRAL) * (c.g
                - NEUTRAL)) / (ONE as int) + ((c.b - NEUTRAL) * (c.b - NEUTRAL)) / (ONE as int),
        ),
        affinity(c, c) >= 0,
        c.r == NEUTRAL && c.g == NEUTRAL && c.b == NEUTRAL ==> affinity(c, c) == 0,
{
    lemma_square_quotient(c.r - NEUTRAL);
    lemma_square_quotient(c.g - NEUTRAL);
    lemma_square_quotient(c.b - NEUTRAL);
}

/// A square divided by `ONE` is never negative, and zero for zero.
proof fn lemma_square_quotient(d: int)
    ensures
        d * d >= 0,
        (d * d) / (ONE as int) >= 0,
        d == 0 ==> (d * d) / (ONE as int) == 0,
{
    assert(d * d >= 0) by (nonlinear_arith);
    assert(d == 0 ==> d * d == 0) by (nonlinear_arith);
}

/// Moving both particles by the same shift, wrapped onto the torus, leaves
/// the movements they impose on each other unchanged.
pub proof fn lemma_movement_translation_invariant(
    a: Particle,
    b: Particle,
    a2: Particle,
    b2: Particle,
    period: int,
    g_const: int,
    sx: int,
    sy: int,
)
    requires
        period > 0,
        on_torus(a.pos, period),
        on_torus(b.pos, period),
        a2.color == a.color,
        b2.color == b.color,
        a2.pos.x == wrapped(a.pos.x + sx, period),
        a2.pos.y == wrapped(a.pos.y + sy, period),
        b2.pos.x == wrapped(b.pos.x + sx, period),
        b2.pos.y == wrapped(b.pos.y + sy, period),
    ensures
        push_x(a2, b2, period, g_const) == push_x(a, b, period, g_const),
        push_y(a2, b2, period, g_const) == push_y(a, b, period, g_const),
{
    lemma_force_translation_invariant(a.pos, b.pos, a2.pos, b2.pos, period, sx, sy);
}

} // verus!
