//! The square torus: wrapping of coordinates and the inverse-square pull
//! between two points and their nearest periodic images.

use crate::fixed::{isqrt, root, saturate, saturated, ONE};
use vstd::arithmetic::div_mod::{lemma_fundamental_div_mod, lemma_fundamental_div_mod_converse};
use vstd::prelude::*;

verus! {

/// The largest period of a torus, as a raw fixed-point value: 32768 whole cells.
pub const MAX_PERIOD: i64 = 140737488355328;

/// A pair of fixed-point coordinates: a point of the plane, a displacement or a force.
#[derive(Clone, Copy, Debug, PartialEq, Eq, Structural)]
pub struct Vector {
    pub x: i64,
    pub y: i64,
}

/// The canonical representative of `a` under wrap-around of period `period`.
pub open spec fn wrapped(a: int, period: int) -> int
    recommends
        period > 0,
{
    a % period
}

/// Both coordinates of `p` lie in `[0, period)`.
pub open spec fn on_torus(p: Vector, period: int) -> bool {
    0 <= p.x < period && 0 <= p.y < period
}

/// The displacement from coordinate `x` to the image of coordinate `y` that
/// lies one period away, on the far side of `x`.
pub open spec fn image_offset(x: int, y: int, period: int) -> int {
    if x >= y {
        y + period - x
    } else {
        y - period - x
    }
}

/// The magnitude-preserving sign transfer: `m` with the sign of `d`.
pub open spec fn signed(d: int, m: int) -> int {
    if d >= 0 {
        m
    } else {
        -m
    }
}

/// One coordinate `d` of the inverse-square pull along the displacement
/// `(dx, dy)`: the unit direction `d / length` divided by `length` squared.
/// A displacement of length zero pulls nowhere.
pub open spec fn pull(d: int, dx: int, dy: int) -> int {
    let n = dx * dx + dy * dy;
    let len = root(n);
    if len == 0 {
        0
    } else {
        let m = if d >= 0 { d } else { -d };
        signed(d, ((m * ONE) / len) * ONE * ONE / n)
    }
}

/// The horizontal pull on `x` from `y` and its three nearest images, before clamping.
pub open spec fn net_pull_x(x: Vector, y: Vector, period: int) -> int {
    let dx0 = y.x - x.x;
    let dx1 = image_offset(x.x as int, y.x as int, period);
    let dy0 = y.y - x.y;
    let dy1 = image_offset(x.y as int, y.y as int, period);
    pull(dx0, dx0, dy0) + pull(dx1, dx1, dy0) + pull(dx0, dx0, dy1) + pull(dx1, dx1, dy1)
}

/// The vertical pull on `x` from `y` and its three nearest images, before clamping.
pub open spec fn net_pull_y(x: Vector, y: Vector, period: int) -> int {
    let dx0 = y.x - x.x;
    let dx1 = image_offset(x.x as int, y.x as int, period);
    let dy0 = y.y - x.y;
    let dy1 = image_offset(x.y as int, y.y as int, period);
    pull(dy0, dx0, dy0) + pull(dy0, dx1, dy0) + pull(dy1, dx0, dy1) + pull(dy1, dx1, dy1)
}

/// The horizontal force on `x` from `y` and its three nearest images.
pub open spec fn force_x(x: Vector, y: Vector, period: int) -> int {
    saturated(net_pull_x(x, y, period))
}

/// The vertical force on `x` from `y` and its three nearest images.
pub open spec fn force_y(x: Vector, y: Vector, period: int) -> int {
    saturated(net_pull_y(x, y, period))
}

/// Wrapping `a` is determined by wrapping `-a`.
proof fn lemma_wrapped_negation(a: int, b: int)
    requires
        b > 0,
    ensures
        (-a) % b == 0 ==> a % b == 0,
        (-a) % b > 0 ==> a % b == b - (-a) % b,
{
    let q = (-a) / b;
    let m = (-a) % b;
    lemma_fundamental_div_mod(-a, b);
    if m == 0 {
        assert(a == (-q) * b + 0) by (nonlinear_arith)
            requires
                -a == b * q + m,
                m == 0,
        ;
        lemma_fundamental_div_mod_converse(a, b, -q, 0);
    } else {
        assert(a == (-q - 1) * b + (b - m)) by (nonlinear_arith)
            requires
                -a == b * q + m,
        ;
        lemma_fundamental_div_mod_converse(a, b, -q - 1, b - m);
    }
}

/// Maps a wide value into `[0, b)`.
fn wrap_wide(a: i128, b: i64) -> (r: i64)
    requires
        b > 0,
        a > i128::MIN,
    ensures
        r == wrapped(a as int, b as int),
        0 <= r < b,
{
    if a >= 0 {
        (a % (b as i128)) as i64
    } else {
        let m: i128 = (-a) % (b as i128);
        proof {
            lemma_wrapped_negation(a as int, b as int);
        }
        if m == 0 {
            0
        } else {
            (b as i128 - m) as i64
        }
    }
}

/// Maps `a` into `[0, b)`.
pub fn modulus(a: i64, b: i64) -> (r: i64)
    requires
        b > 0,
    ensures
        r == wrapped(a as int, b as int),
        0 <= r < b,
{
    wrap_wide(a as i128, b)
}

/// Wraps both coordinates of a point onto the torus of period `size`.
pub fn norm(unnorm: Vector, size: i64) -> (r: Vector)
    requires
        size > 0,
    ensures
        r.x == wrapped(unnorm.x as int, size as int),
        r.y == wrapped(unnorm.y as int, size as int),
        on_torus(r, size as int),
{
    Vector { x: modulus(unnorm.x, size), y: modulus(unnorm.y, size) }
}

/// The point reached from `p` by the displacement `by`, wrapped onto the
/// torus of period `size`.
pub fn displaced(p: Vector, by: Vector, size: i64) -> (r: Vector)
    requires
        size > 0,
    ensures
        r.x == wrapped(p.x + by.x, size as int),
        r.y == wrapped(p.y + by.y, size as int),
        on_torus(r, size as int),
{
    Vector {
        x: wrap_wide(p.x as i128 + by.x as i128, size),
        y: wrap_wide(p.y as i128 + by.y as i128, size),
    }
}

/// The absolute value of a displacement within one period.
fn magnitude(d: i64) -> (m: u128)
    requires
        -MAX_PERIOD <= d <= MAX_PERIOD,
    ensures
        m == (if d >= 0 { d as int } else { -(d as int) }),
        m <= MAX_PERIOD,
{
    if d >= 0 {
        d as u128
    } else {
        (-d) as u128
    }
}

/// One coordinate of the pull, from the magnitudes already at hand.
fn pull_along(d: i64, m: u128, len: u64, n: u128) -> (r: i128)
    requires
        m == (if d >= 0 { d as int } else { -(d as int) }),
        m <= len,
        0 < len <= 0x1_0000_0000_0000,
        0 < n,
    ensures
        r == signed(d as int, ((m * ONE) / (len as int)) * ONE * ONE / (n as int)),
        -0x1_0000_0000_0000_0000_0000_0000 <= r <= 0x1_0000_0000_0000_0000_0000_0000,
{
    assert(m * ONE <= len * ONE) by (nonlinear_arith)
        requires
            m <= len,
    ;
    let unit: u128 = m * 4294967296u128 / (len as u128);
    assert(unit <= ONE) by (nonlinear_arith)
        requires
            unit == (m * ONE) / (len as int),
            m * ONE <= len * ONE,
            0 < len,
            0 <= m,
    ;
    assert(unit * ONE * ONE <= 0x1_0000_0000_0000_0000_0000_0000) by (nonlinear_arith)
        requires
            0 <= unit <= ONE,
            ONE == 0x1_0000_0000,
    ;
    assert(unit * ONE <= 0x1_0000_0000_0000_0000) by (nonlinear_arith)
        requires
            0 <= unit <= ONE,
            ONE == 0x1_0000_0000,
    ;
    let scaled: u128 = unit * 4294967296u128 * 4294967296u128;
    let pulled: u128 = scaled / n;
    assert(pulled <= scaled) by (nonlinear_arith)
        requires
            pulled == scaled / n,
            0 < n,
    ;
    if d >= 0 {
        pulled as i128
    } else {
        -(pulled as i128)
    }
}

/// The pull along one displacement, both coordinates, before clamping.
fn image_pull(dx: i64, dy: i64) -> (r: (i128, i128))
    requires
        -MAX_PERIOD <= dx <= MAX_PERIOD,
        -MAX_PERIOD <= dy <= MAX_PERIOD,
    ensures
        r.0 == pull(dx as int, dx as int, dy as int),
        r.1 == pull(dy as int, dx as int, dy as int),
        -0x1_0000_0000_0000_0000_0000_0000 <= r.0 <= 0x1_0000_0000_0000_0000_0000_0000,
        -0x1_0000_0000_0000_0000_0000_0000 <= r.1 <= 0x1_0000_0000_0000_0000_0000_0000,
{
    let mx = magnitude(dx);
    let my = magnitude(dy);
    assert(mx * mx == dx * dx && mx * mx <= 0x4000_0000_0000_0000_0000_0000) by (nonlinear_arith)
        requires
            mx == dx || mx == -dx,
            0 <= mx <= 0x8000_0000_0000,
    ;
    assert(my * my == dy * dy && my * my <= 0x4000_0000_0000_0000_0000_0000) by (nonlinear_arith)
        requires
            my == dy || my == -dy,
            0 <= my <= 0x8000_0000_0000,
    ;
    let n: u128 = mx * mx + my * my;
    let len = isqrt(n);
    if len == 0 {
        return (0, 0);
    }
    assert(mx <= len && my <= len && 0 < n && len <= 0x1_0000_0000_0000) by (nonlinear_arith)
        requires
            0 <= mx,
            0 <= my,
            n == mx * mx + my * my,
            n <= 0x8000_0000_0000_0000_0000_0000,
            0 < len,
            len * len <= n < (len + 1) * (len + 1),
    ;
    (pull_along(dx, mx, len, n), pull_along(dy, my, len, n))
}

/// The inverse-square force on `x` from `y` and from the three images of
/// `y` that lie one period away on the far side of `x`, on a torus of period
/// `size`. An image that coincides with `x` exerts no force.
pub fn inv_r2(x: Vector, y: Vector, size: i64) -> (r: Vector)
    requires
        0 < size <= MAX_PERIOD,
        on_torus(x, size as int),
        on_torus(y, size as int),
    ensures
        r.x == force_x(x, y, size as int),
        r.y == force_y(x, y, size as int),
{
    let dx0: i64 = y.x - x.x;
    let dx1: i64 = if x.x >= y.x { y.x + size - x.x } else { y.x - size - x.x };
    let dy0: i64 = y.y - x.y;
    let dy1: i64 = if x.y >= y.y { y.y + size - x.y } else { y.y - size - x.y };
    let direct = image_pull(dx0, dy0);
    let across = image_pull(dx1, dy0);
    let above = image_pull(dx0, dy1);
    let diagonal = image_pull(dx1, dy1);
    Vector {
        x: saturate(direct.0 + across.0 + above.0 + diagonal.0),
        y: saturate(direct.1 + across.1 + above.1 + diagonal.1),
    }
}

/// Along one axis, shifting both coordinates by `s` and wrapping them keeps
/// the two displacements to the nearest images, possibly in the other order.
proof fn lemma_axis_offsets_shifted(x: int, y: int, s: int, period: int)
    requires
        period > 0,
        0 <= x < period,
        0 <= y < period,
    ensures
        ({
            let x2 = wrapped(x + s, period);
            let y2 = wrapped(y + s, period);
            ||| (y2 - x2 == y - x && image_offset(x2, y2, period) == image_offset(x, y, period))
            ||| (y2 - x2 == image_offset(x, y, period) && image_offset(x2, y2, period) == y - x)
        }),
{
    let x2 = (x + s) % period;
    let y2 = (y + s) % period;
    let kx = (x + s) / period;
    let ky = (y + s) / period;
    lemma_fundamental_div_mod(x + s, period);
    lemma_fundamental_div_mod(y + s, period);
    assert(kx - ky == 0 || kx - ky == 1 || kx - ky == -1) by (nonlinear_arith)
        requires
            period > 0,
            x + s == period * kx + x2,
            y + s == period * ky + y2,
            0 <= x < period,
            0 <= y < period,
            0 <= x2 < period,
            0 <= y2 < period,
    ;
    assert(period * kx - period * ky == period * (kx - ky)) by (nonlinear_arith);
    if kx - ky == 0 {
        assert(period * (kx - ky) == 0);
    } else if kx - ky == 1 {
        assert(period * (kx - ky) == period);
    } else {
        assert(period * (kx - ky) == -period);
    }
}

/// Toroidal translation invariance: moving both points by the same shift,
/// wrapped onto the torus, leaves the force between them unchanged, also
/// when the shift carries one of them across the boundary.
pub proof fn lemma_force_translation_invariant(
    x: Vector,
    y: Vector,
    x2: Vector,
    y2: Vector,
    period: int,
    sx: int,
    sy: int,
)
    requires
        period > 0,
        on_torus(x, period),
        on_torus(y, period),
        x2.x == wrapped(x.x + sx, period),
        x2.y == wrapped(x.y + sy, period),
        y2.x == wrapped(y.x + sx, period),
        y2.y == wrapped(y.y + sy, period),
    ensures
        force_x(x2, y2, period) == force_x(x, y, period),
        force_y(x2, y2, period) == force_y(x, y, period),
{
    lemma_axis_offsets_shifted(x.x as int, y.x as int, sx, period);
    lemma_axis_offsets_shifted(x.y as int, y.y as int, sy, period);
}

} // verus!
