//! The canvas: a square grid of colours that the particles tint as they pass,
//! and its conversion to 8-bit pixels.
//!
//! The grid is one flat buffer, row by row, three channels per cell: the cell
//! in column `x` of row `y` starts at `(y * side + x) * 3`.

use crate::fixed::{quotient, rescale, saturate, saturated, ONE};
use crate::force::{all_within, Color, Particle, NEUTRAL};
use crate::geometry::{on_torus, Vector};
use vstd::prelude::*;

verus! {

/// The largest side of a canvas, in cells.
pub const MAX_SIZE: u32 = 32768;

/// The raw value of 255, from which a channel is shown at full intensity.
pub const BRIGHTEST: i64 = 1095216660480;

/// A canvas channel `old` after a visit by a particle channel `channel`:
/// moved by the fraction `weight` of the particle's offset from neutral.
pub open spec fn tinted(old: int, channel: int, weight: int) -> int {
    saturated(old + quotient((channel - NEUTRAL) * weight, ONE as int))
}

/// Where the cell under `pos` starts in the flat buffer of a canvas of side `side`.
pub open spec fn cell_offset(side: int, pos: Vector) -> int {
    ((pos.y as int / ONE as int) * side + pos.x as int / ONE as int) * 3
}

/// The buffer after particle `p` has tinted the cell under it.
pub open spec fn painted_by(cells: Seq<i64>, side: int, p: Particle, weight: int) -> Seq<i64> {
    let at = cell_offset(side, p.pos);
    cells.update(at, tinted(cells[at] as int, p.color.r as int, weight) as i64).update(
        at + 1,
        tinted(cells[at + 1] as int, p.color.g as int, weight) as i64,
    ).update(at + 2, tinted(cells[at + 2] as int, p.color.b as int, weight) as i64)
}

/// The buffer after the first `upto` of the particles have tinted it, in order.
pub open spec fn painted(
    cells: Seq<i64>,
    side: int,
    particles: Seq<Particle>,
    upto: int,
    weight: int,
) -> Seq<i64>
    decreases upto,
{
    if upto <= 0 {
        cells
    } else {
        painted_by(painted(cells, side, particles, upto - 1, weight), side, particles[upto - 1], weight)
    }
}

/// The 8-bit value shown for a canvas channel: clamped to `[0, 255]`, then rounded down.
pub open spec fn shown(v: int) -> int {
    if v < 0 {
        0
    } else if v >= BRIGHTEST {
        255
    } else {
        v / (ONE as int)
    }
}

/// The pixel bytes shown for a buffer of canvas channels.
pub open spec fn rendered(cells: Seq<i64>) -> Seq<u8> {
    Seq::new(cells.len(), |i: int| shown(cells[i] as int) as u8)
}

/// What a canvas is: its side and its channels, row by row.
pub struct Grid {
    pub side: int,
    pub cells: Seq<i64>,
}

impl Grid {
    /// The side is within bounds and the buffer holds three channels for each cell.
    pub open spec fn valid(self) -> bool {
        0 < self.side <= MAX_SIZE && self.cells.len() == 3 * self.side * self.side
    }

    /// Every channel of every cell is neutral.
    pub open spec fn blank(self) -> bool {
        forall|i: int| 0 <= i < self.cells.len() ==> self.cells[i] == NEUTRAL
    }
}

/// A square grid of colours with unclamped fixed-point channels.
pub struct Canvas {
    side: u32,
    cells: Vec<i64>,
}

impl View for Canvas {
    type V = Grid;

    closed spec fn view(&self) -> Grid {
        Grid { side: self.side as int, cells: self.cells@ }
    }
}

/// A canvas channel `a` after a visit by a particle channel `b`.
pub fn update_color(a: i64, b: i64, weight: i64) -> (r: i64)
    ensures
        r == tinted(a as int, b as int, weight as int),
{
    let offset: i128 = b as i128 - 549755813888i128;
    assert(-0x4000_0100_0000_0000_0000_0000_0000_0000 <= offset * weight
        <= 0x4000_0100_0000_0000_0000_0000_0000_0000) by (nonlinear_arith)
        requires
            -0x8000_0080_0000_0000 <= offset <= 0x8000_0080_0000_0000,
            -0x8000_0000_0000_0000 <= weight <= 0x8000_0000_0000_0000,
    ;
    let drift = rescale(offset * (weight as i128));
    assert(-0x8000_0000_0000_0000_0000_0000 <= drift <= 0x8000_0000_0000_0000_0000_0000);
    saturate(a as i128 + drift)
}

/// The 8-bit value of a canvas channel.
pub fn channel_byte(v: i64) -> (r: u8)
    ensures
        r == shown(v as int),
{
    if v < 0 {
        0
    } else if v >= BRIGHTEST {
        255
    } else {
        (v / ONE) as u8
    }
}

/// The cell under a point of the torus starts within the buffer.
pub proof fn lemma_cell_offset_in_bounds(side: int, pos: Vector)
    requires
        0 < side,
        on_torus(pos, side * ONE),
    ensures
        0 <= (pos.x as int) / (ONE as int) < side,
        0 <= (pos.y as int) / (ONE as int) < side,
        0 <= cell_offset(side, pos),
        cell_offset(side, pos) + 3 <= 3 * side * side,
{
    let cx = pos.x as int / ONE as int;
    let cy = pos.y as int / ONE as int;
    assert(0 <= cx < side) by (nonlinear_arith)
        requires
            cx == pos.x as int / 4294967296,
            0 <= pos.x < side * 4294967296,
    ;
    assert(0 <= cy < side) by (nonlinear_arith)
        requires
            cy == pos.y as int / 4294967296,
            0 <= pos.y < side * 4294967296,
    ;
    assert(0 <= (cy * side + cx) * 3 && (cy * side + cx) * 3 + 3 <= 3 * side * side)
        by (nonlinear_arith)
        requires
            0 <= cx < side,
            0 <= cy < side,
    ;
}

/// Painting keeps the size of the buffer.
pub proof fn lemma_painted_len(
    cells: Seq<i64>,
    side: int,
    particles: Seq<Particle>,
    upto: int,
    weight: int,
)
    requires
        0 < side,
        cells.len() == 3 * side * side,
        0 <= upto <= particles.len(),
        all_within(particles, side * ONE),
    ensures
        painted(cells, side, particles, upto, weight).len() == cells.len(),
    decreases upto,
{
    if upto > 0 {
        lemma_painted_len(cells, side, particles, upto - 1, weight);
        lemma_cell_offset_in_bounds(side, particles[upto - 1].pos);
    }
}

/// The cell in column `x` of row `y` lies within the buffer, and the buffer
/// of the largest canvas can still be indexed.
proof fn lemma_grid_index(side: int, x: int, y: int)
    requires
        0 <= x < side <= MAX_SIZE,
        0 <= y < side,
    ensures
        0 <= y * side <= y * side + x,
        (y * side + x) * 3 + 3 <= 3 * side * side <= 3221225472,
{
    assert(0 <= y * side && (y * side + x) * 3 + 3 <= 3 * side * side && 3 * side * side
        <= 3221225472) by (nonlinear_arith)
        requires
            0 <= x < side <= 32768,
            0 <= y < side,
    ;
}

impl Canvas {
    /// The canvas keeps its buffer in step with its side.
    pub open spec fn wf(&self) -> bool {
        self@.valid()
    }

    /// A canvas of the given side with every channel neutral, or `None`
    /// when the side is zero or beyond `MAX_SIZE`.
    pub fn new(side: u32) -> (r: Option<Canvas>)
        ensures
            r is Some <==> 0 < side <= MAX_SIZE,
            r is Some ==> r->0.wf() && r->0@.side == side && r->0@.blank(),
    {
        if side == 0 || side > MAX_SIZE {
            return None;
        }
        assert(3 * side * side <= 3 * 32768 * 32768) by (nonlinear_arith)
            requires
                0 < side <= 32768,
        ;
        let total: usize = 3 * (side as usize) * (side as usize);
        let mut cells: Vec<i64> = Vec::new();
        let mut i: usize = 0;
        while i < total
            invariant
                i <= total,
                cells.len() == i,
                forall|k: int| 0 <= k < i ==> cells[k] == NEUTRAL,
            decreases total - i,
        {
            cells.push(NEUTRAL);
            i = i + 1;
        }
        Some(Canvas { side, cells })
    }

    /// The side of the canvas, in cells.
    pub fn side(&self) -> (r: u32)
        ensures
            r == self@.side,
    {
        self.side
    }

    /// The colour stored in column `x` of row `y`, or `None` beyond the canvas.
    pub fn cell(&self, x: u32, y: u32) -> (r: Option<Color>)
        requires
            self.wf(),
        ensures
            r is Some <==> x < self@.side && y < self@.side,
            r is Some ==> {
                let at = (y * self@.side + x) * 3;
                &&& r->0.r == self@.cells[at]
                &&& r->0.g == self@.cells[at + 1]
                &&& r->0.b == self@.cells[at + 2]
            },
    {
        if x >= self.side || y >= self.side {
            return None;
        }
        let side = self.side as usize;
        proof {
            lemma_grid_index(side as int, x as int, y as int);
        }
        let at: usize = (y as usize * side + x as usize) * 3;
        Some(Color { r: self.cells[at], g: self.cells[at + 1], b: self.cells[at + 2] })
    }

    /// Lets one particle tint the cell under it.
    pub fn paint(&mut self, p: &Particle, weight: i64)
        requires
            old(self).wf(),
            on_torus(p.pos, old(self)@.side * ONE),
        ensures
            final(self).wf(),
            final(self)@.side == old(self)@.side,
            final(self)@.cells == painted_by(old(self)@.cells, old(self)@.side, *p, weight as int),
    {
        proof {
            lemma_cell_offset_in_bounds(self.side as int, p.pos);
        }
        let side = self.side as usize;
        let cx: usize = (p.pos.x / ONE) as usize;
        let cy: usize = (p.pos.y / ONE) as usize;
        proof {
            lemma_grid_index(side as int, cx as int, cy as int);
        }
        let at: usize = (cy * side + cx) * 3;
        let r = update_color(self.cells[at], p.color.r, weight);
        self.cells.set(at, r);
        let g = update_color(self.cells[at + 1], p.color.g, weight);
        self.cells.set(at + 1, g);
        let b = update_color(self.cells[at + 2], p.color.b, weight);
        self.cells.set(at + 2, b);
    }

    /// Lets every particle tint the cell under it, in order.
    pub fn paint_all(&mut self, particles: &Vec<Particle>, weight: i64)
        requires
            old(self).wf(),
            all_within(particles@, old(self)@.side * ONE),
        ensures
            final(self).wf(),
            final(self)@.side == old(self)@.side,
            final(self)@.cells == painted(
                old(self)@.cells,
                old(self)@.side,
                particles@,
                particles@.len() as int,
                weight as int,
            ),
    {
        let mut i: usize = 0;
        while i < particles.len()
            invariant
                i <= particles.len(),
                self.wf(),
                self@.side == old(self)@.side,
                all_within(particles@, old(self)@.side * ONE),
                self@.cells == painted(
                    old(self)@.cells,
                    old(self)@.side,
                    particles@,
                    i as int,
                    weight as int,
                ),
            decreases particles.len() - i,
        {
            self.paint(&particles[i], weight);
            i = i + 1;
        }
    }

    /// The 8-bit pixels of the canvas, row by row, three bytes per cell.
    pub fn render(&self) -> (bytes: Vec<u8>)
        ensures
            bytes@ == rendered(self@.cells),
    {
        let mut bytes: Vec<u8> = Vec::new();
        let mut i: usize = 0;
        while i < self.cells.len()
            invariant
                i <= self.cells.len(),
                bytes.len() == i,
                forall|k: int| 0 <= k < i ==> bytes[k] == shown(self.cells[k] as int) as u8,
            decreases self.cells.len() - i,
        {
            bytes.push(channel_byte(self.cells[i]));
            i = i + 1;
        }
        assert(bytes@ =~= rendered(self@.cells));
        bytes
    }
}

} // verus!
