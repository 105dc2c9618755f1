//! Directions and distances on the grid.

use vstd::prelude::*;

pub mod combat;
pub mod line;
pub mod random;
pub mod storage;
pub mod text;

pub use self::line::bresenham;

verus! {

/// One of the four orthogonal directions. Rows grow downwards.
#[derive(Clone, Copy, Debug, PartialEq, Eq, Structural)]
pub enum Direction {
    Up,
    Down,
    Left,
    Right,
}

impl Direction {
    /// The unit step `(dx, dy)` taken in this direction.
    pub open spec fn offset_spec(self) -> (int, int) {
        match self {
            Direction::Up => (0, -1),
            Direction::Down => (0, 1),
            Direction::Left => (-1, 0),
            Direction::Right => (1, 0),
        }
    }

    /// The unit step taken in this direction, as columns and rows.
    pub fn offset(&self) -> (o: (i32, i32))
        ensures
            (o.0 as int, o.1 as int) == self.offset_spec(),
    {
        match *self {
            Direction::Up => (0, -1),
            Direction::Down => (0, 1),
            Direction::Left => (-1, 0),
            Direction::Right => (1, 0),
        }
    }
}

/// The squared Euclidean distance between two cells, as a mathematical
/// integer.
pub open spec fn distance2_spec(a: (usize, usize), b: (usize, usize)) -> int {
    (a.0 - b.0) * (a.0 - b.0) + (a.1 - b.1) * (a.1 - b.1)
}

/// The distance between two coordinates on one axis.
pub open spec fn span(a: int, b: int) -> int {
    if a <= b {
        b - a
    } else {
        a - b
    }
}

fn span_of(a: usize, b: usize) -> (d: usize)
    ensures
        d == span(a as int, b as int),
{
    if a <= b {
        b - a
    } else {
        a - b
    }
}

/// The squared Euclidean distance between `a` and `b`, where it fits the
/// machine word.
pub fn distance2(a: (usize, usize), b: (usize, usize)) -> (d: usize)
    requires
        distance2_spec(a, b) <= usize::MAX,
    ensures
        d == distance2_spec(a, b),
{
    let dx = span_of(a.0, b.0);
    let dy = span_of(a.1, b.1);
    assert(dx * dx == (a.0 - b.0) * (a.0 - b.0)) by (nonlinear_arith)
        requires
            dx == a.0 - b.0 || dx == b.0 - a.0,
    ;
    assert(dy * dy == (a.1 - b.1) * (a.1 - b.1)) by (nonlinear_arith)
        requires
            dy == a.1 - b.1 || dy == b.1 - a.1,
    ;
    assert(0 <= dx * dx) by (nonlinear_arith);
    assert(0 <= dy * dy) by (nonlinear_arith);
    dx * dx + dy * dy
}

/// Whether the squared Euclidean distance between `a` and `b` is at most
/// `limit`, decided without overflow for every pair of cells.
pub fn distance2_within(a: (usize, usize), b: (usize, usize), limit: usize) -> (r: bool)
    ensures
        r == (distance2_spec(a, b) <= limit),
{
    let dx = span_of(a.0, b.0);
    let dy = span_of(a.1, b.1);
    assert(dx * dx == (a.0 - b.0) * (a.0 - b.0)) by (nonlinear_arith)
        requires
            dx == a.0 - b.0 || dx == b.0 - a.0,
    ;
    assert(dy * dy == (a.1 - b.1) * (a.1 - b.1)) by (nonlinear_arith)
        requires
            dy == a.1 - b.1 || dy == b.1 - a.1,
    ;
    assert(0 <= dx * dx) by (nonlinear_arith);
    assert(0 <= dy * dy) by (nonlinear_arith);
    match dx.checked_mul(dx) {
        None => false,
        Some(sx) => match dy.checked_mul(dy) {
            None => false,
            Some(sy) => match sx.checked_add(sy) {
                None => false,
                Some(s) => s <= limit,
            },
        },
    }
}

/// Whether the squared Euclidean distance between `a` and `b` is more than
/// the square of `reach`, decided without overflow for every pair of cells
/// and every reach.
pub fn distance2_beyond(a: (usize, usize), b: (usize, usize), reach: usize) -> (r: bool)
    ensures
        r == (distance2_spec(a, b) > reach * reach),
{
    let dx = span_of(a.0, b.0);
    let dy = span_of(a.1, b.1);
    assert(dx * dx == (a.0 - b.0) * (a.0 - b.0)) by (nonlinear_arith)
        requires
            dx == a.0 - b.0 || dx == b.0 - a.0,
    ;
    assert(dy * dy == (a.1 - b.1) * (a.1 - b.1)) by (nonlinear_arith)
        requires
            dy == a.1 - b.1 || dy == b.1 - a.1,
    ;
    assert(0 <= dx * dx <= 0xffff_ffff_ffff_ffff * 0xffff_ffff_ffff_ffff) by (nonlinear_arith)
        requires
            0 <= dx <= 0xffff_ffff_ffff_ffff,
    ;
    assert(0 <= dy * dy <= 0xffff_ffff_ffff_ffff * 0xffff_ffff_ffff_ffff) by (nonlinear_arith)
        requires
            0 <= dy <= 0xffff_ffff_ffff_ffff,
    ;
    assert(0 <= reach * reach <= 0xffff_ffff_ffff_ffff * 0xffff_ffff_ffff_ffff)
        by (nonlinear_arith)
        requires
            0 <= reach <= 0xffff_ffff_ffff_ffff,
    ;
    let sx: u128 = (dx as u128) * (dx as u128);
    let sy: u128 = (dy as u128) * (dy as u128);
    let limit: u128 = (reach as u128) * (reach as u128);
    match sx.checked_add(sy) {
        Some(s) => s > limit,
        None => true,
    }
}

} // verus!
