//! The seed room: a ring of wall around a floor of five by five cells in
//! the middle of the grid, from which every other room is dug.

use vstd::prelude::*;
use crate::components::map::MapCell;
use crate::components::map::cell_index;
use crate::components::map::lemma_cell_index;
use crate::components::map::lemma_index_cell;
use crate::components::map::paths::{floor_connected, lemma_linked_here, lemma_linked_on, linked};
use crate::components::map::room::{edge_sealed, inward_written};
use crate::components::map::util::{lemma_step, step_spec};
use crate::util::Direction;

verus! {

/// The column and the row of the centre of the seed room.
pub open spec fn seed_centre(width: usize, height: usize) -> (int, int) {
    (width as int / 2, height as int / 2)
}

/// The index of the centre of the seed room.
pub open spec fn seed_root(width: usize, height: usize) -> usize {
    cell_index(width as int, width as int / 2, height as int / 2) as usize
}

/// Whether `(x, y)` is a cell of the seed room.
pub open spec fn in_seed(width: usize, height: usize, x: int, y: int) -> bool {
    let c = seed_centre(width, height);
    c.0 - 3 <= x <= c.0 + 3 && c.1 - 3 <= y <= c.1 + 3
}

/// What the seed room puts on its cell `(x, y)`: wall on the ring, floor
/// inside.
pub open spec fn seed_value(width: usize, height: usize, x: int, y: int) -> MapCell {
    let c = seed_centre(width, height);
    if x == c.0 - 3 || x == c.0 + 3 || y == c.1 - 3 || y == c.1 + 3 {
        MapCell::Wall
    } else {
        MapCell::Floor
    }
}

/// The place of `(x, y)` in the order in which the seed room is written,
/// row by row.
pub open spec fn seed_order(width: usize, height: usize, x: int, y: int) -> int {
    let c = seed_centre(width, height);
    (y - (c.1 - 3)) * 7 + (x - (c.0 - 3))
}

/// The cell of the index `i` after the first `n` cells of the seed room
/// have been written on an unrevealed grid.
pub open spec fn seed_progress(width: usize, height: usize, i: int, n: int) -> MapCell {
    let x = i % (width as int);
    let y = i / (width as int);
    if in_seed(width, height, x, y) && seed_order(width, height, x, y) < n {
        seed_value(width, height, x, y)
    } else {
        MapCell::Null
    }
}

/// An unrevealed grid with the seed room on it.
pub open spec fn seeded(width: usize, height: usize) -> Seq<MapCell> {
    Seq::new((width * height) as nat, |i: int| seed_progress(width, height, i, 49))
}

/// The `n`-th write of the seed room.
pub open spec fn seed_write(width: usize, height: usize, n: int) -> (usize, MapCell) {
    let c = seed_centre(width, height);
    let x = c.0 - 3 + n % 7;
    let y = c.1 - 3 + n / 7;
    (cell_index(width as int, x, y) as usize, seed_value(width, height, x, y))
}

/// The writes that make the seed room, in order.
pub open spec fn seed_writes(width: usize, height: usize) -> Seq<(usize, MapCell)> {
    Seq::new(49, |n: int| seed_write(width, height, n))
}

/// On a grid of seven by seven cells or more, the seed room lies on the
/// grid.
pub proof fn lemma_seed_on_grid(width: usize, height: usize, x: int, y: int)
    requires
        width >= 7,
        height >= 7,
        in_seed(width, height, x, y),
    ensures
        0 <= x < width,
        0 <= y < height,
        0 <= cell_index(width as int, x, y) < width * height,
        cell_index(width as int, x, y) % (width as int) == x,
        cell_index(width as int, x, y) / (width as int) == y,
{
    lemma_cell_index(width as int, height as int, x, y);
}

/// What the grid with the seed room holds on the cell `(x, y)`.
pub proof fn lemma_seeded_at(width: usize, height: usize, x: int, y: int)
    requires
        width >= 7,
        height >= 7,
        0 <= x < width,
        0 <= y < height,
    ensures
        0 <= cell_index(width as int, x, y) < seeded(width, height).len(),
        seeded(width, height)[cell_index(width as int, x, y)] == (if in_seed(width, height, x, y) {
            seed_value(width, height, x, y)
        } else {
            MapCell::Null
        }),
{
    lemma_cell_index(width as int, height as int, x, y);
}

proof fn lemma_seed_linked(width: usize, height: usize, dx: int, dy: int)
    requires
        width >= 7,
        height >= 7,
        width * height <= usize::MAX,
        -2 <= dx <= 2,
        -2 <= dy <= 2,
    ensures
        linked(
            seeded(width, height),
            width,
            seed_root(width, height),
            cell_index(width as int, width as int / 2 + dx, height as int / 2 + dy) as usize,
        ),
    decreases
            (if dy < 0 {
                -dy
            } else {
                dy
            }) + (if dx < 0 {
                -dx
            } else {
                dx
            }),
{
    let cells = seeded(width, height);
    let c = seed_centre(width, height);
    let w = width as int;
    let len = (width * height) as usize;
    let x = c.0 + dx;
    let y = c.1 + dy;
    lemma_seeded_at(width, height, x, y);
    let target = cell_index(w, x, y) as usize;
    if dy != 0 {
        let py = if dy > 0 {
            dy - 1
        } else {
            dy + 1
        };
        let dir = if dy > 0 {
            Direction::Down
        } else {
            Direction::Up
        };
        lemma_seed_linked(width, height, dx, py);
        lemma_seeded_at(width, height, x, c.1 + py);
        lemma_step(dir, len, width, x, c.1 + py);
        assert(step_spec(dir, len, width, cell_index(w, x, c.1 + py) as usize) == Some(target));
        lemma_linked_on(
            cells,
            width,
            seed_root(width, height),
            cell_index(w, x, c.1 + py) as usize,
            target,
        );
    } else if dx != 0 {
        let px = if dx > 0 {
            dx - 1
        } else {
            dx + 1
        };
        let dir = if dx > 0 {
            Direction::Right
        } else {
            Direction::Left
        };
        lemma_seed_linked(width, height, px, 0);
        lemma_seeded_at(width, height, c.0 + px, y);
        lemma_step(dir, len, width, c.0 + px, y);
        assert(step_spec(dir, len, width, cell_index(w, c.0 + px, y) as usize) == Some(target));
        lemma_linked_on(
            cells,
            width,
            seed_root(width, height),
            cell_index(w, c.0 + px, y) as usize,
            target,
        );
    } else {
        lemma_linked_here(cells, width, target);
    }
}

/// On the grid with the seed room alone, the centre is floor, every floor
/// cell can be reached from it over floor, and the edges are sealed.
pub proof fn lemma_seeded(width: usize, height: usize)
    requires
        width >= 7,
        height >= 7,
        width * height <= usize::MAX,
    ensures
        seeded(width, height).len() == width * height,
        seed_root(width, height) < width * height,
        seeded(width, height)[seed_root(width, height) as int] == MapCell::Floor,
        floor_connected(seeded(width, height), width, seed_root(width, height)),
        edge_sealed(seeded(width, height), width, height),
{
    let cells = seeded(width, height);
    let c = seed_centre(width, height);
    let w = width as int;
    let h = height as int;
    lemma_seeded_at(width, height, c.0, c.1);
    assert forall|i: usize| i < cells.len() && #[trigger] cells[i as int]
        == MapCell::Floor implies linked(cells, width, seed_root(width, height), i) by {
        lemma_index_cell(w, h, i as int);
        let x = i as int % w;
        let y = i as int / w;
        lemma_seed_linked(width, height, x - c.0, y - c.1);
    }
    assert forall|x: int, y: int|
        0 <= x < w && 0 <= y < h && cells[#[trigger] cell_index(w, x, y)]
            == MapCell::Wall implies inward_written(cells, width, height, x, y) by {
        lemma_seeded_at(width, height, x, y);
        lemma_seeded_at(width, height, x, 1);
        lemma_seeded_at(width, height, x, h - 2);
        lemma_seeded_at(width, height, 1, y);
        lemma_seeded_at(width, height, w - 2, y);
    }
}

} // verus!
