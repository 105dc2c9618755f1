//! What digging a room does to a grid: which cells it writes, that it
//! writes each once, and that it keeps the floor in one piece.

use vstd::prelude::*;
use vstd::arithmetic::div_mod::lemma_fundamental_div_mod_converse;
use crate::components::map::MapCell;
use crate::components::map::cell_index;
use crate::components::map::lemma_index_cell;
use crate::components::map::paths::{
    floor_connected,
    lemma_linked_kept,
    lemma_linked_on,
    linked,
    neighbours,
};
use crate::components::map::util::{
    far_side,
    lemma_step,
    near_side,
    on_grid,
    room_cells,
    room_fits,
    room_spot,
    room_value,
    extension,
    seen,
    spot_free,
    step_spec,
};
use crate::util::Direction;

verus! {

/// The grid after the writes of `queue` have been made in order.
pub open spec fn apply_all(cells: Seq<MapCell>, queue: Seq<(usize, MapCell)>) -> Seq<MapCell>
    decreases queue.len(),
{
    if queue.len() == 0 {
        cells
    } else {
        apply_all(cells, queue.drop_last()).update(queue.last().0 as int, queue.last().1)
    }
}

/// Writes change no length.
pub proof fn lemma_apply_len(cells: Seq<MapCell>, queue: Seq<(usize, MapCell)>)
    requires
        forall|k: int| 0 <= k < queue.len() ==> (#[trigger] queue[k]).0 < cells.len(),
    ensures
        apply_all(cells, queue).len() == cells.len(),
    decreases queue.len(),
{
    if queue.len() > 0 {
        let shorter = queue.drop_last();
        assert forall|k: int| 0 <= k < shorter.len() implies (#[trigger] shorter[k]).0
            < cells.len() by {
            assert(shorter[k] == queue[k]);
        }
        lemma_apply_len(cells, shorter);
    }
}

/// Making the first write of a queue and then the rest is making them all.
pub proof fn lemma_apply_front(cells: Seq<MapCell>, queue: Seq<(usize, MapCell)>)
    requires
        queue.len() > 0,
        forall|k: int| 0 <= k < queue.len() ==> (#[trigger] queue[k]).0 < cells.len(),
    ensures
        apply_all(cells, queue) == apply_all(
            cells.update(queue[0].0 as int, queue[0].1),
            queue.skip(1),
        ),
    decreases queue.len(),
{
    let first = cells.update(queue[0].0 as int, queue[0].1);
    assert(queue[0].0 < cells.len());
    if queue.len() == 1 {
        assert(queue.drop_last() =~= Seq::<(usize, MapCell)>::empty());
        assert(queue.skip(1) =~= Seq::<(usize, MapCell)>::empty());
        assert(apply_all(cells, queue.drop_last()) == cells);
        assert(apply_all(first, queue.skip(1)) == first);
    } else {
        let shorter = queue.drop_last();
        assert forall|k: int| 0 <= k < shorter.len() implies (#[trigger] shorter[k]).0
            < cells.len() by {
            assert(shorter[k] == queue[k]);
        }
        lemma_apply_front(cells, shorter);
        assert(shorter.skip(1) =~= queue.skip(1).drop_last());
        assert(queue.skip(1).last() == queue.last());
    }
}

/// Where no two writes of a queue go to one cell, each cell written holds
/// what was written to it, and every other cell is as it was.
pub proof fn lemma_apply_distinct(cells: Seq<MapCell>, queue: Seq<(usize, MapCell)>)
    requires
        forall|k: int| 0 <= k < queue.len() ==> (#[trigger] queue[k]).0 < cells.len(),
        forall|k1: int, k2: int|
            0 <= k1 < k2 < queue.len() ==> (#[trigger] queue[k1]).0 != (#[trigger] queue[k2]).0,
    ensures
        apply_all(cells, queue).len() == cells.len(),
        forall|k: int|
            0 <= k < queue.len() ==> apply_all(cells, queue)[(#[trigger] queue[k]).0 as int]
                == queue[k].1,
        forall|i: int|
            0 <= i < cells.len() && (forall|k: int|
                0 <= k < queue.len() ==> (#[trigger] queue[k]).0 != i) ==> #[trigger] apply_all(
                cells,
                queue,
            )[i] == cells[i],
    decreases queue.len(),
{
    lemma_apply_len(cells, queue);
    if queue.len() > 0 {
        let shorter = queue.drop_last();
        assert forall|k: int| 0 <= k < shorter.len() implies (#[trigger] shorter[k]).0
            < cells.len() by {
            assert(shorter[k] == queue[k]);
        }
        assert forall|k1: int, k2: int| 0 <= k1 < k2 < shorter.len() implies (
        #[trigger] shorter[k1]).0 != (#[trigger] shorter[k2]).0 by {
            assert(shorter[k1] == queue[k1]);
            assert(shorter[k2] == queue[k2]);
        }
        lemma_apply_distinct(cells, shorter);
        lemma_apply_len(cells, shorter);
        assert forall|k: int| 0 <= k < queue.len() implies apply_all(
            cells,
            queue,
        )[(#[trigger] queue[k]).0 as int] == queue[k].1 by {
            if k < queue.len() - 1 {
                assert(shorter[k] == queue[k]);
                assert(queue[k].0 != queue[queue.len() - 1].0);
            }
        }
        assert forall|i: int|
            0 <= i < cells.len() && (forall|k: int|
                0 <= k < queue.len() ==> (#[trigger] queue[k]).0 != i) implies #[trigger] apply_all(
            cells,
            queue,
        )[i] == cells[i] by {
            assert(queue[queue.len() - 1].0 != i);
            assert forall|k: int| 0 <= k < shorter.len() implies (#[trigger] shorter[k]).0 != i by {
                assert(shorter[k] == queue[k]);
            }
        }
    }
}

/// A room to dig: the grid's width, the cell it is dug from, the direction,
/// and its size.
pub struct Dig {
    pub map_width: usize,
    pub start: usize,
    pub direction: Direction,
    pub width: usize,
    pub height: usize,
    pub offset: usize,
}

impl Dig {
    /// Where the `j`-th cell of row `r` lies.
    pub open spec fn spot(self, r: int, j: int) -> (int, int) {
        room_spot(
            self.direction,
            self.start as int % self.map_width as int,
            self.start as int / self.map_width as int,
            self.offset as int,
            r,
            j,
        )
    }

    /// The index of the `j`-th cell of row `r`.
    pub open spec fn spot_index(self, r: int, j: int) -> int {
        cell_index(self.map_width as int, self.spot(r, j).0, self.spot(r, j).1)
    }

    /// What the `j`-th cell of row `r` becomes.
    pub open spec fn value(self, r: int, j: int) -> MapCell {
        room_value(self.width as int, self.height as int, self.offset as int, r, j)
    }

    /// Whether `r` and `j` name a cell of the room.
    pub open spec fn has(self, r: int, j: int) -> bool {
        0 <= r < self.height && 0 <= j < self.width
    }

    /// Whether the room lies on the grid and on unwritten cells only.
    pub open spec fn fits(self, cells: Seq<MapCell>) -> bool {
        room_fits(
            cells,
            self.map_width as int,
            self.start as int,
            self.direction,
            self.width as int,
            self.height as int,
            self.offset as int,
        )
    }

    /// The writes that dig the room, in order.
    pub open spec fn writes(self) -> Seq<(usize, MapCell)> {
        room_cells(
            self.map_width as int,
            self.start as int,
            self.direction,
            self.width as int,
            self.height as int,
            self.offset as int,
        )
    }

    /// Whether digging the room writes to the cell of the index `i`.
    pub open spec fn touches(self, i: int) -> bool {
        i == self.start || exists|r: int, j: int|
            self.has(r, j) && #[trigger] self.spot_index(r, j) == i
    }

    /// The grid after the room has been dug.
    pub open spec fn dug(self, cells: Seq<MapCell>) -> Seq<MapCell> {
        apply_all(cells, self.writes())
    }

    /// A room can be dug on a grid from one of its cells.
    pub open spec fn placed(self, cells: Seq<MapCell>) -> bool {
        &&& self.map_width > 0
        &&& cells.len() <= usize::MAX
        &&& self.start < cells.len()
        &&& self.offset < self.width
    }
}

/// The cell that a room is dug from, as column and row.
pub proof fn lemma_dig_origin(dig: Dig, cells: Seq<MapCell>)
    requires
        dig.placed(cells),
    ensures
        ({
            let w = dig.map_width as int;
            let x0 = dig.start as int % w;
            let y0 = dig.start as int / w;
            &&& on_grid(cells.len() as int, w, x0, y0)
            &&& cell_index(w, x0, y0) == dig.start
        }),
{
    let w = dig.map_width as int;
    let s = dig.start as int;
    vstd::arithmetic::div_mod::lemma_fundamental_div_mod(s, w);
    vstd::arithmetic::div_mod::lemma_mod_bound(s, w);
    assert(w * (s / w) == (s / w) * w) by (nonlinear_arith);
    assert(s / w >= 0) by (nonlinear_arith)
        requires
            s == w * (s / w) + s % w,
            0 <= s % w < w,
            s >= 0,
    ;
}

/// Every cell of a room that fits is an unwritten cell of the grid, and the
/// `1 + r * width + j`-th write goes to the `j`-th cell of row `r`.
pub proof fn lemma_dig_spot(dig: Dig, cells: Seq<MapCell>, r: int, j: int)
    requires
        dig.placed(cells),
        dig.fits(cells),
        dig.has(r, j),
    ensures
        on_grid(cells.len() as int, dig.map_width as int, dig.spot(r, j).0, dig.spot(r, j).1),
        0 <= dig.spot_index(r, j) < cells.len(),
        cells[dig.spot_index(r, j)] == MapCell::Null,
        dig.spot_index(r, j) != dig.start,
        0 < 1 + r * dig.width + j < dig.writes().len(),
        dig.writes()[1 + r * dig.width + j] == (dig.spot_index(r, j) as usize, dig.value(r, j)),
{
    let w = dig.map_width as int;
    let width = dig.width as int;
    let spot = dig.spot(r, j);
    assert(spot_free(cells, w, spot));
    lemma_dig_origin(dig, cells);
    assert(0 <= spot.1 * w) by (nonlinear_arith)
        requires
            0 <= spot.1,
            0 < w,
    ;
    lemma_fundamental_div_mod_converse(r * width + j, width, r, j);
    assert(r * width >= 0) by (nonlinear_arith)
        requires
            0 <= r,
            0 < width,
    ;
    assert(r * width + j < dig.height * width) by (nonlinear_arith)
        requires
            0 <= r < dig.height,
            0 <= j < width,
    ;
    lemma_spots_apart(w, dig.spot(r, j), (dig.start as int % w, dig.start as int / w));
}

/// Two cells of a grid with one index are one cell.
pub proof fn lemma_spots_apart(w: int, a: (int, int), b: (int, int))
    requires
        0 < w,
        0 <= a.0 < w,
        0 <= b.0 < w,
    ensures
        cell_index(w, a.0, a.1) == cell_index(w, b.0, b.1) ==> a == b,
{
    lemma_fundamental_div_mod_converse(cell_index(w, a.0, a.1), w, a.1, a.0);
    lemma_fundamental_div_mod_converse(cell_index(w, b.0, b.1), w, b.1, b.0);
}

/// No two cells of a room that fits share an index.
pub proof fn lemma_dig_spots_distinct(dig: Dig, cells: Seq<MapCell>, r1: int, j1: int, r2: int, j2: int)
    requires
        dig.placed(cells),
        dig.fits(cells),
        dig.has(r1, j1),
        dig.has(r2, j2),
        r1 != r2 || j1 != j2,
    ensures
        dig.spot_index(r1, j1) != dig.spot_index(r2, j2),
{
    lemma_dig_spot(dig, cells, r1, j1);
    lemma_dig_spot(dig, cells, r2, j2);
    lemma_spots_apart(dig.map_width as int, dig.spot(r1, j1), dig.spot(r2, j2));
}

/// Every write of a room but the first goes to one of its cells.
pub proof fn lemma_dig_write(dig: Dig, cells: Seq<MapCell>, k: int)
    requires
        dig.placed(cells),
        dig.fits(cells),
        1 <= k < dig.writes().len(),
    ensures
        dig.has((k - 1) / (dig.width as int), (k - 1) % (dig.width as int)),
        k == 1 + ((k - 1) / (dig.width as int)) * dig.width + (k - 1) % (dig.width as int),
        dig.writes()[k].0 == dig.spot_index(
            (k - 1) / (dig.width as int),
            (k - 1) % (dig.width as int),
        ),
{
    let width = dig.width as int;
    assert(dig.height * width == width * dig.height) by (nonlinear_arith);
    lemma_index_cell(width, dig.height as int, k - 1);
    lemma_dig_spot(dig, cells, (k - 1) / width, (k - 1) % width);
}

/// Digging a room that fits writes to each of its cells once: afterwards
/// the cell it was dug from is floor, every cell of the room holds what the
/// room puts there, and every other cell is as it was.
pub proof fn lemma_dug(dig: Dig, cells: Seq<MapCell>)
    requires
        dig.placed(cells),
        dig.fits(cells),
    ensures
        dig.dug(cells).len() == cells.len(),
        dig.dug(cells)[dig.start as int] == MapCell::Floor,
        forall|r: int, j: int|
            dig.has(r, j) ==> dig.dug(cells)[#[trigger] dig.spot_index(r, j)] == dig.value(r, j),
        forall|i: int|
            0 <= i < cells.len() && !dig.touches(i) ==> #[trigger] dig.dug(cells)[i] == cells[i],
{
    let q = dig.writes();
    assert forall|k: int| 0 <= k < q.len() implies (#[trigger] q[k]).0 < cells.len() by {
        if k >= 1 {
            lemma_dig_write(dig, cells, k);
            lemma_dig_spot(dig, cells, (k - 1) / (dig.width as int), (k - 1) % (dig.width as int));
        }
    }
    assert forall|k1: int, k2: int| 0 <= k1 < k2 < q.len() implies (#[trigger] q[k1]).0 != (
    #[trigger] q[k2]).0 by {
        let width = dig.width as int;
        lemma_dig_write(dig, cells, k2);
        let r2 = (k2 - 1) / width;
        let j2 = (k2 - 1) % width;
        lemma_dig_spot(dig, cells, r2, j2);
        if k1 >= 1 {
            lemma_dig_write(dig, cells, k1);
            let r1 = (k1 - 1) / width;
            let j1 = (k1 - 1) % width;
            lemma_dig_spots_distinct(dig, cells, r1, j1, r2, j2);
        }
    }
    lemma_apply_distinct(cells, q);
    assert(q[0].0 == dig.start);
    assert forall|r: int, j: int| dig.has(r, j) implies dig.dug(cells)[#[trigger] dig.spot_index(
        r,
        j,
    )] == dig.value(r, j) by {
        lemma_dig_spot(dig, cells, r, j);
        let k = 1 + r * dig.width + j;
        assert(q[k].0 == dig.spot_index(r, j));
    }
    assert forall|i: int| 0 <= i < cells.len() && !dig.touches(i) implies #[trigger] dig.dug(
        cells,
    )[i] == cells[i] by {
        assert forall|k: int| 0 <= k < q.len() implies (#[trigger] q[k]).0 != i by {
            if k >= 1 {
                lemma_dig_write(dig, cells, k);
                let width = dig.width as int;
                assert(dig.has((k - 1) / width, (k - 1) % width));
                assert(dig.spot_index((k - 1) / width, (k - 1) % width) != i);
            }
        }
    }
}

/// What one cell of a room holds once the room has been dug.
proof fn lemma_dug_value(dig: Dig, cells: Seq<MapCell>, r: int, j: int)
    requires
        dig.placed(cells),
        dig.fits(cells),
        dig.has(r, j),
    ensures
        dig.dug(cells).len() == cells.len(),
        0 <= dig.spot_index(r, j) < cells.len(),
        dig.dug(cells)[dig.spot_index(r, j)] == dig.value(r, j),
{
    lemma_dug(dig, cells);
    lemma_dig_spot(dig, cells, r, j);
}

/// The cell of a room from which a floor cell of it is reached: the cell
/// before it in its row, or on the axis, or in the row before, or the cell
/// that the room is dug from, told by a row of `-1`.
pub open spec fn dig_parent(dig: Dig, r: int, j: int) -> (int, int) {
    if j == 0 {
        (r - 1, 0)
    } else if j == dig.offset + 1 {
        (r, 0)
    } else {
        (r, j - 1)
    }
}

/// A floor cell of a room shares an edge with the cell it is reached from,
/// which is floor too.
proof fn lemma_dig_parent(dig: Dig, cells: Seq<MapCell>, r: int, j: int)
    requires
        dig.placed(cells),
        dig.fits(cells),
        dig.has(r, j),
        dig.value(r, j) == MapCell::Floor,
    ensures
        ({
            let p = dig_parent(dig, r, j);
            let len = cells.len() as usize;
            let target = dig.spot_index(r, j) as usize;
            if p.0 < 0 {
                neighbours(len, dig.map_width, dig.start, target)
            } else {
                &&& dig.has(p.0, p.1)
                &&& dig.value(p.0, p.1) == MapCell::Floor
                &&& neighbours(len, dig.map_width, dig.spot_index(p.0, p.1) as usize, target)
            }
        }),
{
    let len = cells.len() as usize;
    let w = dig.map_width;
    let p = dig_parent(dig, r, j);
    lemma_dig_origin(dig, cells);
    lemma_dig_spot(dig, cells, r, j);
    let target = dig.spot_index(r, j) as usize;
    if p.0 < 0 {
        lemma_step(dig.direction, len, w, dig.start as int % (w as int), dig.start as int / (w as int));
        assert(step_spec(dig.direction, len, w, dig.start) == Some(target));
    } else {
        lemma_dig_spot(dig, cells, p.0, p.1);
        let prev = dig.spot(p.0, p.1);
        let side = if j == 0 {
            dig.direction
        } else if j <= dig.offset {
            near_side(dig.direction)
        } else {
            far_side(dig.direction)
        };
        lemma_step(side, len, w, prev.0, prev.1);
        assert(step_spec(side, len, w, dig.spot_index(p.0, p.1) as usize) == Some(target));
    }
}

/// Every floor cell of a room that has been dug can be reached over floor
/// from wherever the cell it was dug from can be reached.
proof fn lemma_dig_floor_linked(dig: Dig, cells: Seq<MapCell>, root: usize, r: int, j: int)
    requires
        dig.placed(cells),
        dig.fits(cells),
        dig.has(r, j),
        dig.value(r, j) == MapCell::Floor,
        linked(dig.dug(cells), dig.map_width, root, dig.start),
    ensures
        linked(dig.dug(cells), dig.map_width, root, dig.spot_index(r, j) as usize),
    decreases r, j,
{
    let after = dig.dug(cells);
    let p = dig_parent(dig, r, j);
    lemma_dug_value(dig, cells, r, j);
    lemma_dig_parent(dig, cells, r, j);
    let target = dig.spot_index(r, j) as usize;
    if p.0 < 0 {
        lemma_linked_on(after, dig.map_width, root, dig.start, target);
    } else {
        lemma_dig_floor_linked(dig, cells, root, p.0, p.1);
        lemma_linked_on(after, dig.map_width, root, dig.spot_index(p.0, p.1) as usize, target);
    }
}

/// Digging a room takes no floor away.
pub proof fn lemma_dig_keeps_floor(dig: Dig, cells: Seq<MapCell>)
    requires
        dig.placed(cells),
        dig.fits(cells),
        cells[dig.start as int] == MapCell::Wall,
    ensures
        dig.dug(cells).len() == cells.len(),
        forall|i: int|
            0 <= i < cells.len() && cells[i] == MapCell::Floor ==> #[trigger] dig.dug(cells)[i]
                == MapCell::Floor,
        forall|i: int|
            0 <= i < cells.len() && cells[i] != MapCell::Null ==> #[trigger] dig.dug(cells)[i]
                != MapCell::Null,
{
    lemma_dug(dig, cells);
    assert forall|i: int| 0 <= i < cells.len() && cells[i] != MapCell::Null implies (
    #[trigger] dig.dug(cells)[i] != MapCell::Null) && (cells[i] == MapCell::Floor ==> dig.dug(
        cells,
    )[i] == MapCell::Floor) by {
        if dig.touches(i) {
            if i != dig.start {
                let (r, j) = choose|r: int, j: int|
                    dig.has(r, j) && #[trigger] dig.spot_index(r, j) == i;
                lemma_dig_spot(dig, cells, r, j);
            }
        }
    }
}

/// Digging a room from a wall cell next to floor keeps the floor in one
/// piece: where every floor cell could be reached from `root` before, every
/// floor cell can be reached from it afterwards.
pub proof fn lemma_dig_keeps_connected(dig: Dig, cells: Seq<MapCell>, root: usize, from: usize)
    requires
        dig.placed(cells),
        dig.fits(cells),
        cells[dig.start as int] == MapCell::Wall,
        floor_connected(cells, dig.map_width, root),
        from < cells.len(),
        cells[from as int] == MapCell::Floor,
        neighbours(cells.len() as usize, dig.map_width, from, dig.start),
    ensures
        floor_connected(dig.dug(cells), dig.map_width, root),
{
    let after = dig.dug(cells);
    let w = dig.map_width;
    lemma_dug(dig, cells);
    lemma_dig_keeps_floor(dig, cells);
    assert(linked(cells, w, root, from));
    lemma_linked_kept(cells, after, w, root, from);
    lemma_linked_on(after, w, root, from, dig.start);
    assert forall|c: usize| c < after.len() && #[trigger] after[c as int]
        == MapCell::Floor implies linked(after, w, root, c) by {
        if !dig.touches(c as int) {
            assert(after[c as int] == cells[c as int]);
            assert(linked(cells, w, root, c));
            lemma_linked_kept(cells, after, w, root, c);
        } else if c != dig.start {
            let (r, j) = choose|r: int, j: int|
                dig.has(r, j) && #[trigger] dig.spot_index(r, j) == c;
            assert(after[dig.spot_index(r, j)] == dig.value(r, j));
            lemma_dig_floor_linked(dig, cells, root, r, j);
        }
    }
}

/// Whether the cells next to `(x, y)` towards the inside of the grid have
/// been written to, on each edge of the grid that `(x, y)` lies on.
pub open spec fn inward_written(cells: Seq<MapCell>, width: usize, height: usize, x: int, y: int) -> bool {
    let w = width as int;
    &&& (y == 0 ==> cells[cell_index(w, x, 1)] != MapCell::Null)
    &&& (y == height - 1 ==> cells[cell_index(w, x, height - 2)] != MapCell::Null)
    &&& (x == 0 ==> cells[cell_index(w, 1, y)] != MapCell::Null)
    &&& (x == width - 1 ==> cells[cell_index(w, width - 2, y)] != MapCell::Null)
}

/// Whether every wall cell on an edge of the grid has a written cell behind
/// it. From such a wall no room can be dug.
pub open spec fn edge_sealed(cells: Seq<MapCell>, width: usize, height: usize) -> bool {
    forall|x: int, y: int|
        0 <= x < width && 0 <= y < height && cells[#[trigger] cell_index(width as int, x, y)]
            == MapCell::Wall ==> inward_written(cells, width, height, x, y)
}

proof fn lemma_on_grid_rows(w: int, h: int, x: int, y: int)
    requires
        0 < w,
        0 <= h,
        0 <= x < w,
        0 <= y,
    ensures
        on_grid(w * h, w, x, y) <==> y < h,
{
    if y < h {
        assert(y * w + w <= w * h) by (nonlinear_arith)
            requires
                y + 1 <= h,
                0 < w,
        ;
    } else {
        assert(y * w >= w * h) by (nonlinear_arith)
            requires
                y >= h,
                0 < w,
        ;
    }
}

/// A cell of a room that fits, as a cell of the grid, with what it holds
/// once the room is dug.
proof fn lemma_dig_cell(dig: Dig, cells: Seq<MapCell>, height: usize, r: int, j: int)
    requires
        dig.placed(cells),
        dig.fits(cells),
        cells.len() == dig.map_width * height,
        dig.has(r, j),
    ensures
        0 <= dig.spot(r, j).0 < dig.map_width,
        0 <= dig.spot(r, j).1 < height,
        dig.dug(cells)[cell_index(dig.map_width as int, dig.spot(r, j).0, dig.spot(r, j).1)]
            != MapCell::Null,
{
    lemma_dig_spot(dig, cells, r, j);
    lemma_dug_value(dig, cells, r, j);
    lemma_on_grid_rows(dig.map_width as int, height as int, dig.spot(r, j).0, dig.spot(r, j).1);
}

/// A cell of a room on an edge of the grid has another cell of the room
/// behind it.
proof fn lemma_dig_cell_sealed(dig: Dig, cells: Seq<MapCell>, height: usize, r: int, j: int)
    requires
        dig.placed(cells),
        dig.fits(cells),
        cells.len() == dig.map_width * height,
        dig.map_width >= 2,
        height >= 2,
        dig.height >= 2,
        1 <= dig.offset < dig.width - 1,
        dig.has(r, j),
    ensures
        inward_written(dig.dug(cells), dig.map_width, height, dig.spot(r, j).0, dig.spot(r, j).1),
{
    let w = dig.map_width as int;
    let x0 = dig.start as int % w;
    let y0 = dig.start as int / w;
    lemma_dig_origin(dig, cells);
    lemma_on_grid_rows(w, height as int, x0, y0);
    lemma_dig_cell(dig, cells, height, r, j);
    lemma_dig_cell(dig, cells, height, dig.height - 1, j);
    lemma_dig_cell(dig, cells, height, 0, j);
    lemma_dig_cell(dig, cells, height, r, dig.offset as int);
    lemma_dig_cell(dig, cells, height, r, dig.width - 1);
    lemma_dig_cell(dig, cells, height, r, dig.offset - 1);
    lemma_dig_cell(dig, cells, height, r, dig.width - 2);
    lemma_dig_cell(dig, cells, height, r, 0);
    if r >= 1 {
        lemma_dig_cell(dig, cells, height, r - 1, j);
    }
}

/// Digging a room keeps the edges of the grid sealed.
pub proof fn lemma_dig_keeps_sealed(dig: Dig, cells: Seq<MapCell>, height: usize)
    requires
        dig.placed(cells),
        dig.fits(cells),
        cells.len() == dig.map_width * height,
        dig.map_width >= 2,
        height >= 2,
        dig.height >= 2,
        1 <= dig.offset < dig.width - 1,
        cells[dig.start as int] == MapCell::Wall,
        edge_sealed(cells, dig.map_width, height),
    ensures
        edge_sealed(dig.dug(cells), dig.map_width, height),
{
    let after = dig.dug(cells);
    let w = dig.map_width as int;
    let h = height as int;
    lemma_dug(dig, cells);
    lemma_dig_keeps_floor(dig, cells);
    assert forall|x: int, y: int|
        0 <= x < w && 0 <= y < h && after[#[trigger] cell_index(w, x, y)]
            == MapCell::Wall implies inward_written(after, dig.map_width, height, x, y) by {
        let i = cell_index(w, x, y);
        lemma_cell_index_in(w, h, x, y);
        if !dig.touches(i) {
            assert(after[i] == cells[i]);
            assert(inward_written(cells, dig.map_width, height, x, y));
            lemma_cell_index_in(w, h, x, 1);
            lemma_cell_index_in(w, h, x, h - 2);
            lemma_cell_index_in(w, h, 1, y);
            lemma_cell_index_in(w, h, w - 2, y);
        } else if i != dig.start {
            let (r, j) = choose|r: int, j: int|
                dig.has(r, j) && #[trigger] dig.spot_index(r, j) == i;
            lemma_dig_spot(dig, cells, r, j);
            lemma_spots_apart(w, dig.spot(r, j), (x, y));
            lemma_dig_cell_sealed(dig, cells, height, r, j);
        }
    }
}

proof fn lemma_cell_index_in(w: int, h: int, x: int, y: int)
    requires
        0 <= x < w,
        0 <= y < h,
    ensures
        0 <= cell_index(w, x, y) < w * h,
{
    crate::components::map::lemma_cell_index(w, h, x, y);
}

/// The side from which a room dug in the given direction is entered.
pub open spec fn behind(direction: Direction) -> Direction {
    match direction {
        Direction::Down => Direction::Up,
        Direction::Up => Direction::Down,
        Direction::Right => Direction::Left,
        Direction::Left => Direction::Right,
    }
}

/// Where a room fits that is dug from a wall cell of a sealed grid, the
/// floor that the wall cell was seen next to is a cell of the grid: no room
/// is dug away from the outside of the grid.
pub proof fn lemma_dig_door(dig: Dig, cells: Seq<MapCell>, height: usize) -> (from: usize)
    requires
        dig.placed(cells),
        dig.fits(cells),
        cells.len() == dig.map_width * height,
        dig.map_width >= 2,
        height >= 2,
        dig.height >= 1,
        dig.width >= 1,
        edge_sealed(cells, dig.map_width, height),
        extension(cells, dig.map_width, dig.start) == Some(dig.direction),
    ensures
        cells[dig.start as int] == MapCell::Wall,
        from < cells.len(),
        cells[from as int] == MapCell::Floor,
        neighbours(cells.len() as usize, dig.map_width, from, dig.start),
{
    let w = dig.map_width as int;
    let h = height as int;
    let len = cells.len() as usize;
    let x0 = dig.start as int % w;
    let y0 = dig.start as int / w;
    let back = behind(dig.direction);
    lemma_dig_origin(dig, cells);
    lemma_on_grid_rows(w, h, x0, y0);
    assert(seen(cells, dig.map_width, dig.start, back) == MapCell::Floor);
    lemma_step(back, len, dig.map_width, x0, y0);
    match step_spec(back, len, dig.map_width, dig.start) {
        Some(i) => {
            let d = back.offset_spec();
            lemma_on_grid_rows(w, h, x0 + d.0, y0 + d.1);
            lemma_cell_index_in(w, h, x0 + d.0, y0 + d.1);
            i
        },
        None => {
            let d = back.offset_spec();
            if 0 <= x0 + d.0 < w && 0 <= y0 + d.1 {
                lemma_on_grid_rows(w, h, x0 + d.0, y0 + d.1);
            }
            lemma_dig_spot(dig, cells, 0, 0);
            assert(cells[cell_index(w, x0, y0)] == MapCell::Wall);
            assert(inward_written(cells, dig.map_width, height, x0, y0));
            assert(false);
            0
        },
    }
}

} // verus!
