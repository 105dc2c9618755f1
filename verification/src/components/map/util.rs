//! Steps between neighbouring cells of a grid stored row by row, and the
//! footprint of a room carved from a wall cell.

use vstd::prelude::*;
use vstd::arithmetic::div_mod::lemma_fundamental_div_mod_converse;
use crate::components::map::MapCell;
use crate::components::map::cell_index;
use crate::util::Direction;
use crate::util::random::random_in;

verus! {

/// The index one row up, unless `index` lies in the first row.
pub open spec fn above_spec(width: usize, index: usize) -> Option<usize> {
    if index >= width {
        Some((index - width) as usize)
    } else {
        None
    }
}

/// The index one row down, unless that leaves a grid of `len` cells.
pub open spec fn below_spec(len: usize, width: usize, index: usize) -> Option<usize> {
    if index + width < len {
        Some((index + width) as usize)
    } else {
        None
    }
}

/// The index one column to the left, unless `index` starts its row.
pub open spec fn left_spec(width: usize, index: usize) -> Option<usize> {
    if index >= 1 && (index - 1) / (width as int) == index / width {
        Some((index - 1) as usize)
    } else {
        None
    }
}

/// The index one column to the right, unless `index` ends its row or the
/// grid of `len` cells.
pub open spec fn right_spec(len: usize, width: usize, index: usize) -> Option<usize> {
    if index + 1 < len && (index + 1) / (width as int) == index / width {
        Some((index + 1) as usize)
    } else {
        None
    }
}

/// The index one step from `index` in the given direction, where the grid
/// has a cell there.
pub open spec fn step_spec(direction: Direction, len: usize, width: usize, index: usize) -> Option<
    usize,
> {
    match direction {
        Direction::Up => above_spec(width, index),
        Direction::Down => below_spec(len, width, index),
        Direction::Left => left_spec(width, index),
        Direction::Right => right_spec(len, width, index),
    }
}

/// Takes one step from `cur` in the given direction, where the grid has a
/// cell there.
pub fn direction_to_index(direction: Direction, map: &[MapCell], width: usize, cur: usize) -> (r:
    Option<usize>)
    requires
        width > 0,
    ensures
        r == step_spec(direction, map@.len() as usize, width, cur),
{
    match direction {
        Direction::Down => below(map, width, cur),
        Direction::Up => above(map, width, cur),
        Direction::Right => right(map, width, cur),
        Direction::Left => left(map, width, cur),
    }
}

/// Takes one step up from `index`.
pub fn above(_map: &[MapCell], width: usize, index: usize) -> (r: Option<usize>)
    ensures
        r == above_spec(width, index),
{
    if index >= width {
        Some(index - width)
    } else {
        None
    }
}

/// Takes one step down from `index`.
pub fn below(map: &[MapCell], width: usize, index: usize) -> (r: Option<usize>)
    ensures
        r == below_spec(map@.len() as usize, width, index),
{
    match index.checked_add(width) {
        Some(res) => if res < map.len() {
            Some(res)
        } else {
            None
        },
        None => None,
    }
}

/// Takes one step to the left from `index`.
pub fn left(_map: &[MapCell], width: usize, index: usize) -> (r: Option<usize>)
    requires
        width > 0,
    ensures
        r == left_spec(width, index),
{
    if index >= 1 {
        let res = index - 1;
        if res / width == index / width {
            Some(res)
        } else {
            None
        }
    } else {
        None
    }
}

/// Takes one step to the right from `index`.
pub fn right(map: &[MapCell], width: usize, index: usize) -> (r: Option<usize>)
    requires
        width > 0,
    ensures
        r == right_spec(map@.len() as usize, width, index),
{
    match index.checked_add(1) {
        Some(res) => if res < map.len() && res / width == index / width {
            Some(res)
        } else {
            None
        },
        None => None,
    }
}

/// Whether column `x` of row `y` is a cell of a grid of `len` cells stored
/// in rows of the given width.
pub open spec fn on_grid(len: int, width: int, x: int, y: int) -> bool {
    0 <= x < width && 0 <= y && cell_index(width, x, y) < len
}

/// A step between indices is a step between cells: from the cell in column
/// `x` of row `y` it leads to the neighbour in the given direction, where
/// the grid has one.
pub proof fn lemma_step(direction: Direction, len: usize, width: usize, x: int, y: int)
    requires
        width > 0,
        on_grid(len as int, width as int, x, y),
    ensures
        ({
            let d = direction.offset_spec();
            step_spec(direction, len, width, cell_index(width as int, x, y) as usize) == (if on_grid(
                len as int,
                width as int,
                x + d.0,
                y + d.1,
            ) {
                Some(cell_index(width as int, x + d.0, y + d.1) as usize)
            } else {
                None
            })
        }),
{
    let w = width as int;
    let index = cell_index(w, x, y);
    assert(0 <= y * w) by (nonlinear_arith)
        requires
            0 <= y,
            0 < w,
    ;
    assert((y + 1) * w == y * w + w) by (nonlinear_arith);
    assert((y - 1) * w == y * w - w) by (nonlinear_arith);
    lemma_fundamental_div_mod_converse(index, w, y, x);
    match direction {
        Direction::Up => {
            if y >= 1 {
                assert(y * w >= w) by (nonlinear_arith)
                    requires
                        y >= 1,
                        0 < w,
                ;
                assert((y - 1) * w >= 0) by (nonlinear_arith)
                    requires
                        y >= 1,
                        0 < w,
                ;
                assert(index >= w);
                assert(index - w == cell_index(w, x, y - 1));
                assert(on_grid(len as int, w, x, y - 1));
            } else {
                assert(y * w == 0) by (nonlinear_arith)
                    requires
                        y == 0,
                ;
                assert(index < w);
                assert(!on_grid(len as int, w, x, y - 1));
            }
        },
        Direction::Down => {},
        Direction::Left => {
            if x >= 1 {
                lemma_fundamental_div_mod_converse(index - 1, w, y, x - 1);
            } else if index >= 1 {
                lemma_fundamental_div_mod_converse(index - 1, w, y - 1, w - 1);
            }
        },
        Direction::Right => {
            if x + 1 < w {
                lemma_fundamental_div_mod_converse(index + 1, w, y, x + 1);
            } else {
                lemma_fundamental_div_mod_converse(index + 1, w, y + 1, 0);
            }
        },
    }
}

/// How far to the side of the axis of a room the `j`-th cell of a row lies.
/// A row is laid out from the axis: first the cell on it, then `offset`
/// cells to the one side, given negative, then the rest to the other.
pub open spec fn room_lateral(offset: int, j: int) -> int {
    if j <= offset {
        -j
    } else {
        j - offset
    }
}

/// The cell `along` steps from `(x0, y0)` in the given direction and
/// `lateral` steps to the side. For a room dug up or down the side is the
/// column, for one dug left or right it is the row.
pub open spec fn room_place(direction: Direction, x0: int, y0: int, along: int, lateral: int) -> (
    int,
    int,
) {
    match direction {
        Direction::Down => (x0 + lateral, y0 + along),
        Direction::Up => (x0 + lateral, y0 - along),
        Direction::Right => (x0 + along, y0 + lateral),
        Direction::Left => (x0 - along, y0 + lateral),
    }
}

/// Where the `j`-th cell of row `r` of a room lies that is dug from
/// `(x0, y0)`.
pub open spec fn room_spot(direction: Direction, x0: int, y0: int, offset: int, r: int, j: int) -> (
    int,
    int,
) {
    room_place(direction, x0, y0, r + 1, room_lateral(offset, j))
}

/// What the `j`-th cell of row `r` of a room becomes: wall on the far row,
/// on the near row but for the cell on the axis, and at both ends of every
/// row; floor inside.
pub open spec fn room_value(width: int, height: int, offset: int, r: int, j: int) -> MapCell {
    if r == height - 1 {
        MapCell::Wall
    } else if j == 0 {
        MapCell::Floor
    } else if r == 0 || j == offset || j == width - 1 {
        MapCell::Wall
    } else {
        MapCell::Floor
    }
}

/// Whether `(x, y)` is a cell of the grid that nothing has been written to.
pub open spec fn spot_free(cells: Seq<MapCell>, map_width: int, spot: (int, int)) -> bool {
    &&& on_grid(cells.len() as int, map_width, spot.0, spot.1)
    &&& cells[cell_index(map_width, spot.0, spot.1)] == MapCell::Null
}

/// Whether a room of `height` rows of `width` cells, dug from the cell of
/// the index `start`, lies on the grid and on unwritten cells only.
pub open spec fn room_fits(
    cells: Seq<MapCell>,
    map_width: int,
    start: int,
    direction: Direction,
    width: int,
    height: int,
    offset: int,
) -> bool {
    forall|r: int, j: int|
        0 <= r < height && 0 <= j < width ==> spot_free(
            cells,
            map_width,
            #[trigger] room_spot(direction, start % map_width, start / map_width, offset, r, j),
        )
}

/// The `k`-th cell that a room writes, with what it writes there. The
/// first is the cell that the room is dug from, which becomes floor; then
/// the rows follow, nearest first.
pub open spec fn room_cell(
    map_width: int,
    start: int,
    direction: Direction,
    width: int,
    height: int,
    offset: int,
    k: int,
) -> (usize, MapCell) {
    if k == 0 {
        (start as usize, MapCell::Floor)
    } else {
        let r = (k - 1) / width;
        let j = (k - 1) % width;
        let spot = room_spot(direction, start % map_width, start / map_width, offset, r, j);
        (cell_index(map_width, spot.0, spot.1) as usize, room_value(width, height, offset, r, j))
    }
}

/// All that a room writes, in the order in which it is dug.
pub open spec fn room_cells(
    map_width: int,
    start: int,
    direction: Direction,
    width: int,
    height: int,
    offset: int,
) -> Seq<(usize, MapCell)> {
    Seq::new(
        (1 + height * width) as nat,
        |k: int| room_cell(map_width, start, direction, width, height, offset, k),
    )
}

/// The side to which the first cells of a row are laid out.
pub open spec fn near_side(direction: Direction) -> Direction {
    match direction {
        Direction::Down | Direction::Up => Direction::Left,
        Direction::Right | Direction::Left => Direction::Up,
    }
}

/// The side to which the last cells of a row are laid out.
pub open spec fn far_side(direction: Direction) -> Direction {
    match direction {
        Direction::Down | Direction::Up => Direction::Right,
        Direction::Right | Direction::Left => Direction::Down,
    }
}

proof fn lemma_row_position(width: int, r: int, j: int)
    requires
        0 <= r,
        0 <= j < width,
    ensures
        (r * width + j) / width == r,
        (r * width + j) % width == j,
        r * width + j >= 0,
        (r + 1) * width == r * width + width,
{
    lemma_fundamental_div_mod_converse(r * width + j, width, r, j);
    assert(r * width >= 0) by (nonlinear_arith)
        requires
            0 <= r,
            0 < width,
    ;
    assert((r + 1) * width == r * width + width) by (nonlinear_arith);
}

/// Digs a room of the given size from `start_point`: `height` rows of
/// `width` cells, of which `offset` lie to the near side of the axis. The
/// room is dug whole or not at all.
pub fn carve_room(
    start_point: usize,
    direction: Direction,
    actual_map: &[MapCell],
    map_width: usize,
    width: usize,
    height: usize,
    offset: usize,
) -> (res: Option<Vec<(usize, MapCell)>>)
    requires
        map_width > 0,
        start_point < actual_map@.len(),
        offset < width,
    ensures
        res is Some <==> room_fits(
            actual_map@,
            map_width as int,
            start_point as int,
            direction,
            width as int,
            height as int,
            offset as int,
        ),
        res is Some ==> res.unwrap()@ == room_cells(
            map_width as int,
            start_point as int,
            direction,
            width as int,
            height as int,
            offset as int,
        ),
{
    let ghost w = map_width as int;
    let ghost x0 = start_point as int % w;
    let ghost y0 = start_point as int / w;
    let len: usize = actual_map.len();
    proof {
        vstd::arithmetic::div_mod::lemma_fundamental_div_mod(start_point as int, w);
        vstd::arithmetic::div_mod::lemma_mod_bound(start_point as int, w);
        assert(w * y0 == y0 * w) by (nonlinear_arith);
        assert(y0 >= 0) by (nonlinear_arith)
            requires
                start_point == w * y0 + x0,
                0 <= x0 < w,
                start_point >= 0,
        ;
    }
    let mut cells: Vec<(usize, MapCell)> = Vec::new();
    cells.push((start_point, MapCell::Floor));
    let mut cur = start_point;
    let mut r: usize = 0;
    while r < height
        invariant
            map_width > 0,
            w == map_width as int,
            len == actual_map@.len(),
            x0 == start_point as int % w,
            y0 == start_point as int / w,
            offset < width,
            0 <= r <= height,
            cells@.len() == 1 + r * width,
            forall|k: int|
                0 <= k < cells@.len() ==> cells@[k] == room_cell(
                    w,
                    start_point as int,
                    direction,
                    width as int,
                    height as int,
                    offset as int,
                    k,
                ),
            forall|r1: int, j1: int|
                0 <= r1 < r && 0 <= j1 < width ==> spot_free(
                    actual_map@,
                    w,
                    #[trigger] room_spot(direction, x0, y0, offset as int, r1, j1),
                ),
            ({
                let c = room_place(direction, x0, y0, r as int, 0);
                on_grid(len as int, w, c.0, c.1) && cur == cell_index(w, c.0, c.1)
            }),
        decreases height - r,
    {
        let ghost here = room_place(direction, x0, y0, r as int, 0);
        let ghost centre = room_spot(direction, x0, y0, offset as int, r as int, 0);
        proof {
            lemma_step(direction, len, map_width, here.0, here.1);
            lemma_row_position(width as int, r as int, 0);
        }
        let idx = match direction_to_index(direction, actual_map, map_width, cur) {
            Some(idx) => idx,
            None => {
                assert(!spot_free(actual_map@, w, centre));
                return None;
            },
        };
        if actual_map[idx] != MapCell::Null {
            assert(!spot_free(actual_map@, w, centre));
            return None;
        }
        cells.push(
            (
                idx,
                if r == height - 1 {
                    MapCell::Wall
                } else {
                    MapCell::Floor
                },
            ),
        );
        cur = idx;
        let mut side_idx = idx;
        let mut off: usize = 0;
        while off < offset
            invariant
                map_width > 0,
                w == map_width as int,
                len == actual_map@.len(),
                x0 == start_point as int % w,
                y0 == start_point as int / w,
                offset < width,
                0 <= r < height,
                0 <= off <= offset,
                cells@.len() == 1 + r * width + 1 + off,
                forall|k: int|
                    0 <= k < cells@.len() ==> cells@[k] == room_cell(
                        w,
                        start_point as int,
                        direction,
                        width as int,
                        height as int,
                        offset as int,
                        k,
                    ),
                forall|r1: int, j1: int|
                    0 <= r1 < r && 0 <= j1 < width ==> spot_free(
                        actual_map@,
                        w,
                        #[trigger] room_spot(direction, x0, y0, offset as int, r1, j1),
                    ),
                forall|j1: int|
                    0 <= j1 <= off ==> spot_free(
                        actual_map@,
                        w,
                        #[trigger] room_spot(direction, x0, y0, offset as int, r as int, j1),
                    ),
                ({
                    let c = room_spot(direction, x0, y0, offset as int, r as int, off as int);
                    on_grid(len as int, w, c.0, c.1) && side_idx == cell_index(w, c.0, c.1)
                }),
            decreases offset - off,
        {
            let ghost from = room_spot(direction, x0, y0, offset as int, r as int, off as int);
            let ghost to = room_spot(direction, x0, y0, offset as int, r as int, off + 1);
            proof {
                lemma_step(near_side(direction), len, map_width, from.0, from.1);
                lemma_row_position(width as int, r as int, off + 1);
            }
            let stepped = match direction {
                Direction::Down | Direction::Up => left(actual_map, map_width, side_idx),
                Direction::Right | Direction::Left => above(actual_map, map_width, side_idx),
            };
            let new_side_idx = match stepped {
                Some(i) => i,
                None => {
                    assert(!spot_free(actual_map@, w, to));
                    return None;
                },
            };
            if actual_map[new_side_idx] != MapCell::Null {
                assert(!spot_free(actual_map@, w, to));
                return None;
            }
            cells.push(
                (
                    new_side_idx,
                    if r == 0 || r == height - 1 || off == offset - 1 {
                        MapCell::Wall
                    } else {
                        MapCell::Floor
                    },
                ),
            );
            side_idx = new_side_idx;
            off = off + 1;
        }
        let mut side_idx = idx;
        let mut off: usize = offset + 1;
        let ghost mut reached: int = 0;
        while off < width
            invariant
                map_width > 0,
                w == map_width as int,
                len == actual_map@.len(),
                x0 == start_point as int % w,
                y0 == start_point as int / w,
                offset < width,
                0 <= r < height,
                offset + 1 <= off <= width,
                reached == (if off == offset + 1 {
                    0
                } else {
                    off - 1
                }),
                cells@.len() == 1 + r * width + off,
                forall|k: int|
                    0 <= k < cells@.len() ==> cells@[k] == room_cell(
                        w,
                        start_point as int,
                        direction,
                        width as int,
                        height as int,
                        offset as int,
                        k,
                    ),
                forall|r1: int, j1: int|
                    0 <= r1 < r && 0 <= j1 < width ==> spot_free(
                        actual_map@,
                        w,
                        #[trigger] room_spot(direction, x0, y0, offset as int, r1, j1),
                    ),
                forall|j1: int|
                    0 <= j1 < off ==> spot_free(
                        actual_map@,
                        w,
                        #[trigger] room_spot(direction, x0, y0, offset as int, r as int, j1),
                    ),
                ({
                    let c = room_spot(direction, x0, y0, offset as int, r as int, reached);
                    on_grid(len as int, w, c.0, c.1) && side_idx == cell_index(w, c.0, c.1)
                }),
                ({
                    let c = room_spot(direction, x0, y0, offset as int, r as int, 0);
                    on_grid(len as int, w, c.0, c.1) && idx == cell_index(w, c.0, c.1)
                }),
            decreases width - off,
        {
            let ghost from = room_spot(direction, x0, y0, offset as int, r as int, reached);
            let ghost to = room_spot(direction, x0, y0, offset as int, r as int, off as int);
            proof {
                lemma_step(far_side(direction), len, map_width, from.0, from.1);
                lemma_row_position(width as int, r as int, off as int);
            }
            let stepped = match direction {
                Direction::Down | Direction::Up => right(actual_map, map_width, side_idx),
                Direction::Right | Direction::Left => below(actual_map, map_width, side_idx),
            };
            let new_side_idx = match stepped {
                Some(i) => i,
                None => {
                    assert(!spot_free(actual_map@, w, to));
                    return None;
                },
            };
            if actual_map[new_side_idx] != MapCell::Null {
                assert(!spot_free(actual_map@, w, to));
                return None;
            }
            cells.push(
                (
                    new_side_idx,
                    if r == 0 || r == height - 1 || off == width - 1 {
                        MapCell::Wall
                    } else {
                        MapCell::Floor
                    },
                ),
            );
            side_idx = new_side_idx;
            proof {
                reached = off as int;
            }
            off = off + 1;
        }
        proof {
            lemma_row_position(width as int, r as int, 0);
        }
        r = r + 1;
    }
    assert(cells@ =~= room_cells(
        w,
        start_point as int,
        direction,
        width as int,
        height as int,
        offset as int,
    ));
    Some(cells)
}

/// Digs a room of a random size from `start_point`: a width and a height
/// drawn from the two ranges, and a random place of the axis among the
/// columns that are not the outermost.
pub fn generate_room(
    start_point: usize,
    direction: Direction,
    actual_map: &[MapCell],
    map_width: usize,
    width_range: (usize, usize),
    height_range: (usize, usize),
) -> (res: Option<Vec<(usize, MapCell)>>)
    requires
        map_width > 0,
        start_point < actual_map@.len(),
        3 <= width_range.0 < width_range.1,
        height_range.0 < height_range.1,
    ensures
        exists|width: int, height: int, offset: int|
            {
                &&& width_range.0 <= width < width_range.1
                &&& height_range.0 <= height < height_range.1
                &&& 1 <= offset < width - 1
                &&& res is Some <==> #[trigger] room_fits(
                    actual_map@,
                    map_width as int,
                    start_point as int,
                    direction,
                    width,
                    height,
                    offset,
                )
                &&& res is Some ==> res.unwrap()@ == room_cells(
                    map_width as int,
                    start_point as int,
                    direction,
                    width,
                    height,
                    offset,
                )
            },
{
    let width = random_in(width_range.0, width_range.1);
    let height = random_in(height_range.0, height_range.1);
    let offset = random_in(1, width - 1);
    carve_room(start_point, direction, actual_map, map_width, width, height, offset)
}

/// What a sample sees one step from `index`: the cell there, or floor where
/// the grid has no cell there.
pub open spec fn seen(cells: Seq<MapCell>, width: usize, index: usize, direction: Direction) -> MapCell {
    match step_spec(direction, cells.len() as usize, width, index) {
        Some(i) => cells[i as int],
        None => MapCell::Floor,
    }
}

/// The direction in which a room can be dug from the cell of `index`: away
/// from floor on one side, where the cell is wall and so are the two cells
/// next to it on the crossing axis. The sides are tried in the order up,
/// down, left, right.
pub open spec fn extension(cells: Seq<MapCell>, width: usize, index: usize) -> Option<Direction> {
    let up = seen(cells, width, index, Direction::Up);
    let down = seen(cells, width, index, Direction::Down);
    let left = seen(cells, width, index, Direction::Left);
    let right = seen(cells, width, index, Direction::Right);
    if cells[index as int] != MapCell::Wall {
        None
    } else if up == MapCell::Floor && left == MapCell::Wall && right == MapCell::Wall {
        Some(Direction::Down)
    } else if down == MapCell::Floor && left == MapCell::Wall && right == MapCell::Wall {
        Some(Direction::Up)
    } else if up == MapCell::Wall && down == MapCell::Wall && left == MapCell::Floor {
        Some(Direction::Right)
    } else if up == MapCell::Wall && down == MapCell::Wall && right == MapCell::Floor {
        Some(Direction::Left)
    } else {
        None
    }
}

fn look(actual_map: &[MapCell], map_width: usize, index: usize, direction: Direction) -> (c:
    MapCell)
    requires
        map_width > 0,
        index < actual_map@.len(),
    ensures
        c == seen(actual_map@, map_width, index, direction),
{
    let len = actual_map.len();
    match direction_to_index(direction, actual_map, map_width, index) {
        Some(i) => actual_map[i],
        None => MapCell::Floor,
    }
}

/// Decides whether and in which direction a room can be dug from the cell
/// of `index`.
pub fn wall_extension(actual_map: &[MapCell], map_width: usize, index: usize) -> (d: Option<
    Direction,
>)
    requires
        map_width > 0,
        index < actual_map@.len(),
    ensures
        d == extension(actual_map@, map_width, index),
{
    if actual_map[index] != MapCell::Wall {
        return None;
    }
    let up = look(actual_map, map_width, index, Direction::Up);
    let down = look(actual_map, map_width, index, Direction::Down);
    let left = look(actual_map, map_width, index, Direction::Left);
    let right = look(actual_map, map_width, index, Direction::Right);
    if up == MapCell::Floor && left == MapCell::Wall && right == MapCell::Wall {
        Some(Direction::Down)
    } else if down == MapCell::Floor && left == MapCell::Wall && right == MapCell::Wall {
        Some(Direction::Up)
    } else if up == MapCell::Wall && down == MapCell::Wall && left == MapCell::Floor {
        Some(Direction::Right)
    } else if up == MapCell::Wall && down == MapCell::Wall && right == MapCell::Floor {
        Some(Direction::Left)
    } else {
        None
    }
}

} // verus!
