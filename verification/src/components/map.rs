//! The grid map: the terrain of every cell and who stands on it.

use vstd::prelude::*;
use std::collections::VecDeque;

pub mod outfit;
pub mod paths;
pub mod room;
pub mod seed;
pub mod spawn;
pub mod util;

use crate::components::entity::Entity;
use crate::components::map::paths::floor_connected;
use crate::components::map::room::{
    apply_all,
    edge_sealed,
    lemma_apply_front,
    lemma_dig_door,
    lemma_dig_keeps_connected,
    lemma_dig_keeps_floor,
    lemma_dig_keeps_sealed,
    lemma_dig_spot,
    lemma_dug,
    Dig,
};
use crate::components::map::seed::{
    lemma_seed_on_grid,
    lemma_seeded,
    seed_progress,
    seed_root,
    seed_write,
    seed_writes,
    seeded,
};
use crate::components::map::room::lemma_dig_write;
use crate::components::map::util::{
    extension,
    generate_room,
    room_cells,
    room_fits,
    wall_extension,
};
use crate::util::Direction;
use crate::util::random::random_in;

verus! {

/// The terrain of one cell. `Null` is a cell that generation has not
/// reached.
#[derive(Clone, Copy, Debug, PartialEq, Eq, Structural)]
pub enum MapCell {
    Null,
    Wall,
    Floor,
}

/// The terrain and the occupants of a level, row by row: the cell in column
/// `x` of row `y` has the index `y * width + x`.
pub struct GridMap {
    pub map: Vec<MapCell>,
    pub contents: Vec<Option<Entity>>,
    pub width: usize,
    pub height: usize,
}

/// The index of the cell in column `x` of row `y` on a grid of the given
/// width.
pub open spec fn cell_index(width: int, x: int, y: int) -> int {
    y * width + x
}

/// A cell inside a grid has an index below the number of cells, and the
/// index gives the row and the column back.
pub proof fn lemma_cell_index(width: int, height: int, x: int, y: int)
    requires
        0 <= x < width,
        0 <= y < height,
    ensures
        0 <= cell_index(width, x, y) < width * height,
        cell_index(width, x, y) / width == y,
        cell_index(width, x, y) % width == x,
{
    assert(0 <= y * width) by (nonlinear_arith)
        requires
            0 <= y,
            0 <= width,
    ;
    assert(y * width + width <= width * height) by (nonlinear_arith)
        requires
            y + 1 <= height,
            0 <= width,
    ;
    vstd::arithmetic::div_mod::lemma_fundamental_div_mod_converse(y * width + x, width, y, x);
}

/// An index below the number of cells names a cell inside the grid.
pub proof fn lemma_index_cell(width: int, height: int, index: int)
    requires
        0 < width,
        0 <= index < width * height,
    ensures
        0 <= index % width < width,
        0 <= index / width < height,
        cell_index(width, index % width, index / width) == index,
{
    vstd::arithmetic::div_mod::lemma_fundamental_div_mod(index, width);
    vstd::arithmetic::div_mod::lemma_mod_bound(index, width);
    let q = index / width;
    let r = index % width;
    assert(index == width * q + r);
    assert(q >= 0) by (nonlinear_arith)
        requires
            index == width * q + r,
            0 <= index,
            r < width,
            0 < width,
    ;
    assert(q < height) by (nonlinear_arith)
        requires
            index == width * q + r,
            index < width * height,
            0 <= r,
            0 < width,
    ;
    assert(q * width == width * q) by (nonlinear_arith);
}

impl GridMap {
    /// Both layers cover the grid, and only floor is occupied.
    pub open spec fn wf(&self) -> bool {
        &&& self.map.len() == self.width * self.height
        &&& self.contents.len() == self.width * self.height
        &&& forall|i: int|
            0 <= i < self.contents@.len() && (#[trigger] self.contents@[i]) is Some
                ==> self.map@[i] == MapCell::Floor
    }

    /// Whether column `x` of row `y` is a cell of this map.
    pub open spec fn in_bounds(&self, x: int, y: int) -> bool {
        0 <= x < self.width && 0 <= y < self.height
    }

    /// The terrain of the cell in column `x` of row `y`.
    pub open spec fn terrain(&self, x: int, y: int) -> MapCell {
        self.map@[cell_index(self.width as int, x, y)]
    }

    /// Who stands on the cell in column `x` of row `y`.
    pub open spec fn occupant(&self, x: int, y: int) -> Option<Entity> {
        self.contents@[cell_index(self.width as int, x, y)]
    }

    /// Whether no cell of this map has been revealed.
    pub open spec fn unrevealed(&self) -> bool {
        forall|i: int| 0 <= i < self.map@.len() ==> self.map@[i] == MapCell::Null
    }

    /// Whether nobody stands anywhere on this map.
    pub open spec fn vacant(&self) -> bool {
        forall|i: int| 0 <= i < self.contents@.len() ==> (#[trigger] self.contents@[i]) is None
    }

    /// A map of the given size on which every cell is unrevealed and empty.
    pub fn new(width: usize, height: usize) -> (m: GridMap)
        requires
            width * height <= usize::MAX,
        ensures
            m.wf(),
            m.width == width,
            m.height == height,
            m.unrevealed(),
            m.vacant(),
    {
        let cells: usize = width * height;
        let mut map: Vec<MapCell> = Vec::new();
        let mut contents: Vec<Option<Entity>> = Vec::new();
        let mut i: usize = 0;
        while i < cells
            invariant
                i <= cells,
                map@.len() == i,
                contents@.len() == i,
                forall|j: int| 0 <= j < i ==> map@[j] == MapCell::Null,
                forall|j: int| 0 <= j < i ==> (#[trigger] contents@[j]) is None,
            decreases cells - i,
        {
            map.push(MapCell::Null);
            contents.push(None);
            i = i + 1;
        }
        GridMap { map: map, contents: contents, width: width, height: height }
    }

    /// Decides whether the map is well formed, for callers that cannot
    /// know.
    pub fn is_wf(&self) -> (ok: bool)
        ensures
            ok == self.wf(),
    {
        let cells = match self.width.checked_mul(self.height) {
            Some(cells) => cells,
            None => {
                return false;
            },
        };
        if self.map.len() != cells || self.contents.len() != cells {
            return false;
        }
        let mut i: usize = 0;
        while i < cells
            invariant
                0 <= i <= cells,
                cells == self.width * self.height,
                self.map.len() == cells,
                self.contents.len() == cells,
                forall|j: int|
                    0 <= j < i && (#[trigger] self.contents@[j]) is Some ==> self.map@[j]
                        == MapCell::Floor,
            decreases cells - i,
        {
            if self.contents[i].is_some() && self.map[i] != MapCell::Floor {
                return false;
            }
            i = i + 1;
        }
        true
    }

    /// Decides whether column `x` of row `y` is a cell of this map.
    pub fn holds(&self, x: usize, y: usize) -> (b: bool)
        ensures
            b == self.in_bounds(x as int, y as int),
    {
        x < self.width && y < self.height
    }

    fn index(&self, x: usize, y: usize) -> (i: usize)
        requires
            self.wf(),
            self.in_bounds(x as int, y as int),
        ensures
            i == cell_index(self.width as int, x as int, y as int),
            i < self.map@.len(),
            i < self.contents@.len(),
    {
        proof {
            lemma_cell_index(self.width as int, self.height as int, x as int, y as int);
            assert(0 <= y * self.width) by (nonlinear_arith);
        }
        y * self.width + x
    }

    /// Whether the cell is floor with nobody on it.
    pub fn passable(&self, x: usize, y: usize) -> (b: bool)
        requires
            self.wf(),
            self.in_bounds(x as int, y as int),
        ensures
            b == (self.terrain(x as int, y as int) == MapCell::Floor && self.occupant(
                x as int,
                y as int,
            ) is None),
    {
        let index = self.index(x, y);
        self.map[index] == MapCell::Floor && self.contents[index].is_none()
    }

    /// Whether the cell is floor, whoever stands on it.
    pub fn occupable(&self, x: usize, y: usize) -> (b: bool)
        requires
            self.wf(),
            self.in_bounds(x as int, y as int),
        ensures
            b == (self.terrain(x as int, y as int) == MapCell::Floor),
    {
        let index = self.index(x, y);
        self.map[index] == MapCell::Floor
    }

    /// Who stands on the cell, if anyone.
    pub fn contents(&self, x: usize, y: usize) -> (e: Option<Entity>)
        requires
            self.wf(),
            self.in_bounds(x as int, y as int),
        ensures
            e == self.occupant(x as int, y as int),
    {
        let index = self.index(x, y);
        self.contents[index]
    }

    /// Takes whoever stands on the cell off it and returns them. Somebody
    /// must stand there.
    pub fn vacate(&mut self, x: usize, y: usize) -> (e: Option<Entity>)
        requires
            old(self).wf(),
            old(self).in_bounds(x as int, y as int),
            old(self).occupant(x as int, y as int) is Some,
        ensures
            final(self).wf(),
            e is Some,
            e == old(self).occupant(x as int, y as int),
            final(self).width == old(self).width,
            final(self).height == old(self).height,
            final(self).map@ == old(self).map@,
            final(self).contents@ == old(self).contents@.update(
                cell_index(old(self).width as int, x as int, y as int),
                None,
            ),
    {
        let index = self.index(x, y);
        let former = self.contents[index];
        self.contents[index] = None;
        former
    }

    /// Puts `entity` on the cell, which must be floor and free.
    pub fn fill(&mut self, entity: Entity, x: usize, y: usize)
        requires
            old(self).wf(),
            old(self).in_bounds(x as int, y as int),
            old(self).terrain(x as int, y as int) == MapCell::Floor,
            old(self).occupant(x as int, y as int) is None,
        ensures
            final(self).wf(),
            final(self).width == old(self).width,
            final(self).height == old(self).height,
            final(self).map@ == old(self).map@,
            final(self).contents@ == old(self).contents@.update(
                cell_index(old(self).width as int, x as int, y as int),
                Some(entity),
            ),
    {
        let index = self.index(x, y);
        self.contents[index] = Some(entity);
    }
}

/// The number of steps that generation takes.
pub const GENERATION_STEPS: usize = 100;

/// How many wall cells a step samples before it gives up.
pub const SAMPLES_PER_STEP: usize = 1000;

/// How many pending writes are revealed on the map in one tick.
pub const REVEALS_PER_TICK: usize = 25;

/// The state of generation: the steps taken, the working grid that rooms
/// are dug on, and the writes that the map has not been shown yet.
pub struct MapBuilder {
    pub num_iterations: usize,
    pub modified_cells: VecDeque<(usize, MapCell)>,
    pub actual_map: Vec<MapCell>,
}

/// The system that shows the map. It keeps no state.
pub struct RenderSystem {}

/// The system that drives generation tick by tick.
pub struct BuilderSystem {
    pub can_create_entity: bool,
}

/// Whether a room of the given size is one that a step digs: a corridor,
/// three or four cells wide, or a chamber, five to nineteen; both five to
/// nineteen long, the axis not in an outermost column.
pub open spec fn shape_allowed(dig: Dig) -> bool {
    &&& (3 <= dig.width < 5 || 5 <= dig.width < 20)
    &&& 5 <= dig.height < 20
    &&& 1 <= dig.offset < dig.width - 1
}

proof fn lemma_apply_push(cells: Seq<MapCell>, queue: Seq<(usize, MapCell)>, write: (usize, MapCell))
    ensures
        apply_all(cells, queue.push(write)) == apply_all(cells, queue).update(
            write.0 as int,
            write.1,
        ),
{
    assert(queue.push(write).drop_last() =~= queue);
}

fn copy_cells(cells: &Vec<MapCell>) -> (copy: Vec<MapCell>)
    ensures
        copy@ == cells@,
{
    let mut copy: Vec<MapCell> = Vec::new();
    let mut i: usize = 0;
    while i < cells.len()
        invariant
            i <= cells.len(),
            copy@ == cells@.subrange(0, i as int),
        decreases cells.len() - i,
    {
        copy.push(cells[i]);
        assert(copy@ == cells@.subrange(0, i + 1));
        i = i + 1;
    }
    assert(cells@.subrange(0, cells@.len() as int) == cells@);
    copy
}

/// The room that a draw has tried, from what the draw promises of it.
proof fn lemma_room_drawn(
    cells: Seq<MapCell>,
    map_width: usize,
    index: usize,
    direction: Direction,
    width_range: (usize, usize),
    height_range: (usize, usize),
    fitted: bool,
    writes: Seq<(usize, MapCell)>,
) -> (dig: Dig)
    requires
        map_width > 0,
        cells.len() <= usize::MAX,
        index < cells.len(),
        width_range.0 >= 3,
        exists|width: int, height: int, offset: int|
            {
                &&& width_range.0 <= width < width_range.1
                &&& height_range.0 <= height < height_range.1
                &&& 1 <= offset < width - 1
                &&& fitted <==> #[trigger] room_fits(
                    cells,
                    map_width as int,
                    index as int,
                    direction,
                    width,
                    height,
                    offset,
                )
                &&& fitted ==> writes == room_cells(
                    map_width as int,
                    index as int,
                    direction,
                    width,
                    height,
                    offset,
                )
            },
    ensures
        dig.map_width == map_width,
        dig.start == index,
        dig.direction == direction,
        width_range.0 <= dig.width < width_range.1,
        height_range.0 <= dig.height < height_range.1,
        1 <= dig.offset < dig.width - 1,
        dig.placed(cells),
        fitted == dig.fits(cells),
        fitted ==> dig.writes() == writes,
        fitted ==> forall|k: int| 0 <= k < writes.len() ==> (#[trigger] writes[k]).0 < cells.len(),
{
    let (width, height, offset) = choose|width: int, height: int, offset: int|
        {
            &&& width_range.0 <= width < width_range.1
            &&& height_range.0 <= height < height_range.1
            &&& 1 <= offset < width - 1
            &&& fitted <==> #[trigger] room_fits(
                cells,
                map_width as int,
                index as int,
                direction,
                width,
                height,
                offset,
            )
            &&& fitted ==> writes == room_cells(
                map_width as int,
                index as int,
                direction,
                width,
                height,
                offset,
            )
        };
    let dig = Dig {
        map_width: map_width,
        start: index,
        direction: direction,
        width: width as usize,
        height: height as usize,
        offset: offset as usize,
    };
    if fitted {
        assert forall|k: int| 0 <= k < writes.len() implies (#[trigger] writes[k]).0
            < cells.len() by {
            if k >= 1 {
                lemma_dig_write(dig, cells, k);
                lemma_dig_spot(
                    dig,
                    cells,
                    (k - 1) / (dig.width as int),
                    (k - 1) % (dig.width as int),
                );
            }
        }
    }
    dig
}

/// Digging a room keeps what holds between a builder and its map.
proof fn lemma_dug_keeps_inv(before: &MapBuilder, dig: Dig, map: &GridMap, after: &MapBuilder)
    requires
        map.wf(),
        map.width >= 7,
        map.height >= 7,
        before.inv(map),
        before.num_iterations > 0,
        after.num_iterations == before.num_iterations,
        before.dug_into(dig, map.width, after),
        apply_all(map.map@, after.pending()) == after.working(),
        forall|k: int|
            0 <= k < after.pending().len() ==> (#[trigger] after.pending()[k]).0
                < after.working().len(),
    ensures
        after.inv(map),
{
    let cells = before.working();
    let root = seed_root(map.width, map.height);
    lemma_cell_index(
        map.width as int,
        map.height as int,
        map.width as int / 2,
        map.height as int / 2,
    );
    let from = lemma_dig_door(dig, cells, map.height);
    lemma_dig_keeps_connected(dig, cells, root, from);
    lemma_dig_keeps_sealed(dig, cells, map.height);
    lemma_dig_keeps_floor(dig, cells);
}

impl MapBuilder {
    /// The working grid: the map as it will be when every pending write has
    /// been revealed.
    pub open spec fn working(&self) -> Seq<MapCell> {
        self.actual_map@
    }

    /// The writes that the map has not been shown yet, oldest first.
    pub open spec fn pending(&self) -> Seq<(usize, MapCell)> {
        self.modified_cells@
    }

    /// What holds between a builder and the map it builds. Before the first
    /// step the map is unrevealed and nothing is pending. From then on the
    /// working grid is the map with the pending writes made, the seed room
    /// stands, every floor cell of the working grid can be reached from
    /// the centre of the seed room over floor, and the edges are sealed.
    pub open spec fn inv(&self, map: &GridMap) -> bool {
        if self.num_iterations == 0 {
            self.pending().len() == 0 && map.unrevealed()
        } else {
            &&& map.width >= 7
            &&& map.height >= 7
            &&& self.working().len() == map.map@.len()
            &&& forall|k: int|
                0 <= k < self.pending().len() ==> (#[trigger] self.pending()[k]).0
                    < self.working().len()
            &&& apply_all(map.map@, self.pending()) == self.working()
            &&& self.working()[seed_root(map.width, map.height) as int] == MapCell::Floor
            &&& floor_connected(self.working(), map.width, seed_root(map.width, map.height))
            &&& edge_sealed(self.working(), map.width, map.height)
        }
    }

    /// Whether generation has come to its end: the steps are taken and the
    /// map has been shown every write.
    pub open spec fn complete(&self) -> bool {
        self.num_iterations >= GENERATION_STEPS && self.pending().len() == 0
    }

    /// Whether `after` is this builder with the room `dig` dug: from a wall
    /// cell that a room can be dug from, a room of an allowed shape that
    /// fits, written whole to the working grid and to the pending writes.
    pub open spec fn dug_into(&self, dig: Dig, map_width: usize, after: &MapBuilder) -> bool {
        &&& dig.map_width == map_width
        &&& dig.placed(self.working())
        &&& shape_allowed(dig)
        &&& extension(self.working(), map_width, dig.start) == Some(dig.direction)
        &&& dig.fits(self.working())
        &&& after.working() == dig.dug(self.working())
        &&& after.pending() == self.pending() + dig.writes()
    }

    /// Whether `dug` and `after` are what comes of sampling the cell of the
    /// index `index` and trying the room `dig` there. Where no room can be
    /// dug from the cell, none is tried and nothing is dug. Otherwise the
    /// room is one of an allowed shape dug from that cell in the direction
    /// of its extension, and it is dug if and only if it fits. What is dug
    /// is dug whole; where nothing is dug, nothing changes.
    pub open spec fn sampled_to(
        &self,
        index: usize,
        dig: Dig,
        map_width: usize,
        dug: bool,
        after: &MapBuilder,
    ) -> bool {
        &&& index < self.working().len()
        &&& match extension(self.working(), map_width, index) {
            None => !dug,
            Some(direction) => {
                &&& dig.map_width == map_width
                &&& dig.start == index
                &&& dig.direction == direction
                &&& shape_allowed(dig)
                &&& dug == dig.fits(self.working())
            },
        }
        &&& dug ==> self.dug_into(dig, map_width, after)
        &&& !dug ==> after.working() == self.working() && after.pending() == self.pending()
    }

    /// Whether `after` is what one step of generation can make of this
    /// builder: the seed room on the first step; on a later one, one room
    /// dug whole, or nothing.
    pub open spec fn step_of(&self, map: &GridMap, after: &MapBuilder) -> bool {
        &&& after.num_iterations == self.num_iterations + 1
        &&& self.num_iterations == 0 ==> after.working() == seeded(map.width, map.height)
            && after.pending() == seed_writes(map.width, map.height)
        &&& self.num_iterations > 0 ==> (after.working() == self.working() && after.pending()
            == self.pending()) || exists|dig: Dig| self.dug_into(dig, map.width, after)
    }

    /// The number of pending writes that one tick with the given budget
    /// shows the map.
    pub open spec fn due(&self, budget: usize) -> int {
        if budget <= self.pending().len() {
            budget as int
        } else {
            self.pending().len() as int
        }
    }

    /// Whether `after` and `shown` are this builder and `map` once the
    /// oldest pending writes, at most `budget`, have been shown the map.
    pub open spec fn shown_to(
        &self,
        map: &GridMap,
        budget: usize,
        after: &MapBuilder,
        shown: &GridMap,
    ) -> bool {
        &&& after.num_iterations == self.num_iterations
        &&& after.working() == self.working()
        &&& after.pending() == self.pending().skip(self.due(budget))
        &&& shown.map@ == apply_all(map.map@, self.pending().take(self.due(budget)))
        &&& shown.contents@ == map.contents@
        &&& shown.width == map.width
        &&& shown.height == map.height
    }

    pub fn new() -> (b: MapBuilder)
        ensures
            b.num_iterations == 0,
            b.pending().len() == 0,
            b.working().len() == 0,
    {
        MapBuilder { num_iterations: 0, modified_cells: VecDeque::new(), actual_map: Vec::new() }
    }

    /// The number of writes that the map has not been shown yet.
    pub fn pending_len(&self) -> (n: usize)
        ensures
            n == self.pending().len(),
    {
        self.modified_cells.len()
    }

    /// The working grid.
    pub fn working_cells(&self) -> (cells: &Vec<MapCell>)
        ensures
            cells@ == self.working(),
    {
        &self.actual_map
    }

    /// Writes one cell to the working grid and to the pending writes.
    fn write(&mut self, index: usize, cell: MapCell)
        requires
            index < old(self).working().len(),
        ensures
            final(self).working() == old(self).working().update(index as int, cell),
            final(self).pending() == old(self).pending().push((index, cell)),
            final(self).num_iterations == old(self).num_iterations,
    {
        self.modified_cells.push_back((index, cell));
        self.actual_map[index] = cell;
    }

    /// The first step: takes the map as the working grid and puts the seed
    /// room in its middle.
    fn dig_seed(&mut self, map: &GridMap)
        requires
            old(self).pending().len() == 0,
            map.wf(),
            map.unrevealed(),
            map.width >= 7,
            map.height >= 7,
        ensures
            final(self).num_iterations == old(self).num_iterations,
            final(self).working() == seeded(map.width, map.height),
            final(self).pending() == seed_writes(map.width, map.height),
            apply_all(map.map@, final(self).pending()) == final(self).working(),
            forall|k: int|
                0 <= k < final(self).pending().len() ==> (#[trigger] final(self).pending()[k]).0
                    < final(self).working().len(),
    {
        self.actual_map = copy_cells(&map.map);
        let cx: usize = map.width / 2;
        let cy: usize = map.height / 2;
        let ghost w = map.width as int;
        let ghost h = map.height as int;
        let mut row: usize = 0;
        while row < 7
            invariant
                map.wf(),
                map.unrevealed(),
                map.width >= 7,
                map.height >= 7,
                w == map.width,
                h == map.height,
                cx == map.width / 2,
                cy == map.height / 2,
                0 <= row <= 7,
                self.num_iterations == old(self).num_iterations,
                self.working().len() == w * h,
                self.pending().len() == row * 7,
                forall|n: int|
                    0 <= n < row * 7 ==> #[trigger] self.pending()[n] == seed_write(
                        map.width,
                        map.height,
                        n,
                    ),
                forall|i: int|
                    0 <= i < w * h ==> #[trigger] self.working()[i] == seed_progress(
                        map.width,
                        map.height,
                        i,
                        row * 7,
                    ),
                apply_all(map.map@, self.pending()) == self.working(),
                forall|k: int|
                    0 <= k < self.pending().len() ==> (#[trigger] self.pending()[k]).0
                        < self.working().len(),
            decreases 7 - row,
        {
            let mut col: usize = 0;
            while col < 7
                invariant
                    map.wf(),
                    map.unrevealed(),
                    map.width >= 7,
                    map.height >= 7,
                    w == map.width,
                    h == map.height,
                    cx == map.width / 2,
                    cy == map.height / 2,
                    0 <= row < 7,
                    0 <= col <= 7,
                    self.num_iterations == old(self).num_iterations,
                    self.working().len() == w * h,
                    self.pending().len() == row * 7 + col,
                    forall|n: int|
                        0 <= n < row * 7 + col ==> #[trigger] self.pending()[n] == seed_write(
                            map.width,
                            map.height,
                            n,
                        ),
                    forall|i: int|
                        0 <= i < w * h ==> #[trigger] self.working()[i] == seed_progress(
                            map.width,
                            map.height,
                            i,
                            row * 7 + col,
                        ),
                    apply_all(map.map@, self.pending()) == self.working(),
                    forall|k: int|
                        0 <= k < self.pending().len() ==> (#[trigger] self.pending()[k]).0
                            < self.working().len(),
                decreases 7 - col,
            {
                let x: usize = cx - 3 + col;
                let y: usize = cy - 3 + row;
                proof {
                    lemma_seed_on_grid(map.width, map.height, x as int, y as int);
                    assert(0 <= y * map.width) by (nonlinear_arith);
                }
                let offset: usize = y * map.width + x;
                let cell = if row == 0 || row == 6 || col == 0 || col == 6 {
                    MapCell::Wall
                } else {
                    MapCell::Floor
                };
                let ghost queued = self.pending();
                self.write(offset, cell);
                proof {
                    let n = row * 7 + col;
                    lemma_apply_push(map.map@, queued, (offset, cell));
                    assert(seed_write(map.width, map.height, n) == (offset, cell));
                    assert forall|i: int| 0 <= i < w * h implies #[trigger] self.working()[i]
                        == seed_progress(map.width, map.height, i, n + 1) by {
                        lemma_index_cell(w, h, i);
                    }
                }
                col = col + 1;
            }
            row = row + 1;
        }
        assert(self.working() =~= seeded(map.width, map.height));
        assert(self.pending() =~= seed_writes(map.width, map.height));
    }

    /// Writes a room to the working grid and to the pending writes.
    fn commit(&mut self, cells: &Vec<(usize, MapCell)>, Ghost(shown): Ghost<Seq<MapCell>>)
        requires
            forall|k: int| 0 <= k < cells@.len() ==> (#[trigger] cells@[k]).0 < old(self).working().len(),
            apply_all(shown, old(self).pending()) == old(self).working(),
            forall|k: int|
                0 <= k < old(self).pending().len() ==> (#[trigger] old(self).pending()[k]).0
                    < old(self).working().len(),
        ensures
            final(self).num_iterations == old(self).num_iterations,
            final(self).working() == apply_all(old(self).working(), cells@),
            final(self).pending() == old(self).pending() + cells@,
            apply_all(shown, final(self).pending()) == final(self).working(),
            forall|k: int|
                0 <= k < final(self).pending().len() ==> (#[trigger] final(self).pending()[k]).0
                    < final(self).working().len(),
    {
        let mut k: usize = 0;
        while k < cells.len()
            invariant
                0 <= k <= cells@.len(),
                forall|k: int|
                    0 <= k < cells@.len() ==> (#[trigger] cells@[k]).0 < old(self).working().len(),
                self.num_iterations == old(self).num_iterations,
                self.working().len() == old(self).working().len(),
                self.working() == apply_all(old(self).working(), cells@.take(k as int)),
                self.pending() == old(self).pending() + cells@.take(k as int),
                apply_all(shown, self.pending()) == self.working(),
                forall|k: int|
                    0 <= k < self.pending().len() ==> (#[trigger] self.pending()[k]).0
                        < self.working().len(),
            decreases cells@.len() - k,
        {
            let (index, cell) = cells[k];
            let ghost queued = self.pending();
            self.write(index, cell);
            proof {
                lemma_apply_push(shown, queued, (index, cell));
                lemma_apply_push(old(self).working(), cells@.take(k as int), (index, cell));
                assert(cells@.take(k as int).push((index, cell)) =~= cells@.take(k + 1));
                assert(queued.push((index, cell)) =~= old(self).pending() + cells@.take(k + 1));
            }
            k = k + 1;
        }
        assert(cells@.take(cells@.len() as int) =~= cells@);
    }

    /// Samples one cell of the working grid and, where it is a wall cell
    /// that a room can be dug from, tries one room of a random shape there:
    /// the room is dug if it fits, and nothing changes if it does not.
    fn sample_room(&mut self, map: &GridMap) -> (dug: bool)
        requires
            map.wf(),
            map.width >= 7,
            map.height >= 7,
            old(self).inv(map),
            old(self).num_iterations > 0,
        ensures
            final(self).inv(map),
            final(self).num_iterations == old(self).num_iterations,
            dug ==> exists|dig: Dig| old(self).dug_into(dig, map.width, final(self)),
            !dug ==> final(self).working() == old(self).working() && final(self).pending() == old(
                self,
            ).pending(),
            exists|index: usize, dig: Dig| #[trigger]
                old(self).sampled_to(index, dig, map.width, dug, final(self)),
    {
        let len = self.actual_map.len();
        proof {
            lemma_cell_index(
                map.width as int,
                map.height as int,
                map.width as int / 2,
                map.height as int / 2,
            );
        }
        let index = random_in(0, len);
        let direction = match wall_extension(self.actual_map.as_slice(), map.width, index) {
            Some(direction) => direction,
            None => {
                proof {
                    let none = Dig {
                        map_width: map.width,
                        start: index,
                        direction: Direction::Up,
                        width: 3,
                        height: 5,
                        offset: 1,
                    };
                    assert(old(self).sampled_to(index, none, map.width, false, self));
                }
                return false;
            },
        };
        let corridor = random_in(0, 10) < 6;
        let (width_range, length_range): ((usize, usize), (usize, usize)) = if corridor {
            ((3, 5), (5, 20))
        } else {
            ((5, 20), (5, 20))
        };
        let res = generate_room(
            index,
            direction,
            self.actual_map.as_slice(),
            map.width,
            width_range,
            length_range,
        );
        let ghost before = *self;
        let ghost writes = if res is Some {
            res.unwrap()@
        } else {
            Seq::empty()
        };
        let ghost dig = lemma_room_drawn(
            self.working(),
            map.width,
            index,
            direction,
            width_range,
            length_range,
            res is Some,
            writes,
        );
        match res {
            Some(cells) => {
                self.commit(&cells, Ghost(map.map@));
                proof {
                    assert(before.dug_into(dig, map.width, self));
                    lemma_dug_keeps_inv(&before, dig, map, self);
                    assert(before.sampled_to(index, dig, map.width, true, self));
                }
                true
            },
            None => {
                proof {
                    assert(before.sampled_to(index, dig, map.width, false, self));
                }
                false
            },
        }
    }

    /// Takes one step of generation. The first step puts the seed room on
    /// the working grid. Every later step samples cells of the working
    /// grid until it finds a wall cell from which a room of a random shape
    /// can be dug, and digs it; after a thousand samples in vain it leaves
    /// the working grid as it is. The map itself is not written to.
    pub fn dig_feature(&mut self, map: &mut GridMap)
        requires
            old(map).wf(),
            old(map).width >= 7,
            old(map).height >= 7,
            old(self).inv(old(map)),
            old(self).num_iterations < usize::MAX,
        ensures
            *final(map) == *old(map),
            final(self).inv(final(map)),
            old(self).step_of(old(map), final(self)),
    {
        if self.num_iterations == 0 {
            self.dig_seed(map);
            proof {
                lemma_seeded(map.width, map.height);
            }
        } else {
            let mut attempt: usize = 0;
            while attempt < SAMPLES_PER_STEP
                invariant_except_break
                    self.working() == old(self).working(),
                    self.pending() == old(self).pending(),
                invariant
                    map.wf(),
                    *map == *old(map),
                    map.width >= 7,
                    map.height >= 7,
                    self.inv(map),
                    self.num_iterations == old(self).num_iterations,
                    self.num_iterations > 0,
                ensures
                    self.inv(map),
                    self.num_iterations == old(self).num_iterations,
                    (self.working() == old(self).working() && self.pending() == old(
                        self,
                    ).pending()) || exists|dig: Dig| old(self).dug_into(dig, map.width, self),
                decreases SAMPLES_PER_STEP - attempt,
            {
                let ghost before = *self;
                if self.sample_room(map) {
                    proof {
                        let dig = choose|dig: Dig| before.dug_into(dig, map.width, self);
                        assert(old(self).dug_into(dig, map.width, self));
                    }
                    break ;
                }
                attempt = attempt + 1;
            }
        }
        let ghost stepped = *self;
        self.num_iterations = self.num_iterations + 1;
        proof {
            if old(self).num_iterations > 0 && exists|dig: Dig|
                old(self).dug_into(dig, map.width, &stepped) {
                let dig = choose|dig: Dig| old(self).dug_into(dig, map.width, &stepped);
                assert(old(self).dug_into(dig, map.width, self));
            }
        }
    }

    /// Shows the map the oldest pending writes, at most `budget` of them.
    fn show_pending(&mut self, map: &mut GridMap, budget: usize) -> (shown: usize)
        requires
            old(map).wf(),
            old(map).vacant(),
            old(self).num_iterations > 0,
            old(self).inv(old(map)),
        ensures
            final(map).wf(),
            final(map).vacant(),
            final(self).inv(final(map)),
            final(map).width == old(map).width,
            final(map).height == old(map).height,
            final(map).contents@ == old(map).contents@,
            shown == old(self).due(budget),
            old(self).shown_to(old(map), budget, final(self), final(map)),
    {
        let mut shown: usize = 0;
        while shown < budget
            invariant_except_break
                shown <= budget,
                shown <= old(self).pending().len(),
            invariant
                map.wf(),
                map.vacant(),
                self.inv(map),
                map.width == old(map).width,
                map.height == old(map).height,
                map.contents@ == old(map).contents@,
                self.num_iterations == old(self).num_iterations,
                self.working() == old(self).working(),
                self.pending() == old(self).pending().skip(shown as int),
                map.map@ == apply_all(old(map).map@, old(self).pending().take(shown as int)),
                forall|k: int|
                    0 <= k < old(self).pending().len() ==> (#[trigger] old(self).pending()[k]).0
                        < old(map).map@.len(),
            ensures
                shown == (if budget <= old(self).pending().len() {
                    budget as int
                } else {
                    old(self).pending().len() as int
                }),
            decreases budget - shown,
        {
            let ghost queued = self.pending();
            let ghost cells = map.map@;
            match self.modified_cells.pop_front() {
                Some((index, cell)) => {
                    proof {
                        assert(queued[0] == old(self).pending()[shown as int]);
                        lemma_apply_front(cells, queued);
                        assert(self.pending() =~= queued.skip(1));
                        assert(self.pending() =~= old(self).pending().skip(shown + 1));
                        let taken = old(self).pending().take(shown + 1);
                        assert(taken.drop_last() =~= old(self).pending().take(shown as int));
                        assert(taken.last() == (index, cell));
                    }
                    map.map[index] = cell;
                    shown = shown + 1;
                },
                None => {
                    break ;
                },
            }
        }
        shown
    }
}

/// Once generation has shown the map every write, the map is the working
/// grid: the centre of the seed room is floor, and every floor cell of the
/// map can be reached from it over floor.
pub proof fn lemma_generated_floor_connected(builder: &MapBuilder, map: &GridMap)
    requires
        builder.inv(map),
        builder.num_iterations > 0,
        builder.pending().len() == 0,
    ensures
        map.map@ == builder.working(),
        map.map@[seed_root(map.width, map.height) as int] == MapCell::Floor,
        floor_connected(map.map@, map.width, seed_root(map.width, map.height)),
{
}

/// A room is dug whole, and on unwritten cells: after it has been dug,
/// every cell of it holds what the room puts there; the wall cell that it
/// was dug from has become floor; every other cell that differs from before
/// was unwritten before; and every write is pending.
pub proof fn lemma_dug_into(before: &MapBuilder, dig: Dig, map_width: usize, after: &MapBuilder)
    requires
        before.dug_into(dig, map_width, after),
    ensures
        after.working().len() == before.working().len(),
        before.working()[dig.start as int] == MapCell::Wall,
        after.working()[dig.start as int] == MapCell::Floor,
        forall|r: int, j: int|
            dig.has(r, j) ==> before.working()[#[trigger] dig.spot_index(r, j)] == MapCell::Null
                && after.working()[dig.spot_index(r, j)] == dig.value(r, j),
        forall|i: int|
            0 <= i < before.working().len() && i != dig.start && before.working()[i]
                != MapCell::Null ==> #[trigger] after.working()[i] == before.working()[i],
        after.pending().len() == before.pending().len() + 1 + dig.width * dig.height,
{
    let cells = before.working();
    lemma_dug(dig, cells);
    assert forall|r: int, j: int| dig.has(r, j) implies cells[#[trigger] dig.spot_index(r, j)]
        == MapCell::Null && after.working()[dig.spot_index(r, j)] == dig.value(r, j) by {
        lemma_dig_spot(dig, cells, r, j);
    }
    assert forall|i: int|
        0 <= i < cells.len() && i != dig.start && cells[i]
            != MapCell::Null implies #[trigger] after.working()[i] == cells[i] by {
        if dig.touches(i) {
            let (r, j) = choose|r: int, j: int|
                dig.has(r, j) && #[trigger] dig.spot_index(r, j) == i;
            lemma_dig_spot(dig, cells, r, j);
        }
    }
    assert(dig.height * dig.width == dig.width * dig.height) by (nonlinear_arith);
}

/// What a tick of the builder system asks of its caller.
#[derive(Clone, Copy, Debug, PartialEq, Eq, Structural)]
pub enum BuilderStep {
    /// Generation goes on. `announce` tells the tick that began it.
    Generating { announce: bool },
    /// Generation is over: the level is to be populated and the builder
    /// retired.
    Populate,
}

impl BuilderSystem {
    pub fn new() -> (s: BuilderSystem)
        ensures
            !s.can_create_entity,
    {
        BuilderSystem { can_create_entity: false }
    }

    /// One tick of generation. While fewer than a hundred steps are taken
    /// the builder takes one; then up to twenty-five pending writes are
    /// shown the map. Once the steps are taken and nothing is pending, the
    /// next tick asks for the level to be populated.
    pub fn run(&mut self, builder: &mut MapBuilder, map: &mut GridMap) -> (step: BuilderStep)
        requires
            old(map).wf(),
            old(map).vacant(),
            old(map).width >= 7,
            old(map).height >= 7,
            old(builder).inv(old(map)),
        ensures
            final(map).wf(),
            final(map).vacant(),
            final(builder).inv(final(map)),
            old(self).can_create_entity ==> {
                &&& step == BuilderStep::Populate
                &&& !final(self).can_create_entity
                &&& *final(builder) == *old(builder)
                &&& *final(map) == *old(map)
            },
            !old(self).can_create_entity ==> {
                &&& step == (BuilderStep::Generating { announce: old(builder).num_iterations == 0 })
                &&& final(self).can_create_entity == old(builder).complete()
                &&& old(builder).num_iterations >= GENERATION_STEPS ==> old(builder).shown_to(
                    old(map),
                    REVEALS_PER_TICK,
                    final(builder),
                    final(map),
                )
                &&& old(builder).num_iterations < GENERATION_STEPS ==> exists|mid: MapBuilder|
                    #![auto]
                    old(builder).step_of(old(map), &mid) && mid.shown_to(
                        old(map),
                        REVEALS_PER_TICK,
                        final(builder),
                        final(map),
                    )
            },
    {
        if self.can_create_entity {
            self.can_create_entity = false;
            return BuilderStep::Populate;
        }
        let announce = builder.num_iterations == 0;
        if builder.num_iterations < GENERATION_STEPS {
            builder.dig_feature(map);
        } else if builder.modified_cells.len() == 0 {
            self.can_create_entity = true;
        }
        let ghost mid = *builder;
        builder.show_pending(map, REVEALS_PER_TICK);
        BuilderStep::Generating { announce: announce }
    }
}

impl RenderSystem {
    pub fn new() -> (s: RenderSystem) {
        RenderSystem {  }
    }
}

} // verus!
