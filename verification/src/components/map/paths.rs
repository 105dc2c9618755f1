//! Walks over floor: which cells of a grid can be reached from which.

use vstd::prelude::*;
use crate::components::map::MapCell;
use crate::components::map::util::step_spec;
use crate::util::Direction;

verus! {

/// Whether one step in some direction leads from the cell of the index `a`
/// to the cell of the index `b`.
pub open spec fn steps_to(len: usize, width: usize, a: usize, b: usize) -> bool {
    ||| step_spec(Direction::Up, len, width, a) == Some(b)
    ||| step_spec(Direction::Down, len, width, a) == Some(b)
    ||| step_spec(Direction::Left, len, width, a) == Some(b)
    ||| step_spec(Direction::Right, len, width, a) == Some(b)
}

/// Whether the two cells share an edge.
pub open spec fn neighbours(len: usize, width: usize, a: usize, b: usize) -> bool {
    steps_to(len, width, a, b) || steps_to(len, width, b, a)
}

/// Whether `walk` is a walk over floor: it holds at least one cell, every
/// cell of it is floor, and each shares an edge with the next.
pub open spec fn floor_walk(cells: Seq<MapCell>, width: usize, walk: Seq<usize>) -> bool {
    &&& walk.len() >= 1
    &&& forall|i: int|
        0 <= i < walk.len() ==> (#[trigger] walk[i]) < cells.len() && cells[walk[i] as int]
            == MapCell::Floor
    &&& forall|i: int|
        0 <= i < walk.len() - 1 ==> neighbours(
            cells.len() as usize,
            width,
            #[trigger] walk[i],
            walk[i + 1],
        )
}

/// Whether a walk over floor leads from `a` to `b`.
pub open spec fn linked(cells: Seq<MapCell>, width: usize, a: usize, b: usize) -> bool {
    exists|walk: Seq<usize>| #[trigger]
        floor_walk(cells, width, walk) && walk.first() == a && walk.last() == b
}

/// Whether every floor cell of the grid can be reached from `root` over
/// floor.
pub open spec fn floor_connected(cells: Seq<MapCell>, width: usize, root: usize) -> bool {
    forall|c: usize|
        c < cells.len() && #[trigger] cells[c as int] == MapCell::Floor ==> linked(
            cells,
            width,
            root,
            c,
        )
}

/// A floor cell is linked to itself.
pub proof fn lemma_linked_here(cells: Seq<MapCell>, width: usize, a: usize)
    requires
        a < cells.len(),
        cells[a as int] == MapCell::Floor,
    ensures
        linked(cells, width, a, a),
{
    let walk = seq![a];
    assert(floor_walk(cells, width, walk));
    assert(walk.first() == a && walk.last() == a);
}

/// A walk can be led on to a floor cell next to its end.
pub proof fn lemma_linked_on(cells: Seq<MapCell>, width: usize, a: usize, b: usize, c: usize)
    requires
        linked(cells, width, a, b),
        c < cells.len(),
        cells[c as int] == MapCell::Floor,
        neighbours(cells.len() as usize, width, b, c),
    ensures
        linked(cells, width, a, c),
{
    let walk = choose|walk: Seq<usize>| #[trigger]
        floor_walk(cells, width, walk) && walk.first() == a && walk.last() == b;
    let longer = walk.push(c);
    assert forall|i: int| 0 <= i < longer.len() - 1 implies neighbours(
        cells.len() as usize,
        width,
        #[trigger] longer[i],
        longer[i + 1],
    ) by {
        if i < walk.len() - 1 {
            assert(longer[i] == walk[i]);
            assert(longer[i + 1] == walk[i + 1]);
        }
    }
    assert(floor_walk(cells, width, longer));
    assert(longer.first() == a && longer.last() == c);
}

/// A walk stays a walk where no floor is taken away.
pub proof fn lemma_linked_kept(
    before: Seq<MapCell>,
    after: Seq<MapCell>,
    width: usize,
    a: usize,
    b: usize,
)
    requires
        linked(before, width, a, b),
        before.len() == after.len(),
        forall|i: int|
            0 <= i < before.len() && before[i] == MapCell::Floor ==> #[trigger] after[i]
                == MapCell::Floor,
    ensures
        linked(after, width, a, b),
{
    let walk = choose|walk: Seq<usize>| #[trigger]
        floor_walk(before, width, walk) && walk.first() == a && walk.last() == b;
    assert(floor_walk(after, width, walk));
}

} // verus!
