//! Populating a level once it has been generated: the player in the middle
//! of the seed room, enemies away from the player, scenery wherever there
//! is room.

use vstd::prelude::*;
use crate::components::entity::Entity;
use crate::components::map::{cell_index, lemma_cell_index, lemma_index_cell, GridMap, MapCell};
use crate::components::map::BuilderSystem;
use crate::components::position::Position;
use crate::util::random::random_in;
use crate::util::{distance2_spec, distance2_within};

verus! {

/// How many enemies a level is given at most.
pub const ENEMY_COUNT: usize = 50;

/// How many pieces of scenery a level is given at most.
pub const COVER_COUNT: usize = 150;

/// The least squared distance between the start of the player and an
/// enemy.
pub const SAFE_DISTANCE2: usize = 49;

/// How many cells are sampled for one entity before it is given up.
pub const SAMPLES_PER_SPAWN: usize = 1000;

/// What kind of entity has been placed.
#[derive(Clone, Copy, Debug, PartialEq, Eq, Structural)]
pub enum SpawnKind {
    Player,
    Enemy,
    Cover,
}

/// An entity that has been placed on the map.
#[derive(Clone, Copy, Debug, PartialEq, Eq, Structural)]
pub struct Spawn {
    pub entity: Entity,
    pub kind: SpawnKind,
    pub position: Position,
}

/// Where the player starts: in the middle of the map, the centre of the
/// seed room.
pub open spec fn player_start(map: &GridMap) -> Position {
    Position { x: (map.width / 2) as usize, y: (map.height / 2) as usize }
}

/// Whether an entity can be placed on the cell `p` of a grid with the given
/// terrain and occupants: it is floor and free, and, where a cell is to be
/// shunned, at the safe distance from it or further.
pub open spec fn can_spawn_on(
    terrain: Seq<MapCell>,
    contents: Seq<Option<Entity>>,
    width: usize,
    height: usize,
    p: Position,
    shun: Option<Position>,
) -> bool {
    &&& p.x < width && p.y < height
    &&& terrain[cell_index(width as int, p.x as int, p.y as int)] == MapCell::Floor
    &&& contents[cell_index(width as int, p.x as int, p.y as int)] is None
    &&& shun is Some ==> distance2_spec((p.x, p.y), (shun.unwrap().x, shun.unwrap().y))
        >= SAFE_DISTANCE2
}

/// Whether an entity can be placed on the cell `p` of the map.
pub open spec fn can_spawn(map: &GridMap, p: Position, shun: Option<Position>) -> bool {
    can_spawn_on(map.map@, map.contents@, map.width, map.height, p, shun)
}

/// The cell of the given index on a grid of the given width.
pub open spec fn cell_at(width: usize, index: usize) -> Position {
    Position { x: (index % width) as usize, y: (index / width) as usize }
}

/// The cell that sampling finds with the draws from the `i`-th on: the cell
/// of the first draw on which an entity can be placed.
pub open spec fn sampled_on(
    terrain: Seq<MapCell>,
    contents: Seq<Option<Entity>>,
    width: usize,
    height: usize,
    shun: Option<Position>,
    draws: Seq<usize>,
    i: int,
) -> Option<Position>
    decreases draws.len() - i,
{
    if i < 0 || i >= draws.len() {
        None
    } else if can_spawn_on(terrain, contents, width, height, cell_at(width, draws[i]), shun) {
        Some(cell_at(width, draws[i]))
    } else {
        sampled_on(terrain, contents, width, height, shun, draws, i + 1)
    }
}

/// Whether sampling can come to `found`: with some draws of indices of
/// cells, a thousand at most, and no fewer where it finds nothing.
pub open spec fn sampling_gives(
    terrain: Seq<MapCell>,
    contents: Seq<Option<Entity>>,
    width: usize,
    height: usize,
    shun: Option<Position>,
    found: Option<Position>,
) -> bool {
    exists|draws: Seq<usize>|
        {
            &&& draws.len() <= SAMPLES_PER_SPAWN
            &&& forall|k: int| 0 <= k < draws.len() ==> draws[k] < terrain.len()
            &&& #[trigger] sampled_on(terrain, contents, width, height, shun, draws, 0) == found
            &&& found is None ==> draws.len() == SAMPLES_PER_SPAWN
        }
}

/// Draws on which no entity can be placed are passed over.
proof fn lemma_sampled_past(
    terrain: Seq<MapCell>,
    contents: Seq<Option<Entity>>,
    width: usize,
    height: usize,
    shun: Option<Position>,
    draws: Seq<usize>,
    i: int,
    n: int,
)
    requires
        0 <= i <= n <= draws.len(),
        forall|k: int|
            i <= k < n ==> !can_spawn_on(
                terrain,
                contents,
                width,
                height,
                cell_at(width, #[trigger] draws[k]),
                shun,
            ),
    ensures
        sampled_on(terrain, contents, width, height, shun, draws, i) == sampled_on(
            terrain,
            contents,
            width,
            height,
            shun,
            draws,
            n,
        ),
    decreases n - i,
{
    if i < n {
        assert(!can_spawn_on(terrain, contents, width, height, cell_at(width, draws[i]), shun));
        lemma_sampled_past(terrain, contents, width, height, shun, draws, i + 1, n);
    }
}

/// Where an entity can be placed on every cell of the grid, sampling finds
/// a cell: it fails only where some cell does not take an entity.
pub proof fn lemma_sampling_finds(
    terrain: Seq<MapCell>,
    contents: Seq<Option<Entity>>,
    width: usize,
    height: usize,
    shun: Option<Position>,
    found: Option<Position>,
)
    requires
        sampling_gives(terrain, contents, width, height, shun, found),
        forall|index: usize|
            index < terrain.len() ==> can_spawn_on(
                terrain,
                contents,
                width,
                height,
                #[trigger] cell_at(width, index),
                shun,
            ),
    ensures
        found is Some,
{
    let draws = choose|draws: Seq<usize>|
        {
            &&& draws.len() <= SAMPLES_PER_SPAWN
            &&& forall|k: int| 0 <= k < draws.len() ==> draws[k] < terrain.len()
            &&& #[trigger] sampled_on(terrain, contents, width, height, shun, draws, 0) == found
            &&& found is None ==> draws.len() == SAMPLES_PER_SPAWN
        };
    if found is None {
        assert(draws[0] < terrain.len());
        assert(can_spawn_on(terrain, contents, width, height, cell_at(width, draws[0]), shun));
    }
}

/// The occupants and the spawns once `entity` stands on the cell that was
/// found for it, if one was found.
pub open spec fn placing(
    contents: Seq<Option<Entity>>,
    spawns: Seq<Spawn>,
    width: usize,
    entity: Entity,
    kind: SpawnKind,
    found: Option<Position>,
) -> (Seq<Option<Entity>>, Seq<Spawn>) {
    match found {
        Some(p) => (
            contents.update(cell_index(width as int, p.x as int, p.y as int), Some(entity)),
            spawns.push(Spawn { entity: entity, kind: kind, position: p }),
        ),
        None => (contents, spawns),
    }
}

/// The occupants and the spawns once the entities of `entities` stand on
/// the cells that were found for them, each in its turn: `found[k]` is the
/// cell found for the `k`-th, if one was found.
pub open spec fn scattering(
    contents: Seq<Option<Entity>>,
    spawns: Seq<Spawn>,
    width: usize,
    entities: Seq<Entity>,
    kind: SpawnKind,
    found: Seq<Option<Position>>,
) -> (Seq<Option<Entity>>, Seq<Spawn>)
    decreases entities.len(),
{
    if entities.len() == 0 || found.len() == 0 {
        (contents, spawns)
    } else {
        let so_far = scattering(contents, spawns, width, entities.drop_last(), kind, found.drop_last());
        placing(so_far.0, so_far.1, width, entities.last(), kind, found.last())
    }
}

/// The index of the cell that a spawn stands on.
pub open spec fn spawn_index(width: usize, spawn: Spawn) -> int {
    cell_index(width as int, spawn.position.x as int, spawn.position.y as int)
}

/// Whether `after` is `before` with the entities of `spawns` placed: each
/// on a cell of its own that was free, no cell else changed.
pub open spec fn placed(
    before: Seq<Option<Entity>>,
    after: Seq<Option<Entity>>,
    width: usize,
    spawns: Seq<Spawn>,
) -> bool {
    &&& after.len() == before.len()
    &&& forall|k1: int, k2: int|
        0 <= k1 < k2 < spawns.len() ==> spawn_index(width, #[trigger] spawns[k1]) != spawn_index(
            width,
            #[trigger] spawns[k2],
        )
    &&& forall|k: int|
        0 <= k < spawns.len() ==> {
            let i = spawn_index(width, #[trigger] spawns[k]);
            0 <= i < before.len() && before[i] is None && after[i] == Some(spawns[k].entity)
        }
    &&& forall|i: int|
        0 <= i < before.len() && #[trigger] after[i] != before[i] ==> exists|k: int|
            0 <= k < spawns.len() && spawn_index(width, #[trigger] spawns[k]) == i
}

impl GridMap {
    /// The column and the row of the cell of the given index.
    pub fn cell_of(&self, index: usize) -> (p: Position)
        requires
            self.wf(),
            index < self.map@.len(),
        ensures
            self.in_bounds(p.x as int, p.y as int),
            cell_index(self.width as int, p.x as int, p.y as int) == index,
            p.x == index % self.width,
            p.y == index / self.width,
    {
        proof {
            if self.width == 0 {
                assert(self.width * self.height == 0) by (nonlinear_arith)
                    requires
                        self.width == 0,
                ;
            }
            lemma_index_cell(self.width as int, self.height as int, index as int);
        }
        Position { x: index % self.width, y: index / self.width }
    }
}

/// Decides whether an entity can be placed on the cell of the given index,
/// and gives the cell if so.
pub fn spawn_cell(map: &GridMap, index: usize, shun: Option<Position>) -> (r: Option<Position>)
    requires
        map.wf(),
        index < map.map@.len(),
    ensures
        r is Some <==> can_spawn(
            map,
            Position { x: index % map.width, y: index / map.width },
            shun,
        ),
        r is Some ==> r.unwrap() == (Position { x: index % map.width, y: index / map.width }),
{
    let p = map.cell_of(index);
    if !map.passable(p.x, p.y) {
        return None;
    }
    if let Some(s) = shun {
        if distance2_within((p.x, p.y), (s.x, s.y), SAFE_DISTANCE2 - 1) {
            return None;
        }
    }
    Some(p)
}

/// Samples cells of the map until one is found on which an entity can be
/// placed, a thousand at most. The result is the cell of the first draw on
/// which an entity can be placed, and nothing where a thousand draws give
/// no such cell.
pub fn sample_spawn_cell(map: &GridMap, shun: Option<Position>) -> (r: Option<Position>)
    requires
        map.wf(),
        map.map@.len() > 0,
    ensures
        r is Some ==> can_spawn(map, r.unwrap(), shun),
        sampling_gives(map.map@, map.contents@, map.width, map.height, shun, r),
{
    let mut attempt: usize = 0;
    let ghost mut draws: Seq<usize> = Seq::empty();
    while attempt < SAMPLES_PER_SPAWN
        invariant
            map.wf(),
            map.map@.len() > 0,
            0 <= attempt <= SAMPLES_PER_SPAWN,
            draws.len() == attempt,
            forall|k: int| 0 <= k < draws.len() ==> draws[k] < map.map@.len(),
            forall|k: int|
                0 <= k < draws.len() ==> !can_spawn_on(
                    map.map@,
                    map.contents@,
                    map.width,
                    map.height,
                    cell_at(map.width, #[trigger] draws[k]),
                    shun,
                ),
        decreases SAMPLES_PER_SPAWN - attempt,
    {
        let index = random_in(0, map.map.len());
        let found = spawn_cell(map, index, shun);
        let ghost passed = draws;
        proof {
            draws = draws.push(index);
        }
        if found.is_some() {
            proof {
                assert forall|k: int| 0 <= k < passed.len() implies !can_spawn_on(
                    map.map@,
                    map.contents@,
                    map.width,
                    map.height,
                    cell_at(map.width, #[trigger] draws[k]),
                    shun,
                ) by {
                    assert(draws[k] == passed[k]);
                }
                lemma_sampled_past(
                    map.map@,
                    map.contents@,
                    map.width,
                    map.height,
                    shun,
                    draws,
                    0,
                    passed.len() as int,
                );
                assert(sampled_on(
                    map.map@,
                    map.contents@,
                    map.width,
                    map.height,
                    shun,
                    draws,
                    0,
                ) == found);
            }
            return found;
        }
        proof {
            assert forall|k: int| 0 <= k < draws.len() implies !can_spawn_on(
                map.map@,
                map.contents@,
                map.width,
                map.height,
                cell_at(map.width, #[trigger] draws[k]),
                shun,
            ) by {
                if k < passed.len() {
                    assert(draws[k] == passed[k]);
                }
            }
        }
        attempt = attempt + 1;
    }
    proof {
        lemma_sampled_past(
            map.map@,
            map.contents@,
            map.width,
            map.height,
            shun,
            draws,
            0,
            draws.len() as int,
        );
        assert(sampled_on(map.map@, map.contents@, map.width, map.height, shun, draws, 0) is None);
    }
    None
}

impl BuilderSystem {
    /// Samples a cell for one entity of the given kind and, if one is found,
    /// puts the entity on it and notes it at the end of `spawns`.
    fn place(
        map: &mut GridMap,
        entity: Entity,
        kind: SpawnKind,
        shun: Option<Position>,
        spawns: &mut Vec<Spawn>,
        Ghost(before): Ghost<Seq<Option<Entity>>>,
    )
        requires
            old(map).wf(),
            old(map).map@.len() > 0,
            placed(before, old(map).contents@, old(map).width, old(spawns)@),
        ensures
            final(map).wf(),
            final(map).width == old(map).width,
            final(map).height == old(map).height,
            final(map).map@ == old(map).map@,
            placed(before, final(map).contents@, final(map).width, final(spawns)@),
            final(spawns)@ == old(spawns)@ || (final(spawns)@.len() == old(spawns)@.len() + 1
                && final(spawns)@.drop_last() == old(spawns)@ && final(spawns)@.last().entity
                == entity && final(spawns)@.last().kind == kind && can_spawn(
                old(map),
                final(spawns)@.last().position,
                shun,
            )),
            exists|found: Option<Position>|
                {
                    &&& #[trigger] sampling_gives(
                        old(map).map@,
                        old(map).contents@,
                        old(map).width,
                        old(map).height,
                        shun,
                        found,
                    )
                    &&& (final(map).contents@, final(spawns)@) == placing(
                        old(map).contents@,
                        old(spawns)@,
                        old(map).width,
                        entity,
                        kind,
                        found,
                    )
                },
    {
        let found = sample_spawn_cell(map, shun);
        match found {
            Some(p) => {
                let ghost held = map.contents@;
                let ghost noted = spawns@;
                proof {
                    lemma_cell_index(map.width as int, map.height as int, p.x as int, p.y as int);
                }
                map.fill(entity, p.x, p.y);
                let spawn = Spawn { entity: entity, kind: kind, position: p };
                spawns.push(spawn);
                proof {
                    let i = spawn_index(map.width, spawn);
                    assert(spawns@.drop_last() =~= noted);
                    assert forall|k1: int, k2: int| 0 <= k1 < k2 < spawns@.len() implies spawn_index(
                        map.width,
                        #[trigger] spawns@[k1],
                    ) != spawn_index(map.width, #[trigger] spawns@[k2]) by {
                        assert(spawns@[k1] == noted[k1]);
                        if k2 < noted.len() {
                            assert(spawns@[k2] == noted[k2]);
                        } else {
                            assert(held[spawn_index(map.width, noted[k1])] is Some);
                        }
                    }
                    assert forall|k: int| 0 <= k < spawns@.len() implies {
                        let j = spawn_index(map.width, #[trigger] spawns@[k]);
                        0 <= j < before.len() && before[j] is None && map.contents@[j] == Some(
                            spawns@[k].entity,
                        )
                    } by {
                        if k < noted.len() {
                            assert(spawns@[k] == noted[k]);
                        } else {
                            if before[i] != held[i] {
                                let k2 = choose|k2: int|
                                    0 <= k2 < noted.len() && spawn_index(
                                        map.width,
                                        #[trigger] noted[k2],
                                    ) == i;
                                assert(held[i] == Some(noted[k2].entity));
                            }
                        }
                    }
                    assert forall|j: int|
                        0 <= j < before.len() && #[trigger] map.contents@[j]
                            != before[j] implies exists|k: int|
                        0 <= k < spawns@.len() && spawn_index(map.width, #[trigger] spawns@[k])
                            == j by {
                        if j == i {
                            assert(spawn_index(map.width, spawns@[noted.len() as int]) == j);
                        } else {
                            assert(held[j] != before[j]);
                            let k2 = choose|k2: int|
                                0 <= k2 < noted.len() && spawn_index(map.width, #[trigger] noted[k2])
                                    == j;
                            assert(spawns@[k2] == noted[k2]);
                        }
                    }
                }
            },
            None => {},
        }
    }

    /// Samples a cell for every entity of `entities` in turn, on the map as
    /// it stands by then, and places each for which one is found.
    fn scatter(
        map: &mut GridMap,
        entities: &Vec<Entity>,
        kind: SpawnKind,
        shun: Option<Position>,
        spawns: &mut Vec<Spawn>,
        Ghost(before): Ghost<Seq<Option<Entity>>>,
    )
        requires
            old(map).wf(),
            old(map).map@.len() > 0,
            placed(before, old(map).contents@, old(map).width, old(spawns)@),
        ensures
            final(map).wf(),
            final(map).width == old(map).width,
            final(map).height == old(map).height,
            final(map).map@ == old(map).map@,
            placed(before, final(map).contents@, final(map).width, final(spawns)@),
            old(spawns)@.len() <= final(spawns)@.len() <= old(spawns)@.len() + entities@.len(),
            final(spawns)@.take(old(spawns)@.len() as int) == old(spawns)@,
            exists|found: Seq<Option<Position>>|
                {
                    &&& found.len() == entities@.len()
                    &&& (final(map).contents@, final(spawns)@) == #[trigger] scattering(
                        old(map).contents@,
                        old(spawns)@,
                        old(map).width,
                        entities@,
                        kind,
                        found,
                    )
                    &&& forall|k: int|
                        0 <= k < found.len() ==> sampling_gives(
                            old(map).map@,
                            scattering(
                                old(map).contents@,
                                old(spawns)@,
                                old(map).width,
                                entities@.take(k),
                                kind,
                                found.take(k),
                            ).0,
                            old(map).width,
                            old(map).height,
                            shun,
                            #[trigger] found[k],
                        )
                },
            forall|k: int|
                old(spawns)@.len() <= k < final(spawns)@.len() ==> {
                    &&& (#[trigger] final(spawns)@[k]).kind == kind
                    &&& entities@.contains(final(spawns)@[k].entity)
                    &&& final(map).in_bounds(
                        final(spawns)@[k].position.x as int,
                        final(spawns)@[k].position.y as int,
                    )
                    &&& final(map).terrain(
                        final(spawns)@[k].position.x as int,
                        final(spawns)@[k].position.y as int,
                    ) == MapCell::Floor
                    &&& shun is Some ==> distance2_spec(
                        (final(spawns)@[k].position.x, final(spawns)@[k].position.y),
                        (shun.unwrap().x, shun.unwrap().y),
                    ) >= SAFE_DISTANCE2
                },
    {
        let mut n: usize = 0;
        let ghost mut found: Seq<Option<Position>> = Seq::empty();
        assert(entities@.take(0) =~= Seq::<Entity>::empty());
        while n < entities.len()
            invariant
                0 <= n <= entities@.len(),
                map.wf(),
                map.map@.len() > 0,
                map.width == old(map).width,
                map.height == old(map).height,
                map.map@ == old(map).map@,
                found.len() == n,
                (map.contents@, spawns@) == scattering(
                    old(map).contents@,
                    old(spawns)@,
                    old(map).width,
                    entities@.take(n as int),
                    kind,
                    found,
                ),
                forall|k: int|
                    0 <= k < found.len() ==> sampling_gives(
                        old(map).map@,
                        scattering(
                            old(map).contents@,
                            old(spawns)@,
                            old(map).width,
                            entities@.take(k),
                            kind,
                            found.take(k),
                        ).0,
                        old(map).width,
                        old(map).height,
                        shun,
                        #[trigger] found[k],
                    ),
                placed(before, map.contents@, map.width, spawns@),
                old(spawns)@.len() <= spawns@.len() <= old(spawns)@.len() + n,
                spawns@.take(old(spawns)@.len() as int) == old(spawns)@,
                forall|k: int|
                    old(spawns)@.len() <= k < spawns@.len() ==> {
                        &&& (#[trigger] spawns@[k]).kind == kind
                        &&& entities@.contains(spawns@[k].entity)
                        &&& map.in_bounds(spawns@[k].position.x as int, spawns@[k].position.y as int)
                        &&& map.terrain(spawns@[k].position.x as int, spawns@[k].position.y as int)
                            == MapCell::Floor
                        &&& shun is Some ==> distance2_spec(
                            (spawns@[k].position.x, spawns@[k].position.y),
                            (shun.unwrap().x, shun.unwrap().y),
                        ) >= SAFE_DISTANCE2
                    },
            decreases entities@.len() - n,
        {
            let ghost noted = spawns@;
            let ghost held = map.contents@;
            let ghost sought = found;
            Self::place(map, entities[n], kind, shun, spawns, Ghost(before));
            proof {
                let f = choose|f: Option<Position>|
                    {
                        &&& #[trigger] sampling_gives(
                            map.map@,
                            held,
                            map.width,
                            map.height,
                            shun,
                            f,
                        )
                        &&& (map.contents@, spawns@) == placing(
                            held,
                            noted,
                            map.width,
                            entities@[n as int],
                            kind,
                            f,
                        )
                    };
                found = sought.push(f);
                assert(entities@.take(n + 1).drop_last() =~= entities@.take(n as int));
                assert(entities@.take(n + 1).last() == entities@[n as int]);
                assert(found.drop_last() =~= sought);
                assert forall|k: int| 0 <= k < found.len() implies sampling_gives(
                    old(map).map@,
                    scattering(
                        old(map).contents@,
                        old(spawns)@,
                        old(map).width,
                        entities@.take(k),
                        kind,
                        found.take(k),
                    ).0,
                    old(map).width,
                    old(map).height,
                    shun,
                    #[trigger] found[k],
                ) by {
                    if k < sought.len() {
                        assert(found.take(k) =~= sought.take(k));
                        assert(found[k] == sought[k]);
                    } else {
                        assert(found.take(k) =~= sought);
                    }
                }
                assert(entities@[n as int] == entities[n as int]);
                assert(spawns@.take(old(spawns)@.len() as int) =~= old(spawns)@) by {
                    if spawns@ != noted {
                        assert(spawns@.drop_last() == noted);
                        assert forall|k: int| 0 <= k < old(spawns)@.len() implies spawns@[k] == old(
                            spawns,
                        )@[k] by {
                            assert(noted[k] == noted.take(old(spawns)@.len() as int)[k]);
                            assert(spawns@.drop_last()[k] == spawns@[k]);
                        }
                    }
                }
                assert forall|k: int| old(spawns)@.len() <= k < spawns@.len() implies {
                    &&& (#[trigger] spawns@[k]).kind == kind
                    &&& entities@.contains(spawns@[k].entity)
                    &&& map.in_bounds(spawns@[k].position.x as int, spawns@[k].position.y as int)
                    &&& map.terrain(spawns@[k].position.x as int, spawns@[k].position.y as int)
                        == MapCell::Floor
                    &&& shun is Some ==> distance2_spec(
                        (spawns@[k].position.x, spawns@[k].position.y),
                        (shun.unwrap().x, shun.unwrap().y),
                    ) >= SAFE_DISTANCE2
                } by {
                    if k < noted.len() {
                        if spawns@ != noted {
                            assert(spawns@.drop_last()[k] == spawns@[k]);
                        }
                        assert(spawns@[k] == noted[k]);
                    }
                }
            }
            n = n + 1;
        }
        assert(entities@.take(entities@.len() as int) =~= entities@);
    }

    /// Populates a level: the player in the middle of the map, then each
    /// enemy on a free floor cell at the safe distance from there or
    /// further, then each piece of scenery on a free floor cell. An entity
    /// for which a thousand samples find no cell is left out. The result
    /// lists who was placed where, the player first.
    pub fn populate(
        map: &mut GridMap,
        player: Entity,
        enemies: &Vec<Entity>,
        scenery: &Vec<Entity>,
    ) -> (spawns: Vec<Spawn>)
        requires
            old(map).wf(),
            can_spawn(old(map), player_start(old(map)), None),
        ensures
            final(map).wf(),
            final(map).width == old(map).width,
            final(map).height == old(map).height,
            final(map).map@ == old(map).map@,
            placed(old(map).contents@, final(map).contents@, final(map).width, spawns@),
            1 <= spawns@.len() <= 1 + enemies@.len() + scenery@.len(),
            spawns@[0] == (Spawn {
                entity: player,
                kind: SpawnKind::Player,
                position: player_start(old(map)),
            }),
            forall|i: int, j: int|
                1 <= i < j < spawns@.len() && (#[trigger] spawns@[j]).kind == SpawnKind::Enemy ==> (
                #[trigger] spawns@[i]).kind == SpawnKind::Enemy,
            forall|k: int|
                1 <= k < spawns@.len() ==> {
                    &&& (#[trigger] spawns@[k]).kind != SpawnKind::Player
                    &&& spawns@[k].kind == SpawnKind::Enemy ==> enemies@.contains(spawns@[k].entity)
                        && distance2_spec(
                        (spawns@[k].position.x, spawns@[k].position.y),
                        (player_start(old(map)).x, player_start(old(map)).y),
                    ) >= SAFE_DISTANCE2
                    &&& spawns@[k].kind == SpawnKind::Cover ==> scenery@.contains(spawns@[k].entity)
                    &&& final(map).in_bounds(
                        spawns@[k].position.x as int,
                        spawns@[k].position.y as int,
                    )
                    &&& final(map).terrain(
                        spawns@[k].position.x as int,
                        spawns@[k].position.y as int,
                    ) == MapCell::Floor
                },
    {
        let ghost before = map.contents@;
        let start = Position { x: map.width / 2, y: map.height / 2 };
        let mut spawns: Vec<Spawn> = Vec::new();
        proof {
            lemma_cell_index(map.width as int, map.height as int, start.x as int, start.y as int);
        }
        map.fill(player, start.x, start.y);
        let first = Spawn { entity: player, kind: SpawnKind::Player, position: start };
        spawns.push(first);
        assert(placed(before, map.contents@, map.width, spawns@)) by {
            assert(spawn_index(map.width, spawns@[0]) == cell_index(
                map.width as int,
                start.x as int,
                start.y as int,
            ));
        }
        Self::scatter(map, enemies, SpawnKind::Enemy, Some(start), &mut spawns, Ghost(before));
        let ghost with_enemies = spawns@;
        assert(with_enemies[0] == with_enemies.take(1)[0]);
        Self::scatter(map, scenery, SpawnKind::Cover, None, &mut spawns, Ghost(before));
        proof {
            assert(start == player_start(old(map)));
            assert forall|k: int| 0 <= k < with_enemies.len() implies spawns@[k]
                == with_enemies[k] by {
                assert(spawns@.take(with_enemies.len() as int)[k] == spawns@[k]);
            }
            assert forall|i: int, j: int|
                1 <= i < j < spawns@.len() && (#[trigger] spawns@[j]).kind
                    == SpawnKind::Enemy implies (#[trigger] spawns@[i]).kind == SpawnKind::Enemy by {
                if j >= with_enemies.len() {
                    assert(spawns@[j].kind == SpawnKind::Cover);
                } else {
                    assert(spawns@[i] == with_enemies[i]);
                    assert(with_enemies[i].kind == SpawnKind::Enemy);
                }
            }
            assert forall|k: int| 1 <= k < spawns@.len() implies {
                &&& (#[trigger] spawns@[k]).kind != SpawnKind::Player
                &&& spawns@[k].kind == SpawnKind::Enemy ==> enemies@.contains(spawns@[k].entity)
                    && distance2_spec(
                    (spawns@[k].position.x, spawns@[k].position.y),
                    (player_start(old(map)).x, player_start(old(map)).y),
                ) >= SAFE_DISTANCE2
                &&& spawns@[k].kind == SpawnKind::Cover ==> scenery@.contains(spawns@[k].entity)
                &&& map.in_bounds(spawns@[k].position.x as int, spawns@[k].position.y as int)
                &&& map.terrain(spawns@[k].position.x as int, spawns@[k].position.y as int)
                    == MapCell::Floor
            } by {
                if k < with_enemies.len() {
                    assert(spawns@[k] == with_enemies[k]);
                    assert(with_enemies[k].kind == SpawnKind::Enemy);
                } else {
                    assert(spawns@[k].kind == SpawnKind::Cover);
                }
            }
        }
        spawns
    }
}

} // verus!
