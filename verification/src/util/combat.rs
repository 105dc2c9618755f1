//! The combat resolver: what comes of one attack along a line of fire.

use vstd::prelude::*;
use vstd::string::StringExecFns;
use crate::util::text::{decimal, decimal_spec};
use crate::components::combat::Attack;
use crate::components::entity::Entity;
use crate::components::health::{Cover, Health};
use crate::components::map::{GridMap, MapCell};
use crate::components::player::{Equip, ItemKind};
use crate::components::position::Position;
use crate::util::line::{bresenham, in_box, lemma_trace_in_box, trace};
use crate::util::random::random_in;
use crate::util::storage::HasStorage;
use crate::util::{distance2_beyond, distance2_spec, distance2_within};

verus! {

/// What came of an attack.
#[derive(Clone, Copy, Debug, PartialEq, Eq)]
pub enum CombatResult {
    /// The slot asked for holds no weapon.
    NothingEquipped,
    /// Somebody stood in the line of fire and was not hit.
    Miss,
    /// The line of fire was free from end to end.
    HitNothing,
    /// The line of fire ended on a cell that is not floor.
    HitEnvironment,
    /// The entity on the given cell was hit by the given attack.
    HitEntity(Entity, Position, Attack),
    /// A weapon of close combat was used beyond the next cell.
    OutOfRange,
}

/// What the message log is told of an attack, by the player or by an
/// enemy. Of an enemy with no weapon it is told nothing.
pub open spec fn report_spec(result: CombatResult, by_player: bool) -> Option<Seq<char>> {
    match result {
        CombatResult::NothingEquipped => if by_player {
            Some("You have nothing equipped!"@)
        } else {
            None
        },
        CombatResult::Miss => Some(
            if by_player {
                "You missed!"@
            } else {
                "Enemy missed!"@
            },
        ),
        CombatResult::HitNothing => Some(
            if by_player {
                "You hit nothing."@
            } else {
                "Enemy hit nothing."@
            },
        ),
        CombatResult::HitEnvironment => Some(
            if by_player {
                "You hit a wall."@
            } else {
                "Enemy hit a wall."@
            },
        ),
        CombatResult::HitEntity(_, cell, _) => Some(
            (if by_player {
                "Targeted "@
            } else {
                "Enemy targeted "@
            }) + decimal_spec(cell.x as nat) + ", "@ + decimal_spec(cell.y as nat),
        ),
        CombatResult::OutOfRange => Some(
            if by_player {
                "You can't hit that with a melee weapon."@
            } else {
                "Enemy tried a melee weapon out of range."@
            },
        ),
    }
}

impl CombatResult {
    /// What the message log is told of this result.
    pub fn report(&self, by_player: bool) -> (r: Option<String>)
        ensures
            r is Some <==> report_spec(*self, by_player) is Some,
            r is Some ==> r.unwrap()@ == report_spec(*self, by_player).unwrap(),
    {
        match self {
            CombatResult::NothingEquipped => if by_player {
                Some(String::from_str("You have nothing equipped!"))
            } else {
                None
            },
            CombatResult::Miss => Some(
                String::from_str(
                    if by_player {
                        "You missed!"
                    } else {
                        "Enemy missed!"
                    },
                ),
            ),
            CombatResult::HitNothing => Some(
                String::from_str(
                    if by_player {
                        "You hit nothing."
                    } else {
                        "Enemy hit nothing."
                    },
                ),
            ),
            CombatResult::HitEnvironment => Some(
                String::from_str(
                    if by_player {
                        "You hit a wall."
                    } else {
                        "Enemy hit a wall."
                    },
                ),
            ),
            CombatResult::HitEntity(_, cell, _) => {
                let head = String::from_str(
                    if by_player {
                        "Targeted "
                    } else {
                        "Enemy targeted "
                    },
                );
                Some(
                    head.concat(decimal(cell.x).as_str()).concat(", ").concat(
                        decimal(cell.y).as_str(),
                    ),
                )
            },
            CombatResult::OutOfRange => Some(
                String::from_str(
                    if by_player {
                        "You can't hit that with a melee weapon."
                    } else {
                        "Enemy tried a melee weapon out of range."
                    },
                ),
            ),
        }
    }
}

/// The number of outcomes of an accuracy roll: a roll is one of `0` to
/// `999`, and an attack of accuracy `a` hits on a roll below `a`.
pub const ROLL_SIDES: usize = 1000;

/// What is taken off the accuracy for every cell beyond the range of the
/// weapon.
pub const LONG_SHOT_PENALTY: i32 = 100;

/// One attack: what the weapon does, how far it reaches, and the line of
/// fire.
pub struct Shot {
    pub attack: Attack,
    pub range: usize,
    pub origin: Position,
    pub target: Position,
}

/// What the walk along the line of fire makes of one cell: an end, or the
/// penalty to go on with.
pub enum Verdict {
    Done(CombatResult),
    Onward(int),
}

/// The weapon that an attack is made with: the one in the secondary slot
/// in close combat, the one in the primary slot otherwise. An empty slot
/// gives none, and so does a slot that holds no weapon.
pub open spec fn armed(equip: &Equip, attacker: Entity, is_melee: bool) -> Option<(Attack, usize)> {
    let slot = if is_melee {
        equip.secondary
    } else {
        equip.primary
    };
    match slot {
        Some(item) => match item.kind {
            ItemKind::Weapon { damage, accuracy, range } => Some(
                (Attack { damage: damage, accuracy: accuracy, source: attacker }, range),
            ),
            ItemKind::Armor { .. } => None,
        },
        None => None,
    }
}

/// What the walk makes of the cell `cell`, which is not the origin, when
/// it comes to it with the penalty `penalty` and, if it needs one, rolls
/// `roll`. `last` tells the last cell of the line.
///
/// An occupant that gives cover adds its penalty unless it stands on the
/// last cell. A weapon of close combat is out of range beyond the squared
/// distance one. Beyond the range of the weapon the long shot penalty is
/// taken off. An occupant is hit where the roll lies below accuracy plus
/// penalty and it has health; where it is not hit, the attack is a miss on
/// the last cell and in close combat. A cell that is not floor stops the
/// attack.
pub open spec fn examine(
    shot: Shot,
    map: &GridMap,
    healths: Map<Entity, Health>,
    covers: Map<Entity, Cover>,
    cell: Position,
    last: bool,
    roll: usize,
    penalty: int,
) -> Verdict {
    let occupant = map.occupant(cell.x as int, cell.y as int);
    let covered = occupant is Some && !last && covers.contains_key(occupant.unwrap());
    let screened = if covered {
        penalty + covers[occupant.unwrap()].penalty
    } else {
        penalty
    };
    let d = distance2_spec((shot.origin.x, shot.origin.y), (cell.x, cell.y));
    if shot.range == 0 && d > 1 {
        Verdict::Done(CombatResult::OutOfRange)
    } else {
        let aimed = if d > shot.range * shot.range {
            screened - LONG_SHOT_PENALTY
        } else {
            screened
        };
        if occupant is Some && roll < shot.attack.accuracy + aimed && healths.contains_key(
            occupant.unwrap(),
        ) {
            Verdict::Done(CombatResult::HitEntity(occupant.unwrap(), cell, shot.attack))
        } else if occupant is Some && (last || (shot.range == 0 && d <= 1)) {
            Verdict::Done(CombatResult::Miss)
        } else if map.terrain(cell.x as int, cell.y as int) != MapCell::Floor {
            Verdict::Done(CombatResult::HitEnvironment)
        } else {
            Verdict::Onward(aimed)
        }
    }
}

/// What comes of the walk from the `i`-th cell of the line of fire on, with
/// the penalty `penalty`. The cell of the origin is passed over. The roll
/// for the `k`-th cell of the line, should the walk need one there, is
/// `rolls[k]`.
pub open spec fn walk_from(
    shot: Shot,
    map: &GridMap,
    healths: Map<Entity, Health>,
    covers: Map<Entity, Cover>,
    rolls: Seq<usize>,
    i: int,
    penalty: int,
) -> CombatResult
    decreases trace(shot.origin, shot.target).len() - i,
{
    let cells = trace(shot.origin, shot.target);
    if i < 0 || i >= cells.len() {
        CombatResult::HitNothing
    } else if cells[i] == shot.origin {
        walk_from(shot, map, healths, covers, rolls, i + 1, penalty)
    } else {
        match examine(shot, map, healths, covers, cells[i], i == cells.len() - 1, rolls[i], penalty) {
            Verdict::Done(result) => result,
            Verdict::Onward(p) => walk_from(shot, map, healths, covers, rolls, i + 1, p),
        }
    }
}

/// What comes of an attack of `attacker` from `origin` at `target`, given
/// the rolls.
pub open spec fn outcome(
    map: &GridMap,
    attacker: Entity,
    equip: &Equip,
    origin: Position,
    target: Position,
    is_melee: bool,
    healths: Map<Entity, Health>,
    covers: Map<Entity, Cover>,
    rolls: Seq<usize>,
) -> CombatResult {
    match armed(equip, attacker, is_melee) {
        Some((attack, range)) => walk_from(
            Shot { attack: attack, range: range, origin: origin, target: target },
            map,
            healths,
            covers,
            rolls,
            0,
            0,
        ),
        None => CombatResult::NothingEquipped,
    }
}

/// Whether `rolls` can hold the rolls of an attack along the line from
/// `origin` to `target`: one for each cell of the line.
pub open spec fn rolls_for(rolls: Seq<usize>, origin: Position, target: Position) -> bool {
    rolls.len() == trace(origin, target).len()
}

/// Whether `full` begins with `used`.
pub open spec fn begins_with(full: Seq<usize>, used: Seq<usize>) -> bool {
    used.len() <= full.len() && forall|k: int| 0 <= k < used.len() ==> full[k] == used[k]
}

/// Where the walk has come to the `i`-th cell of the line with a penalty,
/// and that cell ends it, the attack ends so.
proof fn lemma_walk_ends(
    shot: Shot,
    map: &GridMap,
    healths: Map<Entity, Health>,
    covers: Map<Entity, Cover>,
    rolls: Seq<usize>,
    i: int,
    penalty: int,
    result: CombatResult,
)
    requires
        0 <= i < trace(shot.origin, shot.target).len(),
        trace(shot.origin, shot.target)[i] != shot.origin,
        walk_from(shot, map, healths, covers, rolls, 0, 0) == walk_from(
            shot,
            map,
            healths,
            covers,
            rolls,
            i,
            penalty,
        ),
        examine(
            shot,
            map,
            healths,
            covers,
            trace(shot.origin, shot.target)[i],
            i == trace(shot.origin, shot.target).len() - 1,
            rolls[i],
            penalty,
        ) == Verdict::Done(result),
    ensures
        walk_from(shot, map, healths, covers, rolls, 0, 0) == result,
{
}

/// An attack from an empty slot comes to nothing, whatever else is given.
pub proof fn lemma_empty_slot(
    map: &GridMap,
    attacker: Entity,
    equip: &Equip,
    origin: Position,
    target: Position,
    is_melee: bool,
    healths: Map<Entity, Health>,
    covers: Map<Entity, Cover>,
    rolls: Seq<usize>,
)
    requires
        (if is_melee {
            equip.secondary
        } else {
            equip.primary
        }) is None,
    ensures
        outcome(map, attacker, equip, origin, target, is_melee, healths, covers, rolls)
            == CombatResult::NothingEquipped,
{
}

/// Whether `cell` is at hand from `origin`: at a squared distance of one at
/// most.
pub open spec fn at_hand(origin: Position, cell: Position) -> bool {
    distance2_spec((origin.x, origin.y), (cell.x, cell.y)) <= 1
}

/// Whether something at hand stops an attack from `origin` at `target`
/// before the line of fire leaves the cells at hand: a cell other than the
/// origin, at hand like every cell of the line before it, on which somebody
/// stands or which is not floor.
pub open spec fn stopped_at_hand(map: &GridMap, origin: Position, target: Position) -> bool {
    let cells = trace(origin, target);
    exists|j: int|
        {
            &&& 0 <= j < cells.len()
            &&& #[trigger] cells[j] != origin
            &&& (map.occupant(cells[j].x as int, cells[j].y as int) is Some || map.terrain(
                cells[j].x as int,
                cells[j].y as int,
            ) != MapCell::Floor)
            &&& forall|k: int| 0 <= k <= j ==> at_hand(origin, #[trigger] cells[k])
        }
}

proof fn lemma_walk_out_of_range(
    shot: Shot,
    map: &GridMap,
    healths: Map<Entity, Health>,
    covers: Map<Entity, Cover>,
    rolls: Seq<usize>,
    i: int,
    penalty: int,
)
    requires
        shot.range == 0,
        !stopped_at_hand(map, shot.origin, shot.target),
        0 <= i <= trace(shot.origin, shot.target).len(),
        forall|k: int| 0 <= k < i ==> at_hand(shot.origin, #[trigger] trace(shot.origin, shot.target)[k]),
        exists|k: int|
            i <= k < trace(shot.origin, shot.target).len() && !at_hand(
                shot.origin,
                #[trigger] trace(shot.origin, shot.target)[k],
            ),
    ensures
        walk_from(shot, map, healths, covers, rolls, i, penalty) == CombatResult::OutOfRange,
    decreases trace(shot.origin, shot.target).len() - i,
{
    let cells = trace(shot.origin, shot.target);
    if i < cells.len() {
        let cell = cells[i];
        if at_hand(shot.origin, cell) {
            assert forall|k: int| 0 <= k < i + 1 implies at_hand(shot.origin, #[trigger] cells[k]) by {
                if k == i {
                } else {
                    assert(at_hand(shot.origin, cells[k]));
                }
            }
            if cell == shot.origin {
                lemma_walk_out_of_range(shot, map, healths, covers, rolls, i + 1, penalty);
            } else {
                let v = examine(shot, map, healths, covers, cell, i == cells.len() - 1, rolls[i], penalty);
                assert(cells[i] != shot.origin);
                assert(v is Onward);
                lemma_walk_out_of_range(shot, map, healths, covers, rolls, i + 1, v->Onward_0);
            }
        }
    }
}

/// A weapon of close combat used on a target beyond the next cell is out
/// of range, whatever is rolled, unless something at hand stops the attack
/// first.
pub proof fn lemma_melee_out_of_range(
    map: &GridMap,
    attacker: Entity,
    equip: &Equip,
    origin: Position,
    target: Position,
    is_melee: bool,
    healths: Map<Entity, Health>,
    covers: Map<Entity, Cover>,
    rolls: Seq<usize>,
)
    requires
        armed(equip, attacker, is_melee) is Some,
        armed(equip, attacker, is_melee).unwrap().1 == 0,
        !at_hand(origin, target),
        !stopped_at_hand(map, origin, target),
    ensures
        outcome(map, attacker, equip, origin, target, is_melee, healths, covers, rolls)
            == CombatResult::OutOfRange,
{
    let found = armed(equip, attacker, is_melee).unwrap();
    let shot = Shot { attack: found.0, range: found.1, origin: origin, target: target };
    let cells = trace(origin, target);
    if origin.x == target.x && origin.y > target.y {
        crate::util::line::lemma_trace_up_a_column(origin, target);
        assert(!at_hand(origin, cells[0]));
    } else {
        crate::util::line::lemma_trace_ends(origin, target);
        assert(!at_hand(origin, cells[cells.len() - 1]));
    }
    lemma_walk_out_of_range(shot, map, healths, covers, rolls, 0, 0);
}

proof fn lemma_walk_stopped(
    shot: Shot,
    map: &GridMap,
    healths: Map<Entity, Health>,
    covers: Map<Entity, Cover>,
    rolls: Seq<usize>,
    i: int,
    penalty: int,
    j: int,
)
    requires
        shot.range == 0,
        0 <= i <= j < trace(shot.origin, shot.target).len(),
        trace(shot.origin, shot.target)[j] != shot.origin,
        map.occupant(
            trace(shot.origin, shot.target)[j].x as int,
            trace(shot.origin, shot.target)[j].y as int,
        ) is Some || map.terrain(
            trace(shot.origin, shot.target)[j].x as int,
            trace(shot.origin, shot.target)[j].y as int,
        ) != MapCell::Floor,
        forall|k: int| 0 <= k <= j ==> at_hand(shot.origin, #[trigger] trace(shot.origin, shot.target)[k]),
    ensures
        walk_from(shot, map, healths, covers, rolls, i, penalty) != CombatResult::OutOfRange,
    decreases j - i,
{
    let cells = trace(shot.origin, shot.target);
    assert(at_hand(shot.origin, cells[i]));
    if cells[i] == shot.origin {
        lemma_walk_stopped(shot, map, healths, covers, rolls, i + 1, penalty, j);
    } else {
        let v = examine(shot, map, healths, covers, cells[i], i == cells.len() - 1, rolls[i], penalty);
        if v is Onward {
            lemma_walk_stopped(shot, map, healths, covers, rolls, i + 1, v->Onward_0, j);
        }
    }
}

/// Where something at hand stops an attack with a weapon of close combat,
/// the attack is not out of range, whatever is rolled: it hits, misses or
/// ends on what is not floor.
pub proof fn lemma_melee_stopped_at_hand(
    map: &GridMap,
    attacker: Entity,
    equip: &Equip,
    origin: Position,
    target: Position,
    is_melee: bool,
    healths: Map<Entity, Health>,
    covers: Map<Entity, Cover>,
    rolls: Seq<usize>,
)
    requires
        armed(equip, attacker, is_melee) is Some,
        armed(equip, attacker, is_melee).unwrap().1 == 0,
        stopped_at_hand(map, origin, target),
    ensures
        outcome(map, attacker, equip, origin, target, is_melee, healths, covers, rolls)
            != CombatResult::OutOfRange,
{
    let found = armed(equip, attacker, is_melee).unwrap();
    let shot = Shot { attack: found.0, range: found.1, origin: origin, target: target };
    let cells = trace(origin, target);
    let j = choose|j: int|
        {
            &&& 0 <= j < cells.len()
            &&& #[trigger] cells[j] != origin
            &&& (map.occupant(cells[j].x as int, cells[j].y as int) is Some || map.terrain(
                cells[j].x as int,
                cells[j].y as int,
            ) != MapCell::Floor)
            &&& forall|k: int| 0 <= k <= j ==> at_hand(origin, #[trigger] cells[k])
        };
    lemma_walk_stopped(shot, map, healths, covers, rolls, 0, 0, j);
}

fn weapon(equip: &Equip, attacker: Entity, is_melee: bool) -> (w: Option<(Attack, usize)>)
    ensures
        w == armed(equip, attacker, is_melee),
{
    let slot = if is_melee {
        &equip.secondary
    } else {
        &equip.primary
    };
    match slot {
        Some(item) => match item.kind {
            ItemKind::Weapon { damage, accuracy, range } => Some(
                (Attack { damage: damage, accuracy: accuracy, source: attacker }, range),
            ),
            ItemKind::Armor { .. } => None,
        },
        None => None,
    }
}

/// Walks the line of fire. Where `forced` holds rolls they are used, the
/// `k`-th for the `k`-th cell of the line; otherwise a roll is drawn at
/// every occupied cell that the walk comes to within range.
fn walk<H: HasStorage<Health>, C: HasStorage<Cover>>(
    map: &GridMap,
    attacker: Entity,
    equip: &Equip,
    origin: Position,
    target: Position,
    is_melee: bool,
    targetable: &H,
    cover: &C,
    forced: Option<&Vec<usize>>,
) -> (res: (CombatResult, Ghost<Seq<usize>>))
    requires
        map.wf(),
        map.in_bounds(origin.x as int, origin.y as int),
        map.in_bounds(target.x as int, target.y as int),
        forced is Some ==> rolls_for(forced.unwrap()@, origin, target),
    ensures
        rolls_for(res.1@, origin, target),
        forced is Some ==> res.1@ == forced.unwrap()@,
        forced is None ==> forall|k: int| 0 <= k < res.1@.len() ==> res.1@[k] < ROLL_SIDES,
        res.0 == outcome(
            map,
            attacker,
            equip,
            origin,
            target,
            is_melee,
            targetable.contents(),
            cover.contents(),
            res.1@,
        ),
{
    let points = bresenham(origin, target);
    let ghost n = points@.len() as int;
    let ghost zeros = Seq::new(n as nat, |k: int| 0usize);
    let (attack, range) = match weapon(equip, attacker, is_melee) {
        Some(found) => found,
        None => {
            let ghost rolls = match forced {
                Some(given) => given@,
                None => zeros,
            };
            return (CombatResult::NothingEquipped, Ghost(rolls));
        },
    };
    let ghost shot = Shot { attack: attack, range: range, origin: origin, target: target };
    let ghost mut used: Seq<usize> = Seq::empty();
    let mut penalty: i128 = 0;
    let mut index: usize = 0;
    proof {
        lemma_trace_in_box(origin, target);
    }
    while index < points.len()
        invariant
            map.wf(),
            map.in_bounds(origin.x as int, origin.y as int),
            map.in_bounds(target.x as int, target.y as int),
            points@ == trace(origin, target),
            n == points@.len(),
            armed(equip, attacker, is_melee) == Some((attack, range)),
            shot == (Shot { attack: attack, range: range, origin: origin, target: target }),
            forall|i: int| 0 <= i < n ==> in_box(origin, target, #[trigger] points@[i]),
            0 <= index <= n,
            used.len() == index,
            forced is Some ==> forced.unwrap()@.len() == n && begins_with(forced.unwrap()@, used),
            forced is None ==> forall|k: int| 0 <= k < used.len() ==> used[k] < ROLL_SIDES,
            -index * 0x1_0000_0000 <= penalty <= index * 0x1_0000_0000,
            forall|full: Seq<usize>|
                full.len() == n && begins_with(full, used) ==> #[trigger] walk_from(
                    shot,
                    map,
                    targetable.contents(),
                    cover.contents(),
                    full,
                    0,
                    0,
                ) == walk_from(shot, map, targetable.contents(), cover.contents(), full, index as int, penalty as int),
        decreases n - index,
    {
        let cell = points[index];
        let last = index == points.len() - 1;
        let ghost before = penalty as int;
        let ghost drawn = used;
        assert(in_box(origin, target, cell));
        if cell == origin {
            proof {
                used = used.push(
                    match forced {
                        Some(given) => given@[index as int],
                        None => 0usize,
                    },
                );
            }
        } else {
            let occupant = map.contents(cell.x, cell.y);
            if let Some(entity) = occupant {
                if !last {
                    if let Some(c) = cover.get(entity) {
                        penalty = penalty + c.penalty as i128;
                    }
                }
            }
            if range == 0 && !distance2_within((origin.x, origin.y), (cell.x, cell.y), 1) {
                let ghost rolls = match forced {
                    Some(given) => given@,
                    None => used + Seq::new((n - index) as nat, |k: int| 0usize),
                };
                proof {
                    assert(begins_with(rolls, used));
                    lemma_walk_ends(
                        shot,
                        map,
                        targetable.contents(),
                        cover.contents(),
                        rolls,
                        index as int,
                        before,
                        CombatResult::OutOfRange,
                    );
                }
                return (CombatResult::OutOfRange, Ghost(rolls));
            }
            if distance2_beyond((origin.x, origin.y), (cell.x, cell.y), range) {
                penalty = penalty - LONG_SHOT_PENALTY as i128;
            }
            let mut roll: usize = 0;
            if let Some(entity) = occupant {
                roll = match forced {
                    Some(given) => given[index],
                    None => random_in(0, ROLL_SIDES),
                };
                let hit = (roll as i128) < attack.accuracy as i128 + penalty && targetable.check(
                    entity,
                );
                let ghost rolls = match forced {
                    Some(given) => given@,
                    None => used.push(roll) + Seq::new((n - index - 1) as nat, |k: int| 0usize),
                };
                if hit {
                    proof {
                        assert(begins_with(rolls, used));
                        assert(rolls[index as int] == roll);
                        lemma_walk_ends(
                            shot,
                            map,
                            targetable.contents(),
                            cover.contents(),
                            rolls,
                            index as int,
                            before,
                            CombatResult::HitEntity(entity, cell, attack),
                        );
                    }
                    return (CombatResult::HitEntity(entity, cell, attack), Ghost(rolls));
                } else if last || (range == 0 && distance2_within(
                    (origin.x, origin.y),
                    (cell.x, cell.y),
                    1,
                )) {
                    proof {
                        assert(begins_with(rolls, used));
                        assert(rolls[index as int] == roll);
                        lemma_walk_ends(
                            shot,
                            map,
                            targetable.contents(),
                            cover.contents(),
                            rolls,
                            index as int,
                            before,
                            CombatResult::Miss,
                        );
                    }
                    return (CombatResult::Miss, Ghost(rolls));
                }
            }
            proof {
                used = used.push(
                    match forced {
                        Some(given) => given@[index as int],
                        None => roll,
                    },
                );
            }
            if !map.occupable(cell.x, cell.y) {
                let ghost rolls = match forced {
                    Some(given) => given@,
                    None => used + Seq::new((n - index - 1) as nat, |k: int| 0usize),
                };
                proof {
                    assert(begins_with(rolls, drawn));
                    assert(rolls[index as int] == used[index as int]);
                    lemma_walk_ends(
                        shot,
                        map,
                        targetable.contents(),
                        cover.contents(),
                        rolls,
                        index as int,
                        before,
                        CombatResult::HitEnvironment,
                    );
                }
                return (CombatResult::HitEnvironment, Ghost(rolls));
            }
        }
        proof {
            assert forall|full: Seq<usize>|
                full.len() == n && begins_with(full, used) implies #[trigger] walk_from(
                shot,
                map,
                targetable.contents(),
                cover.contents(),
                full,
                0,
                0,
            ) == walk_from(shot, map, targetable.contents(), cover.contents(), full, index + 1, penalty as int) by {
                assert(begins_with(full, drawn));
                assert(full[index as int] == used[index as int]);
            }
        }
        index = index + 1;
    }
    let ghost rolls = match forced {
        Some(given) => given@,
        None => used,
    };
    proof {
        assert(forced is Some ==> used =~= forced.unwrap()@);
        assert(begins_with(rolls, used));
    }
    (CombatResult::HitNothing, Ghost(rolls))
}

/// Resolves an attack of `attacker` from `origin` at `target` with the
/// rolls given: `rolls[k]` is the roll for the `k`-th cell of the line of
/// fire, used if the walk comes to that cell and somebody stands there.
pub fn resolve_with_rolls<H: HasStorage<Health>, C: HasStorage<Cover>>(
    map: &GridMap,
    attacker: Entity,
    equip: &Equip,
    origin: Position,
    target: Position,
    is_melee: bool,
    targetable: &H,
    cover: &C,
    rolls: &Vec<usize>,
) -> (result: CombatResult)
    requires
        map.wf(),
        map.in_bounds(origin.x as int, origin.y as int),
        map.in_bounds(target.x as int, target.y as int),
        rolls_for(rolls@, origin, target),
    ensures
        result == outcome(
            map,
            attacker,
            equip,
            origin,
            target,
            is_melee,
            targetable.contents(),
            cover.contents(),
            rolls@,
        ),
{
    let (result, _) = walk(
        map,
        attacker,
        equip,
        origin,
        target,
        is_melee,
        targetable,
        cover,
        Some(rolls),
    );
    result
}

/// Resolves an attack of `attacker` from `origin` at `target`, rolling at
/// every occupied cell that the walk comes to within range. Whatever is
/// rolled, the result is the outcome for some rolls below a thousand.
pub fn resolve<H: HasStorage<Health>, C: HasStorage<Cover>>(
    map: &GridMap,
    attacker: Entity,
    equip: &Equip,
    origin: Position,
    target: Position,
    is_melee: bool,
    targetable: &H,
    cover: &C,
) -> (result: CombatResult)
    requires
        map.wf(),
        map.in_bounds(origin.x as int, origin.y as int),
        map.in_bounds(target.x as int, target.y as int),
    ensures
        exists|rolls: Seq<usize>|
            {
                &&& rolls_for(rolls, origin, target)
                &&& forall|k: int| 0 <= k < rolls.len() ==> rolls[k] < ROLL_SIDES
                &&& result == #[trigger] outcome(
                    map,
                    attacker,
                    equip,
                    origin,
                    target,
                    is_melee,
                    targetable.contents(),
                    cover.contents(),
                    rolls,
                )
            },
{
    let (result, Ghost(rolls)) = walk(
        map,
        attacker,
        equip,
        origin,
        target,
        is_melee,
        targetable,
        cover,
        None,
    );
    result
}

} // verus!
