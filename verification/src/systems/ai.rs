//! The pass of the others: pursuit of the player, and the end of the dead.

use vstd::prelude::*;
use crate::components::ai::ChaseBehavior;
use crate::components::entity::Entity;
use crate::components::health::{Cover, Health};
use crate::components::input::{OffsetMovable, TurnGate};
use crate::components::map::{cell_index, GridMap};
use crate::components::player::{DropsLoot, Equip, Item};
use crate::components::position::Position;
use crate::util::combat::{outcome, resolve, rolls_for, CombatResult, ROLL_SIDES};
use crate::util::random::{pick_item, random_in};
use crate::util::storage::HasStorage;
use crate::util::{distance2_spec, distance2_within};

verus! {

/// The squared distance below which an entity notices the player.
pub const SIGHT2: usize = 25;

/// The squared distance below which an entity attacks what it pursues.
pub const REACH2: usize = 9;

/// The system that makes the pass of the others. It keeps no state.
pub struct AiSystem {}

/// The system that removes the dead. It keeps no state.
pub struct DeadSystem {}

/// What one entity did in a pass.
#[derive(Clone, Copy, Debug, PartialEq, Eq)]
pub enum ChaseAction {
    /// It knows of nobody to pursue.
    Idle,
    /// It attacked, with the given result.
    Attacked(CombatResult),
    /// It went one step towards where it last knew the player to be.
    Moved,
    /// It could go no step, and gave the pursuit up.
    Forgot,
}

/// What the pursuer knows once it has looked for the player: where the
/// player is, if that is in sight, and what it knew before otherwise.
pub open spec fn sighted(
    spotted: Option<(usize, usize)>,
    position: Position,
    player: (usize, usize),
) -> Option<(usize, usize)> {
    if distance2_spec(player, (position.x, position.y)) < SIGHT2 {
        Some(player)
    } else {
        spotted
    }
}

/// Whether the pursuer attacks: what it pursues is within reach and
/// somebody stands there.
pub open spec fn attacks(map: &GridMap, position: Position, goal: (usize, usize)) -> bool {
    &&& distance2_spec(goal, (position.x, position.y)) < REACH2
    &&& map.occupant(goal.0 as int, goal.1 as int) is Some
}

/// The sign of `to - from`.
pub open spec fn toward(from: usize, to: usize) -> int {
    if to > from {
        1
    } else if to < from {
        -1
    } else {
        0
    }
}

fn heading(from: usize, to: usize) -> (d: i32)
    ensures
        d == toward(from, to),
{
    if to > from {
        1
    } else if to < from {
        -1
    } else {
        0
    }
}

impl AiSystem {
    pub fn new() -> (s: AiSystem) {
        AiSystem {  }
    }

    /// Asks the handshake whether a pass is owed, and takes it on if so. Where
    /// none is owed, nothing is to be done this tick.
    pub fn begin(&self, gate: &mut TurnGate) -> (go: bool)
        requires
            old(gate).wf(),
        ensures
            final(gate).wf(),
            go == old(gate).begin_ai,
            go ==> final(gate).running(),
            !go ==> *final(gate) == *old(gate),
    {
        gate.ai_may_begin()
    }

    /// Tells the handshake that the pass has been made.
    pub fn finish(&self, gate: &mut TurnGate)
        requires
            old(gate).wf(),
            old(gate).running(),
        ensures
            final(gate).wf(),
            final(gate).end_ai,
            !final(gate).begin_ai,
            final(gate).ai_turn,
    {
        gate.ai_done()
    }

    /// The part of one entity in a pass. It notes the player if the player
    /// is in sight. If it knows where to go, it attacks the player where
    /// its goal is within reach and somebody stands there; otherwise it
    /// goes one step towards its goal, along the row if it can, else along
    /// the column; if it can go neither, it gives the pursuit up.
    pub fn chase<H: HasStorage<Health>, C: HasStorage<Cover>>(
        &self,
        map: &mut GridMap,
        me: Entity,
        chaser: &mut ChaseBehavior,
        position: &mut Position,
        equip: &Equip,
        player_position: (usize, usize),
        healths: &H,
        covers: &C,
    ) -> (action: ChaseAction)
        requires
            old(map).wf(),
            old(position).placed_on(old(map)),
            old(map).in_bounds(player_position.0 as int, player_position.1 as int),
            old(chaser).spotted is Some ==> old(map).in_bounds(
                old(chaser).spotted.unwrap().0 as int,
                old(chaser).spotted.unwrap().1 as int,
            ),
        ensures
            final(map).wf(),
            final(position).placed_on(final(map)),
            final(map).width == old(map).width,
            final(map).height == old(map).height,
            final(map).map@ == old(map).map@,
            ({
                let goal = sighted(old(chaser).spotted, *old(position), player_position);
                match goal {
                    None => {
                        &&& action == ChaseAction::Idle
                        &&& final(chaser).spotted is None
                        &&& *final(position) == *old(position)
                        &&& *final(map) == *old(map)
                    },
                    Some(g) => if attacks(old(map), *old(position), g) {
                        &&& final(chaser).spotted == goal
                        &&& *final(position) == *old(position)
                        &&& *final(map) == *old(map)
                        &&& exists|rolls: Seq<usize>|
                            {
                                &&& rolls_for(
                                    rolls,
                                    *old(position),
                                    Position { x: player_position.0, y: player_position.1 },
                                )
                                &&& forall|k: int| 0 <= k < rolls.len() ==> rolls[k] < ROLL_SIDES
                                &&& action == ChaseAction::Attacked(
                                    #[trigger] outcome(
                                        old(map),
                                        me,
                                        equip,
                                        *old(position),
                                        Position { x: player_position.0, y: player_position.1 },
                                        false,
                                        healths.contents(),
                                        covers.contents(),
                                        rolls,
                                    ),
                                )
                            }
                    } else {
                        let dx = toward(old(position).x, g.0);
                        let dy = toward(old(position).y, g.1);
                        let along_row = dx != 0 && old(position).can_reach(
                            old(map),
                            old(position).x + dx,
                            old(position).y as int,
                        );
                        let along_column = dy != 0 && old(position).can_reach(
                            old(map),
                            old(position).x as int,
                            old(position).y + dy,
                        );
                        if along_row {
                            &&& action == ChaseAction::Moved
                            &&& final(chaser).spotted == goal
                            &&& final(position).x == old(position).x + dx
                            &&& final(position).y == old(position).y
                            &&& final(map).contents@ == old(position).contents_after_move(
                                old(map),
                                old(position).x + dx,
                                old(position).y as int,
                            )
                        } else if along_column {
                            &&& action == ChaseAction::Moved
                            &&& final(chaser).spotted == goal
                            &&& final(position).x == old(position).x
                            &&& final(position).y == old(position).y + dy
                            &&& final(map).contents@ == old(position).contents_after_move(
                                old(map),
                                old(position).x as int,
                                old(position).y + dy,
                            )
                        } else {
                            &&& action == ChaseAction::Forgot
                            &&& final(chaser).spotted is None
                            &&& *final(position) == *old(position)
                            &&& *final(map) == *old(map)
                        }
                    },
                }
            }),
    {
        if !distance2_within(player_position, (position.x, position.y), SIGHT2 - 1) {
        } else {
            chaser.spotted = Some(player_position);
        }
        let (x, y) = match chaser.spotted {
            Some(goal) => goal,
            None => {
                return ChaseAction::Idle;
            },
        };
        if distance2_within((x, y), (position.x, position.y), REACH2 - 1) {
            if map.contents(x, y).is_some() {
                let result = resolve(
                    map,
                    me,
                    equip,
                    *position,
                    Position::new(player_position.0, player_position.1),
                    false,
                    healths,
                    covers,
                );
                return ChaseAction::Attacked(result);
            }
        }
        let dx = heading(position.x, x);
        let dy = heading(position.y, y);
        if dx != 0 {
            if position.move_by((dx, 0), map).is_ok() {
                return ChaseAction::Moved;
            }
        }
        if dy != 0 {
            if position.move_by((0, dy), map).is_ok() {
                return ChaseAction::Moved;
            }
        }
        chaser.spotted = None;
        ChaseAction::Forgot
    }
}

/// What is left of an entity that has died.
#[derive(Clone, Debug, PartialEq, Eq)]
pub enum Remains {
    /// The player has died: the game is over.
    GameOver,
    /// Nothing.
    Nothing,
    /// The given item, on the cell where the entity died.
    Loot(Item),
}

/// What an entity leaves behind for the given rolls: with a roll below the
/// chance of its table the item that was picked from it.
pub open spec fn loot_for(table: Option<&DropsLoot>, roll: usize, picked: Option<&Item>) -> Remains {
    match table {
        Some(t) => if roll < t.chance {
            match picked {
                Some(item) => Remains::Loot(*item),
                None => Remains::Nothing,
            }
        } else {
            Remains::Nothing
        },
        None => Remains::Nothing,
    }
}

impl DeadSystem {
    pub fn new() -> (s: DeadSystem) {
        DeadSystem {  }
    }

    /// Takes a dead entity off the map, on which it must stand, and decides
    /// what is left of it. The player leaves the end of the game; any other entity with a table of
    /// loot leaves one item of it, picked at random, with the chance of the
    /// table out of a thousand.
    pub fn bury(
        &self,
        map: &mut GridMap,
        position: &Position,
        is_player: bool,
        table: Option<&DropsLoot>,
    ) -> (remains: Remains)
        requires
            old(map).wf(),
            position.placed_on(old(map)),
        ensures
            final(map).wf(),
            final(map).width == old(map).width,
            final(map).height == old(map).height,
            final(map).map@ == old(map).map@,
            final(map).contents@ == old(map).contents@.update(
                cell_index(old(map).width as int, position.x as int, position.y as int),
                None,
            ),
            is_player ==> remains == Remains::GameOver,
            !is_player && table is None ==> remains == Remains::Nothing,
            !is_player && table is Some ==> remains == Remains::Nothing || (exists|k: int|
                0 <= k < table.unwrap().items@.len() && remains == Remains::Loot(
                    #[trigger] table.unwrap().items@[k],
                )),
    {
        map.vacate(position.x, position.y);
        if is_player {
            return Remains::GameOver;
        }
        match table {
            Some(t) => {
                let roll = random_in(0, ROLL_SIDES);
                let picked = if roll < t.chance {
                    pick_item(&t.items)
                } else {
                    None
                };
                Self::settle(table, roll, picked)
            },
            None => Remains::Nothing,
        }
    }

    /// Decides what an entity other than the player leaves behind, given
    /// the roll against the chance of its table and the item picked from
    /// it.
    pub fn settle(table: Option<&DropsLoot>, roll: usize, picked: Option<&Item>) -> (remains:
        Remains)
        ensures
            remains == loot_for(table, roll, picked),
    {
        match table {
            Some(t) => if roll < t.chance {
                match picked {
                    Some(item) => Remains::Loot(item.duplicate()),
                    None => Remains::Nothing,
                }
            } else {
                Remains::Nothing
            },
            None => Remains::Nothing,
        }
    }

    /// Puts what an entity left behind on the cell where it died.
    pub fn leave(&self, map: &mut GridMap, corpse: Entity, position: &Position) -> (left: bool)
        requires
            old(map).wf(),
            old(map).in_bounds(position.x as int, position.y as int),
        ensures
            final(map).wf(),
            final(map).width == old(map).width,
            final(map).height == old(map).height,
            final(map).map@ == old(map).map@,
            left == position.can_reach(old(map), position.x as int, position.y as int),
            left ==> final(map).contents@ == old(map).contents@.update(
                cell_index(old(map).width as int, position.x as int, position.y as int),
                Some(corpse),
            ),
            !left ==> *final(map) == *old(map),
    {
        if map.passable(position.x, position.y) {
            map.fill(corpse, position.x, position.y);
            true
        } else {
            false
        }
    }
}

} // verus!
