//! The application of attacks that have hit.

use vstd::prelude::*;
use vstd::string::StringExecFns;
use crate::util::text::{decimal, decimal_spec};
use crate::components::ai::ChaseBehavior;
use crate::components::combat::{Attack, DamageReduction};
use crate::components::health::Health;
use crate::components::position::Position;
use crate::util::random::random_in;

verus! {

/// The system that applies attacks. It keeps no state.
pub struct CombatSystem {}

/// What an attack did to its target.
#[derive(Clone, Copy, Debug, PartialEq, Eq)]
pub struct Wound {
    /// The damage as rolled.
    pub rolled: usize,
    /// The damage that was done, after the reduction.
    pub damage: usize,
    /// Whether the target has died of it.
    pub killed: bool,
    /// The pursuit that the target takes up, if it does.
    pub alerted: Option<ChaseBehavior>,
}

/// The damage that is left of `rolled` after the reduction of the target,
/// if it has one: no less than nothing.
pub open spec fn reduced(rolled: usize, reduction: Option<DamageReduction>) -> usize {
    match reduction {
        Some(r) => if rolled >= r.value {
            (rolled - r.value) as usize
        } else {
            0
        },
        None => rolled,
    }
}

/// What an attack that rolls `rolled` for its damage does to a target of
/// the given health. Damage of the health or more kills and leaves the
/// health as it is. Less is taken off the health; a target that is not the
/// player then takes up the pursuit of the attacker, where the attacker is
/// known to stand.
pub open spec fn wound_spec(
    rolled: usize,
    reduction: Option<DamageReduction>,
    health: Health,
    is_player: bool,
    source: Option<Position>,
) -> (Wound, Health) {
    let damage = reduced(rolled, reduction);
    if damage >= health.health {
        (Wound { rolled: rolled, damage: damage, killed: true, alerted: None }, health)
    } else {
        (
            Wound {
                rolled: rolled,
                damage: damage,
                killed: false,
                alerted: if !is_player && source is Some {
                    Some(ChaseBehavior { spotted: Some((source.unwrap().x, source.unwrap().y)) })
                } else {
                    None
                },
            },
            Health { health: (health.health - damage) as usize, ..health },
        )
    }
}

/// What the message log is told of a wound to a target that has
/// `left` health afterwards: first what the reduction of the target took
/// off, if it has one; then the damage, and that it killed or what health
/// is left.
pub open spec fn wound_lines(w: Wound, reduction: Option<DamageReduction>, left: usize) -> Seq<
    Seq<char>,
> {
    let first = if reduction is Some && reduction.unwrap().value > 0 {
        seq!["DR: "@ + decimal_spec(w.rolled as nat) + " -> "@ + decimal_spec(w.damage as nat)]
    } else {
        Seq::empty()
    };
    let second = if w.killed {
        "Hit for "@ + decimal_spec(w.damage as nat) + " damage, killed!"@
    } else {
        "Hit for "@ + decimal_spec(w.damage as nat) + " damage, "@ + decimal_spec(left as nat)
            + " left"@
    };
    first + seq![second]
}

impl Wound {
    /// What the message log is told of this wound.
    pub fn report(&self, reduction: Option<DamageReduction>, left: usize) -> (r: Vec<String>)
        ensures
            r@.len() == wound_lines(*self, reduction, left).len(),
            forall|k: int|
                0 <= k < r@.len() ==> (#[trigger] r@[k])@ == wound_lines(*self, reduction, left)[k],
    {
        let mut lines: Vec<String> = Vec::new();
        if let Some(dr) = reduction {
            if dr.value > 0 {
                lines.push(
                    String::from_str("DR: ").concat(decimal(self.rolled).as_str()).concat(
                        " -> ",
                    ).concat(decimal(self.damage).as_str()),
                );
            }
        }
        let head = String::from_str("Hit for ").concat(decimal(self.damage).as_str());
        if self.killed {
            lines.push(head.concat(" damage, killed!"));
        } else {
            lines.push(head.concat(" damage, ").concat(decimal(left).as_str()).concat(" left"));
        }
        proof {
            let expected = wound_lines(*self, reduction, left);
            assert(lines@.len() == expected.len());
            assert forall|k: int| 0 <= k < lines@.len() implies (#[trigger] lines@[k])@
                == expected[k] by {}
        }
        lines
    }
}

impl CombatSystem {
    pub fn new() -> (s: CombatSystem) {
        CombatSystem {  }
    }

    /// Applies an attack whose damage has been rolled.
    pub fn wound(
        rolled: usize,
        reduction: Option<DamageReduction>,
        health: &mut Health,
        is_player: bool,
        source: Option<Position>,
    ) -> (w: Wound)
        ensures
            (w, *final(health)) == wound_spec(rolled, reduction, *old(health), is_player, source),
    {
        let damage = match reduction {
            Some(r) => rolled.saturating_sub(r.value),
            None => rolled,
        };
        if damage >= health.health {
            Wound { rolled: rolled, damage: damage, killed: true, alerted: None }
        } else {
            let alerted = if is_player {
                None
            } else {
                match source {
                    Some(p) => Some(ChaseBehavior { spotted: Some((p.x, p.y)) }),
                    None => None,
                }
            };
            health.health = health.health - damage;
            Wound { rolled: rolled, damage: damage, killed: false, alerted: alerted }
        }
    }

    /// Applies an attack: rolls its damage, from the least that the attack
    /// can do up to, not including, the most, and wounds the target with
    /// it.
    pub fn strike(
        &self,
        attack: &Attack,
        reduction: Option<DamageReduction>,
        health: &mut Health,
        is_player: bool,
        source: Option<Position>,
    ) -> (w: Wound)
        requires
            attack.damage.0 < attack.damage.1,
        ensures
            attack.damage.0 <= w.rolled < attack.damage.1,
            (w, *final(health)) == wound_spec(w.rolled, reduction, *old(health), is_player, source),
    {
        let rolled = random_in(attack.damage.0, attack.damage.1);
        Self::wound(rolled, reduction, health, is_player, source)
    }
}

} // verus!
