//! What the entities of a level are given when they are placed.

use vstd::prelude::*;
use vstd::string::StringExecFns;
use crate::components::combat::DamageReduction;
use crate::components::health::{Cover, Health};
use crate::components::map::spawn::SpawnKind;
use crate::components::map::{BuilderStep, MapCell};
use crate::components::player::{DropsLoot, Equip, Item, ItemKind, ItemSlot};

verus! {

/// What an entity is given: its health, and the rest as far as its kind
/// has it.
pub struct Outfit {
    pub health: Health,
    pub reduction: Option<DamageReduction>,
    pub equip: Option<Equip>,
    pub loot: Option<DropsLoot>,
    pub cover: Option<Cover>,
    /// Whether the entity pursues the player.
    pub chases: bool,
    /// The character that stands for the entity on the map.
    pub glyph: char,
}

/// Whether `item` is the weapon of the given name and numbers for the
/// given slot.
pub open spec fn is_weapon(
    item: Item,
    name: Seq<char>,
    damage: (usize, usize),
    accuracy: usize,
    range: usize,
    slot: ItemSlot,
) -> bool {
    &&& item.name@ == name
    &&& item.kind == (ItemKind::Weapon { damage: damage, accuracy: accuracy, range: range })
    &&& item.slot == Some(slot)
}

fn weapon(name: &str, damage: (usize, usize), accuracy: usize, range: usize, slot: ItemSlot) -> (item:
    Item)
    ensures
        is_weapon(item, name@, damage, accuracy, range, slot),
{
    Item {
        name: String::from_str(name),
        kind: ItemKind::Weapon { damage: damage, accuracy: accuracy, range: range },
        slot: Some(slot),
    }
}

/// What the player starts with: a pistol in hand.
pub fn player_equipment() -> (e: Equip)
    ensures
        e.primary is Some,
        is_weapon(e.primary.unwrap(), "Xinhai Pistol"@, (1, 4), 700, 5, ItemSlot::Primary),
        e.secondary is None && e.head is None && e.body is None && e.legs is None && e.feet is None,
{
    Equip {
        primary: Some(weapon("Xinhai Pistol", (1, 4), 700, 5, ItemSlot::Primary)),
        secondary: None,
        head: None,
        body: None,
        legs: None,
        feet: None,
    }
}

/// What an enemy starts with: a weaker pistol in hand.
pub fn enemy_equipment() -> (e: Equip)
    ensures
        e.primary is Some,
        is_weapon(e.primary.unwrap(), "Subduction Pistol"@, (1, 2), 600, 3, ItemSlot::Primary),
        e.secondary is None && e.head is None && e.body is None && e.legs is None && e.feet is None,
{
    Equip {
        primary: Some(weapon("Subduction Pistol", (1, 2), 600, 3, ItemSlot::Primary)),
        secondary: None,
        head: None,
        body: None,
        legs: None,
        feet: None,
    }
}

/// What an enemy may leave behind: with four hundred thousandths a baton,
/// a rifle, a shotgun or a vest.
pub fn enemy_loot() -> (d: DropsLoot)
    ensures
        d.chance == 400,
        d.items@.len() == 4,
        is_weapon(d.items@[0], "Stun Baton"@, (3, 4), 800, 0, ItemSlot::Secondary),
        is_weapon(d.items@[1], "Sniper Rifle"@, (2, 7), 700, 7, ItemSlot::Primary),
        is_weapon(d.items@[2], "Shotgun"@, (3, 7), 600, 1, ItemSlot::Primary),
        d.items@[3].name@ == "Kevlar Vest"@,
        d.items@[3].kind == (ItemKind::Armor { health: 2, damage_reduction: 1 }),
        d.items@[3].slot == Some(ItemSlot::Body),
{
    let mut items: Vec<Item> = Vec::new();
    items.push(weapon("Stun Baton", (3, 4), 800, 0, ItemSlot::Secondary));
    items.push(weapon("Sniper Rifle", (2, 7), 700, 7, ItemSlot::Primary));
    items.push(weapon("Shotgun", (3, 7), 600, 1, ItemSlot::Primary));
    items.push(
        Item {
            name: String::from_str("Kevlar Vest"),
            kind: ItemKind::Armor { health: 2, damage_reduction: 1 },
            slot: Some(ItemSlot::Body),
        },
    );
    DropsLoot::new(400, items)
}

/// What an entity of the given kind is given when it is placed. The
/// player has ten health, no reduction of damage and a pistol. An enemy
/// has three health, a pistol and loot, and pursues. Scenery has one
/// health and gives cover.
pub fn outfit(kind: SpawnKind) -> (o: Outfit)
    ensures
        match kind {
            SpawnKind::Player => {
                &&& o.health == (Health { health: 10, base_health: 10, max_health: 10 })
                &&& o.reduction == Some(DamageReduction { value: 0 })
                &&& o.equip is Some
                &&& o.loot is None
                &&& o.cover is None
                &&& !o.chases
                &&& o.glyph == '@'
            },
            SpawnKind::Enemy => {
                &&& o.health == (Health { health: 3, base_health: 3, max_health: 3 })
                &&& o.reduction is None
                &&& o.equip is Some
                &&& o.loot is Some
                &&& o.loot.unwrap().chance == 400
                &&& o.cover is None
                &&& o.chases
                &&& o.glyph == 'e'
            },
            SpawnKind::Cover => {
                &&& o.health == (Health { health: 1, base_health: 1, max_health: 1 })
                &&& o.reduction is None
                &&& o.equip is None
                &&& o.loot is None
                &&& o.cover is Some
                &&& o.cover.unwrap().penalty == -200
                &&& !o.chases
                &&& o.glyph == '\u{2592}'
            },
        },
{
    match kind {
        SpawnKind::Player => Outfit {
            health: Health::new(10, 10),
            reduction: Some(DamageReduction { value: 0 }),
            equip: Some(player_equipment()),
            loot: None,
            cover: None,
            chases: false,
            glyph: '@',
        },
        SpawnKind::Enemy => Outfit {
            health: Health::new(3, 3),
            reduction: None,
            equip: Some(enemy_equipment()),
            loot: Some(enemy_loot()),
            cover: None,
            chases: true,
            glyph: 'e',
        },
        SpawnKind::Cover => Outfit {
            health: Health::new(1, 1),
            reduction: None,
            equip: None,
            loot: None,
            cover: Some(Cover::new(-200)),
            chases: false,
            glyph: '\u{2592}',
        },
    }
}

/// The character that stands for a cell of the map.
pub fn terrain_glyph(cell: MapCell) -> (c: char)
    ensures
        c == (match cell {
            MapCell::Null => ' ',
            MapCell::Wall => '#',
            MapCell::Floor => '\u{b7}',
        }),
{
    match cell {
        MapCell::Null => ' ',
        MapCell::Wall => '#',
        MapCell::Floor => '\u{b7}',
    }
}

/// What the message log is told on a tick of generation: that it begins,
/// on its first tick, and that the level is populated, at its end.
pub fn notice(step: BuilderStep) -> (r: Option<&'static str>)
    ensures
        match step {
            BuilderStep::Generating { announce } => if announce {
                r is Some && r.unwrap()@ == "Generating map\u{2026}"@
            } else {
                r is None
            },
            BuilderStep::Populate => r is Some && r.unwrap()@ == "Placing player and enemies\u{2026}"@,
        },
{
    match step {
        BuilderStep::Generating { announce } => if announce {
            Some("Generating map\u{2026}")
        } else {
            None
        },
        BuilderStep::Populate => Some("Placing player and enemies\u{2026}"),
    }
}

} // verus!
