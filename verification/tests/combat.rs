use roguegrid::components::combat::Attack;
use roguegrid::components::entity::Entity;
use roguegrid::components::health::{Cover, Health};
use roguegrid::components::map::{GridMap, MapCell};
use roguegrid::components::player::{Equip, Item, ItemKind, ItemSlot};
use roguegrid::components::position::Position;
use roguegrid::util::combat::{resolve, resolve_with_rolls, CombatResult};
use roguegrid::util::storage::Store;

fn floor_map(width: usize, height: usize) -> GridMap {
    let mut map = GridMap::new(width, height);
    for cell in map.map.iter_mut() {
        *cell = MapCell::Floor;
    }
    map
}

fn pistol() -> Item {
    Item {
        name: String::from("Pistol"),
        kind: ItemKind::Weapon { damage: (1, 4), accuracy: 700, range: 5 },
        slot: Some(ItemSlot::Primary),
    }
}

fn baton() -> Item {
    Item {
        name: String::from("Baton"),
        kind: ItemKind::Weapon { damage: (3, 4), accuracy: 800, range: 0 },
        slot: Some(ItemSlot::Secondary),
    }
}

fn armed() -> Equip {
    let mut equip = Equip::new();
    equip.equip(pistol());
    equip.equip(baton());
    equip
}

const ATTACKER: Entity = Entity { id: 1 };
const E: Entity = Entity { id: 2 };
const CRATE: Entity = Entity { id: 3 };

fn healthy(entities: &[Entity]) -> Store<Health> {
    let mut healths = Store::new();
    for &e in entities {
        healths.insert(e, Health::new(3, 3));
    }
    healths
}

#[test]
fn shot_hits_entity_in_the_line_of_fire() {
    let mut map = floor_map(8, 3);
    map.fill(E, 3, 0);
    let healths = healthy(&[E]);
    let covers: Store<Cover> = Store::new();
    let rolls = vec![300; 6];
    let result = resolve_with_rolls(
        &map, ATTACKER, &armed(), Position::new(0, 0), Position::new(5, 0), false, &healths, &covers, &rolls,
    );
    assert_eq!(
        result,
        CombatResult::HitEntity(E, Position::new(3, 0), Attack { damage: (1, 4), accuracy: 700, source: ATTACKER })
    );
}

#[test]
fn failed_roll_at_the_last_cell_is_a_miss() {
    let mut map = floor_map(8, 3);
    map.fill(E, 3, 0);
    let healths = healthy(&[E]);
    let covers: Store<Cover> = Store::new();
    let rolls = vec![950; 4];
    let result = resolve_with_rolls(
        &map, ATTACKER, &armed(), Position::new(0, 0), Position::new(3, 0), false, &healths, &covers, &rolls,
    );
    assert_eq!(result, CombatResult::Miss);
}

#[test]
fn failed_roll_before_the_last_cell_lets_the_shot_pass() {
    let mut map = floor_map(8, 3);
    map.fill(E, 3, 0);
    let healths = healthy(&[E]);
    let covers: Store<Cover> = Store::new();
    let rolls = vec![950; 6];
    let result = resolve_with_rolls(
        &map, ATTACKER, &armed(), Position::new(0, 0), Position::new(5, 0), false, &healths, &covers, &rolls,
    );
    assert_eq!(result, CombatResult::HitNothing);
}

#[test]
fn roll_equal_to_accuracy_does_not_hit() {
    let mut map = floor_map(8, 3);
    map.fill(E, 3, 0);
    let healths = healthy(&[E]);
    let covers: Store<Cover> = Store::new();
    let at = |roll: usize| {
        resolve_with_rolls(
            &map, ATTACKER, &armed(), Position::new(0, 0), Position::new(3, 0), false, &healths, &covers,
            &vec![roll; 4],
        )
    };
    assert_eq!(at(700), CombatResult::Miss);
    assert!(matches!(at(699), CombatResult::HitEntity(..)));
}

#[test]
fn empty_slot_is_nothing_equipped() {
    let map = floor_map(8, 3);
    let healths = healthy(&[]);
    let covers: Store<Cover> = Store::new();
    let result = resolve_with_rolls(
        &map, ATTACKER, &Equip::new(), Position::new(0, 0), Position::new(5, 0), false, &healths, &covers,
        &vec![0; 6],
    );
    assert_eq!(result, CombatResult::NothingEquipped);
    let mut only_pistol = Equip::new();
    only_pistol.equip(pistol());
    let melee = resolve(&map, ATTACKER, &only_pistol, Position::new(0, 0), Position::new(1, 0), true, &healths, &covers);
    assert_eq!(melee, CombatResult::NothingEquipped);
}

#[test]
fn melee_beyond_the_next_cell_is_out_of_range() {
    let mut map = floor_map(8, 3);
    map.fill(E, 3, 0);
    let healths = healthy(&[E]);
    let covers: Store<Cover> = Store::new();
    let result = resolve(&map, ATTACKER, &armed(), Position::new(0, 0), Position::new(3, 0), true, &healths, &covers);
    assert_eq!(result, CombatResult::OutOfRange);
    let empty_target = resolve(&map, ATTACKER, &armed(), Position::new(0, 0), Position::new(5, 0), true, &healths, &covers);
    assert_eq!(empty_target, CombatResult::OutOfRange);
    let diagonal = resolve(&map, ATTACKER, &armed(), Position::new(0, 0), Position::new(1, 1), true, &healths, &covers);
    assert_eq!(diagonal, CombatResult::OutOfRange);
}

#[test]
fn melee_at_the_next_cell_hits_or_misses() {
    let mut map = floor_map(8, 3);
    map.fill(E, 1, 0);
    let healths = healthy(&[E]);
    let covers: Store<Cover> = Store::new();
    let at = |roll: usize| {
        resolve_with_rolls(
            &map, ATTACKER, &armed(), Position::new(0, 0), Position::new(1, 0), true, &healths, &covers,
            &vec![roll; 2],
        )
    };
    // the next cell lies beyond range zero: 800 - 100 = 700
    assert_eq!(
        at(699),
        CombatResult::HitEntity(E, Position::new(1, 0), Attack { damage: (3, 4), accuracy: 800, source: ATTACKER })
    );
    assert_eq!(at(700), CombatResult::Miss);
}

#[test]
fn cover_in_the_way_lowers_the_accuracy() {
    let mut map = floor_map(8, 3);
    map.fill(CRATE, 2, 0);
    map.fill(E, 4, 0);
    let healths = healthy(&[E]);
    let mut covers: Store<Cover> = Store::new();
    covers.insert(CRATE, Cover::new(-200));
    let at = |roll: usize| {
        resolve_with_rolls(
            &map, ATTACKER, &armed(), Position::new(0, 0), Position::new(4, 0), false, &healths, &covers,
            &vec![roll; 5],
        )
    };
    assert!(matches!(at(499), CombatResult::HitEntity(e, _, _) if e == E));
    assert_eq!(at(500), CombatResult::Miss);
}

#[test]
fn cover_on_the_last_cell_gives_itself_no_cover() {
    let mut map = floor_map(8, 3);
    map.fill(CRATE, 3, 0);
    let healths = healthy(&[CRATE]);
    let mut covers: Store<Cover> = Store::new();
    covers.insert(CRATE, Cover::new(-200));
    let result = resolve_with_rolls(
        &map, ATTACKER, &armed(), Position::new(0, 0), Position::new(3, 0), false, &healths, &covers,
        &vec![699; 4],
    );
    assert!(matches!(result, CombatResult::HitEntity(e, _, _) if e == CRATE));
}

#[test]
fn occupant_without_health_cannot_be_hit() {
    let mut map = floor_map(8, 3);
    map.fill(E, 3, 0);
    let healths = healthy(&[]);
    let covers: Store<Cover> = Store::new();
    let result = resolve_with_rolls(
        &map, ATTACKER, &armed(), Position::new(0, 0), Position::new(3, 0), false, &healths, &covers,
        &vec![0; 4],
    );
    assert_eq!(result, CombatResult::Miss);
}

#[test]
fn every_cell_beyond_range_costs_a_hundred() {
    let mut map = floor_map(12, 3);
    map.fill(E, 8, 0);
    let healths = healthy(&[E]);
    let covers: Store<Cover> = Store::new();
    let at = |roll: usize| {
        resolve_with_rolls(
            &map, ATTACKER, &armed(), Position::new(0, 0), Position::new(8, 0), false, &healths, &covers,
            &vec![roll; 9],
        )
    };
    // cells 6, 7 and 8 lie beyond range 5: 700 - 300 = 400
    assert!(matches!(at(399), CombatResult::HitEntity(..)));
    assert_eq!(at(400), CombatResult::Miss);
}

#[test]
fn wall_in_the_way_stops_the_shot() {
    let mut map = floor_map(8, 3);
    map.map[2] = MapCell::Wall;
    map.fill(E, 4, 0);
    let healths = healthy(&[E]);
    let covers: Store<Cover> = Store::new();
    let result = resolve(&map, ATTACKER, &armed(), Position::new(0, 0), Position::new(4, 0), false, &healths, &covers);
    assert_eq!(result, CombatResult::HitEnvironment);
}

#[test]
fn free_line_of_fire_hits_nothing() {
    let map = floor_map(8, 3);
    let healths = healthy(&[]);
    let covers: Store<Cover> = Store::new();
    let result = resolve(&map, ATTACKER, &armed(), Position::new(0, 0), Position::new(4, 2), false, &healths, &covers);
    assert_eq!(result, CombatResult::HitNothing);
}

#[test]
fn drawn_rolls_decide_between_hit_and_pass() {
    let mut map = floor_map(8, 3);
    map.fill(E, 3, 0);
    let healths = healthy(&[E]);
    let covers: Store<Cover> = Store::new();
    for _ in 0..50 {
        let result = resolve(&map, ATTACKER, &armed(), Position::new(0, 0), Position::new(5, 0), false, &healths, &covers);
        assert!(matches!(result, CombatResult::HitNothing | CombatResult::HitEntity(..)));
    }
}
