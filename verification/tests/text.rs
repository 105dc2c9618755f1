use roguegrid::components::combat::{Attack, DamageReduction};
use roguegrid::components::entity::Entity;
use roguegrid::components::health::Health;
use roguegrid::components::input::TurnGate;
use roguegrid::components::map::outfit::{enemy_equipment, enemy_loot, notice, outfit, player_equipment, terrain_glyph};
use roguegrid::components::map::spawn::SpawnKind;
use roguegrid::components::map::{BuilderStep, GridMap, MapCell};
use roguegrid::components::player::{Item, ItemKind, ItemSlot};
use roguegrid::components::position::Position;
use roguegrid::systems::combat::Wound;
use roguegrid::ui::list::ListRenderable;
use roguegrid::util::combat::CombatResult;
use roguegrid::util::text::decimal;

#[test]
fn numbers_in_decimal() {
    assert_eq!(decimal(0), "0");
    assert_eq!(decimal(7), "7");
    assert_eq!(decimal(10), "10");
    assert_eq!(decimal(1000), "1000");
    assert_eq!(decimal(9876543210), "9876543210");
    assert_eq!(decimal(usize::MAX), format!("{}", usize::MAX));
}

#[test]
fn items_describe_themselves() {
    let rifle = Item {
        name: String::from("Sniper Rifle"),
        kind: ItemKind::Weapon { damage: (2, 7), accuracy: 700, range: 7 },
        slot: Some(ItemSlot::Primary),
    };
    assert_eq!(rifle.render(), vec!["Sniper Rifle", "Damage: 2 to 6", "Accuracy: 700/1000", "Range: 7"]);
    let baton = Item {
        name: String::from("Stun Baton"),
        kind: ItemKind::Weapon { damage: (3, 4), accuracy: 800, range: 0 },
        slot: Some(ItemSlot::Secondary),
    };
    assert_eq!(baton.render(), vec!["Stun Baton", "Damage: 3 to 3", "Accuracy: 800/1000", "Range: Melee"]);
    let vest = Item {
        name: String::from("Kevlar Vest"),
        kind: ItemKind::Armor { health: 2, damage_reduction: 1 },
        slot: Some(ItemSlot::Body),
    };
    assert_eq!(vest.render(), vec!["Kevlar Vest", "Body Armor", "Health Bonus: 2", "Damage Reduction: 1"]);
    let rag = Item { name: String::from("Rag"), kind: ItemKind::Armor { health: 0, damage_reduction: 0 }, slot: None };
    assert_eq!(rag.render(), vec!["Rag", "Health Bonus: 0", "Damage Reduction: 0"]);
}

#[test]
fn results_of_attacks_are_reported() {
    let hit = CombatResult::HitEntity(
        Entity { id: 2 },
        Position::new(13, 4),
        Attack { damage: (1, 4), accuracy: 700, source: Entity { id: 1 } },
    );
    assert_eq!(hit.report(true), Some(String::from("Targeted 13, 4")));
    assert_eq!(hit.report(false), Some(String::from("Enemy targeted 13, 4")));
    assert_eq!(CombatResult::NothingEquipped.report(true), Some(String::from("You have nothing equipped!")));
    assert_eq!(CombatResult::NothingEquipped.report(false), None);
    assert_eq!(CombatResult::Miss.report(true), Some(String::from("You missed!")));
    assert_eq!(CombatResult::Miss.report(false), Some(String::from("Enemy missed!")));
    assert_eq!(CombatResult::HitNothing.report(true), Some(String::from("You hit nothing.")));
    assert_eq!(CombatResult::HitNothing.report(false), Some(String::from("Enemy hit nothing.")));
    assert_eq!(CombatResult::HitEnvironment.report(true), Some(String::from("You hit a wall.")));
    assert_eq!(CombatResult::HitEnvironment.report(false), Some(String::from("Enemy hit a wall.")));
    assert_eq!(
        CombatResult::OutOfRange.report(true),
        Some(String::from("You can't hit that with a melee weapon."))
    );
    assert_eq!(
        CombatResult::OutOfRange.report(false),
        Some(String::from("Enemy tried a melee weapon out of range."))
    );
}

#[test]
fn wounds_are_reported() {
    let w = Wound { rolled: 5, damage: 3, killed: false, alerted: None };
    assert_eq!(w.report(Some(DamageReduction { value: 2 }), 7), vec!["DR: 5 -> 3", "Hit for 3 damage, 7 left"]);
    assert_eq!(w.report(Some(DamageReduction { value: 0 }), 7), vec!["Hit for 3 damage, 7 left"]);
    let k = Wound { rolled: 5, damage: 5, killed: true, alerted: None };
    assert_eq!(k.report(None, 2), vec!["Hit for 5 damage, killed!"]);
}

#[test]
fn outfits_of_the_three_kinds() {
    let player = outfit(SpawnKind::Player);
    assert_eq!(player.health, Health { health: 10, base_health: 10, max_health: 10 });
    assert_eq!(player.reduction, Some(DamageReduction { value: 0 }));
    assert_eq!(player.equip, Some(player_equipment()));
    assert_eq!(
        player_equipment().primary,
        Some(Item {
            name: String::from("Xinhai Pistol"),
            kind: ItemKind::Weapon { damage: (1, 4), accuracy: 700, range: 5 },
            slot: Some(ItemSlot::Primary),
        })
    );
    assert!(!player.chases);
    assert_eq!(player.glyph, '@');
    let enemy = outfit(SpawnKind::Enemy);
    assert_eq!(enemy.health, Health::new(3, 3));
    assert_eq!(enemy.equip, Some(enemy_equipment()));
    assert_eq!(
        enemy_equipment().primary.unwrap().kind,
        ItemKind::Weapon { damage: (1, 2), accuracy: 600, range: 3 }
    );
    assert_eq!(enemy.loot, Some(enemy_loot()));
    assert!(enemy.chases);
    let loot = enemy_loot();
    assert_eq!(loot.chance, 400);
    let names: Vec<&str> = loot.items.iter().map(|i| i.name.as_str()).collect();
    assert_eq!(names, vec!["Stun Baton", "Sniper Rifle", "Shotgun", "Kevlar Vest"]);
    assert_eq!(loot.items[2].kind, ItemKind::Weapon { damage: (3, 7), accuracy: 600, range: 1 });
    let cover = outfit(SpawnKind::Cover);
    assert_eq!(cover.health, Health::new(1, 1));
    assert_eq!(cover.cover.unwrap().penalty, -200);
    assert_eq!(cover.equip, None);
    assert_eq!(cover.glyph, '▒');
}

#[test]
fn glyphs_and_notices() {
    assert_eq!(terrain_glyph(MapCell::Null), ' ');
    assert_eq!(terrain_glyph(MapCell::Wall), '#');
    assert_eq!(terrain_glyph(MapCell::Floor), '·');
    assert_eq!(notice(BuilderStep::Generating { announce: true }), Some("Generating map…"));
    assert_eq!(notice(BuilderStep::Generating { announce: false }), None);
    assert_eq!(notice(BuilderStep::Populate), Some("Placing player and enemies…"));
}

#[test]
fn well_formedness_can_be_asked() {
    let mut map = GridMap::new(3, 3);
    assert!(map.is_wf());
    assert!(map.holds(2, 2));
    assert!(!map.holds(3, 0));
    map.contents[4] = Some(Entity { id: 1 });
    assert!(!map.is_wf());
    map.map[4] = MapCell::Floor;
    assert!(map.is_wf());
    assert!(Position::new(1, 1).is_placed_on(&map));
    assert!(!Position::new(0, 1).is_placed_on(&map));
    assert!(!Position::new(5, 1).is_placed_on(&map));
    map.width = 4;
    assert!(!map.is_wf());
    let mut turns = TurnGate::new();
    assert!(turns.is_wf());
    assert!(!turns.is_running());
    turns.end_ai = true;
    assert!(!turns.is_wf());
    turns.ai_turn = true;
    assert!(turns.is_wf());
    turns.begin_ai = true;
    assert!(!turns.is_wf());
}
