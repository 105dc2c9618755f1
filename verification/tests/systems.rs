use roguegrid::components::ai::ChaseBehavior;
use roguegrid::components::camera::{Camera, Point};
use roguegrid::components::combat::{Attack, DamageReduction};
use roguegrid::components::entity::Entity;
use roguegrid::components::health::{Cover, Health};
use roguegrid::components::map::{GridMap, MapCell};
use roguegrid::components::player::{DropsLoot, Equip, Item, ItemKind, ItemSlot};
use roguegrid::components::position::Position;
use roguegrid::screen::game::{map_cell_under, SubGameScreen};
use roguegrid::screen::{latest, StateTransition, SubScreenEvent};
use roguegrid::systems::ai::{AiSystem, ChaseAction, DeadSystem, Remains};
use roguegrid::systems::combat::{CombatSystem, Wound};
use roguegrid::systems::ui::{MessagesPanelSystem, Placement};
use roguegrid::ui::list::List;
use roguegrid::util::combat::CombatResult;
use roguegrid::util::storage::{HasStorage, Store};

fn floor_map(width: usize, height: usize) -> GridMap {
    let mut map = GridMap::new(width, height);
    for cell in map.map.iter_mut() {
        *cell = MapCell::Floor;
    }
    map
}

fn pistol() -> Item {
    Item {
        name: String::from("Subduction Pistol"),
        kind: ItemKind::Weapon { damage: (1, 2), accuracy: 600, range: 3 },
        slot: Some(ItemSlot::Primary),
    }
}

const PLAYER: Entity = Entity { id: 0 };
const ENEMY: Entity = Entity { id: 1 };

#[test]
fn enemy_out_of_sight_stays_idle() {
    let mut map = floor_map(20, 20);
    map.fill(PLAYER, 10, 10);
    map.fill(ENEMY, 15, 10);
    let mut chaser = ChaseBehavior::new();
    let mut position = Position::new(15, 10);
    let action = AiSystem::new().chase(
        &mut map, ENEMY, &mut chaser, &mut position, &Equip::new(), (10, 10), &Store::new(), &Store::new(),
    );
    assert_eq!(action, ChaseAction::Idle);
    assert_eq!(chaser.spotted, None);
    assert_eq!(position, Position::new(15, 10));
}

#[test]
fn enemy_in_sight_comes_closer_along_the_row_first() {
    let mut map = floor_map(20, 20);
    map.fill(PLAYER, 10, 10);
    map.fill(ENEMY, 14, 12);
    let mut chaser = ChaseBehavior::new();
    let mut position = Position::new(14, 12);
    let ai = AiSystem::new();
    let action = ai.chase(
        &mut map, ENEMY, &mut chaser, &mut position, &Equip::new(), (10, 10), &Store::new(), &Store::new(),
    );
    assert_eq!(action, ChaseAction::Moved);
    assert_eq!(chaser.spotted, Some((10, 10)));
    assert_eq!(position, Position::new(13, 12));
    assert_eq!(map.contents(13, 12), Some(ENEMY));
    assert_eq!(map.contents(14, 12), None);
    // with the row blocked it goes along the column
    map.map[12 * 20 + 12] = MapCell::Wall;
    let action = ai.chase(
        &mut map, ENEMY, &mut chaser, &mut position, &Equip::new(), (10, 10), &Store::new(), &Store::new(),
    );
    assert_eq!(action, ChaseAction::Moved);
    assert_eq!(position, Position::new(13, 11));
}

#[test]
fn enemy_that_cannot_move_forgets() {
    let mut map = floor_map(20, 20);
    map.fill(ENEMY, 14, 10);
    map.map[10 * 20 + 13] = MapCell::Wall;
    let mut chaser = ChaseBehavior { spotted: Some((3, 10)) };
    let mut position = Position::new(14, 10);
    let action = AiSystem::new().chase(
        &mut map, ENEMY, &mut chaser, &mut position, &Equip::new(), (0, 0), &Store::new(), &Store::new(),
    );
    assert_eq!(action, ChaseAction::Forgot);
    assert_eq!(chaser.spotted, None);
    assert_eq!(position, Position::new(14, 10));
}

#[test]
fn enemy_within_reach_attacks() {
    let mut map = floor_map(20, 20);
    map.fill(PLAYER, 10, 10);
    map.fill(ENEMY, 12, 10);
    let mut chaser = ChaseBehavior::new();
    let mut position = Position::new(12, 10);
    let mut healths = Store::new();
    healths.insert(PLAYER, Health::new(10, 10));
    let covers: Store<Cover> = Store::new();
    let ai = AiSystem::new();
    let unarmed = ai.chase(&mut map, ENEMY, &mut chaser, &mut position, &Equip::new(), (10, 10), &healths, &covers);
    assert_eq!(unarmed, ChaseAction::Attacked(CombatResult::NothingEquipped));
    let mut equip = Equip::new();
    equip.equip(pistol());
    let mut hits = 0;
    for _ in 0..200 {
        match ai.chase(&mut map, ENEMY, &mut chaser, &mut position, &equip, (10, 10), &healths, &covers) {
            ChaseAction::Attacked(CombatResult::HitEntity(target, cell, attack)) => {
                assert_eq!(target, PLAYER);
                assert_eq!(cell, Position::new(10, 10));
                assert_eq!(attack, Attack { damage: (1, 2), accuracy: 600, source: ENEMY });
                hits += 1;
            }
            ChaseAction::Attacked(CombatResult::Miss) => {}
            other => panic!("{:?}", other),
        }
    }
    assert!(hits > 0 && hits < 200);
    assert_eq!(position, Position::new(12, 10));
}

#[test]
fn wounds() {
    let mut health = Health::new(5, 5);
    let w = CombatSystem::wound(3, None, &mut health, false, Some(Position::new(4, 6)));
    assert_eq!(
        w,
        Wound { rolled: 3, damage: 3, killed: false, alerted: Some(ChaseBehavior { spotted: Some((4, 6)) }) }
    );
    assert_eq!(health.health, 2);
    let w = CombatSystem::wound(3, Some(DamageReduction { value: 2 }), &mut health, true, Some(Position::new(4, 6)));
    assert_eq!(w, Wound { rolled: 3, damage: 1, killed: false, alerted: None });
    assert_eq!(health.health, 1);
    let w = CombatSystem::wound(1, Some(DamageReduction { value: 2 }), &mut health, false, None);
    assert_eq!(w, Wound { rolled: 1, damage: 0, killed: false, alerted: None });
    assert_eq!(health.health, 1);
    let w = CombatSystem::wound(1, None, &mut health, false, Some(Position::new(4, 6)));
    assert_eq!(w, Wound { rolled: 1, damage: 1, killed: true, alerted: None });
    assert_eq!(health.health, 1);
    assert_eq!(health.max_health, 5);
}

#[test]
fn rolled_damage_lies_in_the_range_of_the_attack() {
    let system = CombatSystem::new();
    let attack = Attack { damage: (2, 7), accuracy: 700, source: ENEMY };
    let mut seen = [false; 7];
    for _ in 0..300 {
        let mut health = Health::new(100, 100);
        let w = system.strike(&attack, Some(DamageReduction { value: 1 }), &mut health, true, None);
        assert!(w.rolled >= 2 && w.rolled < 7);
        assert_eq!(w.damage, w.rolled - 1);
        assert_eq!(health.health, 100 - w.damage);
        seen[w.rolled] = true;
    }
    assert_eq!(seen, [false, false, true, true, true, true, true]);
}

#[test]
fn the_dead_leave_the_map_and_may_leave_loot() {
    let system = DeadSystem::new();
    let mut map = floor_map(5, 5);
    map.fill(PLAYER, 1, 1);
    map.fill(ENEMY, 2, 2);
    assert_eq!(system.bury(&mut map, &Position::new(1, 1), true, None), Remains::GameOver);
    assert_eq!(map.contents(1, 1), None);
    assert_eq!(system.bury(&mut map, &Position::new(2, 2), false, None), Remains::Nothing);
    assert_eq!(map.contents(2, 2), None);
    let table = DropsLoot::new(400, vec![pistol()]);
    let mut loot = 0;
    for _ in 0..300 {
        map.fill(ENEMY, 2, 2);
        match system.bury(&mut map, &Position::new(2, 2), false, Some(&table)) {
            Remains::Loot(item) => {
                assert_eq!(item, pistol());
                loot += 1;
            }
            Remains::Nothing => {}
            Remains::GameOver => panic!(),
        }
    }
    assert!(loot > 0 && loot < 300);
    let empty = DropsLoot::new(1000, vec![]);
    map.fill(ENEMY, 2, 2);
    assert_eq!(system.bury(&mut map, &Position::new(2, 2), false, Some(&empty)), Remains::Nothing);
    assert_eq!(DeadSystem::settle(Some(&table), 399, Some(&pistol())), Remains::Loot(pistol()));
    assert_eq!(DeadSystem::settle(Some(&table), 400, Some(&pistol())), Remains::Nothing);
    assert_eq!(DeadSystem::settle(Some(&table), 0, None), Remains::Nothing);
    assert_eq!(DeadSystem::settle(None, 0, Some(&pistol())), Remains::Nothing);
    let corpse = Entity { id: 5 };
    assert!(system.leave(&mut map, corpse, &Position::new(2, 2)));
    assert_eq!(map.contents(2, 2), Some(corpse));
    assert!(!system.leave(&mut map, corpse, &Position::new(2, 2)));
}

#[test]
fn camera_follows_within_the_area() {
    let mut camera = Camera::new((38, 18), (100, 100));
    assert_eq!(camera.max_x(), 62);
    assert_eq!(camera.max_y(), 82);
    camera.center_on(50, 50);
    assert_eq!(camera.position, Point::new(31, 41));
    camera.center_on(5, 5);
    assert_eq!(camera.position, Point::new(0, 0));
    camera.center_on(99, 99);
    assert_eq!(camera.position, Point::new(62, 82));
    assert!(camera.is_visible(&Position::new(62, 82)));
    assert!(camera.is_visible(&Position::new(99, 99)));
    assert!(!camera.is_visible(&Position::new(61, 90)));
    assert!(!camera.is_visible(&Position::new(70, 100)));
    assert_eq!(Position::new(70, 90).relative_to(&camera), Some(Point::new(8, 8)));
    assert_eq!(Position::new(10, 90).relative_to(&camera), None);
}

#[test]
fn list_cursor_stays_on_the_list() {
    let mut list: List<u8> = List::new(Point::new(2, 3), 10, 5);
    assert_eq!(list.bounds, (12, 8));
    assert_eq!(list.get_selected(), None);
    list.move_cursor_down();
    assert_eq!(list.cursor, 0);
    list.contents = vec![10, 20, 30];
    assert_eq!(list.get_selected(), Some(&10));
    list.move_cursor_up();
    assert_eq!(list.cursor, 0);
    list.move_cursor_down();
    list.move_cursor_down();
    list.move_cursor_down();
    assert_eq!(list.cursor, 2);
    assert_eq!(list.get_selected(), Some(&30));
    list.move_cursor_up();
    assert_eq!(list.get_selected(), Some(&20));
}

#[test]
fn stack_of_screens() {
    let mut stack = vec![SubGameScreen::Messages];
    SubScreenEvent::Push(SubGameScreen::Inventory).apply(&mut stack);
    assert_eq!(stack, vec![SubGameScreen::Messages, SubGameScreen::Inventory]);
    SubScreenEvent::Pop.apply(&mut stack);
    SubScreenEvent::Pop.apply(&mut stack);
    SubScreenEvent::<SubGameScreen>::Pop.apply(&mut stack);
    assert_eq!(stack, vec![]);
    let events = vec![
        SubScreenEvent::Push(SubGameScreen::Messages),
        SubScreenEvent::Push(SubGameScreen::Inventory),
        SubScreenEvent::Pop,
        SubScreenEvent::Push(SubGameScreen::Inventory),
    ];
    SubScreenEvent::apply_all(&events, &mut stack);
    assert_eq!(stack, vec![SubGameScreen::Messages, SubGameScreen::Inventory]);
    assert_eq!(latest(&vec![]), None);
    assert_eq!(latest(&vec![StateTransition::GameOver, StateTransition::Quit]), Some(StateTransition::Quit));
}

#[test]
fn mouse_over_the_view_of_the_map() {
    assert_eq!(map_cell_under(2, 2), Some(Point::new(0, 0)));
    assert_eq!(map_cell_under(39, 20), Some(Point::new(37, 18)));
    assert_eq!(map_cell_under(40, 2), None);
    assert_eq!(map_cell_under(2, 21), None);
    assert_eq!(map_cell_under(1, 5), None);
    assert_eq!(map_cell_under(0, 0), None);
}

#[test]
fn messages_fill_the_window_and_then_scroll() {
    let mut panel = MessagesPanelSystem::new();
    assert_eq!(panel.receive(String::from("a"), 3), Placement::Line(Point::new(0, 0)));
    assert_eq!(panel.receive(String::from("b"), 3), Placement::Line(Point::new(0, 1)));
    assert_eq!(panel.receive(String::from("c"), 3), Placement::Repaint(0));
    assert_eq!(panel.receive(String::from("d"), 3), Placement::Repaint(1));
    assert_eq!(panel.messages, vec!["a", "b", "c", "d"]);
    assert_eq!(panel.cursor, Point::new(0, 2));
}

#[test]
fn store_keeps_one_value_for_each_entity() {
    let mut store: Store<Cover> = Store::new();
    let a = Entity { id: 3 };
    let b = Entity { id: 0 };
    assert!(!store.check(a));
    assert_eq!(store.get(a), None);
    assert_eq!(store.insert(a, Cover::new(-200)), None);
    assert_eq!(store.insert(a, Cover::new(-100)), Some(Cover::new(-200)));
    assert!(store.check(a));
    assert!(!store.check(b));
    assert_eq!(store.get(a), Some(&Cover::new(-100)));
    assert_eq!(store.remove(b), None);
    assert_eq!(store.remove(a), Some(Cover::new(-100)));
    assert_eq!(store.remove(a), None);
    assert_eq!(store.remove(Entity { id: 99 }), None);
}

#[test]
fn equipment_goes_into_the_slot_of_the_item() {
    let mut equip = Equip::new();
    assert_eq!(equip.list_equipped(), Vec::<&Item>::new());
    assert_eq!(equip.equip(pistol()), None);
    let mut rifle = pistol();
    rifle.name = String::from("Sniper Rifle");
    assert_eq!(equip.equip(rifle.clone()), Some(pistol()));
    let vest = Item {
        name: String::from("Kevlar Vest"),
        kind: ItemKind::Armor { health: 2, damage_reduction: 1 },
        slot: Some(ItemSlot::Body),
    };
    equip.equip(vest.clone());
    let nowhere = Item { name: String::from("Stone"), kind: ItemKind::Armor { health: 0, damage_reduction: 0 }, slot: None };
    assert_eq!(equip.equip(nowhere), None);
    assert_eq!(equip.list_equipped(), vec![&rifle, &vest]);
    assert_eq!(equip.unequip(ItemSlot::Head), None);
    assert_eq!(equip.unequip(ItemSlot::Primary), Some(rifle));
    assert_eq!(equip.unequip(ItemSlot::Primary), None);
    assert_eq!(equip.list_equipped(), vec![&vest]);
    assert_eq!(vest.duplicate(), vest);
}
