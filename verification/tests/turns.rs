use roguegrid::components::camera::{Camera, Point};
use roguegrid::components::combat::DamageReduction;
use roguegrid::components::drawable::LineDrawable;
use roguegrid::components::entity::Entity;
use roguegrid::components::health::Health;
use roguegrid::components::input::{Action, Event, InputSystem, Key, State, TurnGate, TurnPhase};
use roguegrid::components::map::{GridMap, MapCell};
use roguegrid::components::player::{Equip, Grabbable, Inventory, Item, ItemKind, ItemSlot};
use roguegrid::components::position::Position;
use roguegrid::systems::ai::AiSystem;
use roguegrid::ui::list::List;
use roguegrid::util::storage::Store;
use roguegrid::util::Direction;

fn key(c: char) -> Event {
    Event::Key(Key::Char(c))
}

#[test]
fn second_action_waits_until_the_others_have_made_their_pass() {
    let mut gate = TurnGate::new();
    let mut input = InputSystem::new();
    let ai = AiSystem::new();
    let events = vec![key('d'), key('s')];
    assert_eq!(gate.current(), TurnPhase::Idle);
    let (actions, taken) = input.run(&mut gate, &events);
    assert_eq!(actions, vec![Action::Walk(Direction::Right)]);
    assert_eq!(taken, 1);
    assert_eq!(gate.current(), TurnPhase::AIPending);
    // the event that is left is not taken while the pass is owed
    let rest = events[taken..].to_vec();
    let (actions, taken) = input.run(&mut gate, &rest);
    assert_eq!(actions, vec![]);
    assert_eq!(taken, 0);
    assert_eq!(gate.current(), TurnPhase::AIPending);
    // nor while it is under way
    assert!(ai.begin(&mut gate));
    assert!(!ai.begin(&mut gate));
    let (actions, taken) = input.run(&mut gate, &rest);
    assert_eq!((actions, taken), (vec![], 0));
    ai.finish(&mut gate);
    assert_eq!(gate.current(), TurnPhase::AIPending);
    let (actions, taken) = input.run(&mut gate, &rest);
    assert_eq!(actions, vec![Action::Walk(Direction::Down)]);
    assert_eq!(taken, 1);
    assert_eq!(gate.current(), TurnPhase::AIPending);
}

#[test]
fn no_pass_is_made_unless_one_is_owed() {
    let mut gate = TurnGate::new();
    let ai = AiSystem::new();
    assert!(!ai.begin(&mut gate));
    assert_eq!(gate, TurnGate::new());
    assert!(gate.player_may_act());
    gate.end_turn();
    assert!(!gate.player_may_act());
    assert!(gate.ai_may_begin());
    assert!(!gate.player_may_act());
    gate.ai_done();
    assert!(gate.player_may_act());
    assert_eq!(gate, TurnGate::new());
}

#[test]
fn keys_at_the_top_level() {
    let step = |e: Event| InputSystem::decide(State::Toplevel, e);
    assert_eq!(step(key('w')).action, Some(Action::Walk(Direction::Up)));
    assert_eq!(step(key('a')).action, Some(Action::Walk(Direction::Left)));
    assert_eq!(step(Event::Key(Key::Esc)).action, Some(Action::Quit));
    assert_eq!(step(Event::Key(Key::Esc)).state, State::Toplevel);
    let inv = step(key('i'));
    assert_eq!((inv.state, inv.action, inv.stop), (State::Inventory, Some(Action::OpenInventory), true));
    let ex = step(key('1'));
    assert_eq!((ex.state, ex.action, ex.stop), (State::Examining, None, true));
    let aim = step(key('2'));
    assert_eq!((aim.state, aim.action, aim.stop), (State::Targeting(false), Some(Action::TakeAim(false)), true));
    let melee = step(key('3'));
    assert_eq!((melee.state, melee.action), (State::Targeting(true), Some(Action::TakeAim(true))));
    let none = step(key('x'));
    assert_eq!((none.state, none.action, none.stop), (State::Toplevel, None, false));
    assert_eq!(step(Event::MouseDown(Point::new(1, 1))).action, None);
    assert_eq!(step(Event::Key(Key::Other)).action, None);
}

#[test]
fn keys_in_the_other_modes() {
    let ex = |e: Event| InputSystem::decide(State::Examining, e);
    assert_eq!(ex(key('s')).action, Some(Action::Stride(Direction::Down)));
    assert_eq!(ex(Event::MouseRelease(Point::new(3, 4))).action, Some(Action::Describe(Point::new(3, 4))));
    assert_eq!(ex(Event::Key(Key::Esc)).state, State::Toplevel);
    assert_eq!(ex(Event::MouseHover(Point::new(3, 4))).action, None);
    let aim = |e: Event| InputSystem::decide(State::Targeting(true), e);
    assert_eq!(aim(key('d')).action, Some(Action::Nudge(Direction::Right)));
    assert_eq!(aim(Event::MouseHover(Point::new(3, 4))).action, Some(Action::PointAt(Point::new(3, 4))));
    assert_eq!(aim(Event::MouseRelease(Point::new(3, 4))).action, Some(Action::PointAt(Point::new(3, 4))));
    let fire = aim(key(' '));
    assert_eq!((fire.state, fire.action, fire.stop), (State::Toplevel, Some(Action::Fire(true)), true));
    for e in [Event::Key(Key::Esc), key('3'), key('q')] {
        let lowered = aim(e);
        assert_eq!((lowered.state, lowered.action, lowered.stop), (State::Toplevel, Some(Action::LowerAim), true));
    }
    assert_eq!(aim(key('2')).action, None);
    let inv = |e: Event| InputSystem::decide(State::Inventory, e);
    assert_eq!(inv(key('w')).action, Some(Action::CursorUp));
    assert_eq!(inv(key('s')).action, Some(Action::CursorDown));
    assert_eq!(inv(key(' ')).action, Some(Action::EquipSelected));
    let close = inv(Event::Key(Key::Esc));
    assert_eq!((close.state, close.action, close.stop), (State::Toplevel, Some(Action::CloseInventory), false));
    assert_eq!(inv(key('d')).action, None);
}

#[test]
fn events_after_a_change_of_mode_wait() {
    let mut gate = TurnGate::new();
    let mut input = InputSystem::new();
    let events = vec![key('x'), Event::Key(Key::Esc), key('2'), key('d'), key(' ')];
    let (actions, taken) = input.run(&mut gate, &events);
    assert_eq!(actions, vec![Action::Quit, Action::TakeAim(false)]);
    assert_eq!(taken, 3);
    assert_eq!(input.state, State::Targeting(false));
    assert_eq!(gate.current(), TurnPhase::Idle);
    let (actions, taken) = input.run(&mut gate, &events[3..].to_vec());
    assert_eq!(actions, vec![Action::Nudge(Direction::Right), Action::Fire(false)]);
    assert_eq!(taken, 2);
    assert_eq!(input.state, State::Toplevel);
    assert_eq!(gate.current(), TurnPhase::AIPending);
}

fn floor_map(width: usize, height: usize) -> GridMap {
    let mut map = GridMap::new(width, height);
    for cell in map.map.iter_mut() {
        *cell = MapCell::Floor;
    }
    map
}

fn vest() -> Item {
    Item {
        name: String::from("Kevlar Vest"),
        kind: ItemKind::Armor { health: 2, damage_reduction: 1 },
        slot: Some(ItemSlot::Body),
    }
}

#[test]
fn walking_picks_up_what_lies_ahead() {
    let mut map = floor_map(5, 5);
    let player = Entity { id: 1 };
    let loot = Entity { id: 2 };
    let rock = Entity { id: 3 };
    map.fill(player, 1, 1);
    map.fill(loot, 2, 1);
    map.fill(rock, 1, 2);
    let mut grabbables = Store::new();
    grabbables.insert(loot, Grabbable(vest()));
    let mut position = Position::new(1, 1);
    let mut inventory = Inventory::new();
    let input = InputSystem::new();
    let walked = input.walk(Direction::Right, &mut map, &mut position, &mut inventory, &grabbables);
    assert_eq!(walked.taken, Some(loot));
    assert!(walked.moved);
    assert_eq!(position, Position::new(2, 1));
    assert_eq!(map.contents(2, 1), Some(player));
    assert_eq!(map.contents(1, 1), None);
    assert_eq!(inventory.contents, vec![vest()]);
    let blocked = input.walk(Direction::Left, &mut map, &mut position, &mut inventory, &grabbables);
    assert_eq!(blocked.taken, None);
    assert!(blocked.moved);
    let stuck = input.walk(Direction::Down, &mut map, &mut position, &mut inventory, &grabbables);
    assert_eq!((stuck.taken, stuck.moved), (None, false));
    assert_eq!(position, Position::new(1, 1));
    assert_eq!(inventory.contents.len(), 1);
    assert_eq!(input.take_items(Direction::Down, &map, &position, &mut inventory, &grabbables), None);
}

#[test]
fn reticle_follows_the_mouse() {
    let input = InputSystem::new();
    let mut camera = Camera::new((38, 18), (100, 100));
    camera.center_on(50, 50);
    let mut line = LineDrawable { start: Position::new(50, 50), end: Position::new(50, 50) };
    input.point_at(&mut line, &camera, Point::new(3, 4));
    assert_eq!(line.end, Position::new(31 + 3, 41 + 4));
    assert_eq!(line.start, Position::new(50, 50));
}

#[test]
fn wearing_armour_changes_health_and_reduction() {
    let input = InputSystem::new();
    let mut list: List<Item> = List::new(Point::new(0, 0), 40, 20);
    list.contents.push(vest());
    let mut better = vest();
    better.kind = ItemKind::Armor { health: 5, damage_reduction: 3 };
    list.contents.push(better.clone());
    list.cursor = 1;
    let mut equip = Equip::new();
    assert!(input.equip_selected(&mut list, &mut equip));
    assert_eq!(equip.body, Some(better.clone()));
    assert_eq!(list.contents, vec![vest()]);
    assert_eq!(list.cursor, 0);
    let mut reduction = DamageReduction { value: 9 };
    let mut health = Health::new(10, 10);
    input.refit(&equip, &mut reduction, &mut health);
    assert_eq!(reduction.value, 3);
    assert_eq!(health, Health { health: 10, base_health: 10, max_health: 15 });
    // the vest goes on and the better one comes back
    assert!(input.equip_selected(&mut list, &mut equip));
    assert_eq!(equip.body, Some(vest()));
    assert_eq!(list.contents, vec![better]);
    assert_eq!(list.cursor, 0);
    input.refit(&equip, &mut reduction, &mut health);
    assert_eq!((reduction.value, health.max_health), (1, 12));
    list.cursor = 4;
    assert!(!input.equip_selected(&mut list, &mut equip));
    assert_eq!(equip.protection(), Some((1, 2)));
}

#[test]
fn movement_tells_whether_it_was_made() {
    let mut map = floor_map(3, 3);
    map.fill(Entity { id: 1 }, 0, 0);
    map.map[1] = MapCell::Wall;
    let input = InputSystem::new();
    let mut position = Position::new(0, 0);
    assert!(!input.process_movement(Direction::Right, &mut map, &mut position));
    assert!(!input.process_movement(Direction::Up, &mut map, &mut position));
    assert_eq!(position, Position::new(0, 0));
    assert!(input.process_movement(Direction::Down, &mut map, &mut position));
    assert_eq!(position, Position::new(0, 1));
    assert_eq!(map.contents(0, 1), Some(Entity { id: 1 }));
    assert_eq!(map.contents(0, 0), None);
    let mut line = LineDrawable { start: Position::new(0, 0), end: Position::new(2, 2) };
    assert!(input.process_movement(Direction::Right, &mut map, &mut line));
    assert_eq!(line.end, Position::new(3, 2));
    assert!(input.process_movement(Direction::Right, &mut map, &mut line));
    assert_eq!(line.end, Position::new(3, 2));
}
