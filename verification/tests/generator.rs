use roguegrid::components::entity::Entity;
use roguegrid::components::map::spawn::{sample_spawn_cell, spawn_cell, SpawnKind};
use roguegrid::components::map::{BuilderStep, BuilderSystem, GridMap, MapBuilder, MapCell};
use roguegrid::components::position::Position;

fn flood(cells: &[MapCell], width: usize, from: usize) -> Vec<bool> {
    let mut seen = vec![false; cells.len()];
    let mut stack = vec![from];
    seen[from] = true;
    while let Some(i) = stack.pop() {
        let x = i % width;
        let mut next = Vec::new();
        if i >= width {
            next.push(i - width);
        }
        if i + width < cells.len() {
            next.push(i + width);
        }
        if x > 0 {
            next.push(i - 1);
        }
        if x + 1 < width {
            next.push(i + 1);
        }
        for n in next {
            if !seen[n] && cells[n] == MapCell::Floor {
                seen[n] = true;
                stack.push(n);
            }
        }
    }
    seen
}

fn assert_floor_in_one_piece(cells: &[MapCell], width: usize, root: usize) {
    assert_eq!(cells[root], MapCell::Floor);
    let seen = flood(cells, width, root);
    for (i, c) in cells.iter().enumerate() {
        if *c == MapCell::Floor {
            assert!(seen[i], "floor cell {} is cut off", i);
        }
    }
}

#[test]
fn first_step_puts_the_seed_room_in_the_middle() {
    let mut map = GridMap::new(20, 16);
    let mut builder = MapBuilder::new();
    builder.dig_feature(&mut map);
    assert_eq!(builder.num_iterations, 1);
    assert_eq!(builder.pending_len(), 49);
    assert_eq!(map.map, vec![MapCell::Null; 20 * 16]);
    let cells = builder.working_cells();
    for y in 0..16usize {
        for x in 0..20usize {
            let dx = if x > 10 { x - 10 } else { 10 - x };
            let dy = if y > 8 { y - 8 } else { 8 - y };
            let expected = if dx > 3 || dy > 3 {
                MapCell::Null
            } else if dx == 3 || dy == 3 {
                MapCell::Wall
            } else {
                MapCell::Floor
            };
            assert_eq!(cells[y * 20 + x], expected);
        }
    }
}

#[test]
fn seed_room_fits_the_smallest_map() {
    let mut map = GridMap::new(7, 7);
    let mut builder = MapBuilder::new();
    builder.dig_feature(&mut map);
    let cells = builder.working_cells();
    assert!(cells.iter().all(|c| *c != MapCell::Null));
    assert_eq!(cells[0], MapCell::Wall);
    assert_eq!(cells[3 * 7 + 3], MapCell::Floor);
    for _ in 0..20 {
        builder.dig_feature(&mut map);
    }
    assert_eq!(builder.pending_len(), 49);
}

#[test]
fn every_room_is_dug_whole_on_unwritten_cells() {
    let mut map = GridMap::new(60, 60);
    let mut builder = MapBuilder::new();
    builder.dig_feature(&mut map);
    let mut rooms = 0;
    for _ in 0..60 {
        let before = builder.working_cells().clone();
        let queued = builder.pending_len();
        builder.dig_feature(&mut map);
        let after = builder.working_cells();
        let changed: Vec<usize> = (0..before.len()).filter(|&i| before[i] != after[i]).collect();
        if changed.is_empty() {
            assert_eq!(builder.pending_len(), queued);
            continue;
        }
        rooms += 1;
        let doors: Vec<usize> = changed.iter().cloned().filter(|&i| before[i] != MapCell::Null).collect();
        assert_eq!(doors.len(), 1);
        assert_eq!(before[doors[0]], MapCell::Wall);
        assert_eq!(after[doors[0]], MapCell::Floor);
        // the door and every cell of the room are pending
        assert_eq!(builder.pending_len(), queued + changed.len());
        assert!(changed.len() >= 1 + 3 * 5);
        assert_floor_in_one_piece(after, 60, 30 * 60 + 30);
    }
    assert!(rooms > 0);
}

#[test]
fn generation_ends_with_the_floor_in_one_piece() {
    let mut map = GridMap::new(100, 100);
    let mut builder = MapBuilder::new();
    let mut system = BuilderSystem::new();
    let mut ticks = 0;
    let mut announced = 0;
    loop {
        let shown_before = map.map.iter().filter(|c| **c != MapCell::Null).count();
        match system.run(&mut builder, &mut map) {
            BuilderStep::Populate => break,
            BuilderStep::Generating { announce } => {
                if announce {
                    announced += 1;
                    assert_eq!(ticks, 0);
                }
            }
        }
        let shown_after = map.map.iter().filter(|c| **c != MapCell::Null).count();
        assert!(shown_after - shown_before <= 25);
        ticks += 1;
        assert!(ticks < 100_000);
    }
    assert_eq!(announced, 1);
    assert_eq!(builder.num_iterations, 100);
    assert_eq!(builder.pending_len(), 0);
    assert_eq!(&map.map, builder.working_cells());
    assert_floor_in_one_piece(&map.map, 100, 50 * 100 + 50);
    assert!(map.contents.iter().all(|c| c.is_none()));
    // a populated level
    let enemies: Vec<Entity> = (1..51).map(|id| Entity { id }).collect();
    let scenery: Vec<Entity> = (51..201).map(|id| Entity { id }).collect();
    let spawns = BuilderSystem::populate(&mut map, Entity { id: 0 }, &enemies, &scenery);
    assert_eq!(spawns[0].entity, Entity { id: 0 });
    assert_eq!(spawns[0].kind, SpawnKind::Player);
    assert_eq!(spawns[0].position, Position::new(50, 50));
    let mut cells = Vec::new();
    for s in spawns.iter() {
        assert_eq!(map.map[s.position.y * 100 + s.position.x], MapCell::Floor);
        assert_eq!(map.contents(s.position.x, s.position.y), Some(s.entity));
        cells.push((s.position.x, s.position.y));
        if s.kind == SpawnKind::Enemy {
            let dx = s.position.x as i64 - 50;
            let dy = s.position.y as i64 - 50;
            assert!(dx * dx + dy * dy >= 49);
            assert!(s.entity.id >= 1 && s.entity.id <= 50);
        }
        if s.kind == SpawnKind::Cover {
            assert!(s.entity.id >= 51);
        }
    }
    cells.sort();
    cells.dedup();
    assert_eq!(cells.len(), spawns.len());
    assert_eq!(map.contents.iter().filter(|c| c.is_some()).count(), spawns.len());
}

#[test]
fn the_map_is_shown_at_most_twenty_five_cells_a_tick() {
    let mut map = GridMap::new(30, 30);
    let mut builder = MapBuilder::new();
    let mut system = BuilderSystem::new();
    assert_eq!(system.run(&mut builder, &mut map), BuilderStep::Generating { announce: true });
    assert_eq!(map.map.iter().filter(|c| **c != MapCell::Null).count(), 25);
    assert_eq!(builder.pending_len(), 24);
    // the seed room is shown row by row
    assert_eq!(map.map[12 * 30 + 12], MapCell::Wall);
    assert_eq!(map.map[13 * 30 + 13], MapCell::Floor);
    assert_eq!(map.map[15 * 30 + 15], MapCell::Floor);
    assert_eq!(map.map[15 * 30 + 16], MapCell::Null);
    assert_eq!(system.run(&mut builder, &mut map), BuilderStep::Generating { announce: false });
}

#[test]
fn spawn_cells_are_free_floor_away_from_what_is_shunned() {
    let mut map = GridMap::new(20, 20);
    for cell in map.map.iter_mut() {
        *cell = MapCell::Floor;
    }
    map.map[3] = MapCell::Wall;
    map.fill(Entity { id: 9 }, 4, 0);
    let start = Position::new(10, 10);
    assert_eq!(spawn_cell(&map, 3, None), None);
    assert_eq!(spawn_cell(&map, 4, None), None);
    assert_eq!(spawn_cell(&map, 5, None), Some(Position::new(5, 0)));
    // seven cells away is the least that is safe
    assert_eq!(spawn_cell(&map, 10 * 20 + 16, Some(start)), None);
    assert_eq!(spawn_cell(&map, 10 * 20 + 17, Some(start)), Some(Position::new(17, 10)));
    assert_eq!(spawn_cell(&map, 10 * 20 + 10, Some(start)), None);
    assert_eq!(spawn_cell(&map, 10 * 20 + 10, None), Some(Position::new(10, 10)));
    for _ in 0..20 {
        let p = sample_spawn_cell(&map, Some(start)).unwrap();
        assert!(map.passable(p.x, p.y));
        let dx = p.x as i64 - 10;
        let dy = p.y as i64 - 10;
        assert!(dx * dx + dy * dy >= 49);
    }
    let walls = GridMap::new(5, 5);
    assert_eq!(sample_spawn_cell(&walls, None), None);
    // where every cell takes an entity, one is found
    let mut open = GridMap::new(3, 3);
    for cell in open.map.iter_mut() {
        *cell = MapCell::Floor;
    }
    for _ in 0..20 {
        assert!(sample_spawn_cell(&open, None).is_some());
    }
}
