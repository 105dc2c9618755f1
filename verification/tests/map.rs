use roguegrid::components::entity::Entity;
use roguegrid::components::input::OffsetMovable;
use roguegrid::components::drawable::LineDrawable;
use roguegrid::components::map::util::{above, below, carve_room, direction_to_index, generate_room, left, right, wall_extension};
use roguegrid::components::map::MapCell::{Floor, Wall};
use roguegrid::components::map::{GridMap, MapCell};
use roguegrid::components::position::Position;
use roguegrid::util::Direction;

fn floor_map(width: usize, height: usize) -> GridMap {
    let mut map = GridMap::new(width, height);
    for cell in map.map.iter_mut() {
        *cell = MapCell::Floor;
    }
    map
}

#[test]
fn new_map_is_unrevealed_and_empty() {
    let map = GridMap::new(4, 3);
    assert_eq!(map.width, 4);
    assert_eq!(map.height, 3);
    assert_eq!(map.map, vec![MapCell::Null; 12]);
    assert_eq!(map.contents, vec![None; 12]);
    assert!(!map.passable(0, 0));
    assert!(!map.occupable(3, 2));
}

#[test]
fn fill_and_vacate_change_one_cell() {
    let mut map = floor_map(4, 3);
    let e = Entity { id: 7 };
    assert!(map.passable(2, 1));
    map.fill(e, 2, 1);
    assert_eq!(map.contents(2, 1), Some(e));
    assert_eq!(map.contents[1 * 4 + 2], Some(e));
    assert!(!map.passable(2, 1));
    assert!(map.occupable(2, 1));
    assert_eq!(map.contents(1, 2), None);
    assert_eq!(map.vacate(2, 1), Some(e));
    assert_eq!(map.contents(2, 1), None);
    assert!(map.passable(2, 1));
}

#[test]
fn wall_is_neither_passable_nor_occupable() {
    let mut map = floor_map(4, 3);
    map.map[5] = MapCell::Wall;
    assert!(!map.passable(1, 1));
    assert!(!map.occupable(1, 1));
}

#[test]
fn cell_of_inverts_the_index() {
    let map = floor_map(5, 4);
    assert_eq!(map.cell_of(0), Position::new(0, 0));
    assert_eq!(map.cell_of(7), Position::new(2, 1));
    assert_eq!(map.cell_of(19), Position::new(4, 3));
}

#[test]
fn move_to_free_floor_takes_the_occupant_along() {
    let mut map = floor_map(4, 3);
    let e = Entity { id: 1 };
    map.fill(e, 0, 0);
    let mut p = Position::new(0, 0);
    assert_eq!(p.move_to(1, 0, &mut map), Ok(()));
    assert_eq!(p, Position::new(1, 0));
    assert_eq!(map.contents(0, 0), None);
    assert_eq!(map.contents(1, 0), Some(e));
}

#[test]
fn move_to_is_refused_by_walls_occupants_and_edges() {
    let mut map = floor_map(4, 3);
    let e = Entity { id: 1 };
    let other = Entity { id: 2 };
    map.fill(e, 0, 0);
    map.fill(other, 1, 0);
    map.map[4] = MapCell::Wall;
    let mut p = Position::new(0, 0);
    assert_eq!(p.move_to(1, 0, &mut map), Err(()));
    assert_eq!(p.move_to(0, 1, &mut map), Err(()));
    assert_eq!(p.move_to(4, 0, &mut map), Err(()));
    assert_eq!(p.move_to(0, 3, &mut map), Err(()));
    assert_eq!(p.move_to(0, 0, &mut map), Err(()));
    assert_eq!(p, Position::new(0, 0));
    assert_eq!(map.contents(0, 0), Some(e));
    assert_eq!(map.contents(1, 0), Some(other));
}

#[test]
fn move_by_stops_at_zero() {
    let mut map = floor_map(4, 3);
    let e = Entity { id: 1 };
    map.fill(e, 0, 1);
    let mut p = Position::new(0, 1);
    assert_eq!(p.move_by((-1, 0), &mut map), Err(()));
    assert_eq!(p.move_by((0, -1), &mut map), Ok(()));
    assert_eq!(p, Position::new(0, 0));
    assert_eq!(p.move_by((0, -1), &mut map), Err(()));
    assert_eq!(p.move_by((1, 0), &mut map), Ok(()));
    assert_eq!(p.move_by((3, 0), &mut map), Err(()));
    assert_eq!(p, Position::new(1, 0));
    assert_eq!(map.contents(1, 0), Some(e));
}

#[test]
fn reticle_is_held_to_the_size_of_the_map() {
    let mut map = floor_map(4, 3);
    let mut line = LineDrawable { start: Position::new(1, 1), end: Position::new(1, 1) };
    assert_eq!(line.move_by((-5, 0), &mut map), Ok(()));
    assert_eq!(line.end, Position::new(0, 1));
    assert_eq!(line.move_by((9, 9), &mut map), Ok(()));
    assert_eq!(line.end, Position::new(4, 3));
    assert_eq!(line.move_by((-1, -2), &mut map), Ok(()));
    assert_eq!(line.end, Position::new(3, 1));
    assert_eq!(line.start, Position::new(1, 1));
}

#[test]
fn steps_on_the_grid() {
    let cells = vec![MapCell::Null; 12]; // four columns, three rows
    assert_eq!(above(&cells, 4, 5), Some(1));
    assert_eq!(above(&cells, 4, 3), None);
    assert_eq!(below(&cells, 4, 5), Some(9));
    assert_eq!(below(&cells, 4, 8), None);
    assert_eq!(below(&cells, 4, usize::MAX), None);
    assert_eq!(left(&cells, 4, 5), Some(4));
    assert_eq!(left(&cells, 4, 4), None);
    assert_eq!(left(&cells, 4, 0), None);
    assert_eq!(right(&cells, 4, 6), Some(7));
    assert_eq!(right(&cells, 4, 7), None);
    assert_eq!(right(&cells, 4, 11), None);
    assert_eq!(direction_to_index(Direction::Up, &cells, 4, 5), Some(1));
    assert_eq!(direction_to_index(Direction::Down, &cells, 4, 5), Some(9));
    assert_eq!(direction_to_index(Direction::Left, &cells, 4, 5), Some(4));
    assert_eq!(direction_to_index(Direction::Right, &cells, 4, 5), Some(6));
}

fn grid(width: usize, height: usize) -> Vec<MapCell> {
    vec![MapCell::Null; width * height]
}

#[test]
fn room_dug_down_has_walls_around_its_floor() {
    let w = 20;
    let mut cells = grid(w, 20);
    let start = 10 * w + 10;
    cells[start] = MapCell::Wall;
    let room = carve_room(start, Direction::Down, &cells, w, 4, 3, 1).unwrap();
    let at = |x: usize, y: usize| y * w + x;
    assert_eq!(
        room,
        vec![
            (start, Floor),
            (at(10, 11), Floor), (at(9, 11), Wall), (at(11, 11), Wall), (at(12, 11), Wall),
            (at(10, 12), Floor), (at(9, 12), Wall), (at(11, 12), Floor), (at(12, 12), Wall),
            (at(10, 13), Wall), (at(9, 13), Wall), (at(11, 13), Wall), (at(12, 13), Wall),
        ]
    );
}

#[test]
fn room_dug_left_lies_on_its_side() {
    let w = 20;
    let mut cells = grid(w, 20);
    let start = 10 * w + 10;
    cells[start] = MapCell::Wall;
    let room = carve_room(start, Direction::Left, &cells, w, 3, 2, 1).unwrap();
    let at = |x: usize, y: usize| y * w + x;
    assert_eq!(
        room,
        vec![
            (start, Floor),
            (at(9, 10), Floor), (at(9, 9), Wall), (at(9, 11), Wall),
            (at(8, 10), Wall), (at(8, 9), Wall), (at(8, 11), Wall),
        ]
    );
    let up = carve_room(start, Direction::Up, &cells, w, 3, 1, 1).unwrap();
    assert_eq!(up, vec![(start, Floor), (at(10, 9), Wall), (at(9, 9), Wall), (at(11, 9), Wall)]);
    let right = carve_room(start, Direction::Right, &cells, w, 3, 1, 1).unwrap();
    assert_eq!(right, vec![(start, Floor), (at(11, 10), Wall), (at(11, 9), Wall), (at(11, 11), Wall)]);
}

#[test]
fn room_is_dug_whole_or_not_at_all() {
    let w = 20;
    let mut cells = grid(w, 20);
    let start = 10 * w + 10;
    cells[start] = MapCell::Wall;
    // one written cell in the far corner of the footprint
    cells[13 * w + 12] = MapCell::Wall;
    assert_eq!(carve_room(start, Direction::Down, &cells, w, 4, 3, 1), None);
    cells[13 * w + 12] = MapCell::Null;
    assert!(carve_room(start, Direction::Down, &cells, w, 4, 3, 1).is_some());
    // off the grid
    assert_eq!(carve_room(start, Direction::Down, &cells, w, 4, 10, 1), None);
    assert_eq!(carve_room(start, Direction::Right, &cells, w, 4, 10, 1), None);
    assert_eq!(carve_room(start, Direction::Up, &cells, w, 4, 11, 1), None);
    assert_eq!(carve_room(10 * w + 1, Direction::Down, &cells, w, 5, 3, 2), None);
    assert!(carve_room(10 * w + 2, Direction::Down, &cells, w, 5, 3, 2).is_some());
}

#[test]
fn random_room_has_a_size_from_its_ranges() {
    let w = 40;
    let mut cells = grid(w, 40);
    let start = 10 * w + 20;
    cells[start] = MapCell::Wall;
    for _ in 0..30 {
        let room = generate_room(start, Direction::Down, &cells, w, (3, 5), (5, 20)).unwrap();
        let cells_in_rows = room.len() - 1;
        assert!((3 * 5..=4 * 19).contains(&cells_in_rows));
        assert_eq!(room[0], (start, MapCell::Floor));
        let mut seen: Vec<usize> = room.iter().map(|c| c.0).collect();
        seen.sort();
        seen.dedup();
        assert_eq!(seen.len(), room.len());
    }
}

#[test]
fn wall_next_to_floor_can_be_dug_away_from_it() {
    let w = 5;
    let mut cells = grid(w, 5);
    let at = |x: usize, y: usize| y * w + x;
    for x in 1..4 {
        cells[at(x, 2)] = MapCell::Wall;
    }
    cells[at(2, 1)] = MapCell::Floor;
    assert_eq!(wall_extension(&cells, w, at(2, 2)), Some(Direction::Down));
    cells[at(2, 1)] = MapCell::Null;
    cells[at(2, 3)] = MapCell::Floor;
    assert_eq!(wall_extension(&cells, w, at(2, 2)), Some(Direction::Up));
    assert_eq!(wall_extension(&cells, w, at(1, 2)), None);
    assert_eq!(wall_extension(&cells, w, at(2, 3)), None);
    let mut upright = grid(w, 5);
    for y in 1..4 {
        upright[at(2, y)] = MapCell::Wall;
    }
    upright[at(1, 2)] = MapCell::Floor;
    assert_eq!(wall_extension(&upright, w, at(2, 2)), Some(Direction::Right));
    upright[at(1, 2)] = MapCell::Null;
    upright[at(3, 2)] = MapCell::Floor;
    assert_eq!(wall_extension(&upright, w, at(2, 2)), Some(Direction::Left));
}

#[test]
fn outside_of_the_grid_counts_as_floor() {
    let w = 5;
    let mut cells = grid(w, 5);
    for x in 1..4 {
        cells[x] = MapCell::Wall;
    }
    assert_eq!(wall_extension(&cells, w, 2), Some(Direction::Down));
}
