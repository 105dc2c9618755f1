use roguegrid::components::position::Position;
use roguegrid::util::bresenham;
use roguegrid::util::{distance2, distance2_beyond, distance2_within, Direction};

fn cells(points: &[(usize, usize)]) -> Vec<Position> {
    points.iter().map(|&(x, y)| Position::new(x, y)).collect()
}

#[test]
fn trace_of_a_point_is_the_point() {
    assert_eq!(bresenham(Position::new(4, 4), Position::new(4, 4)), cells(&[(4, 4)]));
}

#[test]
fn horizontal_trace_runs_along_the_row() {
    assert_eq!(
        bresenham(Position::new(0, 0), Position::new(5, 0)),
        cells(&[(0, 0), (1, 0), (2, 0), (3, 0), (4, 0), (5, 0)])
    );
    assert_eq!(
        bresenham(Position::new(5, 2), Position::new(2, 2)),
        cells(&[(5, 2), (4, 2), (3, 2), (2, 2)])
    );
}

#[test]
fn vertical_trace_is_the_run_from_the_smaller_row() {
    let down = bresenham(Position::new(3, 1), Position::new(3, 4));
    let up = bresenham(Position::new(3, 4), Position::new(3, 1));
    assert_eq!(down, cells(&[(3, 1), (3, 2), (3, 3), (3, 4)]));
    assert_eq!(up, down);
}

#[test]
fn diagonal_trace_steps_both_ways() {
    assert_eq!(
        bresenham(Position::new(1, 1), Position::new(4, 4)),
        cells(&[(1, 1), (2, 2), (3, 3), (4, 4)])
    );
    assert_eq!(
        bresenham(Position::new(4, 1), Position::new(1, 4)),
        cells(&[(4, 1), (3, 2), (2, 3), (1, 4)])
    );
}

#[test]
fn shallow_trace_climbs_late() {
    assert_eq!(
        bresenham(Position::new(0, 0), Position::new(5, 1)),
        cells(&[(0, 0), (1, 0), (2, 0), (3, 0), (4, 1), (5, 1)])
    );
    assert_eq!(
        bresenham(Position::new(5, 1), Position::new(0, 0)),
        cells(&[(5, 1), (4, 1), (3, 1), (2, 1), (1, 0), (0, 0)])
    );
}

#[test]
fn steep_trace_in_every_octant() {
    assert_eq!(
        bresenham(Position::new(10, 10), Position::new(11, 13)),
        cells(&[(10, 10), (10, 11), (11, 12), (11, 13)])
    );
    assert_eq!(
        bresenham(Position::new(10, 10), Position::new(9, 13)),
        cells(&[(10, 10), (10, 11), (9, 12), (9, 13)])
    );
    assert_eq!(
        bresenham(Position::new(10, 10), Position::new(9, 7)),
        cells(&[(10, 10), (10, 9), (9, 8), (9, 7)])
    );
    assert_eq!(
        bresenham(Position::new(10, 10), Position::new(11, 7)),
        cells(&[(10, 10), (10, 9), (11, 8), (11, 7)])
    );
    assert_eq!(
        bresenham(Position::new(10, 10), Position::new(13, 11)),
        cells(&[(10, 10), (11, 10), (12, 11), (13, 11)])
    );
    assert_eq!(
        bresenham(Position::new(10, 10), Position::new(13, 9)),
        cells(&[(10, 10), (11, 10), (12, 9), (13, 9)])
    );
    assert_eq!(
        bresenham(Position::new(10, 10), Position::new(7, 11)),
        cells(&[(10, 10), (9, 10), (8, 11), (7, 11)])
    );
    assert_eq!(
        bresenham(Position::new(10, 10), Position::new(7, 9)),
        cells(&[(10, 10), (9, 10), (8, 9), (7, 9)])
    );
}

#[test]
fn trace_has_one_cell_more_than_the_larger_span() {
    for bx in 0..12usize {
        for by in 0..12usize {
            let a = Position::new(6, 6);
            let b = Position::new(bx, by);
            let t = bresenham(a, b);
            let h = if bx > 6 { bx - 6 } else { 6 - bx };
            let v = if by > 6 { by - 6 } else { 6 - by };
            assert_eq!(t.len(), h.max(v) + 1);
            if !(bx == 6 && by < 6) {
                assert_eq!(t[0], a);
                assert_eq!(t[t.len() - 1], b);
            }
            for c in t.iter() {
                assert!(c.x >= bx.min(6) && c.x <= bx.max(6));
                assert!(c.y >= by.min(6) && c.y <= by.max(6));
            }
        }
    }
}

#[test]
fn retraceable_lines_visit_the_same_cells_both_ways() {
    let pairs = [((0, 0), (6, 0)), ((0, 0), (4, 4)), ((2, 9), (2, 3)), ((0, 0), (3, 1)), ((0, 0), (5, 2)), ((1, 1), (3, 7))];
    for &((ax, ay), (bx, by)) in pairs.iter() {
        let mut there = bresenham(Position::new(ax, ay), Position::new(bx, by));
        let mut back = bresenham(Position::new(bx, by), Position::new(ax, ay));
        there.sort_by_key(|p| (p.x, p.y));
        back.sort_by_key(|p| (p.x, p.y));
        assert_eq!(there, back);
    }
}

#[test]
fn trace_works_at_the_far_end_of_the_axes() {
    let m = usize::MAX;
    assert_eq!(
        bresenham(Position::new(m, m - 2), Position::new(m - 2, m)),
        cells(&[(m, m - 2), (m - 1, m - 1), (m - 2, m)])
    );
}

#[test]
fn direction_offsets() {
    assert_eq!(Direction::Up.offset(), (0, -1));
    assert_eq!(Direction::Down.offset(), (0, 1));
    assert_eq!(Direction::Left.offset(), (-1, 0));
    assert_eq!(Direction::Right.offset(), (1, 0));
}

#[test]
fn squared_distances() {
    assert_eq!(distance2((0, 0), (3, 4)), 25);
    assert_eq!(distance2((3, 4), (0, 0)), 25);
    assert_eq!(distance2((7, 7), (7, 7)), 0);
    assert!(distance2_within((0, 0), (3, 4), 25));
    assert!(!distance2_within((0, 0), (3, 4), 24));
    assert!(!distance2_within((0, 0), (usize::MAX, usize::MAX), usize::MAX));
    assert!(distance2_beyond((0, 0), (3, 4), 4));
    assert!(!distance2_beyond((0, 0), (3, 4), 5));
    assert!(distance2_beyond((0, 0), (usize::MAX, usize::MAX), usize::MAX));
    assert!(!distance2_beyond((0, 0), (usize::MAX, 0), usize::MAX));
}
