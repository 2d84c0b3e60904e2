use game_of_life::cell::Cell;
use game_of_life::grid::{Grid, GridError};
use game_of_life::point::Point;
use game_of_life::seed::{points_from_flags, random_points};

fn board(width: usize, height: usize, points: &[(usize, usize)]) -> Grid {
    let mut g = Grid::new(width, height).unwrap();
    let pts: Vec<Point> = points.iter().map(|&p| Point::from(p)).collect();
    g.set_state(&pts);
    g
}

fn live(g: &Grid) -> Vec<(usize, usize)> {
    let mut out = Vec::new();
    for i in 0..g.len() {
        if g.is_alive(i) {
            let p = g.index_to_coords(i);
            out.push((p.x, p.y));
        }
    }
    out.sort();
    out
}

fn sorted(points: &[(usize, usize)]) -> Vec<(usize, usize)> {
    let mut v = points.to_vec();
    v.sort();
    v
}

#[test]
fn rule_for_live_cell() {
    let c = Cell::new(true);
    let expected = [false, false, true, true, false, false, false, false, false];
    for n in 0..=8u8 {
        assert_eq!(c.next_state(n), expected[n as usize], "live cell, {} neighbours", n);
    }
}

#[test]
fn rule_for_dead_cell() {
    let c = Cell::new(false);
    for n in 0..=8u8 {
        assert_eq!(c.next_state(n), n == 3, "dead cell, {} neighbours", n);
    }
}

#[test]
fn cell_set_alive() {
    let mut c = Cell::new(false);
    assert!(!c.is_alive());
    c.set_alive(true);
    assert!(c.is_alive());
    c.set_alive(false);
    assert!(!c.is_alive());
}

#[test]
fn new_board_is_dead() {
    let g = Grid::new(4, 3).unwrap();
    assert_eq!(g.width(), 4);
    assert_eq!(g.height(), 3);
    assert_eq!(g.len(), 12);
    assert!(live(&g).is_empty());
}

#[test]
fn new_rejects_zero_width() {
    assert_eq!(Grid::new(0, 5).unwrap_err(), GridError::EmptyDimension);
}

#[test]
fn new_rejects_zero_height() {
    assert_eq!(Grid::new(5, 0).unwrap_err(), GridError::EmptyDimension);
    assert_eq!(Grid::new(0, 0).unwrap_err(), GridError::EmptyDimension);
}

#[test]
fn new_rejects_too_many_cells() {
    assert_eq!(Grid::new(usize::MAX, 2).unwrap_err(), GridError::TooLarge);
}

#[test]
fn point_from_tuple() {
    let p = Point::from((3, 9));
    assert_eq!(p, Point::new(3, 9));
    assert_eq!(p.x, 3);
    assert_eq!(p.y, 9);
}

#[test]
fn coords_index_round_trip() {
    let g = Grid::new(7, 5).unwrap();
    for x in 0..7 {
        for y in 0..5 {
            let p = Point::new(x, y);
            let i = g.coords_to_index(p);
            assert_eq!(i, y * 7 + x);
            assert_eq!(g.index_to_coords(i), p);
        }
    }
    for i in 0..35 {
        assert_eq!(g.coords_to_index(g.index_to_coords(i)), i);
    }
}

#[test]
fn index_to_coords_values() {
    let g = Grid::new(4, 3).unwrap();
    assert_eq!(g.index_to_coords(0), Point::new(0, 0));
    assert_eq!(g.index_to_coords(5), Point::new(1, 1));
    assert_eq!(g.index_to_coords(11), Point::new(3, 2));
}

#[test]
fn seeding_wraps_points_off_the_board() {
    let g = board(5, 4, &[(7, 1), (2, 9), (5, 4), (1, 1), (1, 1)]);
    assert_eq!(live(&g), vec![(0, 0), (1, 1), (2, 1)]);
}

#[test]
fn seeding_keeps_live_cells() {
    let mut g = board(5, 5, &[(0, 0)]);
    g.set_state(&vec![Point::new(4, 4)]);
    assert_eq!(live(&g), vec![(0, 0), (4, 4)]);
}

#[test]
fn dead_board_stays_dead() {
    let mut g = Grid::new(6, 4).unwrap();
    for _ in 0..20 {
        g.update();
        assert!(live(&g).is_empty());
    }
}

#[test]
fn single_cell_dies() {
    let mut g = board(5, 5, &[(2, 2)]);
    g.update();
    assert!(live(&g).is_empty());
}

#[test]
fn block_is_still() {
    let cells = [(1, 1), (2, 1), (1, 2), (2, 2)];
    let mut g = board(6, 6, &cells);
    g.update();
    assert_eq!(live(&g), sorted(&cells));
}

#[test]
fn horizontal_blinker_has_period_two() {
    let cells = [(1, 2), (2, 2), (3, 2)];
    let mut g = board(5, 5, &cells);
    g.update();
    assert_eq!(live(&g), vec![(2, 1), (2, 2), (2, 3)]);
    g.update();
    assert_eq!(live(&g), sorted(&cells));
}

#[test]
fn vertical_blinker_has_period_two() {
    let cells = [(4, 3), (4, 4), (4, 5)];
    let mut g = board(9, 8, &cells);
    g.update();
    assert_eq!(live(&g), vec![(3, 4), (4, 4), (5, 4)]);
    g.update();
    assert_eq!(live(&g), sorted(&cells));
}

#[test]
fn blinker_across_the_edge() {
    let cells = [(5, 0), (0, 0), (1, 0)];
    let mut g = board(6, 6, &cells);
    g.update();
    assert_eq!(live(&g), vec![(0, 0), (0, 1), (0, 5)]);
    g.update();
    assert_eq!(live(&g), sorted(&cells));
}

#[test]
fn glider_moves_one_cell_diagonally_in_four_steps() {
    let cells = [(1, 0), (2, 1), (0, 2), (1, 2), (2, 2)];
    let mut g = board(10, 10, &cells);
    for _ in 0..4 {
        g.update();
    }
    let moved: Vec<(usize, usize)> = cells.iter().map(|&(x, y)| (x + 1, y + 1)).collect();
    assert_eq!(live(&g), sorted(&moved));
}

#[test]
fn glider_wraps_round_the_torus() {
    let cells = [(1, 0), (2, 1), (0, 2), (1, 2), (2, 2)];
    let mut g = board(8, 8, &cells);
    for _ in 0..32 {
        g.update();
    }
    assert_eq!(live(&g), sorted(&cells));
}

#[test]
fn update_is_deterministic() {
    let cells = [(0, 0), (1, 0), (2, 0), (3, 1), (3, 2), (1, 3), (2, 3)];
    let mut a = board(7, 6, &cells);
    let mut b = board(7, 6, &cells);
    for _ in 0..5 {
        a.update();
        b.update();
        assert_eq!(live(&a), live(&b));
    }
}

#[test]
fn opposite_corners_are_neighbours() {
    let mut g = board(5, 4, &[(0, 0), (4, 3)]);
    g.update();
    assert!(live(&g).is_empty());
    let mut inner = board(5, 4, &[(2, 2), (1, 1)]);
    inner.update();
    assert!(live(&inner).is_empty());
}

#[test]
fn corner_birth_across_the_edges() {
    // Three cells round the corner (0, 0) on the torus; the fourth is born,
    // as it is for the same shape in the middle of the board.
    let mut g = board(6, 5, &[(0, 0), (5, 4), (5, 0)]);
    g.update();
    assert_eq!(live(&g), vec![(0, 0), (0, 4), (5, 0), (5, 4)]);
    let mut inner = board(6, 5, &[(3, 3), (2, 2), (2, 3)]);
    inner.update();
    assert_eq!(live(&inner), vec![(2, 2), (2, 3), (3, 2), (3, 3)]);
}

fn full_board(width: usize, height: usize) -> Grid {
    let mut pts = Vec::new();
    for x in 0..width {
        for y in 0..height {
            pts.push((x, y));
        }
    }
    board(width, height, &pts)
}

#[test]
fn full_board_dies() {
    for &(w, h) in &[(3, 3), (5, 4), (8, 8), (1, 1), (2, 2), (1, 7)] {
        let mut g = full_board(w, h);
        assert_eq!(live(&g).len(), w * h);
        g.update();
        assert!(live(&g).is_empty(), "{}x{}", w, h);
    }
}

#[test]
fn points_from_flags_walks_columns() {
    let flags = vec![true, false, true, false, false, true];
    let pts = points_from_flags(2, 3, &flags);
    assert_eq!(pts, vec![Point::new(0, 0), Point::new(0, 2), Point::new(1, 2)]);
}

#[test]
fn points_from_flags_none_set() {
    assert!(points_from_flags(3, 3, &vec![false; 9]).is_empty());
    assert!(points_from_flags(0, 4, &Vec::new()).is_empty());
}

#[test]
fn random_points_lie_on_the_board_in_order() {
    let pts = random_points(9, 7);
    assert!(pts.len() <= 63);
    for w in pts.windows(2) {
        assert!((w[0].x, w[0].y) < (w[1].x, w[1].y));
    }
    for p in &pts {
        assert!(p.x < 9 && p.y < 7);
    }
}
