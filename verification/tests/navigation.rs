use mooncore::grid::{Grid, Point, TileType};
use mooncore::nav::{next_step_toward, plan_flee, shortest_path};
use mooncore::rng::Rng;

fn wall_column(g: &mut Grid, x: i32, y0: i32, y1: i32) {
    for y in y0..=y1 {
        g.set_tile(x, y, TileType::Wall);
    }
    g.populate_blocked();
}

#[test]
fn straight_path_on_open_ground() {
    let g = Grid::new(20, 20);
    let path = shortest_path(&g, Point { x: 5, y: 5 }, Point { x: 5, y: 8 }, false)
        .expect("open ground should be navigable");
    assert_eq!(path[0], Point { x: 5, y: 5 });
    assert_eq!(path[1], Point { x: 5, y: 6 });
    assert_eq!(*path.last().unwrap(), Point { x: 5, y: 8 });
    assert_eq!(path.len(), 4);
}

#[test]
fn path_steps_are_adjacent_and_unblocked() {
    let mut g = Grid::new(20, 20);
    wall_column(&mut g, 8, 2, 16);
    let path = shortest_path(&g, Point { x: 5, y: 9 }, Point { x: 12, y: 9 }, false)
        .expect("the wall has an opening at the top");
    for w in path.windows(2) {
        let dx = (w[0].x - w[1].x).abs();
        let dy = (w[0].y - w[1].y).abs();
        assert!(dx <= 1 && dy <= 1 && (dx, dy) != (0, 0));
    }
    for cell in path.iter().skip(1) {
        assert!(!g.blocked[g.point_idx(cell)]);
    }
}

#[test]
fn fully_walled_destination_region_is_unreachable() {
    let mut g = Grid::new(20, 20);
    // Surround (15, 15) completely with walls.
    for x in 13..=17 {
        g.set_tile(x, 13, TileType::Wall);
        g.set_tile(x, 17, TileType::Wall);
    }
    for y in 13..=17 {
        g.set_tile(13, y, TileType::Wall);
        g.set_tile(17, y, TileType::Wall);
    }
    g.populate_blocked();
    let path = shortest_path(&g, Point { x: 5, y: 5 }, Point { x: 15, y: 15 }, false);
    assert!(path.is_none());
}

#[test]
fn blocked_destination_itself_may_be_entered() {
    // The destination cell is blocked (an occupied cell), but with the
    // pass-through policy off the route may still end on it.
    let mut g = Grid::new(20, 20);
    g.set_tile(10, 10, TileType::Wall);
    g.populate_blocked();
    let path = shortest_path(&g, Point { x: 8, y: 10 }, Point { x: 10, y: 10 }, false)
        .expect("the occupied destination is enterable");
    assert_eq!(*path.last().unwrap(), Point { x: 10, y: 10 });
    // With the policy on, the blocked destination stays unreachable.
    let none = shortest_path(&g, Point { x: 8, y: 10 }, Point { x: 10, y: 10 }, true);
    assert!(none.is_none());
}

#[test]
fn zero_length_trip_yields_no_path() {
    let g = Grid::new(20, 20);
    let path = shortest_path(&g, Point { x: 5, y: 5 }, Point { x: 5, y: 5 }, false);
    assert!(path.is_none());
}

#[test]
fn next_step_moves_one_cell_closer() {
    let g = Grid::new(20, 20);
    let step = next_step_toward(&g, Point { x: 5, y: 5 }, Point { x: 5, y: 8 })
        .expect("a step should exist");
    assert_eq!(step, Point { x: 5, y: 6 });
}

#[test]
fn diagonal_cost_prefers_straight_lines() {
    let g = Grid::new(20, 20);
    // From (3,3) to (9,3): the straight row is the unique cheapest route.
    let path = shortest_path(&g, Point { x: 3, y: 3 }, Point { x: 9, y: 3 }, false).unwrap();
    for cell in &path {
        assert_eq!(cell.y, 3);
    }
    assert_eq!(path.len(), 7);
}

#[test]
fn flee_plan_reaches_an_unblocked_cell() {
    let g = Grid::new(20, 20);
    let mut rng = Rng::new(42);
    let path = plan_flee(&g, Point { x: 10, y: 10 }, &mut rng)
        .expect("an open grid always offers an escape");
    assert!(path.len() >= 2);
    assert_eq!(path[0], Point { x: 10, y: 10 });
    let last = path.last().unwrap();
    assert!(!g.blocked[g.point_idx(last)]);
}

#[test]
fn flee_plans_are_deterministic_under_a_seed() {
    let g = Grid::new(20, 20);
    let mut rng_a = Rng::new(1234);
    let mut rng_b = Rng::new(1234);
    let a = plan_flee(&g, Point { x: 10, y: 10 }, &mut rng_a);
    let b = plan_flee(&g, Point { x: 10, y: 10 }, &mut rng_b);
    assert_eq!(a, b);
    assert_eq!(rng_a, rng_b);
}
