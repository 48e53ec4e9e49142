use mooncore::dancing::{is_good_start_position, look_for_dance_spot, Dance, Effect};
use mooncore::grid::melee_reach;
use mooncore::gamelog::PlayerLog;
use mooncore::grid::{Grid, Point, TileType};
use mooncore::liquids::Liquid;
use mooncore::rng::Rng;
use mooncore::text::capitalize;
use mooncore::vitals::{Health, Poise, Stamina};

#[test]
fn dance_names_and_steps() {
    assert_eq!(Dance::HOP.name(), "hop");
    assert_eq!(Dance::JITTER.name(), "jitter");
    assert_eq!(Dance::CIRCLE.name(), "circle");
    let hop = Dance::HOP.steps();
    assert_eq!(hop.len(), 2);
    assert_eq!(hop[0].direction, Point { x: -1, y: 0 });
    assert_eq!(hop[0].effect, None);
    assert_eq!(hop[1].direction, Point { x: 1, y: 0 });
    assert_eq!(hop[1].effect, Some(Effect::Awesomeness { poise: 1 }));
    assert_eq!(Dance::JITTER.steps().len(), 8);
    let circle = Dance::CIRCLE.steps();
    assert_eq!(circle.len(), 4);
    assert_eq!(circle[3].effect, Some(Effect::SelfPoise { poise: 4 }));
}

#[test]
fn open_ground_is_a_good_dance_site() {
    let g = Grid::new(20, 20);
    assert!(is_good_start_position(
        &Point { x: 10, y: 10 },
        &Dance::CIRCLE,
        &g,
        &Vec::new()
    ));
}

#[test]
fn blocked_cell_in_the_walk_rejects_the_site() {
    let mut g = Grid::new(20, 20);
    // CIRCLE from (10,10) visits (11,10), (11,11), (10,11), back to start.
    g.set_tile(11, 11, TileType::Wall);
    g.populate_blocked();
    assert!(!is_good_start_position(
        &Point { x: 10, y: 10 },
        &Dance::CIRCLE,
        &g,
        &Vec::new()
    ));
}

#[test]
fn claimed_envelope_rejects_overlapping_site() {
    // Another dancer has claimed the full envelope of a CIRCLE at (10,10);
    // a second dancer's search for the same dance at the same cell must
    // reject it.
    let g = Grid::new(20, 20);
    let claimed = vec![vec![
        Point { x: 10, y: 10 },
        Point { x: 11, y: 10 },
        Point { x: 11, y: 11 },
        Point { x: 10, y: 11 },
    ]];
    assert!(!is_good_start_position(
        &Point { x: 10, y: 10 },
        &Dance::CIRCLE,
        &g,
        &claimed
    ));
    // The site search falls through to some other, unclaimed site.
    let range = vec![Point { x: 3, y: 3 }, Point { x: 4, y: 3 }, Point { x: 5, y: 3 }];
    let mut rng = Rng::new(11);
    let spot = look_for_dance_spot(
        &Point { x: 10, y: 10 },
        &range,
        &Dance::CIRCLE,
        &g,
        &claimed,
        &mut rng,
    );
    match spot {
        Some(p) => {
            assert_ne!(p, Point { x: 10, y: 10 });
            assert!(range.contains(&p));
        }
        None => {
            // Acceptable: every random draw may have failed, but with an
            // unclaimed open range the first draw already qualifies.
            panic!("an open alternative site should have been found");
        }
    }
}

#[test]
fn dance_spot_search_prefers_the_current_cell() {
    let g = Grid::new(20, 20);
    let range = vec![Point { x: 3, y: 3 }];
    let mut rng = Rng::new(2);
    let spot = look_for_dance_spot(
        &Point { x: 10, y: 10 },
        &range,
        &Dance::HOP,
        &g,
        &Vec::new(),
        &mut rng,
    );
    assert_eq!(spot, Some(Point { x: 10, y: 10 }));
}

#[test]
fn capitalize_uppercases_the_first_letter() {
    assert_eq!(capitalize("hello"), "Hello");
    assert_eq!(capitalize("the rabbit"), "The rabbit");
    assert_eq!(capitalize("z"), "Z");
    assert_eq!(capitalize("éclair"), "Éclair");
}

#[test]
fn capitalize_handles_multi_character_mappings_and_edge_cases() {
    assert_eq!(capitalize(""), "");
    assert_eq!(capitalize("Hello"), "Hello");
    assert_eq!(capitalize("1up"), "1up");
    // The sharp s upper-cases to two characters.
    assert_eq!(capitalize("ßoo"), "SSoo");
}

#[test]
fn liquid_and_tile_names() {
    assert_eq!(Liquid::WATER.name(), "water");
    assert_eq!(Liquid::BLOOD.name(), "blood");
    assert_eq!(Liquid::OIL.name(), "oil");
    assert_eq!(TileType::Wall.name(), "wall");
    assert_eq!(TileType::Floor.name(), "floor");
    assert_eq!(TileType::DownStairs.name(), "stairs down");
}

#[test]
fn player_log_appends_in_order() {
    let mut log = PlayerLog::new();
    assert!(log.entries.is_empty());
    log.insert("first");
    log.insert("second");
    assert_eq!(log.entries, vec!["first".to_string(), "second".to_string()]);
}

#[test]
fn vitals_clamp_at_their_bounds() {
    let mut h = Health::new(30);
    h.damage(5);
    assert_eq!(h.health, 25);
    h.heal(100);
    assert_eq!(h.health, 30);
    let mut s = Stamina::new(2);
    s.spend_one();
    s.spend_one();
    s.spend_one();
    assert_eq!(s.stamina, 0);
    s.restore_one();
    assert_eq!(s.stamina, 1);
    let mut p = Poise::new(10);
    p.lower(4);
    assert_eq!(p.poise, 6);
    p.lower(100);
    assert_eq!(p.poise, 0);
    p.raise(3);
    assert_eq!(p.poise, 3);
    p.raise(100);
    assert_eq!(p.poise, 10);
}

#[test]
fn rng_draws_stay_in_range_and_repeat_under_a_seed() {
    let mut a = Rng::new(55);
    let mut b = Rng::new(55);
    for _ in 0..100 {
        let x = a.range(13);
        let y = b.range(13);
        assert_eq!(x, y);
        assert!(x < 13);
    }
    let mut c = Rng::new(55);
    for _ in 0..50 {
        let roll = c.roll_die(6);
        assert!((1..=6).contains(&roll));
    }
}

#[test]
fn grid_indexing_is_row_major() {
    let g = Grid::new(10, 8);
    assert_eq!(g.xy_idx(0, 0), 0);
    assert_eq!(g.xy_idx(3, 2), 23);
    assert!(g.point_valid(&Point { x: 9, y: 7 }));
    assert!(!g.point_valid(&Point { x: 10, y: 7 }));
    assert!(!g.point_valid(&Point { x: -1, y: 0 }));
}

#[test]
fn melee_reach_matches_the_diagonal_rule() {
    let c = Point { x: 5, y: 5 };
    assert!(melee_reach(c, Point { x: 5, y: 6 }));
    assert!(melee_reach(c, Point { x: 6, y: 6 }));
    assert!(melee_reach(c, c));
    assert!(!melee_reach(c, Point { x: 5, y: 7 }));
    assert!(!melee_reach(c, Point { x: 7, y: 6 }));
}
