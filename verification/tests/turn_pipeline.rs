use mooncore::ai::{MonsterAI, MonsterAIState};
use mooncore::dancing::Dance;
use mooncore::factions::Faction;
use mooncore::gamelog::PlayerLog;
use mooncore::grid::{Grid, Point};
use mooncore::nav::shortest_path;
use mooncore::noise::MakeNoise;
use mooncore::rng::Rng;
use mooncore::vitals::{Health, Poise, Stamina};
use mooncore::world::{run_turn, Actor, RunState, World};

fn box_viewshed(x0: i32, y0: i32, x1: i32, y1: i32) -> Vec<Point> {
    let mut v = Vec::new();
    for y in y0..=y1 {
        for x in x0..=x1 {
            v.push(Point { x, y });
        }
    }
    v
}

fn plain_actor(pos: Point, is_player: bool) -> Actor {
    Actor {
        pos,
        health: Health::new(30),
        stamina: Stamina::new(10),
        poise: Poise::new(10),
        faction: if is_player { Faction::PLAYER } else { Faction::ENEMIES },
        power: 5,
        defence: 2,
        viewshed: box_viewshed(1, 1, 18, 18),
        dances: Vec::new(),
        is_player,
        ai: if is_player { None } else { Some(MonsterAI::new()) },
        dancing: None,
        confusion: None,
        resting: false,
        wants_move: None,
        wants_melee: None,
        wants_dance: None,
        effect_request: None,
        awestruck: None,
        suffer_damage: Vec::new(),
        make_noise: None,
    }
}

fn small_world(monster_pos: Point, player_pos: Point, alarm: bool, seed: u64) -> World {
    World {
        grid: Grid::new(20, 20),
        actors: vec![plain_actor(player_pos, true), plain_actor(monster_pos, false)],
        player: 0,
        alarm_raised: alarm,
        noises: Vec::new(),
        rng: Rng::new(seed),
        turn: 1,
        log: PlayerLog::new(),
    }
}

#[test]
fn monster_turn_drains_every_intent_buffer() {
    let mut w = small_world(Point { x: 5, y: 5 }, Point { x: 5, y: 8 }, true, 9);
    run_turn(&mut w, RunState::MonsterTurn);
    for a in &w.actors {
        assert!(a.wants_move.is_none());
        assert!(a.wants_melee.is_none());
        assert!(a.wants_dance.is_none());
        assert!(a.effect_request.is_none());
        assert!(a.awestruck.is_none());
        assert!(a.suffer_damage.is_empty());
        assert!(a.make_noise.is_none());
    }
    assert!(w.noises.is_empty());
}

#[test]
fn aggressive_monster_closes_in_during_its_turn() {
    let mut w = small_world(Point { x: 5, y: 5 }, Point { x: 5, y: 8 }, true, 9);
    run_turn(&mut w, RunState::MonsterTurn);
    let monster = &w.actors[1];
    match &monster.ai {
        Some(ai) => assert_eq!(ai.state, MonsterAIState::AGGRESSIVE),
        None => panic!("the monster should keep its record"),
    }
    assert_eq!(monster.pos, Point { x: 5, y: 6 });
}

#[test]
fn adjacent_monster_wounds_the_player() {
    let mut w = small_world(Point { x: 5, y: 7 }, Point { x: 5, y: 8 }, true, 9);
    let before = w.actors[0].health.health;
    run_turn(&mut w, RunState::MonsterTurn);
    let player = &w.actors[0];
    // Damage is the attacker's power over the defender's defence: 5 - 2.
    assert_eq!(player.health.health, before - 3);
    // Being hit also costs the victim one stamina.
    assert_eq!(player.stamina.stamina, 9);
    // The blow stained the victim's tile with blood.
    let idx = w.grid.point_idx(&Point { x: 5, y: 8 });
    assert!(w.grid.stains[idx].blood);
}

#[test]
fn full_turns_are_deterministic_under_a_seed() {
    let mut w1 = small_world(Point { x: 5, y: 5 }, Point { x: 9, y: 9 }, false, 31);
    let mut w2 = small_world(Point { x: 5, y: 5 }, Point { x: 9, y: 9 }, false, 31);
    w1.actors[1].dances = vec![Dance::HOP, Dance::CIRCLE];
    w2.actors[1].dances = vec![Dance::HOP, Dance::CIRCLE];
    for _ in 0..6 {
        run_turn(&mut w1, RunState::MonsterTurn);
        run_turn(&mut w2, RunState::MonsterTurn);
    }
    assert_eq!(w1.rng, w2.rng);
    for (a, b) in w1.actors.iter().zip(w2.actors.iter()) {
        assert_eq!(a.pos, b.pos);
        assert_eq!(a.health, b.health);
        assert_eq!(a.stamina, b.stamina);
        assert_eq!(a.poise, b.poise);
        assert_eq!(a.ai, b.ai);
    }
}

#[test]
fn rest_markers_are_consumed_and_vitals_recover() {
    let mut w = small_world(Point { x: 5, y: 5 }, Point { x: 15, y: 15 }, false, 3);
    // A wounded idle monster that sees nothing rests and recovers stamina.
    w.actors[1].stamina = Stamina { max_stamina: 10, stamina: 4 };
    w.turn = 7;  // not a multiple of five: stamina alone recovers while resting
    run_turn(&mut w, RunState::MonsterTurn);
    let monster = &w.actors[1];
    assert!(!monster.resting);
    assert_eq!(monster.stamina.stamina, 5);
}

#[test]
fn noise_ledger_reaches_monster_memory_before_cleanup() {
    let mut w = small_world(Point { x: 5, y: 5 }, Point { x: 8, y: 5 }, false, 3);
    // The player queues a loud surprising bang near the monster.
    w.actors[0].make_noise = Some(MakeNoise {
        location: Point { x: 8, y: 5 },
        volume: 16,
        faction: None,
        surprising: true,
        description: String::from("a bang"),
    });
    run_turn(&mut w, RunState::MonsterTurn);
    let monster = &w.actors[1];
    let heard = monster
        .ai
        .as_ref()
        .unwrap()
        .last_heard_noise
        .expect("the monster should remember the bang");
    assert_eq!(heard.location, Point { x: 8, y: 5 });
    assert!(heard.surprising);
    // The surprising sound also reached the player's log.
    assert!(w.log.entries.iter().any(|e| e == "You hear a bang."));
    // And the ledger did not outlive the turn.
    assert!(w.noises.is_empty());
}

#[test]
fn melee_raises_the_shared_alarm() {
    let mut w = small_world(Point { x: 5, y: 7 }, Point { x: 5, y: 8 }, false, 5);
    // The player strikes the adjacent monster.
    w.actors[0].wants_melee = Some(1);
    w.alarm_raised = false;
    mooncore::world::melee_combat_system(&mut w);
    assert!(w.alarm_raised);
    assert_eq!(w.actors[1].suffer_damage, vec![3]);
}

#[test]
fn confusion_ticks_down_and_lifts() {
    let mut w = small_world(Point { x: 5, y: 5 }, Point { x: 15, y: 15 }, false, 3);
    w.actors[1].confusion = Some(2);
    run_turn(&mut w, RunState::MonsterTurn);
    assert_eq!(w.actors[1].confusion, Some(1));
    run_turn(&mut w, RunState::MonsterTurn);
    assert_eq!(w.actors[1].confusion, None);
    run_turn(&mut w, RunState::MonsterTurn);
    assert_eq!(w.actors[1].confusion, None);
}

#[test]
fn dance_step_awes_watching_rivals() {
    // On the player's half of the round a dancing monster takes its next
    // step; the step carries an awesomeness effect, which strikes awe into
    // the watching rival and costs the player one poise.
    let mut w = small_world(Point { x: 5, y: 5 }, Point { x: 9, y: 5 }, false, 2);
    let steps = Dance::HOP.steps();
    w.actors[1].dancing = Some(mooncore::dancing::Dancing {
        dance: Dance::HOP,
        range: vec![Point { x: 5, y: 5 }, Point { x: 4, y: 5 }, Point { x: 6, y: 5 }],
        expect_pos: Point { x: 5, y: 5 },
        steps,
        step_idx: 1,
        repetitions: 1,
    });
    run_turn(&mut w, RunState::PlayerTurn);
    // The dancer stepped right, finished its single repetition, and the
    // watching player lost one poise to the display.
    assert_eq!(w.actors[1].pos, Point { x: 6, y: 5 });
    assert!(w.actors[1].dancing.is_none());
    assert_eq!(w.actors[1].stamina.stamina, 9);
    assert_eq!(w.actors[0].poise.poise, 9);
    assert_eq!(w.actors[1].poise.poise, 10);
}

#[test]
fn exhausted_dancer_stops_and_loses_poise() {
    let mut w = small_world(Point { x: 5, y: 5 }, Point { x: 9, y: 5 }, false, 2);
    let steps = Dance::HOP.steps();
    w.actors[1].dancing = Some(mooncore::dancing::Dancing {
        dance: Dance::HOP,
        range: vec![Point { x: 5, y: 5 }],
        expect_pos: Point { x: 5, y: 5 },
        steps,
        step_idx: 0,
        repetitions: 1,
    });
    w.actors[1].stamina = Stamina { max_stamina: 10, stamina: 0 };
    run_turn(&mut w, RunState::PlayerTurn);
    assert!(w.actors[1].dancing.is_none());
    assert_eq!(w.actors[1].poise.poise, 9);
    assert_eq!(w.actors[1].pos, Point { x: 5, y: 5 });
}

#[test]
fn mover_on_stained_tile_slips_or_walks() {
    let mut w = small_world(Point { x: 5, y: 5 }, Point { x: 15, y: 15 }, false, 77);
    let idx = w.grid.point_idx(&Point { x: 5, y: 5 });
    w.grid.stains[idx] = mooncore::liquids::StainSet { water: true, blood: false, oil: false };
    w.actors[1].wants_move = Some((Point { x: 5, y: 5 }, Point { x: 6, y: 5 }));
    mooncore::world::movement_system(&mut w);
    let mover = &w.actors[1];
    // Either the move went through, or the slip left the mover within one
    // king-move on open ground (or where it stood); a slip is audible.
    let dx = (mover.pos.x - 5).abs();
    let dy = (mover.pos.y - 5).abs();
    assert!(dx <= 1 && dy <= 1);
    assert!(!w.grid.blocked[w.grid.point_idx(&mover.pos)]);
    if mover.pos != (Point { x: 6, y: 5 }) {
        let noise = mover.make_noise.as_ref().expect("a slip makes noise");
        assert_eq!(noise.volume, 32);
        assert_eq!(noise.description, "something slipping");
    }
    assert!(mover.wants_move.is_none());
}

#[test]
fn zero_length_trips_and_unreachable_goals_complete() {
    let g = Grid::new(20, 20);
    assert!(shortest_path(&g, Point { x: 4, y: 4 }, Point { x: 4, y: 4 }, false).is_none());
}

#[test]
fn pipeline_schedule_has_six_phases_with_unique_systems() {
    let phases = mooncore::pipeline::phases();
    assert_eq!(phases.len(), 6);
    let flat: Vec<_> = phases.iter().flatten().collect();
    assert_eq!(flat.len(), 15);
    for (i, a) in flat.iter().enumerate() {
        for b in flat.iter().skip(i + 1) {
            assert!(a != b);
        }
    }
    assert_eq!(phases[0].len(), 1);
    assert_eq!(phases[1].len(), 1);
    assert_eq!(phases[2].len(), 7);
}
