use mooncore::ai::{decide, Action, ActorSnapshot, AdversaryView, MonsterAI, MonsterAIState, MovementGoal, PathInfo};
use mooncore::dancing::Dance;
use mooncore::grid::{Grid, Point};
use mooncore::rng::Rng;
use mooncore::vitals::{Health, Poise, Stamina};

fn open_grid(w: i32, h: i32) -> Grid {
    Grid::new(w, h)
}

fn full_vitals() -> (Health, Stamina, Poise) {
    (Health::new(50), Stamina::new(10), Poise::new(10))
}

fn box_viewshed(x0: i32, y0: i32, x1: i32, y1: i32) -> Vec<Point> {
    let mut v = Vec::new();
    for y in y0..=y1 {
        for x in x0..=x1 {
            v.push(Point { x, y });
        }
    }
    v
}

fn idle_ai() -> MonsterAI {
    MonsterAI::new()
}

fn snapshot(pos: Point, health: Health, stamina: Stamina, poise: Poise) -> ActorSnapshot {
    ActorSnapshot {
        pos,
        health,
        stamina,
        poise,
        viewshed: box_viewshed(1, 1, 18, 18),
        dances: Vec::new(),
    }
}

fn enemy_at(pos: Point, alarm: bool) -> AdversaryView {
    AdversaryView { player_pos: pos, alarm_raised: alarm }
}

#[test]
fn recovered_resting_actor_waits() {
    let g = open_grid(20, 20);
    let (h, s, p) = full_vitals();
    let ai = MonsterAI {
        state: MonsterAIState::RESTING,
        saw_enemy_last_turn: false,
        last_saw_enemy: None,
        last_heard_noise: None,
    };
    // Enemy out of sight: the actor's viewshed excludes (19, 19).
    let actor = snapshot(Point { x: 5, y: 5 }, h, s, p);
    let enemy = enemy_at(Point { x: 19, y: 19 }, false);
    let mut rng = Rng::new(7);
    let (out, action) = decide(&ai, &actor, &enemy, &Vec::new(), &g, &mut rng);
    assert_eq!(out.state, MonsterAIState::WAITING);
    assert_eq!(action, Some(Action::Rest));
}

#[test]
fn recovered_fleeing_actor_waits() {
    let g = open_grid(20, 20);
    let (h, s, p) = full_vitals();
    let ai = MonsterAI {
        state: MonsterAIState::MOVING { goal: MovementGoal::Flee, path: None },
        saw_enemy_last_turn: false,
        last_saw_enemy: None,
        last_heard_noise: None,
    };
    let actor = snapshot(Point { x: 5, y: 5 }, h, s, p);
    let enemy = enemy_at(Point { x: 19, y: 19 }, false);
    let mut rng = Rng::new(7);
    let (out, _) = decide(&ai, &actor, &enemy, &Vec::new(), &g, &mut rng);
    assert_eq!(out.state, MonsterAIState::WAITING);
    assert!(!matches!(out.state, MonsterAIState::MOVING { .. }));
    assert!(out.state != MonsterAIState::RESTING);
}

#[test]
fn decision_pass_is_deterministic() {
    let g = open_grid(20, 20);
    let ai = MonsterAI {
        state: MonsterAIState::WAITING,
        saw_enemy_last_turn: false,
        last_saw_enemy: None,
        last_heard_noise: None,
    };
    // Eligible for a dance hunt: knows dances, sees the enemy, no alarm.
    let actor = ActorSnapshot {
        pos: Point { x: 9, y: 9 },
        health: Health::new(50),
        stamina: Stamina::new(10),
        poise: Poise::new(10),
        viewshed: box_viewshed(1, 1, 18, 18),
        dances: vec![Dance::HOP, Dance::JITTER, Dance::CIRCLE],
    };
    let enemy = enemy_at(Point { x: 9, y: 12 }, false);
    let mut rng_a = Rng::new(12345);
    let mut rng_b = Rng::new(12345);
    let (out_a, act_a) = decide(&ai, &actor, &enemy, &Vec::new(), &g, &mut rng_a);
    let (out_b, act_b) = decide(&ai, &actor, &enemy, &Vec::new(), &g, &mut rng_b);
    assert_eq!(out_a, out_b);
    assert_eq!(act_a, act_b);
    assert_eq!(rng_a, rng_b);
}

#[test]
fn flee_outranks_aggression() {
    let g = open_grid(20, 20);
    let ai = idle_ai();
    // Health below a tenth of maximum, enemy visible, alarm raised.
    let actor = snapshot(
        Point { x: 5, y: 5 },
        Health { max_health: 50, health: 4 },
        Stamina::new(10),
        Poise::new(10),
    );
    let enemy = enemy_at(Point { x: 5, y: 8 }, true);
    let mut rng = Rng::new(99);
    let (out, _) = decide(&ai, &actor, &enemy, &Vec::new(), &g, &mut rng);
    assert!(matches!(
        out.state,
        MonsterAIState::MOVING { goal: MovementGoal::Flee, .. }
    ));
    assert!(out.state != MonsterAIState::AGGRESSIVE);
}

#[test]
fn displaced_actor_discards_cached_path() {
    let g = open_grid(20, 20);
    let dest = Point { x: 10, y: 5 };
    // The cached path expected the actor at (6, 5), but it stands at (5, 5).
    let stale = PathInfo {
        steps: vec![Point { x: 6, y: 5 }, Point { x: 7, y: 5 }, Point { x: 10, y: 5 }],
        step_idx: 0,
        expect_pos: Point { x: 6, y: 5 },
    };
    let ai = MonsterAI {
        state: MonsterAIState::MOVING {
            goal: MovementGoal::InvestigateNoise { destination: dest, surprising: false },
            path: Some(stale),
        },
        saw_enemy_last_turn: false,
        last_saw_enemy: None,
        last_heard_noise: None,
    };
    let (h, s, p) = full_vitals();
    let actor = snapshot(Point { x: 5, y: 5 }, h, s, p);
    let enemy = enemy_at(Point { x: 19, y: 19 }, false);
    let mut rng = Rng::new(3);
    let (out, action) = decide(&ai, &actor, &enemy, &Vec::new(), &g, &mut rng);
    match out.state {
        MonsterAIState::MOVING { goal, path } => {
            assert!(matches!(
                goal,
                MovementGoal::InvestigateNoise { destination, surprising: false }
                    if destination == dest
            ));
            let fresh = path.expect("a fresh path should have been computed");
            assert_eq!(fresh.step_idx, 0);
            assert_eq!(fresh.steps[0], Point { x: 5, y: 5 });
            assert_eq!(fresh.expect_pos, Point { x: 5, y: 5 });
            assert_eq!(*fresh.steps.last().unwrap(), dest);
        }
        other => panic!("expected a recomputed travel state, got {:?}", other),
    }
    assert!(matches!(action, Some(Action::Move { .. })));
}

#[test]
fn finished_dance_travel_starts_the_chosen_dance() {
    let g = open_grid(20, 20);
    let here = Point { x: 7, y: 7 };
    let path = PathInfo {
        steps: vec![Point { x: 6, y: 7 }, here],
        step_idx: 1,
        expect_pos: here,
    };
    let ai = MonsterAI {
        state: MonsterAIState::MOVING {
            goal: MovementGoal::GoDance { dance: Dance::CIRCLE, destination: here },
            path: Some(path),
        },
        saw_enemy_last_turn: false,
        last_saw_enemy: None,
        last_heard_noise: None,
    };
    let (h, s, p) = full_vitals();
    let actor = snapshot(here, h, s, p);
    let enemy = enemy_at(Point { x: 19, y: 19 }, false);
    let mut rng = Rng::new(5);
    let (out, action) = decide(&ai, &actor, &enemy, &Vec::new(), &g, &mut rng);
    assert_eq!(out.state, MonsterAIState::DANCING { dance: Dance::CIRCLE });
    assert_eq!(
        action,
        Some(Action::StartDance { dance: Dance::CIRCLE, repetitions: 1 })
    );
}

#[test]
fn aggressive_actor_steps_toward_visible_enemy() {
    // Actor at (5,5), adversary at (5,8), clear line, alarm raised, full
    // vitals: one pass yields the aggressive state and a step to (5,6) —
    // distance 3 is out of melee reach.
    let g = open_grid(20, 20);
    let ai = idle_ai();
    let (h, s, p) = full_vitals();
    let actor = snapshot(Point { x: 5, y: 5 }, h, s, p);
    let enemy = enemy_at(Point { x: 5, y: 8 }, true);
    let mut rng = Rng::new(21);
    let (out, action) = decide(&ai, &actor, &enemy, &Vec::new(), &g, &mut rng);
    assert_eq!(out.state, MonsterAIState::AGGRESSIVE);
    assert_eq!(out.last_saw_enemy, Some(Point { x: 5, y: 8 }));
    match action {
        Some(Action::Move { source, destination }) => {
            assert_eq!(source, Point { x: 5, y: 5 });
            assert_eq!(destination, Point { x: 5, y: 6 });
        }
        other => panic!("expected a move intent, got {:?}", other),
    }
}

#[test]
fn wounded_actor_flees_despite_alarm() {
    // The same actor with health 1 of 50 flees regardless of the alarm and
    // emits a move intent along its flight path.
    let g = open_grid(20, 20);
    let ai = idle_ai();
    let actor = snapshot(
        Point { x: 5, y: 5 },
        Health { max_health: 50, health: 1 },
        Stamina::new(10),
        Poise::new(10),
    );
    let enemy = enemy_at(Point { x: 5, y: 8 }, true);
    let mut rng = Rng::new(77);
    let (out, action) = decide(&ai, &actor, &enemy, &Vec::new(), &g, &mut rng);
    assert!(out.state != MonsterAIState::AGGRESSIVE);
    match &out.state {
        MonsterAIState::MOVING { goal: MovementGoal::Flee, path } => {
            let path = path.as_ref().expect("a flee path should have been planned");
            assert!(path.steps.len() >= 2);
        }
        other => panic!("expected a flee state, got {:?}", other),
    }
    match action {
        Some(Action::Move { source, .. }) => {
            assert_eq!(source, Point { x: 5, y: 5 });
        }
        other => panic!("expected a move intent, got {:?}", other),
    }
}

#[test]
fn adjacent_aggressive_actor_attacks_instead_of_moving() {
    let g = open_grid(20, 20);
    let ai = idle_ai();
    let (h, s, p) = full_vitals();
    let actor = snapshot(Point { x: 5, y: 5 }, h, s, p);
    let enemy = enemy_at(Point { x: 5, y: 6 }, true);
    let mut rng = Rng::new(8);
    let (out, action) = decide(&ai, &actor, &enemy, &Vec::new(), &g, &mut rng);
    assert_eq!(out.state, MonsterAIState::AGGRESSIVE);
    assert_eq!(action, Some(Action::Melee));
}

#[test]
fn surprising_noise_interrupts_idle_actor() {
    let g = open_grid(20, 20);
    let heard = mooncore::noise::MonsterAINoiseRecord {
        turn: 3,
        volume: 32,
        surprising: true,
        location: Point { x: 12, y: 12 },
    };
    let ai = MonsterAI {
        state: MonsterAIState::WAITING,
        saw_enemy_last_turn: false,
        last_saw_enemy: None,
        last_heard_noise: Some(heard),
    };
    let (h, s, p) = full_vitals();
    let actor = snapshot(Point { x: 5, y: 5 }, h, s, p);
    // Even with the enemy in sight and the alarm up, the surprising noise
    // outranks the threat response.
    let enemy = enemy_at(Point { x: 5, y: 8 }, true);
    let mut rng = Rng::new(4);
    let (out, _) = decide(&ai, &actor, &enemy, &Vec::new(), &g, &mut rng);
    match out.state {
        MonsterAIState::MOVING {
            goal: MovementGoal::InvestigateNoise { destination, surprising },
            ..
        } => {
            assert_eq!(destination, Point { x: 12, y: 12 });
            assert!(surprising);
        }
        other => panic!("expected an investigation, got {:?}", other),
    }
}

#[test]
fn idle_actor_seeks_remembered_enemy() {
    let g = open_grid(20, 20);
    let ai = MonsterAI {
        state: MonsterAIState::WAITING,
        saw_enemy_last_turn: false,
        last_saw_enemy: Some(Point { x: 14, y: 14 }),
        last_heard_noise: None,
    };
    let (h, s, p) = full_vitals();
    let actor = snapshot(Point { x: 5, y: 5 }, h, s, p);
    let enemy = enemy_at(Point { x: 19, y: 19 }, false);
    let mut rng = Rng::new(4);
    let (out, _) = decide(&ai, &actor, &enemy, &Vec::new(), &g, &mut rng);
    match out.state {
        MonsterAIState::MOVING { goal: MovementGoal::SeekEnemy, path } => {
            let path = path.expect("a seek path should have been computed");
            assert_eq!(*path.steps.last().unwrap(), Point { x: 14, y: 14 });
        }
        other => panic!("expected a seek state, got {:?}", other),
    }
}

#[test]
fn exhausted_seek_clears_enemy_memory() {
    let g = open_grid(20, 20);
    let here = Point { x: 9, y: 9 };
    let path = PathInfo {
        steps: vec![Point { x: 8, y: 9 }, here],
        step_idx: 1,
        expect_pos: here,
    };
    let ai = MonsterAI {
        state: MonsterAIState::MOVING { goal: MovementGoal::SeekEnemy, path: Some(path) },
        saw_enemy_last_turn: false,
        last_saw_enemy: Some(here),
        last_heard_noise: None,
    };
    let (h, s, p) = full_vitals();
    let actor = snapshot(here, h, s, p);
    let enemy = enemy_at(Point { x: 19, y: 19 }, false);
    let mut rng = Rng::new(4);
    let (out, _) = decide(&ai, &actor, &enemy, &Vec::new(), &g, &mut rng);
    assert_eq!(out.state, MonsterAIState::WAITING);
    assert_eq!(out.last_saw_enemy, None);
}
