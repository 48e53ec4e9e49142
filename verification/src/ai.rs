//! The per-actor decision engine: a finite state machine with goal memory
//! and cached pathfinding, advanced once per eligible actor per turn.
//!
//! The decision pass is split in three: the choice phase (recovery check,
//! flee continuation, surprising-noise interrupt, threat response, idle
//! seeking) is pinned exactly to a spec-level function of its inputs and the
//! random stream; the movement phase (path sanity, recomputation, advance,
//! goal completion) is specified by a relation that pins everything but the
//! navigator's route choice; the acting phase maps the final state to the
//! emitted intent.

use vstd::prelude::*;
use crate::dancing::{claims_view, Dance, spec_good_start, spec_look_for_spot, look_for_dance_spot};
use crate::grid::{adjacent, Grid, in_melee_reach, melee_reach, Point};
use crate::nav::{
    next_step_toward, plan_flee, route_exists, shortest_path, spec_exit_valid,
    spec_flee_candidate_ok, spec_flee_dest, valid_path, FLEE_TRIES,
};
use crate::noise::MonsterAINoiseRecord;
use crate::rng::{Rng, spec_advance, spec_advance_n, spec_range};
use crate::vitals::{Health, Poise, Stamina};

verus! {

/// A cached route: the full step list, the cursor of the step being walked,
/// and the cell the actor is expected to stand on having taken it.
#[derive(Clone, PartialEq, Eq, Debug)]
pub struct PathInfo {
    pub steps: Vec<Point>,
    pub step_idx: u32,
    pub expect_pos: Point,
}

impl PathInfo {
    /// The cursor stays strictly inside the step list and the expected cell
    /// is the one the cursor points at.
    pub open spec fn wf(self) -> bool {
        &&& 1 <= self.steps@.len() < 0x1000_0000
        &&& (self.step_idx as int) < self.steps@.len()
        &&& self.expect_pos == self.steps@[self.step_idx as int]
    }

    /// Every cell of the route lies on the grid.
    pub open spec fn in_grid(self, g: Grid) -> bool {
        forall|i: int| 0 <= i < self.steps@.len() ==> g.spec_point_valid(#[trigger] self.steps@[i])
    }
}

/// Why an actor is travelling.
#[derive(Clone, Copy, PartialEq, Eq, Structural, Debug)]
pub enum MovementGoal {
    Flee,
    SeekEnemy,
    GoDance { dance: Dance, destination: Point },
    InvestigateNoise { destination: Point, surprising: bool },
}

/// The decision engine's state for one actor.
#[derive(Clone, PartialEq, Eq, Debug)]
pub enum MonsterAIState {
    WAITING,
    RESTING,
    AGGRESSIVE,
    DANCING { dance: Dance },
    MOVING { goal: MovementGoal, path: Option<PathInfo> },
}

impl MonsterAIState {
    /// Any cached route is well formed.
    pub open spec fn wf(self) -> bool {
        match self {
            MonsterAIState::MOVING { path: Some(pi), .. } => pi.wf(),
            _ => true,
        }
    }

    /// Every cell the state mentions lies on the grid.
    pub open spec fn in_grid(self, g: Grid) -> bool {
        match self {
            MonsterAIState::MOVING { goal, path } => {
                &&& goal_in_grid(g, goal)
                &&& match path {
                    Some(pi) => pi.in_grid(g),
                    None => true,
                }
            },
            _ => true,
        }
    }
}

/// A travel goal's destination, if it names one, lies on the grid.
pub open spec fn goal_in_grid(g: Grid, goal: MovementGoal) -> bool {
    match goal {
        MovementGoal::GoDance { destination, .. } => g.spec_point_valid(destination),
        MovementGoal::InvestigateNoise { destination, .. } => g.spec_point_valid(destination),
        _ => true,
    }
}

/// One actor's decision record: the machine state and the remembered facts
/// it consults.
#[derive(Clone, PartialEq, Eq, Debug)]
pub struct MonsterAI {
    pub state: MonsterAIState,
    pub saw_enemy_last_turn: bool,
    pub last_saw_enemy: Option<Point>,
    pub last_heard_noise: Option<MonsterAINoiseRecord>,
}

impl MonsterAI {
    /// A fresh record: waiting, with nothing remembered.
    pub fn new() -> (r: MonsterAI)
        ensures
            r.state is WAITING,
            r.saw_enemy_last_turn == false,
            r.last_saw_enemy is None,
            r.last_heard_noise is None,
            r.wf(),
    {
        MonsterAI {
            state: MonsterAIState::WAITING,
            saw_enemy_last_turn: false,
            last_saw_enemy: None,
            last_heard_noise: None,
        }
    }

    pub open spec fn wf(self) -> bool {
        self.state.wf()
    }

    /// Every cell the record mentions lies on the grid.
    pub open spec fn in_grid(self, g: Grid) -> bool {
        &&& self.state.in_grid(g)
        &&& match self.last_saw_enemy {
            Some(p) => g.spec_point_valid(p),
            None => true,
        }
        &&& match self.last_heard_noise {
            Some(nr) => g.spec_point_valid(nr.location),
            None => true,
        }
    }
}

/// The intent an actor's decision emits for this turn.
#[derive(Clone, Copy, PartialEq, Eq, Structural, Debug)]
pub enum Action {
    /// Rest, recovering faster: the idle and resting states' marker.
    Rest,
    /// Strike the adversary in melee.
    Melee,
    /// Step from `source` onto `destination`.
    Move { source: Point, destination: Point },
    /// Begin dancing the given dance.
    StartDance { dance: Dance, repetitions: u32 },
}

/// Whether the state is travelling with the flee goal.
pub open spec fn is_flee_moving(state: MonsterAIState) -> bool {
    match state {
        MonsterAIState::MOVING { goal: MovementGoal::Flee, .. } => true,
        _ => false,
    }
}

/// Whether the state is travelling toward a dance site.
pub open spec fn is_godance_moving(state: MonsterAIState) -> bool {
    match state {
        MonsterAIState::MOVING { goal: MovementGoal::GoDance { .. }, .. } => true,
        _ => false,
    }
}

/// Whether the state is already investigating a surprising noise.
pub open spec fn is_surprise_investigating(state: MonsterAIState) -> bool {
    match state {
        MonsterAIState::MOVING {
            goal: MovementGoal::InvestigateNoise { surprising: true, .. },
            ..
        } => true,
        _ => false,
    }
}

/// Whether a sequence of cells contains the given cell.
pub open spec fn spec_contains_point(s: Seq<Point>, p: Point) -> bool {
    exists|i: int| 0 <= i < s.len() && s[i] == p
}

/// Linear search for a cell.
pub fn contains_point(v: &Vec<Point>, p: &Point) -> (r: bool)
    ensures
        r == spec_contains_point(v@, *p),
{
    let mut i: usize = 0;
    while i < v.len()
        invariant
            i <= v.len(),
            forall|j: int| 0 <= j < i ==> v@[j] != *p,
        decreases v.len() - i,
    {
        if v[i].x == p.x && v[i].y == p.y {
            return true;
        }
        i = i + 1;
    }
    false
}

/// The dance-opportunity search of the threat response: up to one try per
/// known dance, each try drawing a random dance and searching for a site for
/// it, as a function of the random stream.
pub open spec fn spec_dance_search(
    g: Grid,
    pos: Point,
    range: Seq<Point>,
    dances: Seq<Dance>,
    claims: Seq<Seq<Point>>,
    s: u64,
    tries: nat,
) -> (Option<(Dance, Point)>, u64)
    decreases tries,
{
    if dances.len() == 0 || tries == 0 {
        (None, s)
    } else {
        let di = spec_range(s, dances.len() as u64) as int;
        let s2 = spec_advance(s);
        let dance = dances[di];
        let (spot, s3) = spec_look_for_spot(g, pos, range, dance.spec_steps(), claims, s2);
        match spot {
            Some(p) => (Some((dance, p)), s3),
            None => spec_dance_search(g, pos, range, dances, claims, s3, (tries - 1) as nat),
        }
    }
}

/// One unfolding of the dance-opportunity search.
proof fn lemma_dance_search_step(
    g: Grid,
    pos: Point,
    range: Seq<Point>,
    dances: Seq<Dance>,
    claims: Seq<Seq<Point>>,
    s: u64,
    tries: nat,
)
    requires
        dances.len() > 0,
        tries > 0,
    ensures
        spec_dance_search(g, pos, range, dances, claims, s, tries) == {
            let dance = dances[spec_range(s, dances.len() as u64) as int];
            let (spot, s3) = spec_look_for_spot(
                g,
                pos,
                range,
                dance.spec_steps(),
                claims,
                spec_advance(s),
            );
            match spot {
                Some(p) => (Some((dance, p)), s3),
                None => spec_dance_search(g, pos, range, dances, claims, s3, (tries - 1) as nat),
            }
        },
{
}

/// Runs the dance-opportunity search, pinned to the random stream.
fn dance_search(
    pos: &Point,
    range: &Vec<Point>,
    dances: &Vec<Dance>,
    claims: &Vec<Vec<Point>>,
    g: &Grid,
    rng: &mut Rng,
) -> (r: Option<(Dance, Point)>)
    requires
        g.wf(),
    ensures
        (r, final(rng).state) == spec_dance_search(
            *g,
            *pos,
            range@,
            dances@,
            claims_view(claims@),
            old(rng).state,
            dances@.len(),
        ),
        match r {
            Some((dance, p)) => spec_good_start(*g, p, dance.spec_steps(), claims_view(claims@)),
            None => true,
        },
{
    if dances.len() == 0 {
        return None;
    }
    let tries: usize = dances.len();
    let mut t: usize = 0;
    while t < tries
        invariant
            g.wf(),
            dances.len() > 0,
            tries == dances.len(),
            t <= tries,
            spec_dance_search(
                *g,
                *pos,
                range@,
                dances@,
                claims_view(claims@),
                old(rng).state,
                dances@.len(),
            ) == spec_dance_search(
                *g,
                *pos,
                range@,
                dances@,
                claims_view(claims@),
                rng.state,
                (tries - t) as nat,
            ),
        decreases tries - t,
    {
        let ghost s_before = rng.state;
        let di = rng.range_usize(dances.len());
        let dance = dances[di];
        proof {
            lemma_dance_search_step(
                *g,
                *pos,
                range@,
                dances@,
                claims_view(claims@),
                s_before,
                (tries - t) as nat,
            );
        }
        if let Some(spot) = look_for_dance_spot(pos, range, &dance, g, claims, rng) {
            return Some((dance, spot));
        }
        t = t + 1;
    }
    None
}

/// What the choice phase settled on. `Unchanged` keeps the prior state,
/// cached route included; every other outcome names a fresh state (a fresh
/// travel state carries no cached route yet).
#[derive(Clone, Copy, PartialEq, Eq, Structural, Debug)]
pub enum ChosenState {
    Unchanged,
    Waiting,
    Fleeing,
    Aggressive,
    GoingToDance { dance: Dance, destination: Point },
    Investigating { destination: Point, surprising: bool },
    Seeking,
}

/// The recovery check: an actor that was fleeing or resting and has all
/// three vitals back at their maxima goes back to waiting; anyone else is
/// left alone.
pub open spec fn spec_completion_check(
    state0: MonsterAIState,
    health: Health,
    stamina: Stamina,
    poise: Poise,
) -> MonsterAIState {
    let full = health.health >= health.max_health && stamina.stamina >= stamina.max_stamina
        && poise.poise >= poise.max_poise;
    if full && (is_flee_moving(state0) || state0 is RESTING) {
        MonsterAIState::WAITING
    } else {
        state0
    }
}

/// Whether the recovery check resets the state to waiting.
pub open spec fn spec_completion_resets(
    state0: MonsterAIState,
    health: Health,
    stamina: Stamina,
    poise: Poise,
) -> bool {
    let full = health.health >= health.max_health && stamina.stamina >= stamina.max_stamina
        && poise.poise >= poise.max_poise;
    full && (is_flee_moving(state0) || state0 is RESTING)
}

/// The whole choice phase, as a function of the actor's record, the world
/// facts and the random stream. In priority order: recovery check; flee
/// continuation; surprising-noise interrupt; threat response while the enemy
/// is in sight (record the sighting, leave dance travel undisturbed, flee at
/// low health or exhausted stamina or broken poise, turn aggressive once the
/// alarm is raised, otherwise hunt for a dance opportunity); idle seeking of
/// the remembered enemy or noise when nothing is in sight.
pub open spec fn spec_choose(
    state0: MonsterAIState,
    saw0: Option<Point>,
    heard0: Option<MonsterAINoiseRecord>,
    pos: Point,
    player_pos: Point,
    health: Health,
    stamina: Stamina,
    poise: Poise,
    enemy_in_sight: bool,
    alarm: bool,
    dances: Seq<Dance>,
    range: Seq<Point>,
    claims: Seq<Seq<Point>>,
    g: Grid,
    s: u64,
) -> (ChosenState, Option<Point>, u64) {
    let resets = spec_completion_resets(state0, health, stamina, poise);
    let default = if resets {
        ChosenState::Waiting
    } else {
        ChosenState::Unchanged
    };
    let flee_continuing = is_flee_moving(state0) && !resets;
    let surprise_fires = !flee_continuing && !(state0 is AGGRESSIVE)
        && !is_surprise_investigating(state0) && match heard0 {
        Some(nr) => nr.surprising,
        None => false,
    };
    if surprise_fires {
        let dest = heard0->Some_0.location;
        (ChosenState::Investigating { destination: dest, surprising: true }, saw0, s)
    } else if flee_continuing {
        (default, saw0, s)
    } else if enemy_in_sight {
        let saw1 = Some(player_pos);
        if is_godance_moving(state0) {
            (default, saw1, s)
        } else if health.health < health.max_health / 10 {
            (ChosenState::Fleeing, saw1, s)
        } else if stamina.stamina == 0 {
            (ChosenState::Fleeing, saw1, s)
        } else if poise.poise == 0 {
            (ChosenState::Fleeing, saw1, s)
        } else if alarm {
            (ChosenState::Aggressive, saw1, s)
        } else {
            let (found, s2) = spec_dance_search(g, pos, range, dances, claims, s, dances.len());
            match found {
                Some((dance, spot)) => (
                    ChosenState::GoingToDance { dance, destination: spot },
                    saw1,
                    s2,
                ),
                None => (default, saw1, s2),
            }
        }
    } else {
        let waiting_now = state0 is WAITING || spec_completion_resets(
            state0,
            health,
            stamina,
            poise,
        );
        if waiting_now {
            match saw0 {
                Some(_) => (ChosenState::Seeking, saw0, s),
                None => match heard0 {
                    Some(nr) => (
                        ChosenState::Investigating {
                            destination: nr.location,
                            surprising: false,
                        },
                        saw0,
                        s,
                    ),
                    None => (default, saw0, s),
                },
            }
        } else {
            (default, saw0, s)
        }
    }
}

/// Runs the choice phase, pinned exactly to its spec-level function.
pub fn choose_phase(
    state0: &MonsterAIState,
    saw0: &Option<Point>,
    heard0: &Option<MonsterAINoiseRecord>,
    pos: &Point,
    player_pos: &Point,
    health: &Health,
    stamina: &Stamina,
    poise: &Poise,
    enemy_in_sight: bool,
    alarm: bool,
    dances: &Vec<Dance>,
    range: &Vec<Point>,
    claims: &Vec<Vec<Point>>,
    g: &Grid,
    rng: &mut Rng,
) -> (r: (ChosenState, Option<Point>))
    requires
        g.wf(),
        health.wf(),
        stamina.wf(),
        poise.wf(),
    ensures
        (r.0, r.1, final(rng).state) == spec_choose(
            *state0,
            *saw0,
            *heard0,
            *pos,
            *player_pos,
            *health,
            *stamina,
            *poise,
            enemy_in_sight,
            alarm,
            dances@,
            range@,
            claims_view(claims@),
            *g,
            old(rng).state,
        ),
        match r.0 {
            ChosenState::GoingToDance { dance, destination } => spec_good_start(
                *g,
                destination,
                dance.spec_steps(),
                claims_view(claims@),
            ),
            _ => true,
        },
        match r.0 {
            ChosenState::Investigating { destination, .. } => heard0 is Some && destination
                == heard0->Some_0.location,
            _ => true,
        },
{
    let full = health.health >= health.max_health && stamina.stamina >= stamina.max_stamina
        && poise.poise >= poise.max_poise;
    let flee_moving = match state0 {
        MonsterAIState::MOVING { goal: MovementGoal::Flee, .. } => true,
        _ => false,
    };
    let resting = match state0 {
        MonsterAIState::RESTING => true,
        _ => false,
    };
    let resets = full && (flee_moving || resting);
    let default = if resets {
        ChosenState::Waiting
    } else {
        ChosenState::Unchanged
    };
    let flee_continuing = flee_moving && !resets;
    let aggressive = match state0 {
        MonsterAIState::AGGRESSIVE => true,
        _ => false,
    };
    let surprise_investigating = match state0 {
        MonsterAIState::MOVING {
            goal: MovementGoal::InvestigateNoise { surprising: true, .. },
            ..
        } => true,
        _ => false,
    };
    let heard_surprising = match heard0 {
        Some(nr) => nr.surprising,
        None => false,
    };
    if !flee_continuing && !aggressive && !surprise_investigating && heard_surprising {
        let dest = match heard0 {
            Some(nr) => nr.location,
            None => Point { x: 0, y: 0 },
        };
        return (ChosenState::Investigating { destination: dest, surprising: true }, *saw0);
    }
    if flee_continuing {
        return (default, *saw0);
    }
    if enemy_in_sight {
        let saw1 = Some(*player_pos);
        let godance_moving = match state0 {
            MonsterAIState::MOVING { goal: MovementGoal::GoDance { .. }, .. } => true,
            _ => false,
        };
        if godance_moving {
            return (default, saw1);
        }
        if health.health < health.max_health / 10 {
            return (ChosenState::Fleeing, saw1);
        }
        if stamina.stamina == 0 {
            return (ChosenState::Fleeing, saw1);
        }
        if poise.poise == 0 {
            return (ChosenState::Fleeing, saw1);
        }
        if alarm {
            return (ChosenState::Aggressive, saw1);
        }
        match dance_search(pos, range, dances, claims, g, rng) {
            Some((dance, spot)) => {
                return (ChosenState::GoingToDance { dance, destination: spot }, saw1);
            },
            None => {
                return (default, saw1);
            },
        }
    }
    let waiting_now = match state0 {
        MonsterAIState::WAITING => true,
        _ => false,
    } || resets;
    if waiting_now {
        match saw0 {
            Some(_) => (ChosenState::Seeking, *saw0),
            None => match heard0 {
                Some(nr) => (
                    ChosenState::Investigating { destination: nr.location, surprising: false },
                    *saw0,
                ),
                None => (default, *saw0),
            },
        }
    } else {
        (default, *saw0)
    }
}

/// The state a completed goal leaves the actor in: a finished flight turns
/// into rest, a finished hunt or investigation into waiting, and reaching a
/// dance site into the dance that was chosen when the goal was acquired.
pub open spec fn completion_state(goal: MovementGoal) -> MonsterAIState {
    match goal {
        MovementGoal::Flee => MonsterAIState::RESTING,
        MovementGoal::SeekEnemy => MonsterAIState::WAITING,
        MovementGoal::GoDance { dance, .. } => MonsterAIState::DANCING { dance },
        MovementGoal::InvestigateNoise { .. } => MonsterAIState::WAITING,
    }
}

/// Route equality, comparing the step lists by contents.
pub open spec fn path_like(a: PathInfo, b: PathInfo) -> bool {
    &&& a.steps@ == b.steps@
    &&& a.step_idx == b.step_idx
    &&& a.expect_pos == b.expect_pos
}

/// State equality, comparing any cached routes by contents.
pub open spec fn state_like(a: MonsterAIState, b: MonsterAIState) -> bool {
    match (a, b) {
        (
            MonsterAIState::MOVING { goal: ga, path: pa },
            MonsterAIState::MOVING { goal: gb, path: pb },
        ) => ga == gb && match (pa, pb) {
            (Some(x), Some(y)) => path_like(x, y),
            (None, None) => true,
            _ => false,
        },
        _ => a == b,
    }
}

/// The state the choice phase's outcome stands for, given the prior state.
pub open spec fn state_of_choice(
    chosen: ChosenState,
    state0: MonsterAIState,
    state1: MonsterAIState,
) -> bool {
    match chosen {
        ChosenState::Unchanged => state_like(state1, state0),
        ChosenState::Waiting => state1 == MonsterAIState::WAITING,
        ChosenState::Fleeing => state1 == (MonsterAIState::MOVING {
            goal: MovementGoal::Flee,
            path: None,
        }),
        ChosenState::Aggressive => state1 == MonsterAIState::AGGRESSIVE,
        ChosenState::GoingToDance { dance, destination } => state1 == (MonsterAIState::MOVING {
            goal: MovementGoal::GoDance { dance, destination },
            path: None,
        }),
        ChosenState::Investigating { destination, surprising } => state1
            == (MonsterAIState::MOVING {
            goal: MovementGoal::InvestigateNoise { destination, surprising },
            path: None,
        }),
        ChosenState::Seeking => state1 == (MonsterAIState::MOVING {
            goal: MovementGoal::SeekEnemy,
            path: None,
        }),
    }
}

/// A route computed this turn: cursor at its start, standing on the actor's
/// cell, with at least one actual step, forming a valid route of the grid.
pub open spec fn fresh_path_ok(g: Grid, pos: Point, pi: PathInfo) -> bool {
    &&& pi.wf()
    &&& pi.step_idx == 0
    &&& pi.expect_pos == pos
    &&& pi.steps@.len() >= 2
    &&& valid_path(g, pi.steps@, pos, pi.steps@[pi.steps@.len() - 1], false)
}

/// Where a freshly computed route must end, by goal: a flight on any
/// unblocked cell, a hunt on the remembered enemy cell, travel on the named
/// destination.
pub open spec fn path_dest_ok(
    g: Grid,
    goal: MovementGoal,
    saw: Option<Point>,
    pi: PathInfo,
) -> bool {
    let last = pi.steps@[pi.steps@.len() - 1];
    match goal {
        MovementGoal::Flee => !g.spec_blocked_at(last),
        MovementGoal::SeekEnemy => saw == Some(last),
        MovementGoal::GoDance { destination, .. } => last == destination,
        MovementGoal::InvestigateNoise { destination, .. } => last == destination,
    }
}

/// Whether a fixed-destination goal is genuinely done at recomputation
/// time: the actor already stands on the destination, or no route to it
/// exists. A flight has no fixed destination; its give-up rule is stated
/// over the flee draws where the random stream is in scope.
pub open spec fn goal_unroutable(g: Grid, pos: Point, goal: MovementGoal, saw: Option<Point>) -> bool {
    match goal {
        MovementGoal::Flee => true,
        MovementGoal::SeekEnemy => match saw {
            Some(dest) => dest == pos || !route_exists(g, pos, dest, false),
            None => true,
        },
        MovementGoal::GoDance { destination, .. } => destination == pos || !route_exists(
            g,
            pos,
            destination,
            false,
        ),
        MovementGoal::InvestigateNoise { destination, .. } => destination == pos
            || !route_exists(g, pos, destination, false),
    }
}

/// What recomputing a route produces: either the goal is complete — which
/// for a fixed-destination goal can only happen when the actor stands on
/// the destination or no route exists — and the state is the goal's
/// completion state, with the remembered enemy cell cleared exactly when a
/// hunt ended; or a fresh route toward the goal's destination is cached
/// under the same goal.
pub open spec fn recompute_ok(
    g: Grid,
    pos: Point,
    goal: MovementGoal,
    saw: Option<Point>,
    state2: MonsterAIState,
    saw2: Option<Point>,
) -> bool {
    let completed = {
        &&& state2 == completion_state(goal)
        &&& saw2 == (if goal is SeekEnemy {
            None
        } else {
            saw
        })
        &&& goal_unroutable(g, pos, goal, saw)
    };
    let freshly_pathed = {
        &&& (exists|pi: PathInfo|
            state2 == (MonsterAIState::MOVING { goal, path: Some(pi) }) && #[trigger] fresh_path_ok(
                g,
                pos,
                pi,
            ) && path_dest_ok(g, goal, saw, pi))
        &&& saw2 == saw
    };
    if goal is SeekEnemy && saw is None {
        completed
    } else {
        completed || freshly_pathed
    }
}

/// What advancing a cached route produces: when another step remains, the
/// cursor moves forward one step and the expected cell follows it; when the
/// route is exhausted, the goal completes.
pub open spec fn advance_ok(
    goal: MovementGoal,
    pi: PathInfo,
    saw: Option<Point>,
    state2: MonsterAIState,
    saw2: Option<Point>,
) -> bool {
    if pi.step_idx + 1 >= pi.steps@.len() {
        &&& state2 == completion_state(goal)
        &&& saw2 == (if goal is SeekEnemy {
            None
        } else {
            saw
        })
    } else {
        &&& (exists|pi2: PathInfo|
            state2 == (MonsterAIState::MOVING { goal, path: Some(pi2) }) && #[trigger] path_like(
                pi2,
                pi2,
            ) && pi2.steps@ == pi.steps@ && pi2.step_idx == pi.step_idx + 1 && pi2.expect_pos
                == pi.steps@[pi.step_idx + 1])
        &&& saw2 == saw
    }
}

/// Whether the movement phase will plan a flight this pass: a flee goal
/// with no usable cached route (none cached, or the cache expected the
/// actor elsewhere).
pub open spec fn flee_replans(state: MonsterAIState, pos: Point) -> bool {
    match state {
        MonsterAIState::MOVING { goal: MovementGoal::Flee, path } => match path {
            Some(pi) => pi.expect_pos != pos,
            None => true,
        },
        _ => false,
    }
}

/// Route-replanning is decided by the goal, the cached route's expected
/// cell and the actor's cell alone, so equal-by-contents states agree.
pub proof fn lemma_flee_replans_like(a: MonsterAIState, b: MonsterAIState, pos: Point)
    requires
        state_like(a, b),
    ensures
        flee_replans(a, pos) == flee_replans(b, pos),
{
}

/// The movement phase's contract. A non-travelling state passes through
/// untouched. A travelling state first drops its cached route if the actor
/// is not standing where the route expected (external displacement); then
/// either advances the cached route or computes a fresh one, completing the
/// goal when the route is exhausted or none can be found.
pub open spec fn resolve_relation(
    g: Grid,
    pos: Point,
    state1: MonsterAIState,
    saw: Option<Point>,
    state2: MonsterAIState,
    saw2: Option<Point>,
) -> bool {
    match state1 {
        MonsterAIState::MOVING { goal, path } => {
            let discarded = match path {
                Some(pi) => pi.expect_pos != pos,
                None => false,
            };
            match path {
                Some(pi) => if discarded {
                    recompute_ok(g, pos, goal, saw, state2, saw2)
                } else {
                    advance_ok(goal, pi, saw, state2, saw2)
                },
                None => recompute_ok(g, pos, goal, saw, state2, saw2),
            }
        },
        _ => state_like(state2, state1) && saw2 == saw,
    }
}

/// The acting phase's contract: waiting and resting actors emit the rest
/// marker; an aggressive actor strikes when the adversary is in melee reach
/// and otherwise steps along a fresh route toward it; a dancing actor
/// requests its dance; a travelling actor with a cached route steps onto the
/// route's current cell; a travelling actor without one does nothing.
pub open spec fn act_relation(
    g: Grid,
    pos: Point,
    player_pos: Point,
    state: MonsterAIState,
    action: Option<Action>,
) -> bool {
    match state {
        MonsterAIState::WAITING => action == Some(Action::Rest),
        MonsterAIState::RESTING => action == Some(Action::Rest),
        MonsterAIState::AGGRESSIVE => if in_melee_reach(pos, player_pos) {
            action == Some(Action::Melee)
        } else if route_exists(g, pos, player_pos, false) {
            match action {
                Some(Action::Move { source, destination }) => {
                    &&& source == pos
                    &&& adjacent(pos, destination)
                    &&& spec_exit_valid(g, player_pos, false, destination)
                    &&& exists|p: Seq<Point>|
                        #[trigger] valid_path(g, p, pos, player_pos, false) && p.len() >= 2
                            && p[1] == destination && forall|q: Seq<Point>|
                            #[trigger] valid_path(g, q, pos, player_pos, false)
                                ==> crate::nav::route_cost(p) <= crate::nav::route_cost(q)
                },
                _ => false,
            }
        } else {
            action is None
        },
        MonsterAIState::DANCING { dance } => action == Some(
            Action::StartDance { dance, repetitions: 1 },
        ),
        MonsterAIState::MOVING { path, .. } => match path {
            Some(pi) => action == Some(
                Action::Move { source: pos, destination: pi.steps@[pi.step_idx as int] },
            ),
            None => action is None,
        },
    }
}

/// Completes a goal: the completion state, with the remembered enemy cell
/// cleared when a hunt ends.
fn complete_goal(goal: MovementGoal, last_saw: Option<Point>) -> (r: (
    MonsterAIState,
    Option<Point>,
))
    ensures
        r.0 == completion_state(goal),
        r.1 == (if goal is SeekEnemy {
            None::<Point>
        } else {
            last_saw
        }),
        r.0.wf(),
{
    match goal {
        MovementGoal::Flee => (MonsterAIState::RESTING, last_saw),
        MovementGoal::SeekEnemy => (MonsterAIState::WAITING, None),
        MovementGoal::GoDance { dance, .. } => (MonsterAIState::DANCING { dance }, last_saw),
        MovementGoal::InvestigateNoise { .. } => (MonsterAIState::WAITING, last_saw),
    }
}

/// The movement phase: route sanity, recomputation or advance, and goal
/// completion.
///
/// Its contract carries two of the engine's laws. Route invalidation: an
/// actor standing anywhere but its route's expected cell discards the cache
/// and recomputes under the same goal (or completes it when no route can be
/// found). Dance round-trip: a dance-travel goal whose route is exhausted
/// becomes the dancing state carrying the dance chosen at goal acquisition.
pub fn resolve_movement(
    state: MonsterAIState,
    last_saw: Option<Point>,
    pos: Point,
    g: &Grid,
    rng: &mut Rng,
) -> (r: (MonsterAIState, Option<Point>))
    requires
        g.wf(),
        state.wf(),
        state.in_grid(*g),
        g.spec_point_valid(pos),
        match last_saw {
            Some(p) => g.spec_point_valid(p),
            None => true,
        },
    ensures
        resolve_relation(*g, pos, state, last_saw, r.0, r.1),
        r.0.wf(),
        r.0.in_grid(*g),
        match r.1 {
            Some(p) => g.spec_point_valid(p),
            None => true,
        },
        final(rng).state == (if flee_replans(state, pos) {
            spec_advance_n(old(rng).state, 2 * FLEE_TRIES as nat)
        } else {
            old(rng).state
        }),
        flee_replans(state, pos) ==> ((r.0 is RESTING) <==> forall|k: nat|
            k < FLEE_TRIES ==> !spec_flee_candidate_ok(
                *g,
                pos,
                #[trigger] spec_flee_dest(*g, old(rng).state, k),
            )),
{
    match state {
        MonsterAIState::MOVING { goal, path } => {
            let discarded = match &path {
                Some(pi) => pi.expect_pos.x != pos.x || pi.expect_pos.y != pos.y,
                None => false,
            };
            let effective: Option<PathInfo> = if discarded {
                None
            } else {
                path
            };
            match effective {
                None => {
                    let computed: Option<Vec<Point>> = match goal {
                        MovementGoal::Flee => plan_flee(g, pos, rng),
                        MovementGoal::SeekEnemy => match last_saw {
                            Some(dest) => shortest_path(g, pos, dest, false),
                            None => None,
                        },
                        MovementGoal::GoDance { destination, .. } => shortest_path(
                            g,
                            pos,
                            destination,
                            false,
                        ),
                        MovementGoal::InvestigateNoise { destination, .. } => shortest_path(
                            g,
                            pos,
                            destination,
                            false,
                        ),
                    };
                    match computed {
                        Some(steps) => {
                            let first = steps[0];
                            let pi = PathInfo { steps, step_idx: 0, expect_pos: first };
                            proof {
                                assert(pi.in_grid(*g)) by {
                                    assert(forall|i: int|
                                        1 <= i < pi.steps@.len() ==> g.spec_point_valid(
                                            #[trigger] pi.steps@[i],
                                        ));
                                }
                                assert(fresh_path_ok(*g, pos, pi));
                                assert(path_dest_ok(*g, goal, last_saw, pi));
                            }
                            (MonsterAIState::MOVING { goal, path: Some(pi) }, last_saw)
                        },
                        None => {
                            let (s2, saw2) = complete_goal(goal, last_saw);
                            (s2, saw2)
                        },
                    }
                },
                Some(pi) => {
                    let ni: u32 = pi.step_idx + 1;
                    if ni as usize >= pi.steps.len() {
                        let (s2, saw2) = complete_goal(goal, last_saw);
                        (s2, saw2)
                    } else {
                        let ep = pi.steps[ni as usize];
                        let ghost old_pi = pi;
                        let pi2 = PathInfo { steps: pi.steps, step_idx: ni, expect_pos: ep };
                        proof {
                            assert(path_like(pi2, pi2));
                            assert(pi2.steps@ == old_pi.steps@);
                        }
                        (MonsterAIState::MOVING { goal, path: Some(pi2) }, last_saw)
                    }
                },
            }
        },
        other => (other, last_saw),
    }
}

/// The acting phase: maps the settled state to this turn's intent.
pub fn act_phase(state: &MonsterAIState, pos: Point, player_pos: Point, g: &Grid) -> (r: Option<
    Action,
>)
    requires
        g.wf(),
        state.wf(),
        state.in_grid(*g),
        g.spec_point_valid(pos),
        g.spec_point_valid(player_pos),
    ensures
        act_relation(*g, pos, player_pos, *state, r),
{
    match state {
        MonsterAIState::WAITING => Some(Action::Rest),
        MonsterAIState::RESTING => Some(Action::Rest),
        MonsterAIState::AGGRESSIVE => {
            if melee_reach(pos, player_pos) {
                Some(Action::Melee)
            } else {
                match next_step_toward(g, pos, player_pos) {
                    Some(c) => {
                        proof {
                            let p = choose|p: Seq<Point>|
                                #[trigger] valid_path(*g, p, pos, player_pos, false) && p.len()
                                    >= 2 && p[1] == c;
                            assert(valid_path(*g, p, pos, player_pos, false) && p.len() >= 2);
                            assert(route_exists(*g, pos, player_pos, false));
                            assert(act_relation(
                                *g,
                                pos,
                                player_pos,
                                *state,
                                Some(Action::Move { source: pos, destination: c }),
                            ));
                        }
                        Some(Action::Move { source: pos, destination: c })
                    },
                    None => {
                        proof {
                            assert(!in_melee_reach(pos, player_pos));
                            assert(pos != player_pos) by {
                                if pos == player_pos {
                                    assert(crate::grid::squared_distance(pos, player_pos)
                                        == 0) by (nonlinear_arith)
                                        requires
                                            pos == player_pos,
                                    ;
                                }
                            }
                            assert(!route_exists(*g, pos, player_pos, false));
                            assert(act_relation(*g, pos, player_pos, *state, None::<Action>));
                        }
                        None
                    },
                }
            }
        },
        MonsterAIState::DANCING { dance } => Some(
            Action::StartDance { dance: *dance, repetitions: 1 },
        ),
        MonsterAIState::MOVING { path: Some(pi), .. } => {
            let destination = pi.steps[pi.step_idx as usize];
            Some(Action::Move { source: pos, destination })
        },
        MonsterAIState::MOVING { path: None, .. } => None,
    }
}

/// The per-actor facts a decision pass consumes.
pub struct ActorSnapshot {
    pub pos: Point,
    pub health: Health,
    pub stamina: Stamina,
    pub poise: Poise,
    pub viewshed: Vec<Point>,
    pub dances: Vec<Dance>,
}

impl ActorSnapshot {
    pub open spec fn wf(self, g: Grid) -> bool {
        &&& self.health.wf()
        &&& self.stamina.wf()
        &&& self.poise.wf()
        &&& g.spec_point_valid(self.pos)
    }
}

/// The adversary-side facts shared by every actor's decision this turn.
pub struct AdversaryView {
    pub player_pos: Point,
    pub alarm_raised: bool,
}

/// Copies a state, cached route included.
pub fn clone_state(s: &MonsterAIState) -> (r: MonsterAIState)
    ensures
        state_like(r, *s),
{
    match s {
        MonsterAIState::WAITING => MonsterAIState::WAITING,
        MonsterAIState::RESTING => MonsterAIState::RESTING,
        MonsterAIState::AGGRESSIVE => MonsterAIState::AGGRESSIVE,
        MonsterAIState::DANCING { dance } => MonsterAIState::DANCING { dance: *dance },
        MonsterAIState::MOVING { goal, path } => {
            let path2 = match path {
                Some(pi) => Some(
                    PathInfo {
                        steps: crate::nav::copy_path(&pi.steps),
                        step_idx: pi.step_idx,
                        expect_pos: pi.expect_pos,
                    },
                ),
                None => None,
            };
            MonsterAIState::MOVING { goal: *goal, path: path2 }
        },
    }
}

/// Equal-by-contents states share well-formedness and grid containment.
pub proof fn lemma_state_like_wf(g: Grid, a: MonsterAIState, b: MonsterAIState)
    requires
        state_like(a, b),
        b.wf(),
        b.in_grid(g),
    ensures
        a.wf(),
        a.in_grid(g),
{
}

/// A good dance site lies on the grid.
pub proof fn lemma_good_start_valid(
    g: Grid,
    p: Point,
    steps: Seq<crate::dancing::Step>,
    claims: Seq<Seq<Point>>,
)
    requires
        spec_good_start(g, p, steps, claims),
    ensures
        g.spec_point_valid(p),
{
    reveal(spec_good_start);
}

/// The whole decision pass as a relation between the actor's old record
/// and facts, the stream state the pass started from, and the new record
/// with its emitted intent: the choice of the new goal is pinned exactly to
/// `spec_choose`, the movement phase obeys `resolve_relation`, the intent
/// obeys `act_relation`, and the remembered noise and prior-turn sighting
/// flag are untouched.
pub open spec fn decision_rel(
    ai0: MonsterAI,
    pos: Point,
    health: Health,
    stamina: Stamina,
    poise: Poise,
    viewshed: Seq<Point>,
    dances: Seq<Dance>,
    player_pos: Point,
    alarm: bool,
    claims: Seq<Seq<Point>>,
    g: Grid,
    s: u64,
    out: MonsterAI,
    action: Option<Action>,
) -> bool {
    &&& out.saw_enemy_last_turn == ai0.saw_enemy_last_turn
    &&& out.last_heard_noise == ai0.last_heard_noise
    &&& ({
        let outcome = spec_choose(
            ai0.state,
            ai0.last_saw_enemy,
            ai0.last_heard_noise,
            pos,
            player_pos,
            health,
            stamina,
            poise,
            spec_contains_point(viewshed, player_pos),
            alarm,
            dances,
            viewshed,
            claims,
            g,
            s,
        );
        exists|mid: MonsterAIState|
            #[trigger] state_of_choice(outcome.0, ai0.state, mid) && resolve_relation(
                g,
                pos,
                mid,
                outcome.1,
                out.state,
                out.last_saw_enemy,
            ) && (flee_replans(mid, pos) ==> ((out.state is RESTING) <==> forall|k: nat|
                k < FLEE_TRIES ==> !spec_flee_candidate_ok(
                    g,
                    pos,
                    #[trigger] spec_flee_dest(g, outcome.2, k),
                )))
    })
    &&& act_relation(g, pos, player_pos, out.state, action)
}

/// The stream state a decision pass leaves behind, as a function of its
/// inputs: the choice phase's draws, plus the whole flee-planning budget
/// exactly when the settled state replans a flight.
pub open spec fn spec_decide_stream(
    ai0: MonsterAI,
    pos: Point,
    health: Health,
    stamina: Stamina,
    poise: Poise,
    viewshed: Seq<Point>,
    dances: Seq<Dance>,
    player_pos: Point,
    alarm: bool,
    claims: Seq<Seq<Point>>,
    g: Grid,
    s: u64,
) -> u64 {
    let outcome = spec_choose(
        ai0.state,
        ai0.last_saw_enemy,
        ai0.last_heard_noise,
        pos,
        player_pos,
        health,
        stamina,
        poise,
        spec_contains_point(viewshed, player_pos),
        alarm,
        dances,
        viewshed,
        claims,
        g,
        s,
    );
    let replans = match outcome.0 {
        ChosenState::Fleeing => true,
        ChosenState::Unchanged => flee_replans(ai0.state, pos),
        _ => false,
    };
    if replans {
        spec_advance_n(outcome.2, 2 * FLEE_TRIES as nat)
    } else {
        outcome.2
    }
}

/// One actor's full decision pass.
///
/// Given the actor's record and facts, the shared adversary view, the
/// claimed dance envelopes and the grid, produces the record for this turn
/// and at most one intent. The pass obeys `decision_rel` for the stream
/// state it was handed.
pub fn decide(
    ai: &MonsterAI,
    actor: &ActorSnapshot,
    enemy: &AdversaryView,
    claims: &Vec<Vec<Point>>,
    g: &Grid,
    rng: &mut Rng,
) -> (r: (MonsterAI, Option<Action>))
    requires
        g.wf(),
        ai.wf(),
        ai.in_grid(*g),
        actor.wf(*g),
        g.spec_point_valid(enemy.player_pos),
    ensures
        r.0.wf(),
        r.0.in_grid(*g),
        decision_rel(
            *ai,
            actor.pos,
            actor.health,
            actor.stamina,
            actor.poise,
            actor.viewshed@,
            actor.dances@,
            enemy.player_pos,
            enemy.alarm_raised,
            claims_view(claims@),
            *g,
            old(rng).state,
            r.0,
            r.1,
        ),
        final(rng).state == spec_decide_stream(
            *ai,
            actor.pos,
            actor.health,
            actor.stamina,
            actor.poise,
            actor.viewshed@,
            actor.dances@,
            enemy.player_pos,
            enemy.alarm_raised,
            claims_view(claims@),
            *g,
            old(rng).state,
        ),
{
    let ghost s0 = rng.state;
    let enemy_in_sight = contains_point(&actor.viewshed, &enemy.player_pos);
    let (chosen, saw1) = choose_phase(
        &ai.state,
        &ai.last_saw_enemy,
        &ai.last_heard_noise,
        &actor.pos,
        &enemy.player_pos,
        &actor.health,
        &actor.stamina,
        &actor.poise,
        enemy_in_sight,
        enemy.alarm_raised,
        &actor.dances,
        &actor.viewshed,
        claims,
        g,
        rng,
    );
    let state1: MonsterAIState = match chosen {
        ChosenState::Unchanged => clone_state(&ai.state),
        ChosenState::Waiting => MonsterAIState::WAITING,
        ChosenState::Fleeing => MonsterAIState::MOVING {
            goal: MovementGoal::Flee,
            path: None,
        },
        ChosenState::Aggressive => MonsterAIState::AGGRESSIVE,
        ChosenState::GoingToDance { dance, destination } => MonsterAIState::MOVING {
            goal: MovementGoal::GoDance { dance, destination },
            path: None,
        },
        ChosenState::Investigating { destination, surprising } => MonsterAIState::MOVING {
            goal: MovementGoal::InvestigateNoise { destination, surprising },
            path: None,
        },
        ChosenState::Seeking => MonsterAIState::MOVING {
            goal: MovementGoal::SeekEnemy,
            path: None,
        },
    };
    proof {
        match chosen {
            ChosenState::Unchanged => {
                lemma_state_like_wf(*g, state1, ai.state);
                lemma_flee_replans_like(state1, ai.state, actor.pos);
            },
            ChosenState::GoingToDance { dance, destination } => {
                lemma_good_start_valid(
                    *g,
                    destination,
                    dance.spec_steps(),
                    claims_view(claims@),
                );
            },
            _ => {},
        }
        assert(state1.wf());
        assert(state1.in_grid(*g));
    }
    let ghost mid = state1;
    let ghost s1 = rng.state;
    let (state2, saw2) = resolve_movement(state1, saw1, actor.pos, g, rng);
    let action = act_phase(&state2, actor.pos, enemy.player_pos, g);
    let out = MonsterAI {
        state: state2,
        saw_enemy_last_turn: ai.saw_enemy_last_turn,
        last_saw_enemy: saw2,
        last_heard_noise: ai.last_heard_noise,
    };
    proof {
        let spec_result = spec_choose(
            ai.state,
            ai.last_saw_enemy,
            ai.last_heard_noise,
            actor.pos,
            enemy.player_pos,
            actor.health,
            actor.stamina,
            actor.poise,
            spec_contains_point(actor.viewshed@, enemy.player_pos),
            enemy.alarm_raised,
            actor.dances@,
            actor.viewshed@,
            claims_view(claims@),
            *g,
            s0,
        );
        assert(spec_result.0 == chosen);
        assert(spec_result.1 == saw1);
        assert(state_of_choice(spec_result.0, ai.state, mid));
        assert(resolve_relation(
            *g,
            actor.pos,
            mid,
            spec_result.1,
            out.state,
            out.last_saw_enemy,
        ));
        assert(s1 == spec_result.2);
        assert(flee_replans(mid, actor.pos) ==> ((out.state is RESTING) <==> forall|k: nat|
            k < FLEE_TRIES ==> !spec_flee_candidate_ok(
                *g,
                actor.pos,
                #[trigger] spec_flee_dest(*g, spec_result.2, k),
            )));
        assert(decision_rel(
            *ai,
            actor.pos,
            actor.health,
            actor.stamina,
            actor.poise,
            actor.viewshed@,
            actor.dances@,
            enemy.player_pos,
            enemy.alarm_raised,
            claims_view(claims@),
            *g,
            s0,
            out,
            action,
        ));
    }
    (out, action)
}

/// Recovery completion law: an actor that was fleeing or resting and has
/// every vital back at its maximum leaves the recovery check waiting —
/// never still fleeing, never still resting.
///
/// A pool whose maximum is zero counts as full vacuously, so such an actor
/// can still flee later in the same pass when the enemy is sighted with
/// stamina or poise at zero.
pub proof fn lemma_recovered_actor_waits(
    state0: MonsterAIState,
    health: Health,
    stamina: Stamina,
    poise: Poise,
)
    requires
        is_flee_moving(state0) || state0 is RESTING,
        health.health >= health.max_health,
        stamina.stamina >= stamina.max_stamina,
        poise.poise >= poise.max_poise,
    ensures
        spec_completion_check(state0, health, stamina, poise) is WAITING,
        !is_flee_moving(spec_completion_check(state0, health, stamina, poise)),
        !(spec_completion_check(state0, health, stamina, poise) is RESTING),
{
}

/// Priority law: an actor that sees the adversary while eligible to flee
/// (health below a tenth of its maximum) ends the choice phase fleeing even
/// when the alarm would make it eligible for aggression — never aggressive.
/// The premise excludes the decisions that outrank both by the engine's
/// fixed order: a surprising-noise interrupt and undisturbed dance travel.
pub proof fn lemma_flee_outranks_aggression(
    state0: MonsterAIState,
    saw0: Option<Point>,
    heard0: Option<MonsterAINoiseRecord>,
    pos: Point,
    player_pos: Point,
    health: Health,
    stamina: Stamina,
    poise: Poise,
    alarm: bool,
    dances: Seq<Dance>,
    range: Seq<Point>,
    claims: Seq<Seq<Point>>,
    g: Grid,
    s: u64,
)
    requires
        health.wf(),
        health.health < health.max_health / 10,
        !is_godance_moving(state0),
        match heard0 {
            Some(nr) => !nr.surprising,
            None => true,
        },
    ensures
        ({
            let (chosen, _, _) = spec_choose(
                state0,
                saw0,
                heard0,
                pos,
                player_pos,
                health,
                stamina,
                poise,
                true,
                alarm,
                dances,
                range,
                claims,
                g,
                s,
            );
            &&& chosen != ChosenState::Aggressive
            &&& (chosen == ChosenState::Fleeing || (chosen == ChosenState::Unchanged
                && is_flee_moving(state0)))
        }),
{
    assert(health.max_health / 10 <= health.max_health) by (nonlinear_arith)
        requires
            health.max_health >= 0,
    ;
}

/// Determinism law: the choice phase is a function of the actor's record,
/// the world facts and the random stream alone, so two passes from
/// identical inputs settle on the identical outcome and leave the stream in
/// the identical state. The movement phase consults the navigator, whose
/// route choice is likewise computed from the grid and the stream alone but
/// is specified relationally rather than as a function.
pub proof fn lemma_choice_deterministic(
    state_a: MonsterAIState,
    state_b: MonsterAIState,
    saw: Option<Point>,
    heard: Option<MonsterAINoiseRecord>,
    pos: Point,
    player_pos: Point,
    health: Health,
    stamina: Stamina,
    poise: Poise,
    enemy_in_sight: bool,
    alarm: bool,
    dances: Seq<Dance>,
    range: Seq<Point>,
    claims: Seq<Seq<Point>>,
    g: Grid,
    s: u64,
)
    requires
        state_a == state_b,
    ensures
        spec_choose(
            state_a,
            saw,
            heard,
            pos,
            player_pos,
            health,
            stamina,
            poise,
            enemy_in_sight,
            alarm,
            dances,
            range,
            claims,
            g,
            s,
        ) == spec_choose(
            state_b,
            saw,
            heard,
            pos,
            player_pos,
            health,
            stamina,
            poise,
            enemy_in_sight,
            alarm,
            dances,
            range,
            claims,
            g,
            s,
        ),
{
}

} // verus!
