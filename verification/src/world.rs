//! The simulated world and the per-system step functions that the staged
//! turn pipeline sequences.
//!
//! Intents are single-turn values: each buffer is filled by its producer
//! phase and drained by exactly one consumer system later the same turn; the
//! whole-turn driver guarantees every buffer is empty again at the turn
//! boundary.

use vstd::prelude::*;
use crate::ai::{Action, ActorSnapshot, AdversaryView, MonsterAI, decide};
use crate::dancing::{Dance, Dancing, Effect};
use crate::factions::Faction;
use crate::gamelog::PlayerLog;
use crate::grid::{Grid, Point};
use crate::liquids::Liquid;
use crate::nav::copy_path;
use crate::noise::{MakeNoise, Noise};
use crate::rng::Rng;
use crate::vitals::{Health, Poise, Stamina, POOL_LIMIT};

verus! {

/// Whose half of the round the pipeline is running.
#[derive(Clone, Copy, PartialEq, Eq, Structural, Debug)]
pub enum RunState {
    PlayerTurn,
    MonsterTurn,
}

/// One simulated actor with its facts, markers and single-turn intent slots.
pub struct Actor {
    pub pos: Point,
    pub health: Health,
    pub stamina: Stamina,
    pub poise: Poise,
    pub faction: Faction,
    pub power: i32,
    pub defence: i32,
    pub viewshed: Vec<Point>,
    pub dances: Vec<Dance>,
    pub is_player: bool,
    pub ai: Option<MonsterAI>,
    pub dancing: Option<Dancing>,
    pub confusion: Option<i32>,
    pub resting: bool,
    pub wants_move: Option<(Point, Point)>,
    pub wants_melee: Option<usize>,
    pub wants_dance: Option<(Dance, u32)>,
    pub effect_request: Option<Effect>,
    pub awestruck: Option<i32>,
    pub suffer_damage: Vec<i32>,
    pub make_noise: Option<MakeNoise>,
}

impl Actor {
    /// Well-formedness against the grid the actor lives on.
    pub open spec fn wf(self, g: Grid) -> bool {
        &&& self.health.wf()
        &&& self.stamina.wf()
        &&& self.poise.wf()
        &&& g.spec_point_valid(self.pos)
        &&& -100000 <= self.power <= 100000
        &&& -100000 <= self.defence <= 100000
        &&& match self.ai {
            Some(ai) => ai.wf() && ai.in_grid(g),
            None => true,
        }
        &&& match self.dancing {
            Some(d) => d.wf(),
            None => true,
        }
        &&& match self.confusion {
            Some(t) => 0 <= t <= POOL_LIMIT,
            None => true,
        }
        &&& match self.make_noise {
            Some(mn) => g.spec_point_valid(mn.location),
            None => true,
        }
        &&& self.suffer_damage@.len() < 0x1000_0000
        &&& forall|i: int|
            0 <= i < self.suffer_damage@.len() ==> 0 <= #[trigger] self.suffer_damage@[i]
                <= POOL_LIMIT
    }

    /// No single-turn intent is pending.
    pub open spec fn intents_clear(self) -> bool {
        &&& self.wants_move is None
        &&& self.wants_melee is None
        &&& self.wants_dance is None
        &&& self.effect_request is None
        &&& self.awestruck is None
        &&& self.suffer_damage@.len() == 0
        &&& self.make_noise is None
    }
}

/// The world: the grid, the actors, the shared alarm flag, the noise
/// ledger, the deterministic random stream and the turn counter.
pub struct World {
    pub grid: Grid,
    pub actors: Vec<Actor>,
    pub player: usize,
    pub alarm_raised: bool,
    pub noises: Vec<Noise>,
    pub rng: Rng,
    pub turn: u32,
    pub log: PlayerLog,
}

impl World {
    pub open spec fn wf(self) -> bool {
        &&& self.grid.wf()
        &&& self.player < self.actors@.len()
        &&& forall|i: int|
            0 <= i < self.actors@.len() ==> (#[trigger] self.actors@[i]).wf(self.grid)
        &&& forall|i: int|
            0 <= i < self.noises@.len() ==> self.grid.spec_point_valid(
                (#[trigger] self.noises@[i]).location,
            )
    }

    /// Every single-turn intent buffer in the world is empty.
    pub open spec fn intents_clear(self) -> bool {
        forall|i: int|
            0 <= i < self.actors@.len() ==> (#[trigger] self.actors@[i]).intents_clear()
    }
}

/// Copies a dance list.
fn copy_dances(v: &Vec<Dance>) -> (r: Vec<Dance>)
    ensures
        r@ == v@,
{
    let mut out: Vec<Dance> = Vec::new();
    let mut i: usize = 0;
    while i < v.len()
        invariant
            i <= v.len(),
            out@ == v@.subrange(0, i as int),
        decreases v.len() - i,
    {
        out.push(v[i]);
        i = i + 1;
    }
    proof {
        assert(v@.subrange(0, v@.len() as int) == v@);
    }
    out
}

/// The claimed envelopes a run of actors contributes, in actor order: one
/// per in-progress dancer.
pub open spec fn spec_claims(actors: Seq<Actor>) -> Seq<Seq<Point>>
    decreases actors.len(),
{
    if actors.len() == 0 {
        Seq::empty()
    } else {
        spec_claims(actors.drop_last()) + (match actors.last().dancing {
            Some(d) => seq![d.range@],
            None => Seq::empty(),
        })
    }
}

/// The claimed dance envelopes of every in-progress dancer.
fn collect_claims(actors: &Vec<Actor>) -> (r: Vec<Vec<Point>>)
    ensures
        r@.len() == spec_claims(actors@).len(),
        forall|j: int|
            0 <= j < r@.len() ==> (#[trigger] r@[j])@ == spec_claims(actors@)[j],
{
    let mut out: Vec<Vec<Point>> = Vec::new();
    let mut i: usize = 0;
    proof {
        assert(actors@.subrange(0, 0) =~= Seq::<Actor>::empty());
    }
    while i < actors.len()
        invariant
            i <= actors.len(),
            out@.len() == spec_claims(actors@.subrange(0, i as int)).len(),
            forall|j: int|
                0 <= j < out@.len() ==> (#[trigger] out@[j])@ == spec_claims(
                    actors@.subrange(0, i as int),
                )[j],
        decreases actors.len() - i,
    {
        proof {
            assert(actors@.subrange(0, i + 1).drop_last() =~= actors@.subrange(0, i as int));
            assert(actors@.subrange(0, i + 1).last() == actors@[i as int]);
        }
        if let Some(d) = &actors[i].dancing {
            out.push(copy_path(&d.range));
        }
        i = i + 1;
    }
    proof {
        assert(actors@.subrange(0, actors@.len() as int) =~= actors@);
    }
    out
}

/// The stream state the decision pass leaves behind, as a function of the
/// roster: each eligible actor's pass advances the stream by
/// `spec_decide_stream`, in actor order.
pub open spec fn spec_ai_stream_fold(
    actors: Seq<Actor>,
    player_pos: Point,
    alarm: bool,
    claims: Seq<Seq<Point>>,
    g: Grid,
    s: u64,
) -> u64
    decreases actors.len(),
{
    if actors.len() == 0 {
        s
    } else {
        let s2 = spec_ai_stream_fold(actors.drop_last(), player_pos, alarm, claims, g, s);
        let a = actors.last();
        if spec_ai_eligible(a) {
            crate::ai::spec_decide_stream(
                a.ai->Some_0,
                a.pos,
                a.health,
                a.stamina,
                a.poise,
                a.viewshed@,
                a.dances@,
                player_pos,
                alarm,
                claims,
                g,
                s2,
            )
        } else {
            s2
        }
    }
}

/// Fields the decision pass leaves alone on every actor.
pub open spec fn ai_pass_keeps(a1: Actor, a2: Actor) -> bool {
    &&& a2.pos == a1.pos
    &&& a2.is_player == a1.is_player
    &&& a2.health == a1.health
    &&& a2.stamina == a1.stamina
    &&& a2.poise == a1.poise
    &&& a2.faction == a1.faction
    &&& a2.power == a1.power
    &&& a2.defence == a1.defence
    &&& a2.viewshed@ == a1.viewshed@
    &&& a2.dances@ == a1.dances@
    &&& a2.dancing == a1.dancing
    &&& a2.confusion == a1.confusion
    &&& a2.make_noise is Some == (a1.make_noise is Some)
    &&& a2.suffer_damage@ == a1.suffer_damage@
    &&& a2.effect_request == a1.effect_request
    &&& a2.awestruck == a1.awestruck
}

/// How an emitted intent lands in the actor's single-turn slots: exactly
/// the commanded slot is written and the rest stay as they were.
pub open spec fn intents_written(
    a1: Actor,
    a2: Actor,
    action: Option<crate::ai::Action>,
    player: usize,
) -> bool {
    match action {
        Some(Action::Rest) => {
            &&& a2.resting == true
            &&& a2.wants_move == a1.wants_move
            &&& a2.wants_melee == a1.wants_melee
            &&& a2.wants_dance == a1.wants_dance
        },
        Some(Action::Melee) => {
            &&& a2.wants_melee == Some(player)
            &&& a2.resting == a1.resting
            &&& a2.wants_move == a1.wants_move
            &&& a2.wants_dance == a1.wants_dance
        },
        Some(Action::Move { source, destination }) => {
            &&& a2.wants_move == Some((source, destination))
            &&& a2.resting == a1.resting
            &&& a2.wants_melee == a1.wants_melee
            &&& a2.wants_dance == a1.wants_dance
        },
        Some(Action::StartDance { dance, repetitions }) => {
            &&& a2.wants_dance == Some((dance, repetitions))
            &&& a2.resting == a1.resting
            &&& a2.wants_move == a1.wants_move
            &&& a2.wants_melee == a1.wants_melee
        },
        None => {
            &&& a2.resting == a1.resting
            &&& a2.wants_move == a1.wants_move
            &&& a2.wants_melee == a1.wants_melee
            &&& a2.wants_dance == a1.wants_dance
        },
    }
}

/// Whether the decision pass runs for an actor this turn: a monster with a
/// decision record that is neither dancing nor without agency.
pub open spec fn spec_ai_eligible(a: Actor) -> bool {
    &&& !a.is_player
    &&& a.ai is Some
    &&& a.dancing is None
    &&& a.confusion is None
}

/// Phase one: the decision pass. Runs once per monster that has a decision
/// record and is neither dancing nor without agency this turn: each such
/// actor's record is replaced by the engine's verdict for the stream state
/// its pass started from, and the emitted intent is written into exactly
/// the commanded slot. Skipped actors are untouched, as is everything on
/// the player's half of the round.
#[verifier::rlimit(100)]
pub fn monster_ai_system(w: &mut World, run_state: RunState)
    requires
        old(w).wf(),
    ensures
        monster_ai_system_rel(*old(w), *final(w), run_state),
{
    match run_state {
        RunState::MonsterTurn => {},
        _ => {
            return ;
        },
    }
    let claims = collect_claims(&w.actors);
    proof {
        assert(crate::dancing::claims_view(claims@) =~~= spec_claims(old(w).actors@));
    }
    let player_idx = w.player;
    let player_pos = w.actors[player_idx].pos;
    let alarm = w.alarm_raised;
    let n = w.actors.len();
    let mut i: usize = 0;
    proof {
        assert(old(w).actors@.subrange(0, 0) =~= Seq::<Actor>::empty());
    }
    while i < n
        invariant
            w.wf(),
            i <= n,
            n == w.actors@.len(),
            n == old(w).actors@.len(),
            w.grid == old(w).grid,
            w.player == old(w).player,
            player_idx == old(w).player,
            player_pos == old(w).actors@[old(w).player as int].pos,
            alarm == old(w).alarm_raised,
            w.grid.spec_point_valid(player_pos),
            crate::dancing::claims_view(claims@) == spec_claims(old(w).actors@),
            w.rng.state == spec_ai_stream_fold(
                old(w).actors@.subrange(0, i as int),
                player_pos,
                alarm,
                spec_claims(old(w).actors@),
                old(w).grid,
                old(w).rng.state,
            ),
            forall|j: int|
                0 <= j < i && !spec_ai_eligible(old(w).actors@[j]) ==> (
                #[trigger] w.actors@[j]) == old(w).actors@[j],
            forall|j: int|
                0 <= j < w.actors@.len() ==> ai_pass_keeps(
                    old(w).actors@[j],
                    #[trigger] w.actors@[j],
                ),
            forall|j: int|
                0 <= j < i && spec_ai_eligible(old(w).actors@[j]) ==> (
                #[trigger] w.actors@[j]).ai is Some && exists|action: Option<Action>|
                #[trigger] crate::ai::decision_rel(
                    old(w).actors@[j].ai->Some_0,
                    old(w).actors@[j].pos,
                    old(w).actors@[j].health,
                    old(w).actors@[j].stamina,
                    old(w).actors@[j].poise,
                    old(w).actors@[j].viewshed@,
                    old(w).actors@[j].dances@,
                    old(w).actors@[old(w).player as int].pos,
                    old(w).alarm_raised,
                    spec_claims(old(w).actors@),
                    old(w).grid,
                    spec_ai_stream_fold(
                        old(w).actors@.subrange(0, j),
                        old(w).actors@[old(w).player as int].pos,
                        old(w).alarm_raised,
                        spec_claims(old(w).actors@),
                        old(w).grid,
                        old(w).rng.state,
                    ),
                    w.actors@[j].ai->Some_0,
                    action,
                ) && intents_written(
                    old(w).actors@[j],
                    w.actors@[j],
                    action,
                    old(w).player,
                ),
            forall|j: int| i <= j < n ==> #[trigger] w.actors@[j] == old(w).actors@[j],
        decreases n - i,
    {
        proof {
            assert(old(w).actors@.subrange(0, i + 1).drop_last() =~= old(
                w,
            ).actors@.subrange(0, i as int));
            assert(old(w).actors@.subrange(0, i + 1).last() == old(w).actors@[i as int]);
        }
        let eligible = {
            let a = &w.actors[i];
            let has_ai = match &a.ai {
                Some(_) => true,
                None => false,
            };
            let is_dancing = match &a.dancing {
                Some(_) => true,
                None => false,
            };
            let is_confused = match &a.confusion {
                Some(_) => true,
                None => false,
            };
            !a.is_player && has_ai && !is_dancing && !is_confused
        };
        if eligible {
            let ghost pre = w.actors@;
            let mut a = w.actors.remove(i);
            let snapshot = ActorSnapshot {
                pos: a.pos,
                health: a.health,
                stamina: a.stamina,
                poise: a.poise,
                viewshed: copy_path(&a.viewshed),
                dances: copy_dances(&a.dances),
            };
            let enemy = AdversaryView { player_pos, alarm_raised: alarm };
            let ghost s_start = w.rng.state;
            proof {
                assert(s_start == spec_ai_stream_fold(
                    old(w).actors@.subrange(0, i as int),
                    player_pos,
                    alarm,
                    spec_claims(old(w).actors@),
                    old(w).grid,
                    old(w).rng.state,
                ));
            }
            let outcome = match &a.ai {
                Some(ai_ref) => Some(decide(ai_ref, &snapshot, &enemy, &claims, &w.grid, &mut w.rng)),
                None => None,
            };
            let (new_ai, action) = match outcome {
                Some(pair) => pair,
                None => {
                    proof {
                        assert(false);
                    }
                    (MonsterAI::new(), None)
                },
            };
            proof {
                assert(crate::ai::decision_rel(
                    a.ai->Some_0,
                    a.pos,
                    a.health,
                    a.stamina,
                    a.poise,
                    a.viewshed@,
                    a.dances@,
                    player_pos,
                    alarm,
                    spec_claims(old(w).actors@),
                    w.grid,
                    s_start,
                    new_ai,
                    action,
                ));
            }
            let ghost a_before = a;
            a.ai = Some(new_ai);
            match action {
                Some(Action::Rest) => {
                    a.resting = true;
                },
                Some(Action::Melee) => {
                    a.wants_melee = Some(player_idx);
                },
                Some(Action::Move { source, destination }) => {
                    a.wants_move = Some((source, destination));
                },
                Some(Action::StartDance { dance, repetitions }) => {
                    a.wants_dance = Some((dance, repetitions));
                },
                None => {},
            }
            proof {
                assert(intents_written(a_before, a, action, old(w).player));
            }
            w.actors.insert(i, a);
            proof {
                assert(w.actors@ =~= pre.update(i as int, a));
                assert(w.actors@[i as int] == a);
                assert(a_before == old(w).actors@[i as int]);
                assert(w.actors@[i as int].ai->Some_0 == new_ai);
                assert(crate::ai::decision_rel(
                    old(w).actors@[i as int].ai->Some_0,
                    old(w).actors@[i as int].pos,
                    old(w).actors@[i as int].health,
                    old(w).actors@[i as int].stamina,
                    old(w).actors@[i as int].poise,
                    old(w).actors@[i as int].viewshed@,
                    old(w).actors@[i as int].dances@,
                    old(w).actors@[old(w).player as int].pos,
                    old(w).alarm_raised,
                    spec_claims(old(w).actors@),
                    old(w).grid,
                    s_start,
                    w.actors@[i as int].ai->Some_0,
                    action,
                ) && intents_written(
                    old(w).actors@[i as int],
                    w.actors@[i as int],
                    action,
                    old(w).player,
                ));
                assert(w.rng.state == crate::ai::spec_decide_stream(
                    old(w).actors@[i as int].ai->Some_0,
                    old(w).actors@[i as int].pos,
                    old(w).actors@[i as int].health,
                    old(w).actors@[i as int].stamina,
                    old(w).actors@[i as int].poise,
                    old(w).actors@[i as int].viewshed@,
                    old(w).actors@[i as int].dances@,
                    player_pos,
                    alarm,
                    spec_claims(old(w).actors@),
                    old(w).grid,
                    s_start,
                ));
            }
        }
        i = i + 1;
    }
    proof {
        assert(old(w).actors@.subrange(0, i as int) =~= old(w).actors@);
    }
}

/// The sum of a damage queue.
pub open spec fn spec_sum(s: Seq<i32>) -> int
    decreases s.len(),
{
    if s.len() == 0 {
        0
    } else {
        spec_sum(s.drop_last()) + s.last()
    }
}

/// Fields the movement resolver leaves alone, per actor.
pub open spec fn movement_keeps(a1: Actor, a2: Actor) -> bool {
    &&& a2.health == a1.health
    &&& a2.stamina == a1.stamina
    &&& a2.poise == a1.poise
    &&& a2.faction == a1.faction
    &&& a2.power == a1.power
    &&& a2.defence == a1.defence
    &&& a2.viewshed@ == a1.viewshed@
    &&& a2.dances@ == a1.dances@
    &&& a2.confusion == a1.confusion
    &&& a2.is_player == a1.is_player
    &&& a2.wants_melee == a1.wants_melee
    &&& a2.wants_dance == a1.wants_dance
    &&& a2.effect_request == a1.effect_request
    &&& a2.awestruck == a1.awestruck
    &&& a2.suffer_damage@ == a1.suffer_damage@
    &&& a2.resting == a1.resting
    &&& a2.ai == a1.ai
    &&& a2.dancing == a1.dancing
}

/// The noise an ordinary (non-slip) move makes: the player's steps are
/// audible; anyone else's leave the slot alone.
pub open spec fn plain_move_noise(a1: Actor, a2: Actor) -> bool {
    if a1.confusion is None && a1.is_player {
        a2.make_noise matches Some(mn) && mn.location == a1.pos && mn.volume == 16
            && mn.faction == Some(Faction::PLAYER) && !mn.surprising && mn.description@
            == "movement"@
    } else {
        a2.make_noise is Some == (a1.make_noise is Some)
    }
}

/// Where a move intent leaves its actor. On an unstained tile the intended
/// destination is applied exactly (an off-grid destination is refused and
/// the actor stays put), with the ordinary noise rule. On a stained tile
/// the roll either lets the move through as usual, or the actor slips: it
/// lands one king-move away at most — on an unblocked in-grid cell, or not
/// at all — and the slip is audible at its old cell. An actor without an
/// intent does not move and makes no noise.
pub open spec fn movement_outcome(g: Grid, a1: Actor, a2: Actor) -> bool {
    match a1.wants_move {
        None => a2.pos == a1.pos && a2.make_noise is Some == (a1.make_noise is Some),
        Some(m) => {
            let applied = if g.spec_point_valid(m.1) {
                m.1
            } else {
                a1.pos
            };
            let stained = g.stains@[g.spec_idx(a1.pos.x as int, a1.pos.y as int)].spec_count()
                > 0;
            if !stained {
                a2.pos == applied && plain_move_noise(a1, a2)
            } else {
                ||| (a2.pos == applied && plain_move_noise(a1, a2))
                ||| ({
                    &&& (a2.pos == a1.pos || (g.spec_point_valid(a2.pos)
                        && !g.spec_blocked_at(a2.pos) && -1 <= a2.pos.x - a1.pos.x <= 1 && -1
                        <= a2.pos.y - a1.pos.y <= 1))
                    &&& (a2.make_noise matches Some(mn) && mn.location == a1.pos && mn.volume
                        == 32 && mn.faction == Some(Faction::PLAYER) && !mn.surprising
                        && mn.description@ == "something slipping"@)
                })
            }
        },
    }
}

/// Phase three, movement resolution: drains every pending move intent. A
/// mover standing on a stained tile may slip: a coin-weighted roll sends it
/// to a random nearby cell (or nowhere) instead of where it intended, and
/// the slip is audible. The player's ordinary steps are audible too.
/// Every applied move lands on an on-grid cell.
#[verifier::rlimit(100)]
pub fn movement_system(w: &mut World)
    requires
        old(w).wf(),
    ensures
        movement_system_rel(*old(w), *final(w)),
{
    let n = w.actors.len();
    let mut i: usize = 0;
    while i < n
        invariant
            w.wf(),
            n == w.actors@.len(),
            n == old(w).actors@.len(),
            w.grid == old(w).grid,
            w.player == old(w).player,
            forall|j: int| 0 <= j < i ==> (#[trigger] w.actors@[j]).wants_move is None,
            forall|j: int|
                0 <= j < n ==> movement_keeps(old(w).actors@[j], #[trigger] w.actors@[j]),
            forall|j: int|
                0 <= j < i ==> movement_outcome(
                    old(w).grid,
                    old(w).actors@[j],
                    #[trigger] w.actors@[j],
                ),
            forall|j: int| i <= j < n ==> #[trigger] w.actors@[j] == old(w).actors@[j],
        decreases n - i,
    {
        let pending = match &w.actors[i].wants_move {
            Some(_) => true,
            None => false,
        };
        if pending {
            let ghost pre = w.actors@;
            let mut a = w.actors.remove(i);
            let intended = match a.wants_move {
                Some(m) => m.1,
                None => a.pos,
            };
            a.wants_move = None;
            let src_idx = w.grid.point_idx(&a.pos);
            let stain_count = w.grid.stains[src_idx].count();
            let mut dest = intended;
            if stain_count > 0 && w.rng.roll_die(10) < 5 {
                let _slip_on = w.rng.range(stain_count as u64);
                let rx = w.rng.roll_die(3) as i64;
                let ry = w.rng.roll_die(3) as i64;
                let cx = a.pos.x as i64 + rx - 2;
                let cy = a.pos.y as i64 + ry - 2;
                let mut landing = a.pos;
                if 0 <= cx && cx < w.grid.width as i64 && 0 <= cy && cy < w.grid.height as i64 {
                    let cand = Point { x: cx as i32, y: cy as i32 };
                    if !w.grid.blocked_at(&cand) {
                        landing = cand;
                    }
                }
                dest = landing;
                a.make_noise = Some(
                    MakeNoise {
                        location: a.pos,
                        volume: 32,
                        faction: Some(Faction::PLAYER),
                        surprising: false,
                        description: String::from_str("something slipping"),
                    },
                );
                proof {
                    reveal_strlit("something slipping");
                }
            } else {
                let is_confused = match &a.confusion {
                    Some(_) => true,
                    None => false,
                };
                if !is_confused && a.is_player {
                    a.make_noise = Some(
                        MakeNoise {
                            location: a.pos,
                            volume: 16,
                            faction: Some(Faction::PLAYER),
                            surprising: false,
                            description: String::from_str("movement"),
                        },
                    );
                    proof {
                        reveal_strlit("movement");
                    }
                }
            }
            if w.grid.point_valid(&dest) {
                a.pos = dest;
            }
            w.actors.insert(i, a);
            proof {
                assert(w.actors@ =~= pre.update(i as int, a));
            }
        }
        i = i + 1;
    }
}

/// The damage one melee blow deals: the attacker's power over the
/// defender's defence, and never negative.
pub fn melee_damage(power: i32, defence: i32) -> (r: i32)
    requires
        -100000 <= power <= 100000,
        -100000 <= defence <= 100000,
    ensures
        r == (if power - defence > 0 {
            power - defence
        } else {
            0int
        }),
{
    if power > defence {
        power - defence
    } else {
        0
    }
}

/// Fields the melee resolver leaves alone, per actor.
pub open spec fn melee_keeps(a1: Actor, a2: Actor) -> bool {
    &&& a2.is_player == a1.is_player
    &&& a2.wants_move == a1.wants_move
    &&& a2.wants_dance == a1.wants_dance
    &&& a2.effect_request == a1.effect_request
    &&& a2.awestruck == a1.awestruck
    &&& a2.resting == a1.resting
    &&& a2.pos == a1.pos
    &&& a2.ai == a1.ai
    &&& a2.dancing == a1.dancing
    &&& a2.health == a1.health
    &&& a2.poise == a1.poise
    &&& a2.faction == a1.faction
    &&& a2.power == a1.power
    &&& a2.defence == a1.defence
    &&& a2.viewshed@ == a1.viewshed@
    &&& a2.dances@ == a1.dances@
    &&& a2.confusion == a1.confusion
}

/// Whether an actor can carry out the melee it intends: alive with stamina
/// to spare.
pub open spec fn spec_melee_able(a: Actor) -> bool {
    a.health.health > 0 && a.stamina.stamina > 0
}

/// The damage queue a run of attackers leaves on the victim at index `v`
/// of a roster of `n` actors, processed in order: each able attacker whose
/// intent names `v` (and not itself) queues its positive power-over-defence
/// margin, up to the queue cap.
pub open spec fn spec_melee_queue(
    attackers: Seq<Actor>,
    n: int,
    v: int,
    defence: int,
    q0: Seq<i32>,
) -> Seq<i32>
    decreases attackers.len(),
{
    if attackers.len() == 0 {
        q0
    } else {
        let q = spec_melee_queue(attackers.drop_last(), n, v, defence, q0);
        let a = attackers.last();
        let idx = attackers.len() - 1;
        match a.wants_melee {
            Some(t) => {
                let margin = if a.power - defence > 0 {
                    a.power - defence
                } else {
                    0int
                };
                if spec_melee_able(a) && (t as int) < n && (t as int) != idx && (t as int) == v
                    && margin > 0 && q.len() < 0xFFF_FFFF {
                    q.push(margin as i32)
                } else {
                    q
                }
            },
            None => q,
        }
    }
}

/// What the melee resolver does to each actor in its attacker role: an able
/// attacker with a real target spends one stamina and makes fighting noise
/// at the victim's cell; anyone else keeps its stamina and noise slot.
pub open spec fn melee_attacker_applied(actors: Seq<Actor>, i: int, a2: Actor) -> bool {
    let a1 = actors[i];
    match a1.wants_melee {
        Some(t) => if spec_melee_able(a1) && (t as int) < actors.len() && (t as int) != i {
            &&& a2.stamina.max_stamina == a1.stamina.max_stamina
            &&& a2.stamina.stamina == a1.stamina.stamina - 1
            &&& (a2.make_noise matches Some(mn) && mn.location == actors[t as int].pos
                && mn.volume == 32 && mn.faction is None && !mn.surprising && mn.description@
                == "fighting"@)
        } else {
            a2.stamina == a1.stamina && a2.make_noise is Some == (a1.make_noise is Some)
        },
        None => a2.stamina == a1.stamina && a2.make_noise is Some == (a1.make_noise is Some),
    }
}

/// Phase three, melee resolution: drains every pending melee intent. Any
/// committed attack raises the shared alarm; an able attacker (positive
/// health and stamina) spends one stamina, makes fighting noise at the
/// victim's cell, and queues the margin of its power over the victim's
/// defence (never negative) as damage.
#[verifier::rlimit(100)]
pub fn melee_combat_system(w: &mut World)
    requires
        old(w).wf(),
    ensures
        melee_combat_system_rel(*old(w), *final(w)),
{
    let n = w.actors.len();
    let mut i: usize = 0;
    proof {
        assert(old(w).actors@.subrange(0, 0) =~= Seq::<Actor>::empty());
    }
    while i < n
        invariant
            w.wf(),
            i <= n,
            n == w.actors@.len(),
            n == old(w).actors@.len(),
            w.grid == old(w).grid,
            w.player == old(w).player,
            w.alarm_raised == (old(w).alarm_raised || exists|j: int|
                0 <= j < i && (#[trigger] old(w).actors@[j]).wants_melee is Some),
            forall|j: int| 0 <= j < i ==> (#[trigger] w.actors@[j]).wants_melee is None,
            forall|j: int|
                0 <= j < n ==> melee_keeps(old(w).actors@[j], #[trigger] w.actors@[j]),
            forall|j: int|
                0 <= j < i ==> melee_attacker_applied(
                    old(w).actors@,
                    j,
                    #[trigger] w.actors@[j],
                ),
            forall|j: int|
                i <= j < n ==> (#[trigger] w.actors@[j]).wants_melee == old(
                    w,
                ).actors@[j].wants_melee && w.actors@[j].stamina == old(w).actors@[j].stamina
                    && w.actors@[j].make_noise == old(w).actors@[j].make_noise,
            forall|v: int|
                0 <= v < n ==> (#[trigger] w.actors@[v]).suffer_damage@ == spec_melee_queue(
                    old(w).actors@.subrange(0, i as int),
                    n as int,
                    v,
                    old(w).actors@[v].defence as int,
                    old(w).actors@[v].suffer_damage@,
                ),
        decreases n - i,
    {
        proof {
            assert(old(w).actors@.subrange(0, i + 1).drop_last() =~= old(
                w,
            ).actors@.subrange(0, i as int));
            assert(old(w).actors@.subrange(0, i + 1).last() == old(w).actors@[i as int]);
        }
        let target_opt = match &w.actors[i].wants_melee {
            Some(t) => Some(*t),
            None => None,
        };
        if let Some(target) = target_opt {
            w.alarm_raised = true;
            let able = w.actors[i].health.health > 0 && w.actors[i].stamina.stamina > 0;
            proof {
                assert(able == spec_melee_able(old(w).actors@[i as int]));
            }
            if able && target < n && target != i {
                let ghost pre1 = w.actors@;
                let mut attacker = w.actors.remove(i);
                attacker.stamina.spend_one();
                attacker.wants_melee = None;
                let power = attacker.power;
                w.actors.insert(i, attacker);
                proof {
                    assert(w.actors@ =~= pre1.update(i as int, attacker));
                }
                let ghost pre2 = w.actors@;
                let mut victim = w.actors.remove(target);
                let damage: i32 = melee_damage(power, victim.defence);
                if damage > 0 && victim.suffer_damage.len() < 0xFFF_FFFF {
                    victim.suffer_damage.push(damage);
                }
                let victim_pos = victim.pos;
                w.actors.insert(target, victim);
                proof {
                    assert(w.actors@ =~= pre2.update(target as int, victim));
                }
                let ghost pre3 = w.actors@;
                let mut attacker = w.actors.remove(i);
                attacker.make_noise = Some(
                    MakeNoise {
                        location: victim_pos,
                        volume: 32,
                        faction: None,
                        surprising: false,
                        description: String::from_str("fighting"),
                    },
                );
                w.actors.insert(i, attacker);
                proof {
                    assert(w.actors@ =~= pre3.update(i as int, attacker));
                    reveal_strlit("fighting");
                    assert(melee_attacker_applied(old(w).actors@, i as int, w.actors@[i as int]));
                    assert forall|v: int| 0 <= v < n implies (
                    #[trigger] w.actors@[v]).suffer_damage@ == spec_melee_queue(
                        old(w).actors@.subrange(0, i + 1),
                        n as int,
                        v,
                        old(w).actors@[v].defence as int,
                        old(w).actors@[v].suffer_damage@,
                    ) by {
                        if v == target as int {
                            assert(victim.suffer_damage@ == w.actors@[v].suffer_damage@);
                        }
                    }
                }
            } else {
                let ghost pre = w.actors@;
                let mut attacker = w.actors.remove(i);
                attacker.wants_melee = None;
                w.actors.insert(i, attacker);
                proof {
                    assert(w.actors@ =~= pre.update(i as int, attacker));
                    assert(melee_attacker_applied(old(w).actors@, i as int, w.actors@[i as int]));
                    assert(forall|v: int|
                        0 <= v < n ==> (#[trigger] w.actors@[v]).suffer_damage@
                            == spec_melee_queue(
                            old(w).actors@.subrange(0, i + 1),
                            n as int,
                            v,
                            old(w).actors@[v].defence as int,
                            old(w).actors@[v].suffer_damage@,
                        ));
                }
            }
        } else {
            proof {
                assert(forall|v: int|
                    0 <= v < n ==> (#[trigger] w.actors@[v]).suffer_damage@ == spec_melee_queue(
                        old(w).actors@.subrange(0, i + 1),
                        n as int,
                        v,
                        old(w).actors@[v].defence as int,
                        old(w).actors@[v].suffer_damage@,
                    ));
            }
        }
        i = i + 1;
    }
    proof {
        assert(i == n);
        assert(old(w).actors@.subrange(0, i as int) =~= old(w).actors@);
        assert(old(w).actors@.subrange(0, i as int) == old(w).actors@);
        assert forall|v: int| 0 <= v < n implies (#[trigger] w.actors@[v]).suffer_damage@
            == spec_melee_queue(
            old(w).actors@,
            n as int,
            v,
            old(w).actors@[v].defence as int,
            old(w).actors@[v].suffer_damage@,
        ) by {
            assert(w.actors@[v].suffer_damage@ == spec_melee_queue(
                old(w).actors@.subrange(0, i as int),
                n as int,
                v,
                old(w).actors@[v].defence as int,
                old(w).actors@[v].suffer_damage@,
            ));
        }
        if w.alarm_raised && !old(w).alarm_raised {
            let j = choose|j: int|
                0 <= j < i && (#[trigger] old(w).actors@[j]).wants_melee is Some;
            assert(0 <= j < old(w).actors@.len() && old(w).actors@[j].wants_melee is Some);
        }
    }
}

/// A total of damage taken off a health value, clamped at the pool floor.
pub open spec fn apply_damage_total(h: int, total: int) -> int {
    if h - total < -POOL_LIMIT {
        -POOL_LIMIT as int
    } else {
        h - total
    }
}

/// What the damage applier does to each actor: health loses the queue's
/// sum (clamped at the pool floor), one stamina is spent exactly when the
/// actor was hit at all, and poise is untouched.
pub open spec fn damage_applied(a1: Actor, a2: Actor) -> bool {
    &&& a2.health.max_health == a1.health.max_health
    &&& a2.health.health == apply_damage_total(
        a1.health.health as int,
        spec_sum(a1.suffer_damage@),
    )
    &&& (if a1.suffer_damage@.len() == 0 {
        a2.stamina == a1.stamina
    } else {
        a2.stamina.max_stamina == a1.stamina.max_stamina && a2.stamina.stamina == (
        if a1.stamina.stamina - 1 < 0 {
            0int
        } else {
            a1.stamina.stamina - 1
        })
    })
    &&& a2.poise == a1.poise
}

/// Fields the damage applier leaves alone, per actor.
pub open spec fn damage_keeps(a1: Actor, a2: Actor) -> bool {
    &&& a2.faction == a1.faction
    &&& a2.power == a1.power
    &&& a2.defence == a1.defence
    &&& a2.viewshed@ == a1.viewshed@
    &&& a2.dances@ == a1.dances@
    &&& a2.confusion == a1.confusion
    &&& a2.is_player == a1.is_player
    &&& a2.wants_move == a1.wants_move
    &&& a2.wants_melee == a1.wants_melee
    &&& a2.wants_dance == a1.wants_dance
    &&& a2.effect_request == a1.effect_request
    &&& a2.awestruck == a1.awestruck
    &&& a2.resting == a1.resting
    &&& a2.make_noise is Some == (a1.make_noise is Some)
    &&& a2.pos == a1.pos
    &&& a2.ai == a1.ai
    &&& a2.dancing == a1.dancing
}

/// Phase three, damage application: drains every damage queue. Each queued
/// amount comes off the victim's health (clamped at the pool floor), one
/// stamina is spent for having been hit, and the victim's tile is stained
/// with blood.
#[verifier::rlimit(100)]
pub fn damage_system(w: &mut World)
    requires
        old(w).wf(),
    ensures
        damage_system_rel(*old(w), *final(w)),
{
    let n = w.actors.len();
    let mut i: usize = 0;
    while i < n
        invariant
            w.wf(),
            n == w.actors@.len(),
            n == old(w).actors@.len(),
            w.grid.width == old(w).grid.width,
            w.grid.height == old(w).grid.height,
            w.grid.blocked == old(w).grid.blocked,
            w.grid.tiles == old(w).grid.tiles,
            w.player == old(w).player,
            forall|j: int| 0 <= j < i ==> (#[trigger] w.actors@[j]).suffer_damage@.len() == 0,
            forall|j: int|
                0 <= j < i && old(w).actors@[j].suffer_damage@.len() > 0
                    ==> w.grid.stains@[w.grid.spec_idx(
                    (#[trigger] w.actors@[j]).pos.x as int,
                    w.actors@[j].pos.y as int,
                )].blood,
            forall|j: int|
                0 <= j < n ==> damage_keeps(old(w).actors@[j], #[trigger] w.actors@[j]),
            forall|j: int|
                0 <= j < i ==> damage_applied(old(w).actors@[j], #[trigger] w.actors@[j]),
            forall|j: int| i <= j < n ==> #[trigger] w.actors@[j] == old(w).actors@[j],
        decreases n - i,
    {
        let hit = w.actors[i].suffer_damage.len() > 0;
        if hit {
            let ghost pre = w.actors@;
            let mut a = w.actors.remove(i);
            let ghost a0 = a;
            let ghost q = a.suffer_damage@;
            let ghost h0 = a.health.health as int;
            let mut k: usize = 0;
            let total = a.suffer_damage.len();
            proof {
                assert(q.subrange(0, 0) =~= Seq::<i32>::empty());
            }
            while k < total
                invariant
                    k <= total,
                    a.health.wf(),
                    a == (Actor { health: a.health, ..a0 }),
                    a.health.max_health == a0.health.max_health,
                    h0 == a0.health.health as int,
                    q == a0.suffer_damage@,
                    a.health.health == apply_damage_total(h0, spec_sum(q.subrange(0, k as int))),
                    total == a.suffer_damage@.len(),
                    a.suffer_damage@.len() < 0x1000_0000,
                    forall|t: int|
                        0 <= t < a.suffer_damage@.len() ==> 0 <= #[trigger] a.suffer_damage@[t]
                            <= POOL_LIMIT,
                decreases total - k,
            {
                let amount = a.suffer_damage[k];
                a.health.damage(amount);
                proof {
                    assert(q.subrange(0, k + 1).drop_last() =~= q.subrange(0, k as int));
                    assert(q.subrange(0, k + 1).last() == q[k as int]);
                }
                k = k + 1;
            }
            proof {
                assert(q.subrange(0, total as int) =~= q);
            }
            a.suffer_damage.clear();
            a.stamina.spend_one();
            let pos = a.pos;
            let ghost stains_pre = w.grid.stains@;
            w.grid.add_stain(&pos, Liquid::BLOOD);
            w.actors.insert(i, a);
            proof {
                assert(w.actors@ =~= pre.update(i as int, a));
                assert(damage_applied(old(w).actors@[i as int], a));
                let hit_idx = w.grid.spec_idx(pos.x as int, pos.y as int);
                w.grid.lemma_idx_bounds(pos);
                assert(w.grid.stains@[hit_idx].blood);
                assert forall|j: int|
                    0 <= j < i + 1 && old(w).actors@[j].suffer_damage@.len() > 0
                        implies w.grid.stains@[w.grid.spec_idx(
                        (#[trigger] w.actors@[j]).pos.x as int,
                        w.actors@[j].pos.y as int,
                    )].blood by {
                    if j < i {
                        let idxj = w.grid.spec_idx(
                            w.actors@[j].pos.x as int,
                            w.actors@[j].pos.y as int,
                        );
                        w.grid.lemma_idx_bounds(w.actors@[j].pos);
                        assert(stains_pre[idxj].blood);
                        assert(w.grid.stains@ == stains_pre.update(
                            hit_idx,
                            stains_pre[hit_idx].with(Liquid::BLOOD),
                        ));
                        if idxj == hit_idx {
                            assert(stains_pre[hit_idx].with(Liquid::BLOOD).blood);
                        } else {
                            assert(w.grid.stains@[idxj] == stains_pre[idxj]);
                        }
                    }
                }
            }
        } else {
            proof {
                assert(spec_sum(w.actors@[i as int].suffer_damage@) == 0);
                assert(damage_applied(old(w).actors@[i as int], w.actors@[i as int]));
            }
        }
        i = i + 1;
    }
}

/// Fields the effect resolver leaves alone, per actor.
pub open spec fn effects_keeps(a1: Actor, a2: Actor) -> bool {
    &&& a2.is_player == a1.is_player
    &&& a2.health == a1.health
    &&& a2.stamina == a1.stamina
    &&& a2.faction == a1.faction
    &&& a2.power == a1.power
    &&& a2.defence == a1.defence
    &&& a2.viewshed@ == a1.viewshed@
    &&& a2.dances@ == a1.dances@
    &&& a2.confusion == a1.confusion
    &&& a2.is_player == a1.is_player
    &&& a2.wants_move == a1.wants_move
    &&& a2.wants_melee == a1.wants_melee
    &&& a2.wants_dance == a1.wants_dance
    &&& a2.suffer_damage@ == a1.suffer_damage@
    &&& a2.make_noise is Some == (a1.make_noise is Some)
    &&& a2.resting == a1.resting
    &&& a2.pos == a1.pos
    &&& a2.ai == a1.ai
    &&& a2.dancing == a1.dancing
}

/// The awe left in one watcher's slot by a run of performers, processed in
/// order: each awesomeness display whose performer stands in the watcher's
/// vision, from a rival faction, overwrites the slot with its amount.
pub open spec fn spec_awe_fold(
    performers: Seq<Actor>,
    watcher: Actor,
    acc: Option<i32>,
) -> Option<i32>
    decreases performers.len(),
{
    if performers.len() == 0 {
        acc
    } else {
        let acc2 = spec_awe_fold(performers.drop_last(), watcher, acc);
        let p = performers.last();
        match p.effect_request {
            Some(Effect::Awesomeness { poise }) => if crate::ai::spec_contains_point(
                watcher.viewshed@,
                p.pos,
            ) && watcher.faction != p.faction {
                Some(poise)
            } else {
                acc2
            },
            _ => acc2,
        }
    }
}

/// What effect resolution does to one actor's own poise: its own
/// self-poise request restores that much (clamped at the maximum, with
/// out-of-band amounts discarded); any other request, or none, leaves the
/// actor's poise alone. What lands in other actors' awe slots is the
/// displays' doing and is specified by the awe applier that drains them.
pub open spec fn effects_self_poise(a1: Actor, a2: Actor) -> bool {
    match a1.effect_request {
        Some(Effect::SelfPoise { poise }) => if 0 <= poise <= POOL_LIMIT {
            a2.poise.max_poise == a1.poise.max_poise && a2.poise.poise == (
            if a1.poise.poise + poise > a1.poise.max_poise {
                a1.poise.max_poise as int
            } else {
                a1.poise.poise + poise
            })
        } else {
            a2.poise == a1.poise
        },
        _ => a2.poise == a1.poise,
    }
}

/// Phase three, effect resolution: drains every pending effect request. An
/// awesomeness display strikes awe into every rival-faction actor that can
/// see the performer's cell; a self-poise effect restores the performer's
/// own poise (clamped at its maximum).
#[verifier::rlimit(100)]
pub fn effects_system(w: &mut World)
    requires
        old(w).wf(),
    ensures
        effects_system_rel(*old(w), *final(w)),
{
    let n = w.actors.len();
    let mut i: usize = 0;
    proof {
        assert(old(w).actors@.subrange(0, 0) =~= Seq::<Actor>::empty());
    }
    while i < n
        invariant
            w.wf(),
            i <= n,
            n == w.actors@.len(),
            n == old(w).actors@.len(),
            w.grid == old(w).grid,
            w.player == old(w).player,
            forall|j: int| 0 <= j < i ==> (#[trigger] w.actors@[j]).effect_request is None,
            forall|j: int|
                0 <= j < n ==> effects_keeps(old(w).actors@[j], #[trigger] w.actors@[j]),
            forall|j: int|
                0 <= j < i ==> effects_self_poise(old(w).actors@[j], #[trigger] w.actors@[j]),
            forall|j: int|
                i <= j < n ==> (#[trigger] w.actors@[j]).poise == old(w).actors@[j].poise
                    && w.actors@[j].effect_request == old(w).actors@[j].effect_request,
            forall|t: int|
                0 <= t < n ==> (#[trigger] w.actors@[t]).awestruck == spec_awe_fold(
                    old(w).actors@.subrange(0, i as int),
                    old(w).actors@[t],
                    old(w).actors@[t].awestruck,
                ),
        decreases n - i,
    {
        proof {
            assert(old(w).actors@.subrange(0, i + 1).drop_last() =~= old(
                w,
            ).actors@.subrange(0, i as int));
            assert(old(w).actors@.subrange(0, i + 1).last() == old(w).actors@[i as int]);
        }
        let request = match &w.actors[i].effect_request {
            Some(e) => Some(*e),
            None => None,
        };
        if let Some(effect) = request {
            let ghost pre0 = w.actors@;
            let mut a = w.actors.remove(i);
            a.effect_request = None;
            let performer_pos = a.pos;
            let performer_faction = a.faction;
            w.actors.insert(i, a);
            proof {
                assert(w.actors@ =~= pre0.update(i as int, a));
            }
            match effect {
                Effect::Awesomeness { poise } => {
                    let ghost before_awe = w.actors@;
                    let mut t: usize = 0;
                    while t < n
                        invariant
                            w.wf(),
                            i < n,
                            t <= n,
                            n == w.actors@.len(),
                            n == old(w).actors@.len(),
                            n == before_awe.len(),
                            w.grid == old(w).grid,
                            w.player == old(w).player,
                            performer_pos == old(w).actors@[i as int].pos,
                            performer_faction == old(w).actors@[i as int].faction,
                            old(w).actors@[i as int].effect_request == Some(
                                Effect::Awesomeness { poise },
                            ),
                            forall|j: int|
                                0 <= j < i + 1 ==> (#[trigger] w.actors@[j]).effect_request
                                    is None,
                            forall|j: int|
                                0 <= j < n ==> effects_keeps(
                                    old(w).actors@[j],
                                    #[trigger] w.actors@[j],
                                ),
                            forall|j: int|
                                0 <= j < n ==> (#[trigger] w.actors@[j]).poise
                                    == before_awe[j].poise,
                            forall|j: int|
                                0 <= j < n ==> (#[trigger] w.actors@[j]).effect_request
                                    == before_awe[j].effect_request,
                            forall|j: int|
                                0 <= j < t ==> (#[trigger] w.actors@[j]).awestruck
                                    == spec_awe_fold(
                                    old(w).actors@.subrange(0, i + 1),
                                    old(w).actors@[j],
                                    old(w).actors@[j].awestruck,
                                ),
                            forall|j: int|
                                t <= j < n ==> (#[trigger] w.actors@[j]).awestruck
                                    == spec_awe_fold(
                                    old(w).actors@.subrange(0, i as int),
                                    old(w).actors@[j],
                                    old(w).actors@[j].awestruck,
                                ),
                        decreases n - t,
                    {
                        proof {
                            assert(old(w).actors@.subrange(0, i + 1).drop_last() =~= old(
                                w,
                            ).actors@.subrange(0, i as int));
                            assert(old(w).actors@.subrange(0, i + 1).last() == old(
                                w,
                            ).actors@[i as int]);
                        }
                        let sees = crate::ai::contains_point(
                            &w.actors[t].viewshed,
                            &performer_pos,
                        );
                        let rival = w.actors[t].faction != performer_faction;
                        if sees && rival {
                            let ghost pre = w.actors@;
                            let mut target = w.actors.remove(t);
                            target.awestruck = Some(poise);
                            w.actors.insert(t, target);
                            proof {
                                assert(w.actors@ =~= pre.update(t as int, target));
                            }
                        }
                        t = t + 1;
                    }
                },
                Effect::SelfPoise { poise } => {
                    if 0 <= poise && poise <= POOL_LIMIT {
                        let ghost pre = w.actors@;
                        let mut a = w.actors.remove(i);
                        a.poise.raise(poise);
                        w.actors.insert(i, a);
                        proof {
                            assert(w.actors@ =~= pre.update(i as int, a));
                        }
                    }
                },
            }
        }
        i = i + 1;
    }
    proof {
        assert(i == n);
        assert(old(w).actors@.subrange(0, i as int) =~= old(w).actors@);
        assert(old(w).actors@.subrange(0, i as int) == old(w).actors@);
        assert forall|t: int| 0 <= t < n implies (#[trigger] w.actors@[t]).awestruck
            == spec_awe_fold(
            old(w).actors@,
            old(w).actors@[t],
            old(w).actors@[t].awestruck,
        ) by {
            assert(w.actors@[t].awestruck == spec_awe_fold(
                old(w).actors@.subrange(0, i as int),
                old(w).actors@[t],
                old(w).actors@[t].awestruck,
            ));
        }
    }
}

/// Fields the awe applier leaves alone, per actor.
pub open spec fn awe_keeps(a1: Actor, a2: Actor) -> bool {
    &&& a2.is_player == a1.is_player
    &&& a2.health == a1.health
    &&& a2.stamina == a1.stamina
    &&& a2.faction == a1.faction
    &&& a2.power == a1.power
    &&& a2.defence == a1.defence
    &&& a2.viewshed@ == a1.viewshed@
    &&& a2.dances@ == a1.dances@
    &&& a2.confusion == a1.confusion
    &&& a2.is_player == a1.is_player
    &&& a2.wants_move == a1.wants_move
    &&& a2.wants_melee == a1.wants_melee
    &&& a2.wants_dance == a1.wants_dance
    &&& a2.effect_request == a1.effect_request
    &&& a2.suffer_damage@ == a1.suffer_damage@
    &&& a2.make_noise is Some == (a1.make_noise is Some)
    &&& a2.resting == a1.resting
    &&& a2.pos == a1.pos
    &&& a2.ai == a1.ai
    &&& a2.dancing == a1.dancing
}

/// What the awe application does to one actor's poise: a pending
/// non-negative amount comes off it (clamped at zero); a negative amount
/// is discarded; without a pending amount nothing changes.
pub open spec fn awe_applied(a1: Actor, a2: Actor) -> bool {
    match a1.awestruck {
        Some(p) => if p >= 0 {
            a2.poise.max_poise == a1.poise.max_poise && a2.poise.poise == (
            if a1.poise.poise - p < 0 {
                0int
            } else {
                a1.poise.poise - p
            })
        } else {
            a2.poise == a1.poise
        },
        None => a2 == a1,
    }
}

/// Phase three, awe application: drains every pending awe amount, lowering
/// the struck actor's poise by it (clamped at zero). A negative amount is
/// discarded.
#[verifier::rlimit(100)]
pub fn awesomeness_system(w: &mut World)
    requires
        old(w).wf(),
    ensures
        awesomeness_system_rel(*old(w), *final(w)),
{
    let n = w.actors.len();
    let mut i: usize = 0;
    while i < n
        invariant
            w.wf(),
            n == w.actors@.len(),
            n == old(w).actors@.len(),
            w.grid == old(w).grid,
            w.player == old(w).player,
            forall|j: int| 0 <= j < i ==> (#[trigger] w.actors@[j]).awestruck is None,
            forall|j: int|
                0 <= j < n ==> awe_keeps(old(w).actors@[j], #[trigger] w.actors@[j]),
            forall|j: int|
                0 <= j < i ==> awe_applied(old(w).actors@[j], #[trigger] w.actors@[j]),
            forall|j: int| i <= j < n ==> #[trigger] w.actors@[j] == old(w).actors@[j],
        decreases n - i,
    {
        let struck = match &w.actors[i].awestruck {
            Some(p) => Some(*p),
            None => None,
        };
        if let Some(poise) = struck {
            let ghost pre = w.actors@;
            let mut a = w.actors.remove(i);
            a.awestruck = None;
            if poise >= 0 {
                a.poise.lower(poise);
            }
            w.actors.insert(i, a);
            proof {
                assert(w.actors@ =~= pre.update(i as int, a));
            }
        }
        i = i + 1;
    }
}

/// Fields the dance starter leaves alone, per actor.
pub open spec fn start_dance_keeps(a1: Actor, a2: Actor) -> bool {
    &&& a2.is_player == a1.is_player
    &&& a2.health == a1.health
    &&& a2.stamina == a1.stamina
    &&& a2.poise == a1.poise
    &&& a2.faction == a1.faction
    &&& a2.power == a1.power
    &&& a2.defence == a1.defence
    &&& a2.viewshed@ == a1.viewshed@
    &&& a2.dances@ == a1.dances@
    &&& a2.confusion == a1.confusion
    &&& a2.is_player == a1.is_player
    &&& a2.wants_move == a1.wants_move
    &&& a2.wants_melee == a1.wants_melee
    &&& a2.effect_request == a1.effect_request
    &&& a2.awestruck == a1.awestruck
    &&& a2.suffer_damage@ == a1.suffer_damage@
    &&& a2.make_noise is Some == (a1.make_noise is Some)
    &&& a2.resting == a1.resting
    &&& a2.pos == a1.pos
    &&& a2.ai == a1.ai
}

/// The in-grid cells a dance's walk reaches after each step, from the
/// given coordinates.
pub open spec fn spec_envelope_walk(g: Grid, x: int, y: int, steps: Seq<crate::dancing::Step>) -> Seq<
    Point,
>
    decreases steps.len(),
{
    if steps.len() == 0 {
        Seq::empty()
    } else {
        let nx = x + steps[0].direction.x;
        let ny = y + steps[0].direction.y;
        (if 0 <= nx < g.width && 0 <= ny < g.height {
            seq![Point { x: nx as i32, y: ny as i32 }]
        } else {
            Seq::empty()
        }) + spec_envelope_walk(g, nx, ny, steps.drop_first())
    }
}

/// A dance's claimed envelope from a starting cell: the start and every
/// on-grid position the steps reach, in walk order.
pub open spec fn spec_envelope(g: Grid, start: Point, steps: Seq<crate::dancing::Step>) -> Seq<
    Point,
> {
    seq![start] + spec_envelope_walk(g, start.x as int, start.y as int, steps)
}

/// Walks a dance from a starting cell and collects its claimed envelope.
fn dance_envelope(g: &Grid, start: Point, steps: &Vec<crate::dancing::Step>) -> (r: Vec<Point>)
    requires
        g.wf(),
        g.spec_point_valid(start),
        steps@.len() <= 0xFFFF,
        forall|i: int|
            0 <= i < steps@.len() ==> -1 <= (#[trigger] steps@[i]).direction.x <= 1 && -1
                <= steps@[i].direction.y <= 1,
    ensures
        r@ == spec_envelope(*g, start, steps@),
{
    let mut out: Vec<Point> = Vec::new();
    out.push(start);
    let mut ax: i64 = start.x as i64;
    let mut ay: i64 = start.y as i64;
    let mut k: usize = 0;
    proof {
        assert(steps@.skip(0) =~= steps@);
    }
    while k < steps.len()
        invariant
            g.wf(),
            k <= steps@.len(),
            steps@.len() <= 0xFFFF,
            forall|i: int|
                0 <= i < steps@.len() ==> -1 <= (#[trigger] steps@[i]).direction.x <= 1 && -1
                    <= steps@[i].direction.y <= 1,
            -(k as int) <= ax - start.x as int <= k as int,
            -(k as int) <= ay - start.y as int <= k as int,
            -0x8000_0000 <= start.x <= 0x7FFF_FFFF,
            -0x8000_0000 <= start.y <= 0x7FFF_FFFF,
            seq![start] + spec_envelope_walk(
                *g,
                start.x as int,
                start.y as int,
                steps@,
            ) == out@ + spec_envelope_walk(*g, ax as int, ay as int, steps@.skip(k as int)),
        decreases steps@.len() - k,
    {
        proof {
            assert(steps@.skip(k as int)[0] == steps@[k as int]);
            assert(steps@.skip(k as int).drop_first() =~= steps@.skip(k as int + 1));
        }
        let step = &steps[k];
        let nx: i64 = ax + (step.direction.x as i64);
        let ny: i64 = ay + (step.direction.y as i64);
        if 0 <= nx && nx < g.width as i64 && 0 <= ny && ny < g.height as i64 {
            out.push(Point { x: nx as i32, y: ny as i32 });
        }
        ax = nx;
        ay = ny;
        k = k + 1;
    }
    proof {
        assert(steps@.skip(steps@.len() as int) =~= Seq::<crate::dancing::Step>::empty());
    }
    out
}

/// What the dance activation does to one actor: a pending request either
/// becomes an in-progress dance at the actor's cell — carrying the
/// requested dance, its step sequence from the top, the requested
/// repetitions and the walk's claimed envelope — or lapses because the
/// actor is out of stamina or poise; actors without a request keep their
/// dancing state.
pub open spec fn dance_started(g: Grid, a1: Actor, a2: Actor) -> bool {
    match a1.wants_dance {
        Some((dance, repetitions)) => if a1.stamina.stamina > 0 && a1.poise.poise > 0 {
            match a2.dancing {
                Some(d) => {
                    &&& d.dance == dance
                    &&& d.steps@ == dance.spec_steps()
                    &&& d.step_idx == 0
                    &&& d.repetitions == repetitions
                    &&& d.expect_pos == a1.pos
                    &&& d.range@ == spec_envelope(g, a1.pos, dance.spec_steps())
                },
                None => false,
            }
        } else {
            a2.dancing == a1.dancing
        },
        None => a2.dancing == a1.dancing,
    }
}

/// Phase three, dance activation: drains every pending dance request. An
/// actor with stamina and poise to spare begins the dance at its current
/// cell, claiming the dance's envelope; an exhausted or intimidated actor's
/// request lapses.
#[verifier::rlimit(100)]
pub fn start_dancing_system(w: &mut World)
    requires
        old(w).wf(),
    ensures
        start_dancing_system_rel(*old(w), *final(w)),
{
    let n = w.actors.len();
    let mut i: usize = 0;
    while i < n
        invariant
            w.wf(),
            n == w.actors@.len(),
            n == old(w).actors@.len(),
            w.grid == old(w).grid,
            w.player == old(w).player,
            forall|j: int| 0 <= j < i ==> (#[trigger] w.actors@[j]).wants_dance is None,
            forall|j: int|
                0 <= j < n ==> start_dance_keeps(old(w).actors@[j], #[trigger] w.actors@[j]),
            forall|j: int|
                0 <= j < i ==> dance_started(
                    old(w).grid,
                    old(w).actors@[j],
                    #[trigger] w.actors@[j],
                ),
            forall|j: int| i <= j < n ==> #[trigger] w.actors@[j] == old(w).actors@[j],
        decreases n - i,
    {
        let request = match &w.actors[i].wants_dance {
            Some(d) => Some(*d),
            None => None,
        };
        if let Some((dance, repetitions)) = request {
            let ghost pre = w.actors@;
            let mut a = w.actors.remove(i);
            a.wants_dance = None;
            if a.stamina.stamina > 0 && a.poise.poise > 0 {
                let steps = dance.steps();
                proof {
                    crate::dancing::lemma_dance_steps_wf(dance);
                }
                let range = dance_envelope(&w.grid, a.pos, &steps);
                a.dancing = Some(
                    Dancing {
                        dance,
                        range,
                        expect_pos: a.pos,
                        steps,
                        step_idx: 0,
                        repetitions,
                    },
                );
            }
            w.actors.insert(i, a);
            proof {
                assert(w.actors@ =~= pre.update(i as int, a));
            }
        }
        i = i + 1;
    }
}

/// Fields the recovery pass leaves alone, per actor.
pub open spec fn recovery_keeps(a1: Actor, a2: Actor) -> bool {
    &&& a2.faction == a1.faction
    &&& a2.power == a1.power
    &&& a2.defence == a1.defence
    &&& a2.viewshed@ == a1.viewshed@
    &&& a2.dances@ == a1.dances@
    &&& a2.confusion == a1.confusion
    &&& a2.is_player == a1.is_player
    &&& a2.wants_move == a1.wants_move
    &&& a2.wants_melee == a1.wants_melee
    &&& a2.wants_dance == a1.wants_dance
    &&& a2.effect_request == a1.effect_request
    &&& a2.awestruck == a1.awestruck
    &&& a2.suffer_damage@ == a1.suffer_damage@
    &&& a2.make_noise is Some == (a1.make_noise is Some)
    &&& a2.pos == a1.pos
    &&& a2.ai == a1.ai
    &&& a2.dancing == a1.dancing
}

/// Whether an actor takes its recovery on this half of the round.
pub open spec fn on_side(a: Actor, run_state: RunState) -> bool {
    match run_state {
        RunState::PlayerTurn => a.is_player,
        RunState::MonsterTurn => !a.is_player,
    }
}

/// A value one higher, clamped at the maximum.
pub open spec fn plus_one_clamped(v: int, max: int) -> int {
    if v + 1 > max {
        max
    } else {
        v + 1
    }
}

/// What the recovery pass does to one actor: on its half of the round, a
/// resting actor regains one stamina every turn and one health every fifth
/// turn; a non-resting one regains one health every tenth turn and one
/// stamina and poise every fifth; everything clamps at the maxima. Off its
/// half, the actor is untouched.
pub open spec fn recovery_applied(a1: Actor, a2: Actor, run_state: RunState, turn: u32) -> bool {
    if on_side(a1, run_state) {
        if a1.resting {
            &&& a2.health.health == (if turn % 5 == 0 {
                plus_one_clamped(a1.health.health as int, a1.health.max_health as int)
            } else {
                a1.health.health as int
            })
            &&& a2.stamina.stamina == plus_one_clamped(
                a1.stamina.stamina as int,
                a1.stamina.max_stamina as int,
            )
            &&& a2.poise == a1.poise
        } else {
            &&& a2.health.health == (if turn % 10 == 0 {
                plus_one_clamped(a1.health.health as int, a1.health.max_health as int)
            } else {
                a1.health.health as int
            })
            &&& a2.stamina.stamina == (if turn % 5 == 0 {
                plus_one_clamped(a1.stamina.stamina as int, a1.stamina.max_stamina as int)
            } else {
                a1.stamina.stamina as int
            })
            &&& a2.poise.poise == (if turn % 5 == 0 {
                plus_one_clamped(a1.poise.poise as int, a1.poise.max_poise as int)
            } else {
                a1.poise.poise as int
            })
        }
    } else {
        a2 == a1
    }
}

/// Phase three, recovery: consumes the rest markers of the actors whose
/// half of the round this is. A resting actor regains one stamina every
/// turn and one health every fifth turn; a non-resting actor regains one
/// health every tenth turn and one stamina and poise every fifth. All
/// regains clamp at the pool maxima.
#[verifier::rlimit(100)]
pub fn recovery_system(w: &mut World, run_state: RunState)
    requires
        old(w).wf(),
    ensures
        recovery_system_rel(*old(w), *final(w), run_state),
{
    let n = w.actors.len();
    let turn = w.turn;
    let mut i: usize = 0;
    while i < n
        invariant
            w.wf(),
            n == w.actors@.len(),
            n == old(w).actors@.len(),
            w.grid == old(w).grid,
            w.player == old(w).player,
            turn == old(w).turn,
            w.turn == old(w).turn,
            forall|j: int|
                0 <= j < i && on_side(old(w).actors@[j], run_state) ==> !(
                #[trigger] w.actors@[j]).resting,
            forall|j: int|
                0 <= j < n ==> recovery_keeps(old(w).actors@[j], #[trigger] w.actors@[j]),
            forall|j: int|
                0 <= j < i ==> recovery_applied(
                    old(w).actors@[j],
                    #[trigger] w.actors@[j],
                    run_state,
                    old(w).turn,
                ),
            forall|j: int| i <= j < n ==> #[trigger] w.actors@[j] == old(w).actors@[j],
        decreases n - i,
    {
        let included = match run_state {
            RunState::PlayerTurn => w.actors[i].is_player,
            RunState::MonsterTurn => !w.actors[i].is_player,
        };
        if included {
            let ghost pre = w.actors@;
            let mut a = w.actors.remove(i);
            if a.resting {
                if turn % 5 == 0 {
                    a.health.heal(1);
                }
                a.stamina.restore_one();
                a.resting = false;
            } else {
                if turn % 10 == 0 {
                    a.health.heal(1);
                }
                if turn % 5 == 0 {
                    a.stamina.restore_one();
                    a.poise.restore_one();
                }
            }
            w.actors.insert(i, a);
            proof {
                assert(w.actors@ =~= pre.update(i as int, a));
            }
        }
        i = i + 1;
    }
}

/// Fields the dance-step advance leaves alone, per actor.
pub open spec fn dance_move_keeps(a1: Actor, a2: Actor) -> bool {
    &&& a2.health == a1.health
    &&& a2.faction == a1.faction
    &&& a2.power == a1.power
    &&& a2.defence == a1.defence
    &&& a2.viewshed@ == a1.viewshed@
    &&& a2.dances@ == a1.dances@
    &&& a2.confusion == a1.confusion
    &&& a2.is_player == a1.is_player
    &&& a2.wants_melee == a1.wants_melee
    &&& a2.wants_dance == a1.wants_dance
    &&& a2.awestruck == a1.awestruck
    &&& a2.suffer_damage@ == a1.suffer_damage@
    &&& a2.make_noise is Some == (a1.make_noise is Some)
    &&& a2.resting == a1.resting
    &&& a2.pos == a1.pos
    &&& a2.ai == a1.ai
}

/// Whether the dance-step advance handles an actor this half of the round:
/// dancers step on the half opposite to their own side.
pub open spec fn steps_this_half(a: Actor, run_state: RunState) -> bool {
    match run_state {
        RunState::MonsterTurn => a.is_player,
        RunState::PlayerTurn => !a.is_player,
    }
}

/// What one dance-step advance does to a dancer. An exhausted dancer loses
/// one poise and stops. Otherwise it spends one stamina and, if steps
/// remain, advances the cursor and notes the expected landing cell; when
/// that cell is on the grid and open, a move intent and the step's effect
/// are filed, and a blocked or off-grid landing files nothing (so the
/// status check will fail the dance). Actors not dancing, or not handled
/// this half, are untouched.
pub open spec fn dance_stepped(g: Grid, a1: Actor, a2: Actor, run_state: RunState) -> bool {
    if !(steps_this_half(a1, run_state) && a1.dancing is Some) {
        a2 == a1
    } else {
        let d = a1.dancing->Some_0;
        if a1.stamina.stamina <= 0 {
            &&& a2.dancing is None
            &&& a2.poise.max_poise == a1.poise.max_poise
            &&& a2.poise.poise == (if a1.poise.poise - 1 < 0 {
                0int
            } else {
                a1.poise.poise - 1
            })
            &&& a2.stamina == a1.stamina
            &&& a2.wants_move == a1.wants_move
            &&& a2.effect_request == a1.effect_request
        } else {
            &&& a2.stamina.max_stamina == a1.stamina.max_stamina
            &&& a2.stamina.stamina == a1.stamina.stamina - 1
            &&& a2.poise == a1.poise
            &&& if (d.step_idx as int) < d.steps@.len() {
                let step = d.steps@[d.step_idx as int];
                let nx = a1.pos.x + step.direction.x;
                let ny = a1.pos.y + step.direction.y;
                let landing = Point { x: nx as i32, y: ny as i32 };
                let open = 0 <= nx < g.width && 0 <= ny < g.height && !g.spec_blocked_at(
                    landing,
                );
                &&& match a2.dancing {
                    Some(d2) => {
                        &&& d2.dance == d.dance
                        &&& d2.range@ == d.range@
                        &&& d2.steps@ == d.steps@
                        &&& d2.step_idx == d.step_idx + 1
                        &&& d2.repetitions == d.repetitions
                        &&& d2.expect_pos == landing
                    },
                    None => false,
                }
                &&& if open {
                    &&& a2.wants_move == Some((a1.pos, landing))
                    &&& a2.effect_request == (match step.effect {
                        Some(e) => Some(e),
                        None => a1.effect_request,
                    })
                } else {
                    &&& a2.wants_move == a1.wants_move
                    &&& a2.effect_request == a1.effect_request
                }
            } else {
                &&& a2.dancing == a1.dancing
                &&& a2.wants_move == a1.wants_move
                &&& a2.effect_request == a1.effect_request
            }
        }
    }
}

/// Phase two, dance-step advance: each dancer on the off half of the round
/// takes its next scripted step. An exhausted dancer loses one poise and
/// stops; otherwise it spends one stamina, notes where the step should land
/// it, and — when the landing cell is open — files a move intent and any
/// effect the step carries.
#[verifier::rlimit(100)]
pub fn dancing_movement_system(w: &mut World, run_state: RunState)
    requires
        old(w).wf(),
    ensures
        dancing_movement_system_rel(*old(w), *final(w), run_state),
{
    let n = w.actors.len();
    let mut i: usize = 0;
    while i < n
        invariant
            w.wf(),
            n == w.actors@.len(),
            n == old(w).actors@.len(),
            w.grid == old(w).grid,
            w.player == old(w).player,
            forall|j: int|
                0 <= j < n ==> dance_move_keeps(old(w).actors@[j], #[trigger] w.actors@[j]),
            forall|j: int|
                0 <= j < i ==> dance_stepped(
                    old(w).grid,
                    old(w).actors@[j],
                    #[trigger] w.actors@[j],
                    run_state,
                ),
            forall|j: int| i <= j < n ==> #[trigger] w.actors@[j] == old(w).actors@[j],
        decreases n - i,
    {
        let included = match run_state {
            RunState::MonsterTurn => w.actors[i].is_player,
            RunState::PlayerTurn => !w.actors[i].is_player,
        };
        let is_dancing = match &w.actors[i].dancing {
            Some(_) => true,
            None => false,
        };
        if included && is_dancing {
            let ghost pre = w.actors@;
            let mut a = w.actors.remove(i);
            if a.stamina.stamina <= 0 {
                a.poise.lower(1);
                a.dancing = None;
            } else {
                a.stamina.spend_one();
                let mut d = match a.dancing {
                    Some(d) => d,
                    None => {
                        proof {
                            assert(false);
                        }
                        Dancing {
                            dance: Dance::HOP,
                            range: Vec::new(),
                            expect_pos: a.pos,
                            steps: Vec::new(),
                            step_idx: 0,
                            repetitions: 0,
                        }
                    },
                };
                if (d.step_idx as usize) < d.steps.len() {
                    let step_dir = d.steps[d.step_idx as usize].direction;
                    let step_effect = d.steps[d.step_idx as usize].effect;
                    d.step_idx = d.step_idx + 1;
                    let nx: i64 = a.pos.x as i64 + (step_dir.x as i64);
                    let ny: i64 = a.pos.y as i64 + (step_dir.y as i64);
                    if 0 <= nx && nx < w.grid.width as i64 && 0 <= ny && ny
                        < w.grid.height as i64 {
                        let np = Point { x: nx as i32, y: ny as i32 };
                        d.expect_pos = np;
                        if !w.grid.blocked_at(&np) {
                            a.wants_move = Some((a.pos, np));
                            if let Some(effect) = step_effect {
                                a.effect_request = Some(effect);
                            }
                        }
                    } else {
                        // The step would leave the grid: the dancer stays put
                        // and the missed landing fails the dance at the
                        // status check, as a blocked step does.
                        d.expect_pos = Point { x: nx as i32, y: ny as i32 };
                    }
                }
                a.dancing = Some(d);
            }
            w.actors.insert(i, a);
            proof {
                assert(w.actors@ =~= pre.update(i as int, a));
            }
        }
        i = i + 1;
    }
}

/// Fields the dance-status check leaves alone, per actor.
pub open spec fn dance_status_keeps(a1: Actor, a2: Actor) -> bool {
    &&& a2.health == a1.health
    &&& a2.stamina == a1.stamina
    &&& a2.faction == a1.faction
    &&& a2.power == a1.power
    &&& a2.defence == a1.defence
    &&& a2.viewshed@ == a1.viewshed@
    &&& a2.dances@ == a1.dances@
    &&& a2.confusion == a1.confusion
    &&& a2.is_player == a1.is_player
    &&& a2.wants_move == a1.wants_move
    &&& a2.wants_melee == a1.wants_melee
    &&& a2.wants_dance == a1.wants_dance
    &&& a2.effect_request == a1.effect_request
    &&& a2.awestruck == a1.awestruck
    &&& a2.suffer_damage@ == a1.suffer_damage@
    &&& a2.make_noise is Some == (a1.make_noise is Some)
    &&& a2.resting == a1.resting
    &&& a2.pos == a1.pos
    &&& a2.ai == a1.ai
}

/// What the dance-status check does to a dancer. Standing anywhere but
/// the expected cell fails the dance: one poise lost, dance over. On the
/// expected cell, an exhausted sequence starts over and spends one
/// repetition, and a dancer out of repetitions finishes with its poise
/// intact. Actors not dancing are untouched.
pub open spec fn dance_status_checked(a1: Actor, a2: Actor) -> bool {
    match a1.dancing {
        None => a2 == a1,
        Some(d) => if a1.pos != d.expect_pos {
            &&& a2.dancing is None
            &&& a2.poise.max_poise == a1.poise.max_poise
            &&& a2.poise.poise == (if a1.poise.poise - 1 < 0 {
                0int
            } else {
                a1.poise.poise - 1
            })
        } else {
            let wrapped = d.step_idx as int >= d.steps@.len();
            let reps = if wrapped && d.repetitions > 0 {
                d.repetitions - 1
            } else {
                d.repetitions as int
            };
            &&& a2.poise == a1.poise
            &&& if reps == 0 {
                a2.dancing is None
            } else {
                match a2.dancing {
                    Some(d2) => {
                        &&& d2.dance == d.dance
                        &&& d2.range@ == d.range@
                        &&& d2.steps@ == d.steps@
                        &&& d2.expect_pos == d.expect_pos
                        &&& d2.step_idx == (if wrapped {
                            0int
                        } else {
                            d.step_idx as int
                        })
                        &&& d2.repetitions == reps
                    },
                    None => false,
                }
            }
        },
    }
}

/// Phase five, dance-status check: a dancer standing anywhere but where its
/// last step should have landed it has failed the dance (one poise lost,
/// dance over); a dancer that finished the sequence starts it over and
/// spends one repetition; a dancer out of repetitions finishes.
#[verifier::rlimit(100)]
pub fn dancing_status_system(w: &mut World)
    requires
        old(w).wf(),
    ensures
        dancing_status_system_rel(*old(w), *final(w)),
{
    let n = w.actors.len();
    let mut i: usize = 0;
    while i < n
        invariant
            w.wf(),
            n == w.actors@.len(),
            n == old(w).actors@.len(),
            w.grid == old(w).grid,
            w.player == old(w).player,
            forall|j: int|
                0 <= j < n ==> dance_status_keeps(old(w).actors@[j], #[trigger] w.actors@[j]),
            forall|j: int|
                0 <= j < i ==> dance_status_checked(old(w).actors@[j], #[trigger] w.actors@[j]),
            forall|j: int| i <= j < n ==> #[trigger] w.actors@[j] == old(w).actors@[j],
        decreases n - i,
    {
        let is_dancing = match &w.actors[i].dancing {
            Some(_) => true,
            None => false,
        };
        if is_dancing {
            let ghost pre = w.actors@;
            let mut a = w.actors.remove(i);
            let mut d = match a.dancing {
                Some(d) => d,
                None => {
                    proof {
                        assert(false);
                    }
                    Dancing {
                        dance: Dance::HOP,
                        range: Vec::new(),
                        expect_pos: a.pos,
                        steps: Vec::new(),
                        step_idx: 0,
                        repetitions: 0,
                    }
                },
            };
            if a.pos.x != d.expect_pos.x || a.pos.y != d.expect_pos.y {
                a.poise.lower(1);
                a.dancing = None;
            } else {
                if d.step_idx as usize >= d.steps.len() {
                    d.step_idx = 0;
                    if d.repetitions > 0 {
                        d.repetitions = d.repetitions - 1;
                    }
                }
                if d.repetitions == 0 {
                    a.dancing = None;
                } else {
                    a.dancing = Some(d);
                }
            }
            w.actors.insert(i, a);
            proof {
                assert(w.actors@ =~= pre.update(i as int, a));
            }
        }
        i = i + 1;
    }
}

/// Fields the noise collector leaves alone, per actor.
pub open spec fn noise_keeps(a1: Actor, a2: Actor) -> bool {
    &&& a2.health == a1.health
    &&& a2.stamina == a1.stamina
    &&& a2.poise == a1.poise
    &&& a2.faction == a1.faction
    &&& a2.power == a1.power
    &&& a2.defence == a1.defence
    &&& a2.viewshed@ == a1.viewshed@
    &&& a2.dances@ == a1.dances@
    &&& a2.confusion == a1.confusion
    &&& a2.is_player == a1.is_player
    &&& a2.wants_move == a1.wants_move
    &&& a2.wants_melee == a1.wants_melee
    &&& a2.wants_dance == a1.wants_dance
    &&& a2.effect_request == a1.effect_request
    &&& a2.awestruck == a1.awestruck
    &&& a2.suffer_damage@ == a1.suffer_damage@
    &&& a2.resting == a1.resting
    &&& a2.pos == a1.pos
    &&& a2.ai == a1.ai
    &&& a2.dancing == a1.dancing
}

/// The ledger event a sound request becomes.
pub open spec fn spec_noise_of(mn: MakeNoise) -> Noise {
    Noise {
        location: mn.location,
        volume: mn.volume,
        faction: mn.faction,
        surprising: mn.surprising,
        description: mn.description,
    }
}

/// The events a run of actors contributes to the ledger, in actor order.
pub open spec fn spec_collected(actors: Seq<Actor>) -> Seq<Noise>
    decreases actors.len(),
{
    if actors.len() == 0 {
        Seq::empty()
    } else {
        spec_collected(actors.drop_last()) + (match actors.last().make_noise {
            Some(mn) => seq![spec_noise_of(mn)],
            None => Seq::empty(),
        })
    }
}

/// Phase four, noise collection: drains every pending sound request onto
/// the turn's noise ledger, which grows by exactly those events in actor
/// order.
#[verifier::rlimit(100)]
pub fn noise_system(w: &mut World)
    requires
        old(w).wf(),
    ensures
        noise_system_rel(*old(w), *final(w)),
{
    let n = w.actors.len();
    let mut i: usize = 0;
    proof {
        assert(old(w).actors@.subrange(0, 0) =~= Seq::<Actor>::empty());
        assert(w.noises@ =~= old(w).noises@ + spec_collected(
            old(w).actors@.subrange(0, 0),
        ));
    }
    while i < n
        invariant
            w.wf(),
            n == w.actors@.len(),
            n == old(w).actors@.len(),
            w.grid == old(w).grid,
            w.player == old(w).player,
            i <= n,
            w.noises@ == old(w).noises@ + spec_collected(old(w).actors@.subrange(0, i as int)),
            forall|j: int| 0 <= j < i ==> (#[trigger] w.actors@[j]).make_noise is None,
            forall|j: int|
                0 <= j < n ==> noise_keeps(old(w).actors@[j], #[trigger] w.actors@[j]),
            forall|j: int| i <= j < n ==> #[trigger] w.actors@[j] == old(w).actors@[j],
        decreases n - i,
    {
        let has_noise = match &w.actors[i].make_noise {
            Some(_) => true,
            None => false,
        };
        proof {
            assert(old(w).actors@.subrange(0, i + 1).drop_last() =~= old(
                w,
            ).actors@.subrange(0, i as int));
            assert(old(w).actors@.subrange(0, i + 1).last() == old(w).actors@[i as int]);
        }
        if has_noise {
            let ghost pre = w.actors@;
            let mut a = w.actors.remove(i);
            let mn_opt = a.make_noise;
            a.make_noise = None;
            if let Some(mn) = mn_opt {
                w.noises.push(
                    Noise {
                        location: mn.location,
                        volume: mn.volume,
                        faction: mn.faction,
                        surprising: mn.surprising,
                        description: mn.description,
                    },
                );
            }
            w.actors.insert(i, a);
            proof {
                assert(w.actors@ =~= pre.update(i as int, a));
                assert(w.noises@ =~= old(w).noises@ + spec_collected(
                    old(w).actors@.subrange(0, i + 1),
                ));
            }
        } else {
            proof {
                assert(w.noises@ =~= old(w).noises@ + spec_collected(
                    old(w).actors@.subrange(0, i + 1),
                ));
            }
        }
        i = i + 1;
    }
    proof {
        assert(old(w).actors@.subrange(0, n as int) =~= old(w).actors@);
    }
}

/// Fields the confusion tick leaves alone, per actor.
pub open spec fn confusion_keeps(a1: Actor, a2: Actor) -> bool {
    &&& a2.health == a1.health
    &&& a2.stamina == a1.stamina
    &&& a2.poise == a1.poise
    &&& a2.faction == a1.faction
    &&& a2.power == a1.power
    &&& a2.defence == a1.defence
    &&& a2.viewshed@ == a1.viewshed@
    &&& a2.dances@ == a1.dances@
    &&& a2.is_player == a1.is_player
    &&& a2.wants_move == a1.wants_move
    &&& a2.wants_melee == a1.wants_melee
    &&& a2.wants_dance == a1.wants_dance
    &&& a2.effect_request == a1.effect_request
    &&& a2.awestruck == a1.awestruck
    &&& a2.suffer_damage@ == a1.suffer_damage@
    &&& a2.make_noise is Some == (a1.make_noise is Some)
    &&& a2.resting == a1.resting
    &&& a2.pos == a1.pos
    &&& a2.ai == a1.ai
    &&& a2.dancing == a1.dancing
}

/// What the confusion tick does to one actor: on its half of the round a
/// confused actor counts one turn down, and at zero the confusion lifts;
/// everyone else is untouched.
pub open spec fn confusion_ticked(a1: Actor, a2: Actor, run_state: RunState) -> bool {
    if on_side(a1, run_state) && a1.confusion is Some {
        a2.confusion == (if a1.confusion->Some_0 <= 1 {
            None
        } else {
            Some((a1.confusion->Some_0 - 1) as i32)
        })
    } else {
        a2 == a1
    }
}

/// Phase four, confusion tick: each confused actor on its half of the round
/// counts one turn down; at zero the confusion lifts.
#[verifier::rlimit(100)]
pub fn confusion_system(w: &mut World, run_state: RunState)
    requires
        old(w).wf(),
    ensures
        confusion_system_rel(*old(w), *final(w), run_state),
{
    let n = w.actors.len();
    let mut i: usize = 0;
    while i < n
        invariant
            w.wf(),
            n == w.actors@.len(),
            n == old(w).actors@.len(),
            w.grid == old(w).grid,
            w.player == old(w).player,
            forall|j: int|
                0 <= j < n ==> confusion_keeps(old(w).actors@[j], #[trigger] w.actors@[j]),
            forall|j: int|
                0 <= j < i ==> confusion_ticked(
                    old(w).actors@[j],
                    #[trigger] w.actors@[j],
                    run_state,
                ),
            forall|j: int| i <= j < n ==> #[trigger] w.actors@[j] == old(w).actors@[j],
        decreases n - i,
    {
        let included = match run_state {
            RunState::PlayerTurn => w.actors[i].is_player,
            RunState::MonsterTurn => !w.actors[i].is_player,
        };
        let confused = match &w.actors[i].confusion {
            Some(_) => true,
            None => false,
        };
        if included && confused {
            let ghost pre = w.actors@;
            let mut a = w.actors.remove(i);
            let t = match a.confusion {
                Some(t) => t,
                None => 0,
            };
            if t <= 1 {
                a.confusion = None;
            } else {
                a.confusion = Some(t - 1);
            }
            w.actors.insert(i, a);
            proof {
                assert(w.actors@ =~= pre.update(i as int, a));
            }
        }
        i = i + 1;
    }
}

/// The reports a run of ledger events adds to the player's log, in ledger
/// order: one line per surprising event audible at the listener's cell.
pub open spec fn spec_heard_reports(noises: Seq<Noise>, listener: Point) -> Seq<Seq<char>>
    decreases noises.len(),
{
    if noises.len() == 0 {
        Seq::empty()
    } else {
        spec_heard_reports(noises.drop_last(), listener) + ({
            let noise = noises.last();
            if noise.surprising && crate::noise::spec_can_hear(
                listener,
                noise.location,
                noise.volume,
            ) {
                seq!["You hear "@ + noise.description@ + "."@]
            } else {
                Seq::empty()
            }
        })
    }
}

/// Phase five, player hearing: every surprising audible noise on the
/// ledger is reported to the player's log, in ledger order, as a heard
/// sound; earlier log entries stay as they were.
pub fn player_listening_system(w: &mut World)
    requires
        old(w).wf(),
    ensures
        player_listening_system_rel(*old(w), *final(w)),
{
    let n = w.noises.len();
    let listener = w.actors[w.player].pos;
    let ghost base = old(w).log.entries@;
    let mut i: usize = 0;
    proof {
        assert(w.noises@.subrange(0, 0) =~= Seq::<Noise>::empty());
    }
    while i < n
        invariant
            w.wf(),
            w.actors@ == old(w).actors@,
            w.grid == old(w).grid,
            w.player == old(w).player,
            w.noises@ == old(w).noises@,
            n == w.noises@.len(),
            i <= n,
            base == old(w).log.entries@,
            listener == old(w).actors@[old(w).player as int].pos,
            w.log.entries@.len() == base.len() + spec_heard_reports(
                w.noises@.subrange(0, i as int),
                listener,
            ).len(),
            forall|k: int|
                0 <= k < base.len() ==> #[trigger] w.log.entries@[k] == base[k],
            forall|k: int|
                0 <= k < spec_heard_reports(w.noises@.subrange(0, i as int), listener).len()
                    ==> (w.log.entries@[base.len() + k])@ == #[trigger] spec_heard_reports(
                    w.noises@.subrange(0, i as int),
                    listener,
                )[k],
        decreases n - i,
    {
        proof {
            assert(w.noises@.subrange(0, i + 1).drop_last() =~= w.noises@.subrange(
                0,
                i as int,
            ));
            assert(w.noises@.subrange(0, i + 1).last() == w.noises@[i as int]);
        }
        let audible = {
            let noise = &w.noises[i];
            noise.surprising && crate::noise::can_hear(&listener, noise)
        };
        if audible {
            let message = String::from_str("You hear ").concat(
                w.noises[i].description.as_str(),
            ).concat(".");
            proof {
                reveal_strlit("You hear ");
                reveal_strlit(".");
                assert(message@ == "You hear "@ + w.noises@[i as int].description@ + "."@);
            }
            w.log.insert(message.as_str());
        }
        i = i + 1;
    }
    proof {
        assert(w.noises@.subrange(0, n as int) =~= w.noises@);
    }
}

/// Fields the noise-memory ingest leaves alone, per actor (the decision
/// record's remembered noise is what it updates).
pub open spec fn noise_track_keeps(a1: Actor, a2: Actor) -> bool {
    &&& a2.health == a1.health
    &&& a2.stamina == a1.stamina
    &&& a2.poise == a1.poise
    &&& a2.faction == a1.faction
    &&& a2.power == a1.power
    &&& a2.defence == a1.defence
    &&& a2.viewshed@ == a1.viewshed@
    &&& a2.dances@ == a1.dances@
    &&& a2.confusion == a1.confusion
    &&& a2.is_player == a1.is_player
    &&& a2.wants_move == a1.wants_move
    &&& a2.wants_melee == a1.wants_melee
    &&& a2.wants_dance == a1.wants_dance
    &&& a2.effect_request == a1.effect_request
    &&& a2.awestruck == a1.awestruck
    &&& a2.suffer_damage@ == a1.suffer_damage@
    &&& a2.make_noise is Some == (a1.make_noise is Some)
    &&& a2.resting == a1.resting
    &&& a2.pos == a1.pos
    &&& a2.dancing == a1.dancing
}

/// The memory one listener is left with after hearing a run of ledger
/// events in order, each applied by the memory rule.
pub open spec fn spec_memory_fold(
    last: Option<crate::noise::MonsterAINoiseRecord>,
    listener_pos: Point,
    listener_faction: Faction,
    noises: Seq<Noise>,
    turn: u32,
) -> Option<crate::noise::MonsterAINoiseRecord>
    decreases noises.len(),
{
    if noises.len() == 0 {
        last
    } else {
        let folded = spec_memory_fold(last, listener_pos, listener_faction, noises.drop_last(), turn);
        let noise = noises.last();
        if crate::noise::spec_notes_noise(
            folded,
            listener_pos,
            listener_faction,
            noise.location,
            noise.volume,
            noise.surprising,
            noise.faction,
            turn,
        ) {
            Some(
                crate::noise::MonsterAINoiseRecord {
                    turn,
                    volume: noise.volume,
                    surprising: noise.surprising,
                    location: noise.location,
                },
            )
        } else {
            folded
        }
    }
}

/// What the ingest leaves in each actor's record: a listening monster's
/// remembered noise is the fold of the whole ledger over its old memory;
/// anyone else is untouched.
pub open spec fn memory_ingested(
    a1: Actor,
    a2: Actor,
    noises: Seq<Noise>,
    turn: u32,
) -> bool {
    if !a1.is_player && a1.ai is Some {
        match (a1.ai, a2.ai) {
            (Some(ai1), Some(ai2)) => ai2.last_heard_noise == spec_memory_fold(
                ai1.last_heard_noise,
                a1.pos,
                a1.faction,
                noises,
                turn,
            ) && ai2.state == ai1.state && ai2.last_saw_enemy == ai1.last_saw_enemy
                && ai2.saw_enemy_last_turn == ai1.saw_enemy_last_turn,
            _ => false,
        }
    } else {
        a2 == a1
    }
}

/// Phase five, noise-memory ingest: every monster's decision record hears
/// the ledger, keeping the qualifying events by the memory rule (surprising
/// sounds displace freely; ordinary ones wait out a surprising memory's
/// cooldown; faction filters and audibility apply).
#[verifier::rlimit(100)]
pub fn monster_ai_noise_track_system(w: &mut World)
    requires
        old(w).wf(),
    ensures
        monster_ai_noise_track_system_rel(*old(w), *final(w)),
{
    let n = w.actors.len();
    let turn = w.turn;
    let mut i: usize = 0;
    while i < n
        invariant
            w.wf(),
            n == w.actors@.len(),
            n == old(w).actors@.len(),
            w.grid == old(w).grid,
            w.player == old(w).player,
            w.noises@ == old(w).noises@,
            w.turn == old(w).turn,
            turn == old(w).turn,
            forall|j: int|
                0 <= j < n ==> noise_track_keeps(old(w).actors@[j], #[trigger] w.actors@[j]),
            forall|j: int|
                0 <= j < i ==> memory_ingested(
                    old(w).actors@[j],
                    #[trigger] w.actors@[j],
                    old(w).noises@,
                    old(w).turn,
                ),
            forall|j: int| i <= j < n ==> #[trigger] w.actors@[j] == old(w).actors@[j],
        decreases n - i,
    {
        let listens = !w.actors[i].is_player && match &w.actors[i].ai {
            Some(_) => true,
            None => false,
        };
        if listens {
            let ghost pre = w.actors@;
            let mut a = w.actors.remove(i);
            let listener_pos = a.pos;
            let listener_faction = a.faction;
            let mut heard = match &a.ai {
                Some(ai) => ai.last_heard_noise,
                None => None,
            };
            let ghost heard0 = heard;
            let ghost g_snapshot = w.grid;
            let ghost noises_snapshot = w.noises@;
            let mut k: usize = 0;
            proof {
                assert(noises_snapshot.subrange(0, 0) =~= Seq::<Noise>::empty());
            }
            while k < w.noises.len()
                invariant
                    w.grid == g_snapshot,
                    w.noises@ == noises_snapshot,
                    k <= w.noises@.len(),
                    heard == spec_memory_fold(
                        heard0,
                        listener_pos,
                        listener_faction,
                        noises_snapshot.subrange(0, k as int),
                        turn,
                    ),
                    forall|t: int|
                        0 <= t < w.noises@.len() ==> w.grid.spec_point_valid(
                            (#[trigger] w.noises@[t]).location,
                        ),
                    match heard {
                        Some(nr) => w.grid.spec_point_valid(nr.location),
                        None => true,
                    },
                decreases w.noises@.len() - k,
            {
                proof {
                    assert(noises_snapshot.subrange(0, k + 1).drop_last()
                        =~= noises_snapshot.subrange(0, k as int));
                    assert(noises_snapshot.subrange(0, k + 1).last()
                        == noises_snapshot[k as int]);
                }
                crate::noise::note_noise(
                    &mut heard,
                    &listener_pos,
                    listener_faction,
                    &w.noises[k],
                    turn,
                );
                k = k + 1;
            }
            proof {
                assert(noises_snapshot.subrange(0, noises_snapshot.len() as int)
                    =~= noises_snapshot);
            }
            match &mut a.ai {
                Some(ai) => {
                    ai.last_heard_noise = heard;
                },
                None => {},
            }
            w.actors.insert(i, a);
            proof {
                assert(w.actors@ =~= pre.update(i as int, a));
            }
        }
        i = i + 1;
    }
}

/// Phase six, ledger cleanup: the turn's noise ledger is emptied; no noise
/// outlives the turn that produced it.
pub fn noise_cleanup_system(w: &mut World)
    requires
        old(w).wf(),
    ensures
        noise_cleanup_system_rel(*old(w), *final(w)),
{
    w.noises = Vec::new();
}

/// The contract of `monster_ai_system`, as a relation between the worlds
/// before and after it runs.
pub open spec fn monster_ai_system_rel(w1: World, w2: World, run_state: RunState) -> bool {
    &&& (w2.wf())
    &&& (w2.actors@.len() == w1.actors@.len())
    &&& (w2.grid == w1.grid)
    &&& (w2.player == w1.player)
    &&& (!(run_state is MonsterTurn) ==> w2 == w1)
    &&& (forall|i: int|
            0 <= i < w2.actors@.len() && !spec_ai_eligible(w1.actors@[i]) ==> (
            #[trigger] w2.actors@[i]) == w1.actors@[i])
    &&& (forall|i: int|
            0 <= i < w2.actors@.len() ==> ai_pass_keeps(
                w1.actors@[i],
                #[trigger] w2.actors@[i],
            ))
    &&& (run_state is MonsterTurn ==> w2.rng.state == spec_ai_stream_fold(
        w1.actors@,
        w1.actors@[w1.player as int].pos,
        w1.alarm_raised,
        spec_claims(w1.actors@),
        w1.grid,
        w1.rng.state,
    ))
    &&& (run_state is MonsterTurn ==> forall|i: int|
            0 <= i < w2.actors@.len() && spec_ai_eligible(w1.actors@[i])
                ==> (#[trigger] w2.actors@[i]).ai is Some && exists|action: Option<Action>|
                #[trigger] crate::ai::decision_rel(
                    w1.actors@[i].ai->Some_0,
                    w1.actors@[i].pos,
                    w1.actors@[i].health,
                    w1.actors@[i].stamina,
                    w1.actors@[i].poise,
                    w1.actors@[i].viewshed@,
                    w1.actors@[i].dances@,
                    w1.actors@[w1.player as int].pos,
                    w1.alarm_raised,
                    spec_claims(w1.actors@),
                    w1.grid,
                    spec_ai_stream_fold(
                        w1.actors@.subrange(0, i),
                        w1.actors@[w1.player as int].pos,
                        w1.alarm_raised,
                        spec_claims(w1.actors@),
                        w1.grid,
                        w1.rng.state,
                    ),
                    w2.actors@[i].ai->Some_0,
                    action,
                ) && intents_written(
                    w1.actors@[i],
                    w2.actors@[i],
                    action,
                    w1.player,
                ))
}

/// The contract of `dancing_movement_system`, as a relation between the worlds
/// before and after it runs.
pub open spec fn dancing_movement_system_rel(w1: World, w2: World, run_state: RunState) -> bool {
    &&& (w2.wf())
    &&& (w2.actors@.len() == w1.actors@.len())
    &&& (w2.grid == w1.grid)
    &&& (w2.player == w1.player)
    &&& (forall|i: int|
            0 <= i < w2.actors@.len() ==> dance_move_keeps(
                w1.actors@[i],
                #[trigger] w2.actors@[i],
            ))
    &&& (forall|i: int|
            0 <= i < w2.actors@.len() ==> dance_stepped(
                w1.grid,
                w1.actors@[i],
                #[trigger] w2.actors@[i],
                run_state,
            ))
}

/// The contract of `movement_system`, as a relation between the worlds
/// before and after it runs.
pub open spec fn movement_system_rel(w1: World, w2: World) -> bool {
    &&& (w2.wf())
    &&& (w2.actors@.len() == w1.actors@.len())
    &&& (w2.grid == w1.grid)
    &&& (w2.player == w1.player)
    &&& (forall|i: int|
            0 <= i < w2.actors@.len() ==> (#[trigger] w2.actors@[i]).wants_move
                is None)
    &&& (forall|i: int|
            0 <= i < w2.actors@.len() ==> movement_keeps(
                w1.actors@[i],
                #[trigger] w2.actors@[i],
            ))
    &&& (forall|i: int|
            0 <= i < w2.actors@.len() ==> movement_outcome(
                w1.grid,
                w1.actors@[i],
                #[trigger] w2.actors@[i],
            ))
}

/// The contract of `melee_combat_system`, as a relation between the worlds
/// before and after it runs.
pub open spec fn melee_combat_system_rel(w1: World, w2: World) -> bool {
    &&& (w2.wf())
    &&& (w2.actors@.len() == w1.actors@.len())
    &&& (w2.grid == w1.grid)
    &&& (w2.player == w1.player)
    &&& (w2.alarm_raised == (w1.alarm_raised || exists|i: int|
            0 <= i < w1.actors@.len() && (#[trigger] w1.actors@[i]).wants_melee
                is Some))
    &&& (forall|i: int|
            0 <= i < w2.actors@.len() ==> (#[trigger] w2.actors@[i]).wants_melee
                is None)
    &&& (forall|i: int|
            0 <= i < w2.actors@.len() ==> melee_keeps(
                w1.actors@[i],
                #[trigger] w2.actors@[i],
            ))
    &&& (forall|i: int|
            0 <= i < w2.actors@.len() ==> melee_attacker_applied(
                w1.actors@,
                i,
                #[trigger] w2.actors@[i],
            ))
    &&& (forall|v: int|
            0 <= v < w2.actors@.len() ==> (#[trigger] w2.actors@[v]).suffer_damage@
                == spec_melee_queue(
                w1.actors@,
                w1.actors@.len() as int,
                v,
                w1.actors@[v].defence as int,
                w1.actors@[v].suffer_damage@,
            ))
}

/// The contract of `damage_system`, as a relation between the worlds
/// before and after it runs.
pub open spec fn damage_system_rel(w1: World, w2: World) -> bool {
    &&& (w2.wf())
    &&& (w2.actors@.len() == w1.actors@.len())
    &&& (w2.grid.width == w1.grid.width)
    &&& (w2.grid.height == w1.grid.height)
    &&& (w2.grid.blocked == w1.grid.blocked)
    &&& (w2.grid.tiles == w1.grid.tiles)
    &&& (w2.player == w1.player)
    &&& (forall|i: int|
            0 <= i < w2.actors@.len() ==> (
            #[trigger] w2.actors@[i]).suffer_damage@.len() == 0)
    &&& (forall|i: int|
            0 <= i < w2.actors@.len() && w1.actors@[i].suffer_damage@.len() > 0
                ==> w2.grid.stains@[w2.grid.spec_idx(
                (#[trigger] w2.actors@[i]).pos.x as int,
                w2.actors@[i].pos.y as int,
            )].blood)
    &&& (forall|i: int|
            0 <= i < w2.actors@.len() ==> damage_keeps(
                w1.actors@[i],
                #[trigger] w2.actors@[i],
            ))
    &&& (forall|i: int|
            0 <= i < w2.actors@.len() ==> damage_applied(
                w1.actors@[i],
                #[trigger] w2.actors@[i],
            ))
}

/// The contract of `effects_system`, as a relation between the worlds
/// before and after it runs.
pub open spec fn effects_system_rel(w1: World, w2: World) -> bool {
    &&& (w2.wf())
    &&& (w2.actors@.len() == w1.actors@.len())
    &&& (w2.grid == w1.grid)
    &&& (w2.player == w1.player)
    &&& (forall|i: int|
            0 <= i < w2.actors@.len() ==> (#[trigger] w2.actors@[i]).effect_request
                is None)
    &&& (forall|i: int|
            0 <= i < w2.actors@.len() ==> effects_keeps(
                w1.actors@[i],
                #[trigger] w2.actors@[i],
            ))
    &&& (forall|i: int|
            0 <= i < w2.actors@.len() ==> effects_self_poise(
                w1.actors@[i],
                #[trigger] w2.actors@[i],
            ))
    &&& (forall|t: int|
            0 <= t < w2.actors@.len() ==> (#[trigger] w2.actors@[t]).awestruck
                == spec_awe_fold(w1.actors@, w1.actors@[t], w1.actors@[t].awestruck))
}

/// The contract of `awesomeness_system`, as a relation between the worlds
/// before and after it runs.
pub open spec fn awesomeness_system_rel(w1: World, w2: World) -> bool {
    &&& (w2.wf())
    &&& (w2.actors@.len() == w1.actors@.len())
    &&& (w2.grid == w1.grid)
    &&& (w2.player == w1.player)
    &&& (forall|i: int|
            0 <= i < w2.actors@.len() ==> (#[trigger] w2.actors@[i]).awestruck
                is None)
    &&& (forall|i: int|
            0 <= i < w2.actors@.len() ==> awe_keeps(
                w1.actors@[i],
                #[trigger] w2.actors@[i],
            ))
    &&& (forall|i: int|
            0 <= i < w2.actors@.len() ==> awe_applied(
                w1.actors@[i],
                #[trigger] w2.actors@[i],
            ))
}

/// The contract of `start_dancing_system`, as a relation between the worlds
/// before and after it runs.
pub open spec fn start_dancing_system_rel(w1: World, w2: World) -> bool {
    &&& (w2.wf())
    &&& (w2.actors@.len() == w1.actors@.len())
    &&& (w2.grid == w1.grid)
    &&& (w2.player == w1.player)
    &&& (forall|i: int|
            0 <= i < w2.actors@.len() ==> (#[trigger] w2.actors@[i]).wants_dance
                is None)
    &&& (forall|i: int|
            0 <= i < w2.actors@.len() ==> start_dance_keeps(
                w1.actors@[i],
                #[trigger] w2.actors@[i],
            ))
    &&& (forall|i: int|
            0 <= i < w2.actors@.len() ==> dance_started(
                w1.grid,
                w1.actors@[i],
                #[trigger] w2.actors@[i],
            ))
}

/// The contract of `recovery_system`, as a relation between the worlds
/// before and after it runs.
pub open spec fn recovery_system_rel(w1: World, w2: World, run_state: RunState) -> bool {
    &&& (w2.wf())
    &&& (w2.actors@.len() == w1.actors@.len())
    &&& (w2.grid == w1.grid)
    &&& (w2.player == w1.player)
    &&& (w2.turn == w1.turn)
    &&& (forall|i: int|
            0 <= i < w2.actors@.len() && on_side(w1.actors@[i], run_state) ==> !(
            #[trigger] w2.actors@[i]).resting)
    &&& (forall|i: int|
            0 <= i < w2.actors@.len() ==> recovery_keeps(
                w1.actors@[i],
                #[trigger] w2.actors@[i],
            ))
    &&& (forall|i: int|
            0 <= i < w2.actors@.len() ==> recovery_applied(
                w1.actors@[i],
                #[trigger] w2.actors@[i],
                run_state,
                w1.turn,
            ))
}

/// The contract of `noise_system`, as a relation between the worlds
/// before and after it runs.
pub open spec fn noise_system_rel(w1: World, w2: World) -> bool {
    &&& (w2.wf())
    &&& (w2.actors@.len() == w1.actors@.len())
    &&& (w2.grid == w1.grid)
    &&& (w2.player == w1.player)
    &&& (w2.noises@ == w1.noises@ + spec_collected(w1.actors@))
    &&& (forall|i: int|
            0 <= i < w2.actors@.len() ==> (#[trigger] w2.actors@[i]).make_noise
                is None)
    &&& (forall|i: int|
            0 <= i < w2.actors@.len() ==> noise_keeps(
                w1.actors@[i],
                #[trigger] w2.actors@[i],
            ))
}

/// The contract of `confusion_system`, as a relation between the worlds
/// before and after it runs.
pub open spec fn confusion_system_rel(w1: World, w2: World, run_state: RunState) -> bool {
    &&& (w2.wf())
    &&& (w2.actors@.len() == w1.actors@.len())
    &&& (w2.grid == w1.grid)
    &&& (w2.player == w1.player)
    &&& (forall|i: int|
            0 <= i < w2.actors@.len() ==> confusion_keeps(
                w1.actors@[i],
                #[trigger] w2.actors@[i],
            ))
    &&& (forall|i: int|
            0 <= i < w2.actors@.len() ==> confusion_ticked(
                w1.actors@[i],
                #[trigger] w2.actors@[i],
                run_state,
            ))
}

/// The contract of `dancing_status_system`, as a relation between the worlds
/// before and after it runs.
pub open spec fn dancing_status_system_rel(w1: World, w2: World) -> bool {
    &&& (w2.wf())
    &&& (w2.actors@.len() == w1.actors@.len())
    &&& (w2.grid == w1.grid)
    &&& (w2.player == w1.player)
    &&& (forall|i: int|
            0 <= i < w2.actors@.len() ==> dance_status_keeps(
                w1.actors@[i],
                #[trigger] w2.actors@[i],
            ))
    &&& (forall|i: int|
            0 <= i < w2.actors@.len() ==> dance_status_checked(
                w1.actors@[i],
                #[trigger] w2.actors@[i],
            ))
}

/// The contract of `player_listening_system`, as a relation between the worlds
/// before and after it runs.
pub open spec fn player_listening_system_rel(w1: World, w2: World) -> bool {
    &&& (w2.wf())
    &&& (w2.actors@ == w1.actors@)
    &&& (w2.grid == w1.grid)
    &&& (w2.player == w1.player)
    &&& (w2.noises@ == w1.noises@)
    &&& (w2.log.entries@.len() == w1.log.entries@.len() + spec_heard_reports(
            w1.noises@,
            w1.actors@[w1.player as int].pos,
        ).len())
    &&& (forall|k: int|
            0 <= k < w1.log.entries@.len() ==> #[trigger] w2.log.entries@[k] == w1.log.entries@[k])
    &&& (forall|k: int|
            0 <= k < spec_heard_reports(
                w1.noises@,
                w1.actors@[w1.player as int].pos,
            ).len() ==> (w2.log.entries@[w1.log.entries@.len() + k])@
                == #[trigger] spec_heard_reports(
                w1.noises@,
                w1.actors@[w1.player as int].pos,
            )[k])
}

/// The contract of `monster_ai_noise_track_system`, as a relation between the worlds
/// before and after it runs.
pub open spec fn monster_ai_noise_track_system_rel(w1: World, w2: World) -> bool {
    &&& (w2.wf())
    &&& (w2.actors@.len() == w1.actors@.len())
    &&& (w2.grid == w1.grid)
    &&& (w2.player == w1.player)
    &&& (w2.noises@ == w1.noises@)
    &&& (w2.turn == w1.turn)
    &&& (forall|i: int|
            0 <= i < w2.actors@.len() ==> noise_track_keeps(
                w1.actors@[i],
                #[trigger] w2.actors@[i],
            ))
    &&& (forall|i: int|
            0 <= i < w2.actors@.len() ==> memory_ingested(
                w1.actors@[i],
                #[trigger] w2.actors@[i],
                w1.noises@,
                w1.turn,
            ))
}

/// The contract of `noise_cleanup_system`, as a relation between the worlds
/// before and after it runs.
pub open spec fn noise_cleanup_system_rel(w1: World, w2: World) -> bool {
    &&& (w2.wf())
    &&& (w2.actors@ == w1.actors@)
    &&& (w2.grid == w1.grid)
    &&& (w2.player == w1.player)
    &&& (w2.noises@.len() == 0)
}

/// Runs one half-round of the staged pipeline, in phase order with every
/// barrier respected: the decision pass alone; the dance-step advance
/// alone; the bulk resolution systems (movement, melee, damage, effects,
/// awe, dance activation, recovery); the perception systems that must see
/// final positions (noise collection, confusion tick); their consumers
/// (dance status, player hearing, noise-memory ingest); and cleanup.
///
/// Its contract is the pipeline's drain guarantee — at the turn boundary
/// every single-turn intent buffer is empty again, the noise ledger is
/// clear, and the rest markers of this half's actors are consumed — and
/// the whole composition: a chain of intermediate worlds joins the turn's
/// start to its end, each link obeying its system's full relation, in the
/// schedule's order.
#[verifier::rlimit(100)]
pub fn run_turn(w: &mut World, run_state: RunState)
    requires
        old(w).wf(),
        old(w).intents_clear(),
    ensures
        final(w).wf(),
        final(w).intents_clear(),
        final(w).noises@.len() == 0,
        final(w).actors@.len() == old(w).actors@.len(),
        final(w).grid.width == old(w).grid.width,
        final(w).grid.height == old(w).grid.height,
        forall|i: int|
            0 <= i < final(w).actors@.len() && on_side(old(w).actors@[i], run_state) ==> !(
            #[trigger] final(w).actors@[i]).resting,
        exists|ws: Seq<World>|
            ws.len() == 14 && #[trigger] monster_ai_system_rel(*old(w), ws[0], run_state)
                && dancing_movement_system_rel(ws[0], ws[1], run_state) && movement_system_rel(
                ws[1],
                ws[2],
            ) && melee_combat_system_rel(ws[2], ws[3]) && damage_system_rel(ws[3], ws[4])
                && effects_system_rel(ws[4], ws[5]) && awesomeness_system_rel(ws[5], ws[6])
                && start_dancing_system_rel(ws[6], ws[7]) && recovery_system_rel(
                ws[7],
                ws[8],
                run_state,
            ) && noise_system_rel(ws[8], ws[9]) && confusion_system_rel(
                ws[9],
                ws[10],
                run_state,
            ) && dancing_status_system_rel(ws[10], ws[11]) && player_listening_system_rel(
                ws[11],
                ws[12],
            ) && monster_ai_noise_track_system_rel(ws[12], ws[13])
                && noise_cleanup_system_rel(ws[13], *final(w)),
{
    monster_ai_system(w, run_state);
    let ghost w1 = *w;
    dancing_movement_system(w, run_state);
    let ghost w2 = *w;
    movement_system(w);
    let ghost w3 = *w;
    melee_combat_system(w);
    let ghost w4 = *w;
    damage_system(w);
    let ghost w5 = *w;
    effects_system(w);
    let ghost w6 = *w;
    awesomeness_system(w);
    let ghost w7 = *w;
    start_dancing_system(w);
    let ghost w8 = *w;
    recovery_system(w, run_state);
    let ghost w9 = *w;
    noise_system(w);
    let ghost w10 = *w;
    confusion_system(w, run_state);
    let ghost w11 = *w;
    dancing_status_system(w);
    let ghost w12 = *w;
    player_listening_system(w);
    let ghost w13 = *w;
    monster_ai_noise_track_system(w);
    let ghost w14 = *w;
    noise_cleanup_system(w);
    proof {
        let ws = seq![w1, w2, w3, w4, w5, w6, w7, w8, w9, w10, w11, w12, w13, w14];
        assert(ws.len() == 14);
        assert(monster_ai_system_rel(*old(w), ws[0], run_state));
        assert(dancing_movement_system_rel(ws[0], ws[1], run_state));
        assert(movement_system_rel(ws[1], ws[2]));
        assert(melee_combat_system_rel(ws[2], ws[3]));
        assert(damage_system_rel(ws[3], ws[4]));
        assert(effects_system_rel(ws[4], ws[5]));
        assert(awesomeness_system_rel(ws[5], ws[6]));
        assert(start_dancing_system_rel(ws[6], ws[7]));
        assert(recovery_system_rel(ws[7], ws[8], run_state));
        assert(noise_system_rel(ws[8], ws[9]));
        assert(confusion_system_rel(ws[9], ws[10], run_state));
        assert(dancing_status_system_rel(ws[10], ws[11]));
        assert(player_listening_system_rel(ws[11], ws[12]));
        assert(monster_ai_noise_track_system_rel(ws[12], ws[13]));
        assert(noise_cleanup_system_rel(ws[13], *w));
    }
}

/// Advances the turn counter.
pub fn next_turn(w: &mut World)
    requires
        old(w).turn < 0xFFFF_FFFF,
    ensures
        final(w).turn == old(w).turn + 1,
        final(w).actors@ == old(w).actors@,
        final(w).grid == old(w).grid,
        final(w).player == old(w).player,
        final(w).noises@ == old(w).noises@,
{
    w.turn = w.turn + 1;
}

} // verus!
