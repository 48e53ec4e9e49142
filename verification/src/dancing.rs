//! Dances: fixed step sequences with optional attached effects, the dance
//! envelope, and the search for a safe starting site.

use vstd::prelude::*;
use crate::grid::{Grid, Point};
use crate::rng::{Rng, spec_advance, spec_range};

verus! {

/// A secondary effect attached to a dance step.
#[derive(Clone, Copy, PartialEq, Eq, Structural, Debug)]
pub enum Effect {
    /// Rivals who can see the dancer lose this much poise.
    Awesomeness { poise: i32 },
    /// The dancer regains this much poise.
    SelfPoise { poise: i32 },
}

/// One step of a dance: a relative move and an optional effect fired on
/// completing it.
#[derive(Clone, Copy, PartialEq, Eq, Structural, Debug)]
pub struct Step {
    pub direction: Point,
    pub effect: Option<Effect>,
}

/// The dances an actor can know.
#[derive(Clone, Copy, PartialEq, Eq, Structural, Debug)]
pub enum Dance {
    HOP,
    JITTER,
    CIRCLE,
}

pub open spec fn spec_step(dx: int, dy: int, effect: Option<Effect>) -> Step {
    Step { direction: Point { x: dx as i32, y: dy as i32 }, effect }
}

impl Dance {
    /// The fixed step sequence of each dance.
    pub open spec fn spec_steps(self) -> Seq<Step> {
        match self {
            Dance::HOP => seq![
                spec_step(-1, 0, None),
                spec_step(1, 0, Some(Effect::Awesomeness { poise: 1 })),
            ],
            Dance::JITTER => seq![
                spec_step(-1, 0, None),
                spec_step(1, 0, Some(Effect::Awesomeness { poise: 1 })),
                spec_step(0, -1, None),
                spec_step(0, 1, Some(Effect::Awesomeness { poise: 1 })),
                spec_step(1, 0, None),
                spec_step(-1, 0, Some(Effect::Awesomeness { poise: 1 })),
                spec_step(0, 1, None),
                spec_step(0, -1, Some(Effect::SelfPoise { poise: 2 })),
            ],
            Dance::CIRCLE => seq![
                spec_step(1, 0, Some(Effect::Awesomeness { poise: 1 })),
                spec_step(0, 1, Some(Effect::Awesomeness { poise: 1 })),
                spec_step(-1, 0, Some(Effect::Awesomeness { poise: 2 })),
                spec_step(0, -1, Some(Effect::SelfPoise { poise: 4 })),
            ],
        }
    }

    /// The dance's display name.
    pub fn name(&self) -> (r: String)
        ensures
            self is HOP ==> r@ == "hop"@,
            self is JITTER ==> r@ == "jitter"@,
            self is CIRCLE ==> r@ == "circle"@,
    {
        match self {
            Dance::HOP => String::from_str("hop"),
            Dance::JITTER => String::from_str("jitter"),
            Dance::CIRCLE => String::from_str("circle"),
        }
    }

    /// Builds the step sequence.
    pub fn steps(&self) -> (r: Vec<Step>)
        ensures
            r@ == self.spec_steps(),
    {
        let mut v: Vec<Step> = Vec::new();
        match self {
            Dance::HOP => {
                v.push(Step { direction: Point { x: -1, y: 0 }, effect: None });
                v.push(
                    Step {
                        direction: Point { x: 1, y: 0 },
                        effect: Some(Effect::Awesomeness { poise: 1 }),
                    },
                );
            },
            Dance::JITTER => {
                v.push(Step { direction: Point { x: -1, y: 0 }, effect: None });
                v.push(
                    Step {
                        direction: Point { x: 1, y: 0 },
                        effect: Some(Effect::Awesomeness { poise: 1 }),
                    },
                );
                v.push(Step { direction: Point { x: 0, y: -1 }, effect: None });
                v.push(
                    Step {
                        direction: Point { x: 0, y: 1 },
                        effect: Some(Effect::Awesomeness { poise: 1 }),
                    },
                );
                v.push(Step { direction: Point { x: 1, y: 0 }, effect: None });
                v.push(
                    Step {
                        direction: Point { x: -1, y: 0 },
                        effect: Some(Effect::Awesomeness { poise: 1 }),
                    },
                );
                v.push(Step { direction: Point { x: 0, y: 1 }, effect: None });
                v.push(
                    Step {
                        direction: Point { x: 0, y: -1 },
                        effect: Some(Effect::SelfPoise { poise: 2 }),
                    },
                );
            },
            Dance::CIRCLE => {
                v.push(
                    Step {
                        direction: Point { x: 1, y: 0 },
                        effect: Some(Effect::Awesomeness { poise: 1 }),
                    },
                );
                v.push(
                    Step {
                        direction: Point { x: 0, y: 1 },
                        effect: Some(Effect::Awesomeness { poise: 1 }),
                    },
                );
                v.push(
                    Step {
                        direction: Point { x: -1, y: 0 },
                        effect: Some(Effect::Awesomeness { poise: 2 }),
                    },
                );
                v.push(
                    Step {
                        direction: Point { x: 0, y: -1 },
                        effect: Some(Effect::SelfPoise { poise: 4 }),
                    },
                );
            },
        }
        proof {
            assert(v@ =~= self.spec_steps());
        }
        v
    }
}

/// An in-progress dance owned by one actor: the claimed envelope, the
/// expected position after the last commanded step, the step cursor and how
/// many repetitions remain.
pub struct Dancing {
    pub dance: Dance,
    pub range: Vec<Point>,
    pub expect_pos: Point,
    pub steps: Vec<Step>,
    pub step_idx: u32,
    pub repetitions: u32,
}

impl Dancing {
    /// The cursor never runs past the step sequence, the sequence is short,
    /// and every step is a single king-move.
    pub open spec fn wf(self) -> bool {
        &&& 1 <= self.steps@.len() <= 0xFFFF
        &&& self.step_idx <= self.steps@.len()
        &&& forall|i: int|
            0 <= i < self.steps@.len() ==> -1 <= (#[trigger] self.steps@[i]).direction.x <= 1
                && -1 <= self.steps@[i].direction.y <= 1
    }
}

/// Every dance's step sequence is short and moves one king-move at a time.
pub proof fn lemma_dance_steps_wf(dance: Dance)
    ensures
        1 <= dance.spec_steps().len() <= 0xFFFF,
        forall|i: int|
            0 <= i < dance.spec_steps().len() ==> -1 <= (
            #[trigger] dance.spec_steps()[i]).direction.x <= 1 && -1
                <= dance.spec_steps()[i].direction.y <= 1,
{
    match dance {
        Dance::HOP => {
            assert forall|i: int| 0 <= i < dance.spec_steps().len() implies -1 <= (
            #[trigger] dance.spec_steps()[i]).direction.x <= 1 && -1
                <= dance.spec_steps()[i].direction.y <= 1 by {
                if i == 0 {
                } else if i == 1 {
                }
            }
        },
        Dance::JITTER => {
            assert forall|i: int| 0 <= i < dance.spec_steps().len() implies -1 <= (
            #[trigger] dance.spec_steps()[i]).direction.x <= 1 && -1
                <= dance.spec_steps()[i].direction.y <= 1 by {
                assert(dance.spec_steps().len() == 8);
            }
        },
        Dance::CIRCLE => {
            assert forall|i: int| 0 <= i < dance.spec_steps().len() implies -1 <= (
            #[trigger] dance.spec_steps()[i]).direction.x <= 1 && -1
                <= dance.spec_steps()[i].direction.y <= 1 by {
                assert(dance.spec_steps().len() == 4);
            }
        },
    }
}

/// The claimed envelopes as a sequence of cell sequences.
pub open spec fn claims_view(claims: Seq<Vec<Point>>) -> Seq<Seq<Point>> {
    Seq::new(claims.len(), |i: int| claims[i]@)
}

/// Whether any in-progress dancer has claimed the cell.
pub open spec fn spec_claimed(claims: Seq<Seq<Point>>, p: Point) -> bool {
    exists|i: int| 0 <= i < claims.len() && claims[i].contains(p)
}

/// Tests a cell against every claimed envelope.
fn cell_claimed(claims: &Vec<Vec<Point>>, p: &Point) -> (r: bool)
    ensures
        r == spec_claimed(claims_view(claims@), *p),
{
    let mut i: usize = 0;
    while i < claims.len()
        invariant
            i <= claims.len(),
            forall|a: int| 0 <= a < i ==> !claims_view(claims@)[a].contains(*p),
        decreases claims.len() - i,
    {
        let claim = &claims[i];
        let mut j: usize = 0;
        while j < claim.len()
            invariant
                j <= claim.len(),
                claim == claims[i as int],
                i < claims.len(),
                forall|b: int| 0 <= b < j ==> claim@[b] != *p,
            decreases claim.len() - j,
        {
            if claim[j].x == p.x && claim[j].y == p.y {
                proof {
                    assert(claims_view(claims@)[i as int] == claim@);
                    assert(claims_view(claims@)[i as int].contains(*p));
                }
                return true;
            }
            j = j + 1;
        }
        proof {
            assert(claims_view(claims@)[i as int] == claim@);
            assert(forall|b: int|
                0 <= b < claim@.len() ==> claims_view(claims@)[i as int][b] != *p);
            assert(!claims_view(claims@)[i as int].contains(*p));
        }
        i = i + 1;
    }
    proof {
        assert(!spec_claimed(claims_view(claims@), *p));
    }
    false
}

/// The walk of a candidate dance from `at`: every position reached by the
/// remaining steps stays on the grid, is unblocked (unless it is the start
/// cell itself), and lies in no other dancer's claimed envelope.
pub open spec fn spec_good_walk(
    g: Grid,
    start: Point,
    at: Point,
    steps: Seq<Step>,
    claims: Seq<Seq<Point>>,
) -> bool
    decreases steps.len(),
{
    if steps.len() == 0 {
        true
    } else {
        let nx = at.x + steps[0].direction.x;
        let ny = at.y + steps[0].direction.y;
        &&& 0 <= nx < g.width
        &&& 0 <= ny < g.height
        &&& {
            let np = Point { x: nx as i32, y: ny as i32 };
            &&& (np == start || !g.spec_blocked_at(np))
            &&& !spec_claimed(claims, np)
            &&& spec_good_walk(g, start, np, steps.drop_first(), claims)
        }
    }
}

/// A good starting site: the start cell is on the grid and unclaimed, and
/// the whole walk from it stays good.
#[verifier::opaque]
pub open spec fn spec_good_start(
    g: Grid,
    start: Point,
    steps: Seq<Step>,
    claims: Seq<Seq<Point>>,
) -> bool {
    &&& g.spec_point_valid(start)
    &&& !spec_claimed(claims, start)
    &&& spec_good_walk(g, start, start, steps, claims)
}

/// Decides whether a dance may start at `start` without leaving the grid,
/// crossing a blocked cell, or entering another dancer's claimed envelope.
pub fn is_good_start_position(
    start: &Point,
    dance: &Dance,
    g: &Grid,
    claims: &Vec<Vec<Point>>,
) -> (r: bool)
    requires
        g.wf(),
    ensures
        r == spec_good_start(*g, *start, dance.spec_steps(), claims_view(claims@)),
{
    proof {
        reveal(spec_good_start);
    }
    if !g.point_valid(start) {
        return false;
    }
    if cell_claimed(claims, start) {
        return false;
    }
    let steps = dance.steps();
    let mut at: Point = *start;
    let mut k: usize = 0;
    proof {
        assert(steps@.skip(0) =~= steps@);
    }
    while k < steps.len()
        invariant
            g.wf(),
            steps@ == dance.spec_steps(),
            k <= steps.len(),
            g.spec_point_valid(at),
            spec_good_walk(*g, *start, *start, steps@, claims_view(claims@))
                == spec_good_walk(*g, *start, at, steps@.skip(k as int), claims_view(claims@)),
        decreases steps.len() - k,
    {
        let step = &steps[k];
        let nx: i64 = at.x as i64 + step.direction.x as i64;
        let ny: i64 = at.y as i64 + step.direction.y as i64;
        proof {
            assert(steps@.skip(k as int)[0] == steps@[k as int]);
            assert(steps@.skip(k as int).drop_first() =~= steps@.skip(k as int + 1));
        }
        if nx < 0 || nx >= g.width as i64 || ny < 0 || ny >= g.height as i64 {
            proof {
                reveal(spec_good_start);
            }
            return false;
        }
        let np = Point { x: nx as i32, y: ny as i32 };
        if !(np.x == start.x && np.y == start.y) && g.blocked_at(&np) {
            proof {
                reveal(spec_good_start);
            }
            return false;
        }
        if cell_claimed(claims, &np) {
            proof {
                reveal(spec_good_start);
            }
            return false;
        }
        at = np;
        k = k + 1;
    }
    proof {
        reveal(spec_good_start);
        assert(steps@.skip(steps@.len() as int) =~= Seq::<Step>::empty());
    }
    true
}

/// How many random sites a dance-spot search draws before giving up.
pub const DANCE_SITE_TRIES: u32 = 10;

/// The random part of the site search, as a function of the generator state:
/// the drawn site of each try and the state it leaves behind.
pub open spec fn spec_spot_search(
    g: Grid,
    range: Seq<Point>,
    steps: Seq<Step>,
    claims: Seq<Seq<Point>>,
    s: u64,
    tries: nat,
) -> (Option<Point>, u64)
    decreases tries,
{
    if range.len() == 0 {
        (None, s)
    } else if tries == 0 {
        (None, s)
    } else {
        let i = spec_range(s, range.len() as u64) as int;
        let s2 = spec_advance(s);
        let pos = range[i];
        if spec_good_start(g, pos, steps, claims) {
            (Some(pos), s2)
        } else {
            spec_spot_search(g, range, steps, claims, s2, (tries - 1) as nat)
        }
    }
}

/// The whole site search: the actor's current cell first, then up to
/// `DANCE_SITE_TRIES` random draws from the visible range.
pub open spec fn spec_look_for_spot(
    g: Grid,
    current: Point,
    range: Seq<Point>,
    steps: Seq<Step>,
    claims: Seq<Seq<Point>>,
    s: u64,
) -> (Option<Point>, u64) {
    if spec_good_start(g, current, steps, claims) {
        (Some(current), s)
    } else {
        spec_spot_search(g, range, steps, claims, s, DANCE_SITE_TRIES as nat)
    }
}

/// One unfolding of the random site search.
proof fn lemma_spot_search_step(
    g: Grid,
    range: Seq<Point>,
    steps: Seq<Step>,
    claims: Seq<Seq<Point>>,
    s: u64,
    tries: nat,
)
    requires
        range.len() > 0,
        tries > 0,
    ensures
        spec_spot_search(g, range, steps, claims, s, tries) == {
            let pos = range[spec_range(s, range.len() as u64) as int];
            if spec_good_start(g, pos, steps, claims) {
                (Some(pos), spec_advance(s))
            } else {
                spec_spot_search(g, range, steps, claims, spec_advance(s), (tries - 1) as nat)
            }
        },
{
}

/// Searches for a site where the dance can start: the current cell first,
/// then random visible cells. Every returned site satisfies the full site
/// rule, and the draws are pinned to the generator state.
#[verifier::rlimit(100)]
#[verifier::spinoff_prover]
pub fn look_for_dance_spot(
    current_pos: &Point,
    range: &Vec<Point>,
    dance: &Dance,
    g: &Grid,
    claims: &Vec<Vec<Point>>,
    rng: &mut Rng,
) -> (r: Option<Point>)
    requires
        g.wf(),
    ensures
        (r, final(rng).state) == spec_look_for_spot(
            *g,
            *current_pos,
            range@,
            dance.spec_steps(),
            claims_view(claims@),
            old(rng).state,
        ),
        match r {
            Some(p) => spec_good_start(*g, p, dance.spec_steps(), claims_view(claims@)),
            None => true,
        },
{
    if is_good_start_position(current_pos, dance, g, claims) {
        return Some(*current_pos);
    }
    if range.len() == 0 {
        proof {
            assert(spec_spot_search(
                *g,
                range@,
                dance.spec_steps(),
                claims_view(claims@),
                rng.state,
                DANCE_SITE_TRIES as nat,
            ) == (None::<Point>, rng.state));
        }
        return None;
    }
    let mut t: u32 = 0;
    while t < DANCE_SITE_TRIES
        invariant
            g.wf(),
            range.len() > 0,
            t <= DANCE_SITE_TRIES,
            !spec_good_start(*g, *current_pos, dance.spec_steps(), claims_view(claims@)),
            spec_spot_search(
                *g,
                range@,
                dance.spec_steps(),
                claims_view(claims@),
                old(rng).state,
                DANCE_SITE_TRIES as nat,
            ) == spec_spot_search(
                *g,
                range@,
                dance.spec_steps(),
                claims_view(claims@),
                rng.state,
                (DANCE_SITE_TRIES - t) as nat,
            ),
        decreases DANCE_SITE_TRIES - t,
    {
        let ghost s_before = rng.state;
        let i = rng.range_usize(range.len());
        let pos = range[i];
        proof {
            lemma_spot_search_step(
                *g,
                range@,
                dance.spec_steps(),
                claims_view(claims@),
                s_before,
                (DANCE_SITE_TRIES - t) as nat,
            );
        }
        if is_good_start_position(&pos, dance, g, claims) {
            return Some(pos);
        }
        t = t + 1;
    }
    proof {
        assert(spec_spot_search(
            *g,
            range@,
            dance.spec_steps(),
            claims_view(claims@),
            rng.state,
            0nat,
        ) == (None::<Point>, rng.state));
    }
    None
}

} // verus!
