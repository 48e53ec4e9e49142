//! The declarative shape of the turn pipeline: the ordered phase list with
//! its barriers, which system owns which intent buffer, and the wiring laws
//! — every buffer has exactly one consumer, and every producer runs before
//! it.
//!
//! `crate::world::run_turn` executes exactly this schedule; this module
//! states the schedule as data so the wiring can be checked once and read
//! at a glance.

use vstd::prelude::*;

verus! {

/// The systems the turn pipeline schedules, in their roles.
#[derive(Clone, Copy, PartialEq, Eq, Structural, Debug)]
pub enum SystemId {
    MonsterAi,
    DancingMovement,
    Movement,
    MeleeCombat,
    Damage,
    Effects,
    Awesomeness,
    StartDancing,
    Recovery,
    NoiseCollect,
    Confusion,
    DancingStatus,
    PlayerListening,
    NoiseMemory,
    NoiseCleanup,
}

/// The single-turn buffers the systems communicate through.
#[derive(Clone, Copy, PartialEq, Eq, Structural, Debug)]
pub enum BufferId {
    MoveIntents,
    MeleeIntents,
    DanceRequests,
    EffectRequests,
    AweStrikes,
    DamageQueues,
    NoiseRequests,
    NoiseLedger,
    RestMarkers,
}

/// Which phase a system runs in, counted from zero: the decision pass
/// alone; the dance-step advance alone; the bulk resolvers; perception;
/// perception's consumers; cleanup.
pub open spec fn phase_of(s: SystemId) -> int {
    match s {
        SystemId::MonsterAi => 0,
        SystemId::DancingMovement => 1,
        SystemId::Movement => 2,
        SystemId::MeleeCombat => 2,
        SystemId::Damage => 2,
        SystemId::Effects => 2,
        SystemId::Awesomeness => 2,
        SystemId::StartDancing => 2,
        SystemId::Recovery => 2,
        SystemId::NoiseCollect => 3,
        SystemId::Confusion => 3,
        SystemId::DancingStatus => 4,
        SystemId::PlayerListening => 4,
        SystemId::NoiseMemory => 4,
        SystemId::NoiseCleanup => 5,
    }
}

/// A system's position in the sequential execution order.
pub open spec fn rank_of(s: SystemId) -> int {
    match s {
        SystemId::MonsterAi => 0,
        SystemId::DancingMovement => 1,
        SystemId::Movement => 2,
        SystemId::MeleeCombat => 3,
        SystemId::Damage => 4,
        SystemId::Effects => 5,
        SystemId::Awesomeness => 6,
        SystemId::StartDancing => 7,
        SystemId::Recovery => 8,
        SystemId::NoiseCollect => 9,
        SystemId::Confusion => 10,
        SystemId::DancingStatus => 11,
        SystemId::PlayerListening => 12,
        SystemId::NoiseMemory => 13,
        SystemId::NoiseCleanup => 14,
    }
}

/// Which systems write into a buffer.
pub open spec fn produces(s: SystemId, b: BufferId) -> bool {
    match b {
        BufferId::MoveIntents => s == SystemId::MonsterAi || s == SystemId::DancingMovement,
        BufferId::MeleeIntents => s == SystemId::MonsterAi,
        BufferId::DanceRequests => s == SystemId::MonsterAi,
        BufferId::EffectRequests => s == SystemId::DancingMovement,
        BufferId::AweStrikes => s == SystemId::Effects,
        BufferId::DamageQueues => s == SystemId::MeleeCombat,
        BufferId::NoiseRequests => s == SystemId::Movement || s == SystemId::MeleeCombat,
        BufferId::NoiseLedger => s == SystemId::NoiseCollect,
        BufferId::RestMarkers => s == SystemId::MonsterAi,
    }
}

/// Which system drains a buffer.
pub open spec fn consumes(s: SystemId, b: BufferId) -> bool {
    match b {
        BufferId::MoveIntents => s == SystemId::Movement,
        BufferId::MeleeIntents => s == SystemId::MeleeCombat,
        BufferId::DanceRequests => s == SystemId::StartDancing,
        BufferId::EffectRequests => s == SystemId::Effects,
        BufferId::AweStrikes => s == SystemId::Awesomeness,
        BufferId::DamageQueues => s == SystemId::Damage,
        BufferId::NoiseRequests => s == SystemId::NoiseCollect,
        BufferId::NoiseLedger => s == SystemId::NoiseCleanup,
        BufferId::RestMarkers => s == SystemId::Recovery,
    }
}

/// The schedule as data: six phases separated by barriers, each phase the
/// list of systems that may run together.
pub fn phases() -> (r: Vec<Vec<SystemId>>)
    ensures
        r@.len() == 6,
        r@[0]@ == seq![SystemId::MonsterAi],
        r@[1]@ == seq![SystemId::DancingMovement],
        r@[2]@ == seq![
            SystemId::Movement,
            SystemId::MeleeCombat,
            SystemId::Damage,
            SystemId::Effects,
            SystemId::Awesomeness,
            SystemId::StartDancing,
            SystemId::Recovery,
        ],
        r@[3]@ == seq![SystemId::NoiseCollect, SystemId::Confusion],
        r@[4]@ == seq![
            SystemId::DancingStatus,
            SystemId::PlayerListening,
            SystemId::NoiseMemory,
        ],
        r@[5]@ == seq![SystemId::NoiseCleanup],
        forall|p: int, k: int|
            0 <= p < r@.len() && 0 <= k < r@[p]@.len() ==> phase_of(#[trigger] r@[p]@[k]) == p,
{
    let mut out: Vec<Vec<SystemId>> = Vec::new();
    let mut p0: Vec<SystemId> = Vec::new();
    p0.push(SystemId::MonsterAi);
    out.push(p0);
    let mut p1: Vec<SystemId> = Vec::new();
    p1.push(SystemId::DancingMovement);
    out.push(p1);
    let mut p2: Vec<SystemId> = Vec::new();
    p2.push(SystemId::Movement);
    p2.push(SystemId::MeleeCombat);
    p2.push(SystemId::Damage);
    p2.push(SystemId::Effects);
    p2.push(SystemId::Awesomeness);
    p2.push(SystemId::StartDancing);
    p2.push(SystemId::Recovery);
    out.push(p2);
    let mut p3: Vec<SystemId> = Vec::new();
    p3.push(SystemId::NoiseCollect);
    p3.push(SystemId::Confusion);
    out.push(p3);
    let mut p4: Vec<SystemId> = Vec::new();
    p4.push(SystemId::DancingStatus);
    p4.push(SystemId::PlayerListening);
    p4.push(SystemId::NoiseMemory);
    out.push(p4);
    let mut p5: Vec<SystemId> = Vec::new();
    p5.push(SystemId::NoiseCleanup);
    out.push(p5);
    proof {
        assert(out@[0]@ =~= seq![SystemId::MonsterAi]);
        assert(out@[1]@ =~= seq![SystemId::DancingMovement]);
        assert(out@[2]@ =~= seq![
            SystemId::Movement,
            SystemId::MeleeCombat,
            SystemId::Damage,
            SystemId::Effects,
            SystemId::Awesomeness,
            SystemId::StartDancing,
            SystemId::Recovery,
        ]);
        assert(out@[3]@ =~= seq![SystemId::NoiseCollect, SystemId::Confusion]);
        assert(out@[4]@ =~= seq![
            SystemId::DancingStatus,
            SystemId::PlayerListening,
            SystemId::NoiseMemory,
        ]);
        assert(out@[5]@ =~= seq![SystemId::NoiseCleanup]);
    }
    out
}

/// Wiring law: every buffer is drained by exactly one system.
pub proof fn lemma_single_consumer(b: BufferId, c1: SystemId, c2: SystemId)
    requires
        consumes(c1, b),
        consumes(c2, b),
    ensures
        c1 == c2,
{
}

/// Wiring law: everything written into a buffer is written at or before
/// the consumer's point in the sequential order, and never in a later
/// phase — intents produced in one phase are visible to their consumer and
/// are gone by the end of the phase that drains them.
pub proof fn lemma_producers_run_first(b: BufferId, p: SystemId, c: SystemId)
    requires
        produces(p, b),
        consumes(c, b),
    ensures
        rank_of(p) < rank_of(c),
        phase_of(p) <= phase_of(c),
{
}

} // verus!
