//! The noise ledger: transient sound events, audibility, and the per-actor
//! noise memory that the decision engine consumes.

use vstd::prelude::*;
use crate::factions::Faction;
use crate::grid::{Point, squared_distance};

verus! {

/// A request to emit a sound this turn; drained into the noise ledger by its
/// consumer phase.
pub struct MakeNoise {
    pub location: Point,
    pub volume: u32,
    pub faction: Option<Faction>,
    pub surprising: bool,
    pub description: String,
}

/// A sound event on the ledger for one turn: origin, loudness (the audible
/// radius is `volume` squared against squared distance), a surprising flag
/// and an optional faction filter.
pub struct Noise {
    pub location: Point,
    pub volume: u32,
    pub faction: Option<Faction>,
    pub surprising: bool,
    pub description: String,
}

/// Whether a listener at `pos` hears `noise`: squared Euclidean distance
/// strictly below the volume squared. A distance exactly equal to the square
/// is inaudible.
pub open spec fn spec_can_hear(pos: Point, location: Point, volume: u32) -> bool {
    squared_distance(pos, location) < volume * volume
}

/// Decides audibility, exactly: distance squared strictly below volume
/// squared.
pub fn can_hear(pos: &Point, noise: &Noise) -> (r: bool)
    ensures
        r == spec_can_hear(*pos, noise.location, noise.volume),
{
    let dx: i128 = pos.x as i128 - noise.location.x as i128;
    let dy: i128 = pos.y as i128 - noise.location.y as i128;
    let vol: i128 = noise.volume as i128;
    proof {
        assert(dx * dx >= 0 && dx * dx <= 0x1_0000_0000 * 0x1_0000_0000)
            by (nonlinear_arith)
            requires
                -0x1_0000_0000 <= dx <= 0x1_0000_0000,
        ;
        assert(dy * dy >= 0 && dy * dy <= 0x1_0000_0000 * 0x1_0000_0000)
            by (nonlinear_arith)
            requires
                -0x1_0000_0000 <= dy <= 0x1_0000_0000,
        ;
        assert(vol * vol >= 0 && vol * vol <= 0x1_0000_0000 * 0x1_0000_0000)
            by (nonlinear_arith)
            requires
                0 <= vol <= 0x1_0000_0000,
        ;
    }
    dx * dx + dy * dy < vol * vol
}

/// What an actor remembers of the last noteworthy sound it heard.
#[derive(Clone, Copy, PartialEq, Eq, Structural, Debug)]
pub struct MonsterAINoiseRecord {
    pub turn: u32,
    pub volume: u32,
    pub surprising: bool,
    pub location: Point,
}

/// How many turns a surprising memory blocks overwriting by an ordinary one.
pub const SURPRISE_COOLDOWN: u32 = 10;

/// Whether a sound event displaces the current memory: a surprising event
/// always may; an ordinary one only once no surprising memory is being kept
/// warm (none held, the held one is not surprising, or its cooldown window
/// has elapsed). The event must also pass its faction filter and be audible.
pub open spec fn spec_notes_noise(
    last: Option<MonsterAINoiseRecord>,
    listener_pos: Point,
    listener_faction: Faction,
    location: Point,
    volume: u32,
    surprising: bool,
    noise_faction: Option<Faction>,
    turn: u32,
) -> bool {
    let memory_open = match last {
        Some(nr) => if nr.surprising {
            turn >= nr.turn + SURPRISE_COOLDOWN
        } else {
            true
        },
        None => true,
    };
    &&& (surprising || memory_open)
    &&& (match noise_faction {
        Some(f) => f == listener_faction,
        None => true,
    })
    &&& spec_can_hear(listener_pos, location, volume)
}

/// Updates one actor's noise memory against one sound event: when the event
/// qualifies, the memory becomes a record of this event stamped with the
/// current turn; otherwise it is left alone.
pub fn note_noise(
    last: &mut Option<MonsterAINoiseRecord>,
    listener_pos: &Point,
    listener_faction: Faction,
    noise: &Noise,
    turn: u32,
)
    ensures
        spec_notes_noise(
            *old(last),
            *listener_pos,
            listener_faction,
            noise.location,
            noise.volume,
            noise.surprising,
            noise.faction,
            turn,
        ) ==> *final(last) == Some(
            MonsterAINoiseRecord {
                turn,
                volume: noise.volume,
                surprising: noise.surprising,
                location: noise.location,
            },
        ),
        !spec_notes_noise(
            *old(last),
            *listener_pos,
            listener_faction,
            noise.location,
            noise.volume,
            noise.surprising,
            noise.faction,
            turn,
        ) ==> *final(last) == *old(last),
{
    let memory_open = match last {
        Some(nr) => if nr.surprising {
            turn as u64 >= nr.turn as u64 + SURPRISE_COOLDOWN as u64
        } else {
            true
        },
        None => true,
    };
    let faction_ok = match noise.faction {
        Some(f) => f == listener_faction,
        None => true,
    };
    if (noise.surprising || memory_open) && faction_ok && can_hear(listener_pos, noise) {
        *last = Some(
            MonsterAINoiseRecord {
                turn,
                volume: noise.volume,
                surprising: noise.surprising,
                location: noise.location,
            },
        );
    }
}

} // verus!
