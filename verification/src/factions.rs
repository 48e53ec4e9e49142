//! Faction tags: which side of the encounter an actor is on.

use vstd::prelude::*;

verus! {

/// An actor's faction.
#[derive(Clone, Copy, PartialEq, Eq, Structural, Debug)]
pub enum Faction {
    PLAYER,
    ENEMIES,
}

} // verus!
