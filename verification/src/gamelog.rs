//! The player-facing message log.

use vstd::prelude::*;

verus! {

/// The log of messages shown to the player, oldest first.
pub struct PlayerLog {
    pub entries: Vec<String>,
}

impl PlayerLog {
    /// An empty log.
    pub fn new() -> (r: PlayerLog)
        ensures
            r.entries@.len() == 0,
    {
        PlayerLog { entries: Vec::new() }
    }

    /// Appends one message at the end, leaving earlier entries unchanged.
    pub fn insert(&mut self, message: &str)
        ensures
            final(self).entries@.len() == old(self).entries@.len() + 1,
            final(self).entries@[old(self).entries@.len() as int]@ == message@,
            forall|i: int|
                0 <= i < old(self).entries@.len()
                    ==> final(self).entries@[i] == old(self).entries@[i],
    {
        self.entries.push(message.to_owned());
    }
}

} // verus!
