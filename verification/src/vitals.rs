//! The three per-actor resource pools: health, stamina and poise.

use vstd::prelude::*;

verus! {

/// The largest magnitude any pool value may take. Keeping pools inside this
/// band lets every update be computed with plain 32-bit arithmetic, and is
/// far beyond any value the simulation produces.
pub const POOL_LIMIT: i32 = 1000000;

/// A resource pool with a current and a maximum value.
///
/// The current value may fall below zero (damage is applied before death is
/// resolved by a collaborator) but never exceeds the maximum.
pub open spec fn wf_pool(current: i32, max: i32) -> bool {
    &&& 0 <= max <= POOL_LIMIT
    &&& -POOL_LIMIT <= current <= max
}

/// Health: hit points.
#[derive(Clone, Copy, PartialEq, Eq, Structural, Debug)]
pub struct Health {
    pub max_health: i32,
    pub health: i32,
}

/// Stamina: spent by fighting and dancing, restored by rest.
#[derive(Clone, Copy, PartialEq, Eq, Structural, Debug)]
pub struct Stamina {
    pub stamina: i32,
    pub max_stamina: i32,
}

/// Poise: confidence, drained by rivals' displays and shame.
#[derive(Clone, Copy, PartialEq, Eq, Structural, Debug)]
pub struct Poise {
    pub max_poise: i32,
    pub poise: i32,
}

impl Health {
    pub open spec fn wf(self) -> bool {
        wf_pool(self.health, self.max_health)
    }

    pub fn new(max: i32) -> (r: Health)
        requires
            0 <= max <= POOL_LIMIT,
        ensures
            r.wf(),
            r.max_health == max,
            r.health == max,
    {
        Health { max_health: max, health: max }
    }

    /// Heals by a non-negative amount, clamped at the maximum.
    pub fn heal(&mut self, amount: i32)
        requires
            old(self).wf(),
            0 <= amount <= POOL_LIMIT,
        ensures
            final(self).wf(),
            final(self).max_health == old(self).max_health,
            final(self).health == if old(self).health + amount > old(self).max_health {
                old(self).max_health as int
            } else {
                old(self).health + amount
            },
    {
        let healed: i64 = self.health as i64 + amount as i64;
        if healed > self.max_health as i64 {
            self.health = self.max_health;
        } else {
            self.health = healed as i32;
        }
    }

    /// Takes a non-negative amount of damage, clamped at the lower pool
    /// limit. The clamp is far below every threshold the simulation reads
    /// (death at zero, flee at a tenth of the maximum), so it never changes a
    /// decision.
    pub fn damage(&mut self, amount: i32)
        requires
            old(self).wf(),
            0 <= amount,
        ensures
            final(self).wf(),
            final(self).max_health == old(self).max_health,
            final(self).health == if old(self).health - amount < -POOL_LIMIT {
                -POOL_LIMIT as int
            } else {
                old(self).health - amount
            },
    {
        let lowered: i64 = self.health as i64 - amount as i64;
        if lowered < -(POOL_LIMIT as i64) {
            self.health = -POOL_LIMIT;
        } else {
            self.health = lowered as i32;
        }
    }
}

impl Stamina {
    pub open spec fn wf(self) -> bool {
        wf_pool(self.stamina, self.max_stamina)
    }

    pub fn new(max: i32) -> (r: Stamina)
        requires
            0 <= max <= POOL_LIMIT,
        ensures
            r.wf(),
            r.max_stamina == max,
            r.stamina == max,
    {
        Stamina { max_stamina: max, stamina: max }
    }

    /// Restores one point, clamped at the maximum.
    pub fn restore_one(&mut self)
        requires
            old(self).wf(),
        ensures
            final(self).wf(),
            final(self).max_stamina == old(self).max_stamina,
            final(self).stamina == if old(self).stamina + 1 > old(self).max_stamina {
                old(self).max_stamina as int
            } else {
                old(self).stamina + 1
            },
    {
        if self.stamina < self.max_stamina {
            self.stamina = self.stamina + 1;
        } else {
            self.stamina = self.max_stamina;
        }
    }

    /// Spends one point, clamped at zero.
    pub fn spend_one(&mut self)
        requires
            old(self).wf(),
        ensures
            final(self).wf(),
            final(self).max_stamina == old(self).max_stamina,
            final(self).stamina == if old(self).stamina - 1 < 0 {
                0int
            } else {
                old(self).stamina - 1
            },
    {
        if self.stamina > 0 {
            self.stamina = self.stamina - 1;
        } else {
            self.stamina = 0;
        }
    }
}

impl Poise {
    pub open spec fn wf(self) -> bool {
        wf_pool(self.poise, self.max_poise)
    }

    pub fn new(max: i32) -> (r: Poise)
        requires
            0 <= max <= POOL_LIMIT,
        ensures
            r.wf(),
            r.max_poise == max,
            r.poise == max,
    {
        Poise { max_poise: max, poise: max }
    }

    /// Raises poise by a non-negative amount, clamped at the maximum.
    pub fn raise(&mut self, amount: i32)
        requires
            old(self).wf(),
            0 <= amount <= POOL_LIMIT,
        ensures
            final(self).wf(),
            final(self).max_poise == old(self).max_poise,
            final(self).poise == if old(self).poise + amount > old(self).max_poise {
                old(self).max_poise as int
            } else {
                old(self).poise + amount
            },
    {
        let raised: i64 = self.poise as i64 + amount as i64;
        if raised > self.max_poise as i64 {
            self.poise = self.max_poise;
        } else {
            self.poise = raised as i32;
        }
    }

    /// Lowers poise by a non-negative amount, clamped at zero.
    pub fn lower(&mut self, amount: i32)
        requires
            old(self).wf(),
            0 <= amount,
        ensures
            final(self).wf(),
            final(self).max_poise == old(self).max_poise,
            final(self).poise == if old(self).poise - amount < 0 {
                0int
            } else {
                old(self).poise - amount
            },
    {
        let lowered: i64 = self.poise as i64 - amount as i64;
        if lowered < 0 {
            self.poise = 0;
        } else {
            self.poise = lowered as i32;
        }
    }

    /// Restores one point, clamped at the maximum.
    pub fn restore_one(&mut self)
        requires
            old(self).wf(),
        ensures
            final(self).wf(),
            final(self).max_poise == old(self).max_poise,
            final(self).poise == if old(self).poise + 1 > old(self).max_poise {
                old(self).max_poise as int
            } else {
                old(self).poise + 1
            },
    {
        if self.poise < self.max_poise {
            self.poise = self.poise + 1;
        } else {
            self.poise = self.max_poise;
        }
    }
}

} // verus!
