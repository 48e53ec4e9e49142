//! The turn-order-deterministic random stream.
//!
//! Every draw is pinned to a spec-level function of the generator's state, so
//! a whole decision pass is a mathematical function of its inputs: running it
//! twice from the same seed provably yields the same choices.

use vstd::prelude::*;

verus! {

/// The wrap-around modulus of 64-bit arithmetic.
pub open spec fn pow2_64() -> int {
    0x1_0000_0000_0000_0000
}

/// The state advance: a fixed odd increment, wrapping.
#[verifier::opaque]
pub open spec fn spec_advance(s: u64) -> u64 {
    ((s + 0x9E37_79B9_7F4A_7C15) % pow2_64()) as u64
}

/// The output mix: two xor-shift-multiply rounds and a final shift, wrapping.
#[verifier::opaque]
pub open spec fn spec_mix(s: u64) -> u64 {
    let z0 = spec_advance(s);
    let z1 = (((z0 ^ (z0 >> 30)) * 0xBF58_476D_1CE4_E5B9) % pow2_64()) as u64;
    let z2 = (((z1 ^ (z1 >> 27)) * 0x94D0_49BB_1331_11EB) % pow2_64()) as u64;
    z2 ^ (z2 >> 31)
}

/// The draw `next() % n`, for a positive bound.
#[verifier::opaque]
pub open spec fn spec_range(s: u64, n: u64) -> u64
    recommends
        n > 0,
{
    (spec_mix(s) as int % n as int) as u64
}

/// The state after `n` consecutive draws.
pub open spec fn spec_advance_n(s: u64, n: nat) -> u64
    decreases n,
{
    if n == 0 {
        s
    } else {
        spec_advance(spec_advance_n(s, (n - 1) as nat))
    }
}

/// A drawn value stays below its positive bound.
pub broadcast proof fn lemma_spec_range_bound(s: u64, n: u64)
    requires
        n > 0,
    ensures
        #[trigger] spec_range(s, n) < n,
{
    reveal(spec_range);
}

/// A deterministic pseudo-random generator: a 64-bit state advanced by a
/// fixed increment, with the output drawn from a bit-mixing function of the
/// state.
#[derive(Clone, Copy, PartialEq, Eq, Structural, Debug)]
pub struct Rng {
    pub state: u64,
}

impl Rng {
    /// A generator seeded with the given state.
    pub fn new(seed: u64) -> (r: Rng)
        ensures
            r.state == seed,
    {
        Rng { state: seed }
    }

    /// Draws the next 64-bit value and advances the state.
    pub fn next_u64(&mut self) -> (r: u64)
        ensures
            final(self).state == spec_advance(old(self).state),
            r == spec_mix(old(self).state),
    {
        proof {
            reveal(spec_advance);
            reveal(spec_mix);
        }
        let s = self.state.wrapping_add(0x9E37_79B9_7F4A_7C15);
        self.state = s;
        let z1 = (s ^ (s >> 30)).wrapping_mul(0xBF58_476D_1CE4_E5B9);
        let z2 = (z1 ^ (z1 >> 27)).wrapping_mul(0x94D0_49BB_1331_11EB);
        z2 ^ (z2 >> 31)
    }

    /// Draws a value below `n`, uniformly over the mixer's output.
    pub fn range(&mut self, n: u64) -> (r: u64)
        requires
            n > 0,
        ensures
            final(self).state == spec_advance(old(self).state),
            r == spec_range(old(self).state, n),
            r < n,
    {
        proof {
            reveal(spec_range);
        }
        let v = self.next_u64();
        v % n
    }

    /// Draws an index below `n`, for indexing into a vector.
    pub fn range_usize(&mut self, n: usize) -> (r: usize)
        requires
            n > 0,
        ensures
            final(self).state == spec_advance(old(self).state),
            r == spec_range(old(self).state, n as u64),
            r < n,
    {
        self.range(n as u64) as usize
    }

    /// Rolls one die: a value in `1 ..= sides`.
    pub fn roll_die(&mut self, sides: u32) -> (r: u32)
        requires
            sides > 0,
        ensures
            final(self).state == spec_advance(old(self).state),
            r == spec_range(old(self).state, sides as u64) + 1,
            1 <= r <= sides,
    {
        let v = self.range(sides as u64);
        (v as u32) + 1
    }
}

} // verus!
