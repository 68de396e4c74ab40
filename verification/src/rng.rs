use vstd::prelude::*;

verus! {

/// The seeded pseudo-random generator owned by one generation run.
///
/// Draws are a pure function of the seed, so a run is reproducible: the same
/// seed and the same sequence of draws yield the same values on every machine.
/// The mixing steps follow the splitmix construction: a fixed odd increment
/// walks the state, and each output multiplies and folds the new state.
pub struct SampleRng {
    state: u64,
}

/// The state after one advance: the fixed increment, added with wraparound.
pub open spec fn rng_advance(s: u64) -> u64 {
    vstd::wrapping::u64_specs::wrapping_add(s, 0x9E3779B97F4A7C15u64)
}

/// The output mixed out of a state value.
pub open spec fn rng_mix(z0: u64) -> u64 {
    let z1 = vstd::wrapping::u64_specs::wrapping_mul(z0 ^ (z0 >> 30u64), 0xBF58476D1CE4E5B9u64);
    let z2 = vstd::wrapping::u64_specs::wrapping_mul(z1 ^ (z1 >> 27u64), 0x94D049BB133111EBu64);
    z2 ^ (z2 >> 31u64)
}

impl SampleRng {
    /// The current state, visible to contracts only.
    pub closed spec fn state_spec(&self) -> u64 {
        self.state
    }

    /// Seeds a fresh generator.
    pub fn new(seed: u64) -> (r: SampleRng)
        ensures
            r.state_spec() == seed,
    {
        SampleRng { state: seed }
    }

    /// Draws the next value; the result and the new state are functions of
    /// the old state alone.
    pub fn next_u64(&mut self) -> (r: u64)
        ensures
            final(self).state_spec() == rng_advance(old(self).state_spec()),
            r == rng_mix(rng_advance(old(self).state_spec())),
    {
        self.state = self.state.wrapping_add(0x9E3779B97F4A7C15u64);
        let z0: u64 = self.state;
        let z1: u64 = (z0 ^ (z0 >> 30u64)).wrapping_mul(0xBF58476D1CE4E5B9u64);
        let z2: u64 = (z1 ^ (z1 >> 27u64)).wrapping_mul(0x94D049BB133111EBu64);
        z2 ^ (z2 >> 31u64)
    }

    /// Draws a value below `n`.
    pub fn next_below(&mut self, n: u64) -> (r: u64)
        requires
            n > 0,
        ensures
            r < n,
            r == rng_mix(rng_advance(old(self).state_spec())) % n,
            final(self).state_spec() == rng_advance(old(self).state_spec()),
    {
        let x: u64 = self.next_u64();
        x % n
    }
}

} // verus!
