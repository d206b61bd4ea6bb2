//! The entropy source that generation draws from.
//!
//! A `TestRunner` is a small deterministic generator: its whole state is one
//! 64-bit word, every draw is a function of that word, and two runners made
//! from the same seed yield the same draws for ever. That is what makes a
//! generated value, and every shrink of it, reproducible.
//!
//! The state moves by three shift-and-xor rounds; a draw is the upper half
//! of the state times an odd constant, which spreads the few bits of a small
//! seed over the whole word.

use vstd::prelude::*;

verus! {

/// The state a runner starts from when it is given no seed, or the seed 0.
pub const DEFAULT_SEED: u64 = 0x9E37_79B9_7F4A_7C15;

/// The odd constant that a state is multiplied by to give a draw.
pub const MULTIPLIER: u64 = 0x2545_F491_4F6C_DD1D;

/// The state that follows `state`: three shift-and-xor rounds.
pub open spec fn scramble(state: u64) -> u64 {
    let a = state ^ (state << 13u64);
    let b = a ^ (a >> 7u64);
    b ^ (b << 17u64)
}

/// The upper half of a word.
pub open spec fn upper_half(word: u64) -> u32 {
    (word >> 32u64) as u32
}

/// The draw that a state yields: the upper half of its product with
/// `MULTIPLIER`, taken modulo `2^64`.
pub open spec fn draw_of(state: u64) -> u32 {
    upper_half(state.wrapping_mul(MULTIPLIER))
}

/// The state that a seed stands for. The all-zero state would never leave
/// zero, so the seed 0 is replaced.
pub open spec fn seeded(seed: u64) -> u64 {
    if seed == 0 {
        DEFAULT_SEED
    } else {
        seed
    }
}

/// A seedable source of draws.
#[derive(Clone, Debug)]
pub struct TestRunner {
    state: u64,
}

impl View for TestRunner {
    type V = u64;

    /// The generator's state.
    closed spec fn view(&self) -> u64 {
        self.state
    }
}

impl TestRunner {
    /// A runner that starts from `seed`.
    pub fn new(seed: u64) -> (runner: TestRunner)
        ensures
            runner@ == seeded(seed),
    {
        TestRunner { state: if seed == 0 { DEFAULT_SEED } else { seed } }
    }

    /// The runner after its next draw.
    pub open spec fn advanced(self) -> u64 {
        scramble(self@)
    }

    /// The next draw.
    pub open spec fn upcoming(self) -> u32 {
        draw_of(scramble(self@))
    }

    /// Draws thirty-two bits and moves on to the next state.
    pub fn next_u32(&mut self) -> (draw: u32)
        ensures
            final(self)@ == old(self).advanced(),
            draw == old(self).upcoming(),
    {
        let s: u64 = self.state;
        let a: u64 = s ^ (s << 13);
        let b: u64 = a ^ (a >> 7);
        let c: u64 = b ^ (b << 17);
        self.state = c;
        let mixed: u64 = c.wrapping_mul(MULTIPLIER);
        let top: u64 = mixed >> 32;
        assert(top <= 0xFFFF_FFFF) by (bit_vector)
            requires
                top == mixed >> 32,
        ;
        top as u32
    }
}

impl Default for TestRunner {
    fn default() -> (runner: TestRunner)
        ensures
            runner@ == DEFAULT_SEED,
    {
        TestRunner { state: DEFAULT_SEED }
    }
}

/// A state other than zero is never followed by zero, so a runner never
/// gets stuck.
pub proof fn scramble_keeps_nonzero(state: u64)
    requires
        state != 0,
    ensures
        scramble(state) != 0,
{
    assert(state != 0 ==> ({
        let a = state ^ (state << 13u64);
        let b = a ^ (a >> 7u64);
        b ^ (b << 17u64)
    }) != 0) by (bit_vector);
}

} // verus!
