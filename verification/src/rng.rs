//! The deterministic random source shared by all samplers of a run.
//!
//! The generator is SplitMix64: the state advances by a fixed odd increment
//! and each output is the new state passed through a fixed scrambler. A
//! draw is therefore a function of the state alone, and a whole run can be
//! replayed from its seed.
//!
//! Uniform draws are handed out as 24-bit numerators: a draw `n` stands for
//! the real `n / 2^24`, which a single-precision float holds exactly.

use vstd::prelude::*;

verus! {

/// The increment of the state, an odd constant.
pub const GAMMA: u64 = 0x9E37_79B9_7F4A_7C15;

/// The denominator of the uniform draws, `2^24`.
pub const UNIT: u32 = 0x100_0000;

/// The state that follows `state`.
pub open spec fn advance(state: u64) -> u64 {
    state.wrapping_add(GAMMA)
}

/// The output that belongs to a state.
pub open spec fn scramble(state: u64) -> u64 {
    let a = (state ^ (state >> 30)).wrapping_mul(0xBF58_476D_1CE4_E5B9);
    let b = (a ^ (a >> 27)).wrapping_mul(0x94D0_49BB_1331_11EB);
    b ^ (b >> 31)
}

/// The state after `count` draws from `state`.
pub open spec fn state_after(state: u64, count: nat) -> u64
    decreases count,
{
    if count == 0 {
        state
    } else {
        advance(state_after(state, (count - 1) as nat))
    }
}

/// The first `count` outputs drawn from `state`, in order.
pub open spec fn outputs(state: u64, count: nat) -> Seq<u64> {
    Seq::new(count, |i: int| scramble(state_after(state, (i + 1) as nat)))
}

/// The 24-bit numerator taken from an output: its top 24 bits.
pub open spec fn unit_of(output: u64) -> u32 {
    (output >> 40) as u32
}

/// A seeded pseudo-random generator.
#[derive(Clone, Copy, Debug)]
pub struct Rng {
    state: u64,
}

impl View for Rng {
    type V = u64;

    closed spec fn view(&self) -> u64 {
        self.state
    }
}

impl Rng {
    /// A generator whose state is the seed.
    pub fn new(seed: u64) -> (rng: Rng)
        ensures
            rng@ == seed,
    {
        Rng { state: seed }
    }

    /// Advances the state and returns the output that belongs to it.
    pub fn next_u64(&mut self) -> (output: u64)
        ensures
            final(self)@ == advance(old(self)@),
            output == scramble(final(self)@),
    {
        let state = self.state.wrapping_add(GAMMA);
        self.state = state;
        let a = (state ^ (state >> 30)).wrapping_mul(0xBF58_476D_1CE4_E5B9);
        let b = (a ^ (a >> 27)).wrapping_mul(0x94D0_49BB_1331_11EB);
        b ^ (b >> 31)
    }

    /// A uniform draw from `[0, 1)`, as the numerator over [`UNIT`].
    pub fn next_unit(&mut self) -> (numerator: u32)
        ensures
            final(self)@ == advance(old(self)@),
            numerator == unit_of(scramble(final(self)@)),
            numerator < UNIT,
    {
        let output = self.next_u64();
        assert((output >> 40) < 0x100_0000) by (bit_vector);
        (output >> 40) as u32
    }

    /// A uniform draw from `(0, 1]`, as the numerator over [`UNIT`]: one more
    /// than the draw from `[0, 1)` that the same state gives. Its logarithm is
    /// finite, which a normal sample made from two draws needs of the first.
    pub fn next_positive_unit(&mut self) -> (numerator: u32)
        ensures
            final(self)@ == advance(old(self)@),
            numerator == unit_of(scramble(final(self)@)) + 1,
            0 < numerator <= UNIT,
    {
        let numerator = self.next_unit();
        numerator + 1
    }
}

/// Drawing `count` times and then `more` times is drawing `count + more`
/// times.
pub proof fn lemma_state_after_add(state: u64, count: nat, more: nat)
    ensures
        state_after(state_after(state, count), more) == state_after(state, count + more),
    decreases more,
{
    if more > 0 {
        lemma_state_after_add(state, count, (more - 1) as nat);
        assert(count + more - 1 == count + (more - 1) as nat);
    }
}

/// Same seed, same sequence: the draws of two generators in one state agree,
/// one by one, and leave the two in one state again.
pub proof fn lemma_same_seed_same_draws(a: Rng, b: Rng, count: nat)
    requires
        a@ == b@,
    ensures
        outputs(a@, count) == outputs(b@, count),
        state_after(a@, count) == state_after(b@, count),
{
}

/// The draws made after `count` others are the tail of the one sequence that
/// the seed fixes.
pub proof fn lemma_outputs_continue(state: u64, count: nat, more: nat)
    ensures
        outputs(state, count + more) == outputs(state, count) + outputs(
            state_after(state, count),
            more,
        ),
{
    let whole = outputs(state, count + more);
    let joined = outputs(state, count) + outputs(state_after(state, count), more);
    assert(whole.len() == joined.len());
    assert forall|i: int| 0 <= i < whole.len() implies whole[i] == joined[i] by {
        if i >= count {
            lemma_state_after_add(state, count, (i - count + 1) as nat);
            assert(count + (i - count + 1) as nat == (i + 1) as nat);
        }
    }
    assert(whole =~= joined);
}

} // verus!
