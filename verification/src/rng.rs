//! Deterministic pseudo-random number generator: a three-round
//! xor-shift/multiply integer hash applied to an evolving 32-bit seed.
//!
//! The generator is a reproducible noise source, not a cryptographic one.
//! Its whole behaviour is a function of the starting seed, and the hash
//! constants are part of the contract: changing them changes every stream.

use vstd::prelude::*;

verus! {

/// Fixed odd multiplier of the hash rounds.
pub const KHASH_MUL: u32 = 2654435769;

/// Fixed xor constant of the first hash round.
pub const KHASH_XOR: u32 = 2747636419;

/// Fixed additive constant applied to the seed between draws, so that a
/// fixed point of the hash cannot produce a constant stream.
pub const SEED_STEP: u32 = 69;

/// The three-round integer hash, as a mathematical function of the state.
#[verifier::opaque]
pub open spec fn khash_spec(state: u32) -> u32 {
    let a = (state ^ KHASH_XOR).wrapping_mul(KHASH_MUL);
    let b = (a ^ (a >> 16u32)).wrapping_mul(KHASH_MUL);
    (b ^ (b >> 16u32)).wrapping_mul(KHASH_MUL)
}

/// The seed that follows `s` after one draw: hash, then add the step
/// constant (wrapping on overflow).
pub open spec fn next_seed_spec(s: u32) -> u32 {
    khash_spec(s).wrapping_add(SEED_STEP)
}

/// The 32-bit word a draw returns when the generator starts the draw at
/// seed `s`: the hash of the advanced seed.
pub open spec fn draw_spec(s: u32) -> u32 {
    khash_spec(next_seed_spec(s))
}

/// The seed reached from `s` after `n` draws.
pub open spec fn seed_after(s: u32, n: nat) -> u32
    decreases n,
{
    if n == 0 {
        s
    } else {
        next_seed_spec(seed_after(s, (n - 1) as nat))
    }
}

/// The sequence of the first `n` 32-bit draws of a generator started at
/// seed `s`.
pub open spec fn draw_seq(s: u32, n: nat) -> Seq<u32> {
    Seq::new(n, |k: int| draw_spec(seed_after(s, k as nat)))
}

/// Three rounds of xor-shift/multiply mixing over the 32-bit state.
pub fn khash(state: u32) -> (r: u32)
    ensures
        r == khash_spec(state),
{
    proof {
        reveal(khash_spec);
    }
    let a: u32 = (state ^ KHASH_XOR).wrapping_mul(KHASH_MUL);
    let b: u32 = (a ^ (a >> 16u32)).wrapping_mul(KHASH_MUL);
    (b ^ (b >> 16u32)).wrapping_mul(KHASH_MUL)
}

/// Pseudo-random generator state: a single 32-bit seed, mutated by every
/// draw. Two generators with equal seeds produce identical streams.
#[derive(Clone)]
pub struct Rng {
    seed: u32,
}

impl Rng {
    /// The current state word.
    pub closed spec fn seed(self) -> u32 {
        self.seed
    }

    /// A generator seeded from the wall clock; not reproducible across runs.
    pub fn new_random() -> (r: Rng) {
        Rng { seed: clock_seed() }
    }

    /// A generator with a caller-chosen seed; fully deterministic.
    pub fn new_seeded(starting_seed: u32) -> (r: Rng)
        ensures
            r.seed() == starting_seed,
    {
        Rng { seed: starting_seed }
    }

    /// Advances the seed and returns the hash of the new seed. The draw is
    /// double-mixed: one hash advances the state, a second produces the
    /// output word.
    pub fn next_u32(&mut self) -> (r: u32)
        ensures
            final(self).seed() == next_seed_spec(old(self).seed()),
            r == draw_spec(old(self).seed()),
    {
        self.seed = khash(self.seed).wrapping_add(SEED_STEP);
        khash(self.seed)
    }

    /// Two 32-bit draws packed into one word: the first shifted up by
    /// 16 bits, or-ed with the second.
    #[verifier::rlimit(50)]
    pub fn next_u64(&mut self) -> (r: u64)
        ensures
            final(self).seed() == seed_after(old(self).seed(), 2),
            r == ((draw_spec(old(self).seed()) as u64) << 16u64) | (draw_spec(
                next_seed_spec(old(self).seed()),
            ) as u64),
    {
        let hi = self.next_u32();
        let lo = self.next_u32();
        proof {
            reveal_with_fuel(seed_after, 3);
        }
        ((hi as u64) << 16u64) | (lo as u64)
    }

    /// Advances the seed by one draw and returns the new state word itself
    /// (rather than its hash). The unverified shell divides this word by
    /// the largest 32-bit value to obtain a unit-interval sample.
    pub fn next_raw(&mut self) -> (r: u32)
        ensures
            final(self).seed() == next_seed_spec(old(self).seed()),
            r == final(self).seed(),
    {
        self.seed = khash(self.seed).wrapping_add(SEED_STEP);
        self.seed
    }
}

/// Determinism: the stream of draws is a function of the starting seed
/// alone, so two generators constructed with the same seed yield identical
/// sequences of any length.
pub proof fn lemma_draws_deterministic(s1: u32, s2: u32, n: nat)
    requires
        s1 == s2,
    ensures
        draw_seq(s1, n) == draw_seq(s2, n),
{
}

/// One draw extends the stream by one word: the first `n + 1` draws are
/// the first `n` followed by the draw taken at the seed that `n` draws
/// reach. Together with the draw contracts this ties any run of
/// successive draws to `draw_seq`.
pub proof fn lemma_draw_seq_extend(s: u32, n: nat)
    ensures
        draw_seq(s, n + 1) == draw_seq(s, n).push(draw_spec(seed_after(s, n))),
{
    assert(draw_seq(s, n + 1) =~= draw_seq(s, n).push(draw_spec(seed_after(s, n))));
}

/// Relies on std::time::SystemTime::now for a seed that differs between
/// runs; nothing is assumed about the value returned.
#[verifier::external_body]
fn clock_seed() -> u32 {
    std::time::SystemTime::now().duration_since(std::time::SystemTime::UNIX_EPOCH).map(
        |x| x.as_nanos() as u32,
    ).unwrap_or(1)
}

} // verus!
