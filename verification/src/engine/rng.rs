//! A small, fast, seedable generator (xorshift64*): a uniform number per
//! token and reproducibility from a seed.
use vstd::prelude::*;

verus! {

/// The state a zero seed is replaced by: zero is the one state xorshift
/// cannot leave.
pub const ZERO_SEED_STATE: u64 = 0x9E37_79B9_7F4A_7C15;

/// The xorshift64* output multiplier.
pub const MULTIPLIER: u64 = 0x2545_F491_4F6C_DD1D;

/// One xorshift step: shifts of 12, 25 and 27.
pub open spec fn xorshift(x: u64) -> u64 {
    let a = x ^ (x >> 12u64);
    let b = a ^ (a << 25u64);
    b ^ (b >> 27u64)
}

/// The number a state is turned into: the state times the multiplier,
/// modulo 2^64.
pub open spec fn scrambled(x: u64) -> u64 {
    vstd::wrapping::u64_specs::wrapping_mul(x, MULTIPLIER)
}

/// The generator's state after seeding.
pub open spec fn seeded_state(seed: u64) -> u64 {
    if seed == 0 {
        ZERO_SEED_STATE
    } else {
        seed
    }
}

/// A seedable generator.
#[derive(Debug)]
pub struct Rng(u64);

impl Clone for Rng {
    fn clone(&self) -> (r: Self)
        ensures
            r.state() == self.state(),
    {
        proof {
            use_type_invariant(self);
        }
        Rng(self.0)
    }
}

impl Rng {
    /// The current state; never zero.
    pub closed spec fn state(&self) -> u64 {
        self.0
    }

    #[verifier::type_invariant]
    closed spec fn wf(&self) -> bool {
        self.0 != 0
    }

    pub fn new(seed: u64) -> (r: Self)
        ensures
            r.state() == seeded_state(seed),
    {
        Rng(if seed == 0 { ZERO_SEED_STATE } else { seed })
    }

    /// Advance the state one xorshift step and return it scrambled.
    pub fn next_u64(&mut self) -> (r: u64)
        ensures
            final(self).state() == xorshift(old(self).state()),
            r == scrambled(final(self).state()),
    {
        proof {
            use_type_invariant(&*self);
        }
        let x0 = self.0;
        let mut x = x0;
        x = x ^ (x >> 12u64);
        x = x ^ (x << 25u64);
        x = x ^ (x >> 27u64);
        assert(x == xorshift(x0));
        proof {
            law_xorshift_keeps_nonzero(x0);
        }
        self.0 = x;
        x.wrapping_mul(MULTIPLIER)
    }
}

/// A non-zero state stays non-zero: every xorshift step is invertible.
pub proof fn law_xorshift_keeps_nonzero(x: u64)
    requires
        x != 0,
    ensures
        xorshift(x) != 0,
{
    assert(x != 0 ==> ((x ^ (x >> 12u64)) ^ ((x ^ (x >> 12u64)) << 25u64)) ^ (((x ^ (x
        >> 12u64)) ^ ((x ^ (x >> 12u64)) << 25u64)) >> 27u64) != 0) by (bit_vector);
}

/// A non-zero state never yields zero: the multiplier is odd.
pub proof fn law_scrambled_nonzero(x: u64)
    requires
        x != 0,
    ensures
        scrambled(x) != 0,
{
    assert(x != 0 ==> (x * 0x2545_F491_4F6C_DD1Du64) as u64 != 0) by (bit_vector);
    assert(scrambled(x) == (x * MULTIPLIER) as u64) by (bit_vector);
}

/// Whatever the seed, the generator never produces zero and never reaches
/// the zero state.
pub proof fn law_generator_never_yields_zero(seed: u64, steps: nat)
    ensures
        iterate(seeded_state(seed), steps) != 0,
        scrambled(iterate(seeded_state(seed), steps + 1)) != 0,
    decreases steps,
{
    if steps > 0 {
        law_generator_never_yields_zero(seed, (steps - 1) as nat);
        law_xorshift_keeps_nonzero(iterate(seeded_state(seed), (steps - 1) as nat));
    }
    law_xorshift_keeps_nonzero(iterate(seeded_state(seed), steps));
    law_scrambled_nonzero(iterate(seeded_state(seed), steps + 1));
}

/// The state after `n` steps from `x`.
pub open spec fn iterate(x: u64, n: nat) -> u64
    decreases n,
{
    if n == 0 {
        x
    } else {
        xorshift(iterate(x, (n - 1) as nat))
    }
}

} // verus!
