//! Validation core of a minimal proof-of-work ledger: canonical digests,
//! Merkle commitments, ECDSA identities, a UTXO ledger and the block
//! acceptance rules, together with the proofs that they behave as stated.
use vstd::prelude::*;

pub mod crypto;
pub mod encoding;
pub mod error;
pub mod sha256;
pub mod types;
pub mod util;
pub mod utxo;

verus! {

use vstd::arithmetic::power2::pow2;
use vstd::arithmetic::power2::lemma_pow2_adds;
use vstd::arithmetic::power2::lemma_pow2_pos;
use vstd::arithmetic::power2::lemma2_to64;
use vstd::arithmetic::div_mod::lemma_div_denominator;
use vstd::arithmetic::div_mod::lemma_div_is_ordered_by_denominator;

/// Initial block reward in whole coins; multiplied by `10^8` for the
/// smallest unit.
pub const INITIAL_REWARD: u64 = 50;

/// Number of blocks between halvings of the block subsidy.
pub const HALVING_INTERVAL: u64 = 210;

/// Ideal spacing between consecutive blocks, in seconds.
pub const IDEAL_BLOCK_TIME: u64 = 10;

/// Number of blocks between difficulty adjustments.
pub const DIFFICULTY_UPDATE_INTERVAL: u64 = 50;

/// A 256-bit unsigned integer, stored as four 64-bit limbs with `w0` the
/// least significant. It backs both content digests and proof-of-work
/// targets.
#[derive(Clone, Copy, PartialEq, Eq, Structural, Debug)]
pub struct U256 {
    pub w0: u64,
    pub w1: u64,
    pub w2: u64,
    pub w3: u64,
}

impl U256 {
    /// The numeric value represented by the four limbs.
    pub open spec fn as_nat(self) -> nat {
        self.w0 as nat + self.w1 as nat * 0x10000000000000000
            + self.w2 as nat * 0x100000000000000000000000000000000
            + self.w3 as nat * 0x1000000000000000000000000000000000000000000000000
    }

    pub open spec fn spec_zero() -> U256 {
        U256 { w0: 0, w1: 0, w2: 0, w3: 0 }
    }

    pub fn zero() -> (r: U256)
        ensures
            r == U256::spec_zero(),
            r.as_nat() == 0,
    {
        U256 { w0: 0, w1: 0, w2: 0, w3: 0 }
    }

    /// Numeric comparison, limb by limb from the most significant end.
    pub fn le(&self, other: &U256) -> (r: bool)
        ensures
            r == (self.as_nat() <= other.as_nat()),
    {
        proof {
            lemma_u256_order(*self, *other);
        }
        if self.w3 != other.w3 {
            self.w3 < other.w3
        } else if self.w2 != other.w2 {
            self.w2 < other.w2
        } else if self.w1 != other.w1 {
            self.w1 < other.w1
        } else {
            self.w0 <= other.w0
        }
    }
}

/// The limb-lexicographic order on `U256` agrees with the numeric order.
proof fn lemma_u256_order(a: U256, b: U256)
    ensures
        a.w3 < b.w3 ==> a.as_nat() < b.as_nat(),
        a.w3 == b.w3 && a.w2 < b.w2 ==> a.as_nat() < b.as_nat(),
        a.w3 == b.w3 && a.w2 == b.w2 && a.w1 < b.w1 ==> a.as_nat() < b.as_nat(),
        a.w3 == b.w3 && a.w2 == b.w2 && a.w1 == b.w1 ==> (a.as_nat() <= b.as_nat()
            <==> a.w0 <= b.w0),
{
}

/// The easiest proof-of-work target a block may carry.
pub fn min_target() -> (r: U256)
    ensures
        r == (U256 {
            w0: 0xFFFF_FFFF_FFFF_FFFF,
            w1: 0xFFFF_FFFF_FFFF_FFFF,
            w2: 0xFFFF_FFFF_FFFF_FFFF,
            w3: 0x0000_FFFF_FFFF_FFFF,
        }),
{
    U256 {
        w0: 0xFFFF_FFFF_FFFF_FFFF,
        w1: 0xFFFF_FFFF_FFFF_FFFF,
        w2: 0xFFFF_FFFF_FFFF_FFFF,
        w3: 0x0000_FFFF_FFFF_FFFF,
    }
}

/// The block subsidy owed to the miner of the block at `height`: the
/// initial reward in smallest units, halved (with truncation) once per
/// completed halving interval.
pub open spec fn spec_subsidy(height: u64) -> nat {
    (INITIAL_REWARD * 100_000_000) as nat / pow2((height / HALVING_INTERVAL) as nat)
}

/// Computes the block subsidy at `height` by repeated halving.
pub fn subsidy(height: u64) -> (r: u64)
    ensures
        r as nat == spec_subsidy(height),
{
    let halvings: u64 = height / HALVING_INTERVAL;
    let mut reward: u64 = INITIAL_REWARD * 100_000_000;
    let mut i: u64 = 0;
    proof {
        lemma2_to64();
    }
    while i < halvings && reward > 0
        invariant
            i <= halvings,
            reward as nat == (INITIAL_REWARD * 100_000_000) as nat / pow2(i as nat),
        decreases halvings - i,
    {
        proof {
            lemma_pow2_pos(i as nat);
            lemma_pow2_adds(i as nat, 1);
            lemma_div_denominator((INITIAL_REWARD * 100_000_000) as int, pow2(i as nat) as int, 2);
            lemma2_to64();
        }
        reward = reward / 2;
        i = i + 1;
    }
    proof {
        if reward == 0 && i < halvings {
            lemma_subsidy_zero_stays(i, halvings);
        }
    }
    reward
}

/// Once the subsidy has truncated to zero it is zero at every deeper
/// halving count.
proof fn lemma_subsidy_zero_stays(i: u64, j: u64)
    requires
        i <= j,
        (INITIAL_REWARD * 100_000_000) as nat / pow2(i as nat) == 0,
    ensures
        (INITIAL_REWARD * 100_000_000) as nat / pow2(j as nat) == 0,
{
    lemma_pow2_pos(i as nat);
    lemma_pow2_pos(j as nat);
    lemma_pow2_monotone(i as nat, j as nat);
    lemma_div_is_ordered_by_denominator(
        (INITIAL_REWARD * 100_000_000) as int,
        pow2(i as nat) as int,
        pow2(j as nat) as int,
    );
}

/// `pow2` is monotone in its exponent.
proof fn lemma_pow2_monotone(i: nat, j: nat)
    requires
        i <= j,
    ensures
        pow2(i) <= pow2(j),
    decreases j - i,
{
    if i < j {
        lemma_pow2_monotone(i, (j - 1) as nat);
        lemma_pow2_adds((j - 1) as nat, 1);
        lemma_pow2_pos((j - 1) as nat);
        lemma2_to64();
    }
}

/// The subsidy never grows as the chain gets taller.
pub proof fn lemma_subsidy_non_increasing(h1: u64, h2: u64)
    requires
        h1 <= h2,
    ensures
        spec_subsidy(h2) <= spec_subsidy(h1),
{
    let e1 = (h1 / HALVING_INTERVAL) as nat;
    let e2 = (h2 / HALVING_INTERVAL) as nat;
    assert(e1 <= e2) by (nonlinear_arith)
        requires
            h1 <= h2,
            e1 == (h1 / HALVING_INTERVAL) as nat,
            e2 == (h2 / HALVING_INTERVAL) as nat,
    ;
    lemma_pow2_pos(e1);
    lemma_pow2_pos(e2);
    lemma_pow2_monotone(e1, e2);
    lemma_div_is_ordered_by_denominator(
        (INITIAL_REWARD * 100_000_000) as int,
        pow2(e1) as int,
        pow2(e2) as int,
    );
}

/// Below the first halving boundary the subsidy is the full initial
/// reward in smallest units.
pub proof fn lemma_subsidy_initial(height: u64)
    requires
        height < HALVING_INTERVAL,
    ensures
        spec_subsidy(height) == INITIAL_REWARD * 100_000_000,
{
    assert(height / HALVING_INTERVAL == 0);
    lemma2_to64();
    assert((INITIAL_REWARD * 100_000_000) as nat / 1 == INITIAL_REWARD * 100_000_000);
}

/// Crossing one halving interval halves the subsidy, with truncating
/// division.
pub proof fn lemma_subsidy_halving(height: u64)
    requires
        height + HALVING_INTERVAL <= u64::MAX,
    ensures
        spec_subsidy((height + HALVING_INTERVAL) as u64) == spec_subsidy(height) / 2,
{
    let e = (height / HALVING_INTERVAL) as nat;
    assert((height + HALVING_INTERVAL) as u64 / HALVING_INTERVAL == e + 1) by (nonlinear_arith)
        requires
            e == (height / HALVING_INTERVAL) as nat,
            height + HALVING_INTERVAL <= u64::MAX,
            HALVING_INTERVAL == 210,
    ;
    lemma_pow2_pos(e);
    lemma_pow2_adds(e, 1);
    lemma_div_denominator((INITIAL_REWARD * 100_000_000) as int, pow2(e) as int, 2);
    lemma2_to64();
}

} // verus!
