//! Arithmetic on amounts and rates.
//!
//! An amount is a number of cents, a rate a number of basis points. Every
//! formula is the floor of the exact value; a result that does not fit in 64
//! bits is the greatest 64-bit amount.

use vstd::prelude::*;

verus! {

/// Basis points in the whole: 10 000 basis points are 100%.
pub const BASIS_POINTS: u64 = 10_000;

/// Days in the year of a yearly rate.
pub const DAYS_PER_YEAR: u64 = 365;

/// The amount nearest to `x` from below that fits in 64 bits.
pub open spec fn saturated(x: nat) -> u64 {
    if x > u64::MAX {
        u64::MAX
    } else {
        x as u64
    }
}

/// The share `rate_bps` of `amount`, rounded down.
pub open spec fn share_of(amount: nat, rate_bps: nat) -> nat {
    amount * rate_bps / 10_000
}

/// What `amount` earns in `days` days at the yearly rate `rate_bps`, rounded
/// down.
pub open spec fn prorated(amount: nat, rate_bps: nat, days: nat) -> nat {
    amount * rate_bps * days / 3_650_000
}

/// `part` as a share of `total` in basis points, rounded down; 0 of nothing.
pub open spec fn ratio_bps(part: nat, total: nat) -> nat {
    if total == 0 {
        0
    } else {
        part * 10_000 / total
    }
}

proof fn lemma_quotient_saturates(p: int, d: int)
    requires
        p > u128::MAX,
        0 < d <= 0x1_0000_0000_0000_0000,
    ensures
        p / d > u64::MAX,
{
    assert(p >= 0x1_0000_0000_0000_0000 * 0x1_0000_0000_0000_0000);
    assert(p / d >= 0x1_0000_0000_0000_0000) by (nonlinear_arith)
        requires
            p >= 0x1_0000_0000_0000_0000 * 0x1_0000_0000_0000_0000,
            0 < d <= 0x1_0000_0000_0000_0000,
    ;
}

/// Computes [`share_of`], saturating.
pub fn share(amount: u64, rate_bps: u64) -> (part: u64)
    ensures
        part == saturated(share_of(amount as nat, rate_bps as nat)),
{
    assert(amount * rate_bps <= u64::MAX * u64::MAX) by (nonlinear_arith)
        requires
            amount <= u64::MAX,
            rate_bps <= u64::MAX,
    ;
    let product: u128 = (amount as u128) * (rate_bps as u128);
    let quotient: u128 = product / 10_000u128;
    if quotient > u64::MAX as u128 {
        u64::MAX
    } else {
        quotient as u64
    }
}

/// Computes [`prorated`], saturating.
pub fn prorate(amount: u128, rate_bps: u64, days: u64) -> (earned: u64)
    ensures
        earned == saturated(prorated(amount as nat, rate_bps as nat, days as nat)),
{
    if days == 0 {
        assert(amount * rate_bps * 0 == 0) by (nonlinear_arith);
        return 0;
    }
    let with_rate: u128 = match amount.checked_mul(rate_bps as u128) {
        Some(p) => p,
        None => {
            proof {
                assert(amount * rate_bps * days >= amount * rate_bps) by (nonlinear_arith)
                    requires
                        days >= 1,
                        amount * rate_bps >= 0,
                ;
                lemma_quotient_saturates(amount * rate_bps * days, 3_650_000);
            }
            return u64::MAX;
        },
    };
    let with_days: u128 = match with_rate.checked_mul(days as u128) {
        Some(p) => p,
        None => {
            proof {
                lemma_quotient_saturates(amount * rate_bps * days, 3_650_000);
            }
            return u64::MAX;
        },
    };
    let quotient: u128 = with_days / 3_650_000u128;
    if quotient > u64::MAX as u128 {
        u64::MAX
    } else {
        quotient as u64
    }
}

/// Computes [`ratio_bps`], saturating.
pub fn ratio(part: u64, total: u64) -> (bps: u64)
    ensures
        bps == saturated(ratio_bps(part as nat, total as nat)),
{
    if total == 0 {
        return 0;
    }
    let scaled: u128 = (part as u128) * 10_000u128;
    let quotient: u128 = scaled / (total as u128);
    if quotient > u64::MAX as u128 {
        u64::MAX
    } else {
        quotient as u64
    }
}

} // verus!
