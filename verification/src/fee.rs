//! The registration fee charged when a registry is set up.

use vstd::prelude::*;

verus! {

/// The number of slots a registry holds.
pub const MAX_SLOTS: usize = 5;

/// One whole unit of the native token, counted in its smallest denomination.
pub const BASE_UNIT: u128 = 1_000_000_000_000_000_000_000_000u128;

/// The fee owed for `valid_slot_count` configured slots: the first slot is
/// free, each further one costs a tenth of a unit.
pub open spec fn fee_for(valid_slot_count: nat) -> nat {
    if valid_slot_count <= 1 {
        0
    } else {
        ((valid_slot_count - 1) * BASE_UNIT / 10) as nat
    }
}

/// Reads `near_sdk::ONE_NEAR`, the balance of one whole token.
///
/// Trusted: the constant is taken to be 10^24, the value the SDK declares.
#[verifier::external_body]
fn base_unit() -> (unit: u128)
    ensures
        unit == BASE_UNIT,
{
    near_sdk::ONE_NEAR
}

/// Computes the fee for a registry with `valid_slot_count` configured slots.
pub fn registration_fee(valid_slot_count: usize) -> (fee: u128)
    requires
        valid_slot_count <= MAX_SLOTS,
    ensures
        fee == fee_for(valid_slot_count as nat),
{
    if valid_slot_count > 1 {
        let extra: u128 = (valid_slot_count - 1) as u128;
        extra * base_unit() / 10
    } else {
        0
    }
}

/// The fee never falls as slots are added.
pub proof fn fee_is_monotone(fewer: nat, more: nat)
    requires
        fewer <= more,
    ensures
        fee_for(fewer) <= fee_for(more),
{
    if fewer > 1 {
        assert((fewer - 1) * BASE_UNIT <= (more - 1) * BASE_UNIT) by (nonlinear_arith)
            requires
                fewer <= more,
        ;
    }
}

/// The fee at the ends of the range: nothing for at most one slot, and four
/// tenths of a unit for a full registry.
pub proof fn fee_at_bounds()
    ensures
        fee_for(0) == 0,
        fee_for(1) == 0,
        fee_for(MAX_SLOTS as nat) == 4 * BASE_UNIT / 10,
{
}

} // verus!
