//! Fee schedules derived from the oracle's default-risk score.

use vstd::prelude::*;

verus! {

/// Sell-side fee (and redemption penalty) in basis points: a 3% base plus
/// one tenth of the risk score, capped at 50%.
pub open spec fn spec_sell_fee_bps(risk: u32) -> u32 {
    if 300 + risk / 10 > 5000 {
        5000u32
    } else {
        (300 + risk / 10) as u32
    }
}

/// Fee a liquidity source charges, as a step function of the risk score:
/// 5% below 15% risk, 10% below 30%, 20% below 50%, 30% above.
pub open spec fn spec_node_fee_bps(risk: u32) -> u32 {
    if risk < 1500 {
        500u32
    } else if risk < 3000 {
        1000u32
    } else if risk < 5000 {
        2000u32
    } else {
        3000u32
    }
}

/// Sell-side fee: 3% base plus `risk / 10`, capped at 5000 bps.
#[verifier::when_used_as_spec(spec_sell_fee_bps)]
pub fn sell_fee_bps(risk: u32) -> (fee: u32)
    ensures
        fee == spec_sell_fee_bps(risk),
        300 <= fee <= 5000,
{
    let fee = 300 + risk / 10;
    if fee > 5000 {
        5000
    } else {
        fee
    }
}

/// Liquidity-source fee tier for the given risk score.
#[verifier::when_used_as_spec(spec_node_fee_bps)]
pub fn node_fee_bps(risk: u32) -> (fee: u32)
    ensures
        fee == spec_node_fee_bps(risk),
        500 <= fee <= 3000,
{
    if risk < 1500 {
        500
    } else if risk < 3000 {
        1000
    } else if risk < 5000 {
        2000
    } else {
        3000
    }
}

/// Raising the risk score never lowers the sell fee, and the fee never
/// exceeds 5000 bps however high the risk score goes.
pub proof fn lemma_sell_fee_monotone(r1: u32, r2: u32)
    requires
        r1 <= r2,
    ensures
        spec_sell_fee_bps(r1) <= spec_sell_fee_bps(r2),
        300 <= spec_sell_fee_bps(r2) <= 5000,
{
    vstd::arithmetic::div_mod::lemma_div_is_ordered(r1 as int, r2 as int, 10);
}

} // verus!
