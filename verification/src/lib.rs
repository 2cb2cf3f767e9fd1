//! A hybrid liquidity-routing engine for swapping between a yield-bearing
//! asset token and a stable settlement token.
//!
//! The engine combines an internal reserve pool funded by liquidity providers
//! (`pool`) with a set of independently operated external liquidity sources
//! (`stabilizer`) that are solicited on demand when the pool's own reserves
//! cannot fill a sell order.  A push oracle (`oracle`) supplies the fair
//! price and a default-risk score, a fungible token ledger (`token`) carries
//! the balances that every operation moves, and a simpler single-counterparty
//! market (`primary_market`) buys and sells at net asset value.
//!
//! Contract state lives in explicit owned structs that are passed by
//! reference into each operation; persistence and caller authentication are
//! the host's concern.  Every operation is atomic: on any error the ensures
//! clauses say that no state was changed.

use vstd::prelude::*;

pub mod fees;
pub mod ledger;
pub mod math;
pub mod oracle;
pub mod pool;
pub mod primary_market;
pub mod stabilizer;
pub mod token;

verus! {

/// Fixed-point scale for prices and token amounts: 7 fractional decimals.
pub const SCALE: i128 = 10_000_000;

/// Basis-points denominator: 10000 bps = 100%.
pub const BPS: u32 = 10_000;

/// Largest token amount a single operation accepts.  Keeping every amount,
/// reserve and share total at or below this bound makes every intermediate
/// product in the engine fit comfortably in an `i128`.
pub const MAX_AMOUNT: i128 = 1_000_000_000_000_000_000;

/// Largest total supply a token ledger will carry; keeps every balance sum
/// representable and leaves room for amounts minted at very low prices.
pub const MAX_SUPPLY: i128 = 1_000_000_000_000_000_000_000_000_000;

/// Largest fair price the oracle will report (ten million stable units per
/// asset unit at 7 decimals); bounds price products the same way.
pub const MAX_PRICE: i128 = 100_000_000_000_000;

/// Largest asset amount a single quote or execution can name.  The router
/// inflates an order by a 10% safety buffer before soliciting sources, so
/// this sits comfortably above `MAX_AMOUNT`.
pub const MAX_ROUTED: i128 = 2_000_000_000_000_000_000;

/// Largest gross stable value a single quoted order can reach:
/// `MAX_ROUTED / SCALE * MAX_PRICE`.
pub const MAX_VALUE: i128 = 20_000_000_000_000_000_000_000_000;

/// Net stable owed to a seller of `dob_amount` at reading `(nav, risk)`:
/// the gross value at the fair price, net of the risk-derived sell fee.
pub open spec fn spec_sell_net(dob_amount: i128, nav: i128, risk: u32) -> int {
    spec_net_after_fee(
        spec_gross_value(dob_amount as int, nav as int),
        fees::spec_sell_fee_bps(risk),
    )
}

/// Gross stable value of `dob_amount` asset units at fair price `nav`,
/// truncated toward zero.
pub open spec fn spec_gross_value(dob_amount: int, nav: int) -> int {
    (dob_amount * nav) / (SCALE as int)
}

/// `value` after deducting a fee of `fee_bps` basis points, truncated
/// toward zero.
pub open spec fn spec_net_after_fee(value: int, fee_bps: u32) -> int {
    (value * (BPS - fee_bps)) / (BPS as int)
}

/// Gross stable value of `dob_amount` at price `nav`, and that value net of
/// a `fee_bps` fee.
pub fn value_and_net(dob_amount: i128, nav: i128, fee_bps: u32) -> (r: (i128, i128))
    requires
        0 <= dob_amount <= MAX_ROUTED,
        0 < nav <= MAX_PRICE,
        fee_bps <= BPS,
    ensures
        r.0 == spec_gross_value(dob_amount as int, nav as int),
        r.1 == spec_net_after_fee(r.0 as int, fee_bps),
        0 <= r.1 <= r.0 <= MAX_VALUE,
{
    proof {
        assert(0 <= dob_amount * nav <= MAX_ROUTED * MAX_PRICE) by (nonlinear_arith)
            requires
                0 <= dob_amount <= MAX_ROUTED,
                0 < nav <= MAX_PRICE,
        ;
        vstd::arithmetic::div_mod::lemma_div_is_ordered(
            0,
            dob_amount * nav,
            SCALE as int,
        );
        vstd::arithmetic::div_mod::lemma_div_is_ordered(
            dob_amount * nav,
            MAX_ROUTED * MAX_PRICE,
            SCALE as int,
        );
    }
    let value = (dob_amount * nav) / SCALE;
    proof {
        let v = value as int;
        let f = (BPS - fee_bps) as int;
        assert(0 <= v * f <= v * (BPS as int)) by (nonlinear_arith)
            requires
                0 <= v,
                0 <= f <= BPS as int,
        ;
        vstd::arithmetic::div_mod::lemma_div_is_ordered(0, v * f, BPS as int);
        vstd::arithmetic::div_mod::lemma_div_is_ordered(v * f, v * (BPS as int), BPS as int);
        vstd::arithmetic::div_mod::lemma_div_multiples_vanish(v, BPS as int);
        assert(v * (BPS as int) == (BPS as int) * v) by (nonlinear_arith);
    }
    let net = (value * ((BPS - fee_bps) as i128)) / (BPS as i128);
    (value, net)
}

} // verus!
