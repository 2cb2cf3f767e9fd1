//! The primary-issuance market: a single-counterparty buy/sell-at-NAV flow.
//!
//! Buys mint fresh asset at the oracle's fair price, with most of the
//! stable forwarded to the operator; sells redeem asset against the
//! market's own stable holdings at the fair price less a risk-derived
//! penalty.

use vstd::prelude::*;
use crate::fees;
use crate::oracle::DobOracle;
use crate::token::DobToken;
use crate::spec_sell_net;
use crate::value_and_net;
use crate::MAX_AMOUNT;
use crate::MAX_SUPPLY;
use crate::SCALE;

verus! {

/// Share of a buy routed to the operator, in percent.
pub const OPERATOR_SHARE: u32 = 99;

/// Errors the primary market can return.
#[derive(Clone, Copy, Debug, PartialEq, Eq, Structural)]
pub enum Error {
    InsufficientLiquidity,
    InvalidAmount,
    TransferFailed,
}

/// What redeeming a given asset amount would pay, and at which penalty.
#[derive(Clone, Copy, Debug, PartialEq, Eq, Structural)]
pub struct RedemptionQuote {
    pub usdc_out: i128,
    pub penalty_bps: u32,
}

/// Stable forwarded to the operator on a buy of `usdc_amount`.
pub open spec fn spec_market_operator_amount(usdc_amount: i128) -> int {
    (usdc_amount * OPERATOR_SHARE) / 100
}

/// Asset minted to the buyer on a buy of `usdc_amount` at fair price `nav`.
pub open spec fn spec_market_minted(usdc_amount: i128, nav: i128) -> int {
    (spec_market_operator_amount(usdc_amount) * SCALE) / (nav as int)
}

/// The primary market's wiring and statistics.
pub struct DobPrimaryMarket {
    /// The market contract's own identity; it holds its redemption buffer
    /// under this identity on the stable ledger.
    pub id: u64,
    pub dob_token: u64,
    pub usdc_token: u64,
    pub oracle: u64,
    pub operator: u64,
    pub total_bought: i128,
    pub total_sold: i128,
}

impl DobPrimaryMarket {
    /// Well-formed: the statistics counters never go negative.
    pub open spec fn wf(self) -> bool {
        &&& 0 <= self.total_bought
        &&& 0 <= self.total_sold
    }

    /// Create the market, wired to its collaborators.
    pub fn initialize(id: u64, dob_token: u64, usdc_token: u64, oracle: u64, operator: u64) -> (m:
        DobPrimaryMarket)
        ensures
            m.wf(),
            m.id == id && m.dob_token == dob_token && m.usdc_token == usdc_token,
            m.oracle == oracle && m.operator == operator,
            m.total_bought == 0 && m.total_sold == 0,
    {
        DobPrimaryMarket { id, dob_token, usdc_token, oracle, operator, total_bought: 0, total_sold: 0 }
    }

    /// Buy DOB with USDC at net asset value: 99% of the stable goes to the
    /// operator, the rest stays with the market, and fresh asset is minted
    /// to the buyer.  On any error nothing changes.
    pub fn buy(
        &mut self,
        oracle: &DobOracle,
        usdc: &mut DobToken,
        dob: &mut DobToken,
        buyer: u64,
        usdc_amount: i128,
    ) -> (r: Result<i128, Error>)
        requires
            old(self).wf(),
            oracle.wf(),
            old(usdc).wf(),
            old(dob).wf(),
            oracle.id == old(self).oracle,
            old(usdc).id == old(self).usdc_token,
            old(dob).id == old(self).dob_token,
            old(dob).hook == old(self).id,
            usdc_amount <= MAX_AMOUNT,
            buyer != old(self).id,
            old(self).operator != old(self).id,
            usdc_amount > 0 ==> old(dob).total_supply + spec_market_minted(
                usdc_amount,
                oracle.nav,
            ) <= MAX_SUPPLY,
            old(self).total_bought <= i128::MAX - MAX_AMOUNT,
        ensures
            final(self).wf(),
            final(usdc).wf(),
            final(dob).wf(),
            old(usdc).same_config(*final(usdc)),
            old(dob).same_config(*final(dob)),
            final(usdc).total_supply == old(usdc).total_supply,
            final(self).id == old(self).id && final(self).dob_token == old(self).dob_token,
            final(self).usdc_token == old(self).usdc_token && final(self).oracle == old(
                self,
            ).oracle,
            final(self).operator == old(self).operator,
            final(self).total_sold == old(self).total_sold,
            r == Err::<i128, Error>(Error::InvalidAmount) <==> usdc_amount <= 0,
            r == Err::<i128, Error>(Error::TransferFailed) <==> usdc_amount > 0 && old(
                usdc,
            ).spec_balance(buyer) < usdc_amount,
            r is Err ==> *final(self) == *old(self) && *final(usdc) == *old(usdc) && *final(dob)
                == *old(dob),
            r is Ok <==> 0 < usdc_amount <= old(usdc).spec_balance(buyer),
            r is Ok ==> {
                let minted = spec_market_minted(usdc_amount, oracle.nav);
                let op_amount = spec_market_operator_amount(usdc_amount);
                &&& r == Ok::<i128, Error>(minted as i128)
                &&& final(self).total_bought == old(self).total_bought + usdc_amount
                &&& final(dob).total_supply == old(dob).total_supply + minted
                &&& final(dob).spec_balance(buyer) == old(dob).spec_balance(buyer) + minted
                &&& forall|k: u64|
                    k != buyer ==> final(dob).spec_balance(k) == old(dob).spec_balance(k)
                &&& (old(self).operator != buyer ==> final(usdc).spec_balance(buyer) == old(
                    usdc,
                ).spec_balance(buyer) - usdc_amount && final(usdc).spec_balance(old(self).operator)
                    == old(usdc).spec_balance(old(self).operator) + op_amount)
                &&& (old(self).operator == buyer ==> final(usdc).spec_balance(buyer) == old(
                    usdc,
                ).spec_balance(buyer) - usdc_amount + op_amount)
                &&& final(usdc).spec_balance(old(self).id) == old(usdc).spec_balance(old(self).id)
                    + usdc_amount - op_amount
                &&& forall|k: u64|
                    k != buyer && k != old(self).operator && k != old(self).id ==> final(usdc).spec_balance(k) == old(usdc).spec_balance(k)
            },
    {
        if usdc_amount <= 0 {
            return Err(Error::InvalidAmount);
        }
        let nav = oracle.nav();
        if usdc.balance(buyer) < usdc_amount {
            return Err(Error::TransferFailed);
        }
        proof {
            usdc.balances.lemma_entry_le_total(self.id);
        }
        let paid_in = usdc.transfer(buyer, self.id, usdc_amount);
        proof {
            assert(paid_in is Ok);
            crate::pool::lemma_prop_le(usdc_amount as int, OPERATOR_SHARE as int, 100);
        }
        let operator_amount = (usdc_amount * (OPERATOR_SHARE as i128)) / 100;
        let paid_out = usdc.transfer(self.id, self.operator, operator_amount);
        proof {
            assert(paid_out is Ok);
            crate::pool::lemma_prop_le(operator_amount * SCALE, 1, nav as int);
            assert(operator_amount * SCALE * 1 == operator_amount * SCALE) by (nonlinear_arith);
        }
        let dob_amount = (operator_amount * SCALE) / nav;
        let minted = dob.mint(self.id, buyer, dob_amount);
        proof {
            assert(minted is Ok);
        }
        self.total_bought = self.total_bought + usdc_amount;
        Ok(dob_amount)
    }

    /// Redeem DOB for USDC from the market's buffer at net asset value less
    /// the risk-derived penalty; the asset redeemed is burned.  On any
    /// error nothing changes.
    pub fn sell(
        &mut self,
        oracle: &DobOracle,
        usdc: &mut DobToken,
        dob: &mut DobToken,
        seller: u64,
        dob_amount: i128,
    ) -> (r: Result<i128, Error>)
        requires
            old(self).wf(),
            oracle.wf(),
            old(usdc).wf(),
            old(dob).wf(),
            oracle.id == old(self).oracle,
            old(usdc).id == old(self).usdc_token,
            old(dob).id == old(self).dob_token,
            old(dob).hook == old(self).id,
            dob_amount <= MAX_AMOUNT,
            seller != old(self).id,
            old(self).total_sold <= i128::MAX - MAX_AMOUNT,
        ensures
            final(self).wf(),
            final(usdc).wf(),
            final(dob).wf(),
            old(usdc).same_config(*final(usdc)),
            old(dob).same_config(*final(dob)),
            final(usdc).total_supply == old(usdc).total_supply,
            final(self).id == old(self).id && final(self).dob_token == old(self).dob_token,
            final(self).usdc_token == old(self).usdc_token && final(self).oracle == old(
                self,
            ).oracle,
            final(self).operator == old(self).operator,
            final(self).total_bought == old(self).total_bought,
            r == Err::<i128, Error>(Error::InvalidAmount) <==> dob_amount <= 0,
            r == Err::<i128, Error>(Error::InsufficientLiquidity) <==> 0 < dob_amount && old(
                usdc,
            ).spec_balance(old(self).id) < spec_sell_net(
                dob_amount,
                oracle.nav,
                oracle.default_risk,
            ),
            r == Err::<i128, Error>(Error::TransferFailed) <==> 0 < dob_amount && old(
                usdc,
            ).spec_balance(old(self).id) >= spec_sell_net(
                dob_amount,
                oracle.nav,
                oracle.default_risk,
            ) && old(dob).spec_balance(seller) < dob_amount,
            r is Err ==> *final(self) == *old(self) && *final(usdc) == *old(usdc) && *final(dob)
                == *old(dob),
            r is Ok <==> 0 < dob_amount && spec_sell_net(
                dob_amount,
                oracle.nav,
                oracle.default_risk,
            ) <= old(usdc).spec_balance(old(self).id) && dob_amount <= old(dob).spec_balance(
                seller,
            ),
            r is Ok ==> {
                let usdc_out = spec_sell_net(dob_amount, oracle.nav, oracle.default_risk);
                &&& r == Ok::<i128, Error>(usdc_out as i128)
                &&& final(self).total_sold == old(self).total_sold + dob_amount
                &&& final(dob).total_supply == old(dob).total_supply - dob_amount
                &&& final(dob).spec_balance(seller) == old(dob).spec_balance(seller) - dob_amount
                &&& forall|k: u64|
                    k != seller ==> final(dob).spec_balance(k) == old(dob).spec_balance(k)
                &&& final(usdc).spec_balance(seller) == old(usdc).spec_balance(seller) + usdc_out
                &&& final(usdc).spec_balance(old(self).id) == old(usdc).spec_balance(old(self).id)
                    - usdc_out
                &&& forall|k: u64|
                    k != seller && k != old(self).id ==> final(usdc).spec_balance(k) == old(
                        usdc,
                    ).spec_balance(k)
            },
    {
        if dob_amount <= 0 {
            return Err(Error::InvalidAmount);
        }
        let quote = self.quote_redemption(oracle, dob_amount);
        if usdc.balance(self.id) < quote.usdc_out {
            return Err(Error::InsufficientLiquidity);
        }
        if dob.balance(seller) < dob_amount {
            return Err(Error::TransferFailed);
        }
        let burned = dob.burn(self.id, seller, dob_amount);
        proof {
            assert(burned is Ok);
        }
        let paid = usdc.transfer(self.id, seller, quote.usdc_out);
        proof {
            assert(paid is Ok);
        }
        self.total_sold = self.total_sold + dob_amount;
        Ok(quote.usdc_out)
    }

    /// Quote what redeeming `dob_amount` would pay right now, and at which
    /// penalty: the fair-price value net of `300 + risk/10` basis points,
    /// capped at 5000.
    pub fn quote_redemption(&self, oracle: &DobOracle, dob_amount: i128) -> (q: RedemptionQuote)
        requires
            oracle.wf(),
            oracle.id == self.oracle,
            0 <= dob_amount <= MAX_AMOUNT,
        ensures
            q.penalty_bps == fees::spec_sell_fee_bps(oracle.default_risk),
            q.usdc_out == spec_sell_net(dob_amount, oracle.nav, oracle.default_risk),
            0 <= q.usdc_out,
    {
        let penalty_bps = fees::sell_fee_bps(oracle.default_risk());
        let (_value, usdc_out) = value_and_net(dob_amount, oracle.nav(), penalty_bps);
        RedemptionQuote { usdc_out, penalty_bps }
    }

    /// Current fair price, as the oracle reports it.
    pub fn get_nav(&self, oracle: &DobOracle) -> (n: i128)
        requires
            oracle.id == self.oracle,
        ensures
            n == oracle.nav,
    {
        oracle.nav()
    }

    /// Current default risk, as the oracle reports it.
    pub fn get_default_risk(&self, oracle: &DobOracle) -> (r: u32)
        requires
            oracle.id == self.oracle,
        ensures
            r == oracle.default_risk,
    {
        oracle.default_risk()
    }

    /// The collaborators this market is wired to.
    pub fn get_addresses(&self) -> (r: (u64, u64, u64, u64))
        ensures
            r == (self.dob_token, self.usdc_token, self.oracle, self.operator),
    {
        (self.dob_token, self.usdc_token, self.oracle, self.operator)
    }

    /// Cumulative statistics: stable spent on buys, asset redeemed.
    pub fn get_stats(&self) -> (r: (i128, i128))
        ensures
            r == (self.total_bought, self.total_sold),
    {
        (self.total_bought, self.total_sold)
    }

    /// Top the redemption buffer up with stable from `funder`.
    pub fn fund(&self, usdc: &mut DobToken, funder: u64, amount: i128) -> (r: Result<(), Error>)
        requires
            old(usdc).wf(),
            old(usdc).id == self.usdc_token,
        ensures
            final(usdc).wf(),
            old(usdc).same_config(*final(usdc)),
            final(usdc).total_supply == old(usdc).total_supply,
            r == Err::<(), Error>(Error::InvalidAmount) <==> amount <= 0,
            r == Err::<(), Error>(Error::TransferFailed) <==> 0 < amount && old(usdc).spec_balance(
                funder,
            ) < amount,
            r is Ok <==> 0 < amount <= old(usdc).spec_balance(funder),
            r is Err ==> *final(usdc) == *old(usdc),
            r is Ok && funder != self.id ==> final(usdc).spec_balance(funder) == old(
                usdc,
            ).spec_balance(funder) - amount && final(usdc).spec_balance(self.id) == old(
                usdc,
            ).spec_balance(self.id) + amount,
            r is Ok ==> forall|k: u64|
                k != funder && k != self.id ==> final(usdc).spec_balance(k) == old(
                    usdc,
                ).spec_balance(k),
            r is Ok && funder == self.id ==> forall|k: u64|
                final(usdc).spec_balance(k) == old(usdc).spec_balance(k),
    {
        if amount <= 0 {
            return Err(Error::InvalidAmount);
        }
        match usdc.transfer(funder, self.id, amount) {
            Ok(()) => Ok(()),
            Err(_) => Err(Error::TransferFailed),
        }
    }

    /// The market's own stable balance, available for redemptions.
    pub fn get_balance(&self, usdc: &DobToken) -> (b: i128)
        requires
            usdc.id == self.usdc_token,
        ensures
            b == usdc.spec_balance(self.id),
    {
        usdc.balance(self.id)
    }
}

} // verus!
