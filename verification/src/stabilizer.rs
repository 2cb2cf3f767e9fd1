//! An external liquidity source: a pre-funded buffer that absorbs asset and
//! pays out stable on demand, at a fee tier derived from the oracle's risk
//! score.
//!
//! The pool solicits a quote with `request_quote` and, after picking a
//! winner, settles with `execute_liquidity`; sellers can also deal with the
//! source directly.  Quote and execution derive the same fee and amount from
//! the same readings, so a source never executes at a different price than
//! it quoted.

use vstd::prelude::*;
use crate::fees;
use crate::oracle::DobOracle;
use crate::pool::AmmPool;
use crate::token::DobToken;
use crate::spec_gross_value;
use crate::spec_net_after_fee;
use crate::value_and_net;
use crate::MAX_ROUTED;
use crate::MAX_VALUE;

verus! {

/// Errors the liquidity source can return.
#[derive(Clone, Copy, Debug, PartialEq, Eq, Structural)]
pub enum Error {
    Unauthorized,
    InsufficientBalance,
    InvalidAmount,
}

/// Stable amount a source pays for `dob_amount` at the oracle reading
/// `(nav, risk)`: the gross value net of the source's fee tier.
pub open spec fn spec_node_payout(dob_amount: i128, nav: i128, risk: u32) -> int {
    spec_net_after_fee(spec_gross_value(dob_amount as int, nav as int), fees::spec_node_fee_bps(risk))
}

/// A pre-funded external liquidity source.
pub struct LiquidNodeStabilizer {
    /// The source contract's own identity; it holds its buffer under this
    /// identity on both token ledgers.
    pub id: u64,
    pub oracle: u64,
    pub usdc_token: u64,
    pub dob_token: u64,
    pub operator: u64,
    pub amm_pool: u64,
    pub total_fees_earned: i128,
}

impl LiquidNodeStabilizer {
    /// Well-formed: fee revenue never goes negative.
    pub open spec fn wf(self) -> bool {
        0 <= self.total_fees_earned
    }

    /// Room to accrue one more order's fee without overflowing.
    pub open spec fn can_accrue(self) -> bool {
        self.total_fees_earned <= i128::MAX - MAX_VALUE
    }

    /// Create the source, wired to its collaborators, with no fee revenue.
    pub fn initialize(
        id: u64,
        oracle: u64,
        usdc_token: u64,
        dob_token: u64,
        operator: u64,
        amm_pool: u64,
    ) -> (s: LiquidNodeStabilizer)
        ensures
            s.wf(),
            s.id == id && s.oracle == oracle && s.usdc_token == usdc_token,
            s.dob_token == dob_token && s.operator == operator && s.amm_pool == amm_pool,
            s.total_fees_earned == 0,
    {
        LiquidNodeStabilizer { id, oracle, usdc_token, dob_token, operator, amm_pool, total_fees_earned: 0 }
    }

    /// Top the buffer up with stable from `funder`.
    pub fn fund_usdc(&self, usdc: &mut DobToken, funder: u64, amount: i128) -> (r: Result<
        (),
        Error,
    >)
        requires
            old(usdc).wf(),
            old(usdc).id == self.usdc_token,
        ensures
            final(usdc).wf(),
            old(usdc).same_config(*final(usdc)),
            final(usdc).total_supply == old(usdc).total_supply,
            r is Ok <==> 0 < amount <= old(usdc).spec_balance(funder),
            r == Err::<(), Error>(Error::InvalidAmount) <==> amount <= 0,
            r == Err::<(), Error>(Error::InsufficientBalance) <==> 0 < amount && old(
                usdc,
            ).spec_balance(funder) < amount,
            r is Err ==> *final(usdc) == *old(usdc),
            r is Ok && funder != self.id ==> final(usdc).spec_balance(funder) == old(
                usdc,
            ).spec_balance(funder) - amount && final(usdc).spec_balance(self.id) == old(
                usdc,
            ).spec_balance(self.id) + amount,
            r is Ok ==> forall|k: u64|
                k != funder && k != self.id ==> final(usdc).spec_balance(k) == old(
                    usdc,
                ).spec_balance(k),
            r is Ok && funder == self.id ==> forall|k: u64|
                final(usdc).spec_balance(k) == old(usdc).spec_balance(k),
    {
        if amount <= 0 {
            return Err(Error::InvalidAmount);
        }
        match usdc.transfer(funder, self.id, amount) {
            Ok(()) => Ok(()),
            Err(_) => Err(Error::InsufficientBalance),
        }
    }

    /// Top the buffer up with asset from `funder`.
    pub fn fund_dob(&self, dob: &mut DobToken, funder: u64, amount: i128) -> (r: Result<
        (),
        Error,
    >)
        requires
            old(dob).wf(),
            old(dob).id == self.dob_token,
        ensures
            final(dob).wf(),
            old(dob).same_config(*final(dob)),
            final(dob).total_supply == old(dob).total_supply,
            r is Ok <==> 0 < amount <= old(dob).spec_balance(funder),
            r == Err::<(), Error>(Error::InvalidAmount) <==> amount <= 0,
            r == Err::<(), Error>(Error::InsufficientBalance) <==> 0 < amount && old(
                dob,
            ).spec_balance(funder) < amount,
            r is Err ==> *final(dob) == *old(dob),
            r is Ok && funder != self.id ==> final(dob).spec_balance(funder) == old(
                dob,
            ).spec_balance(funder) - amount && final(dob).spec_balance(self.id) == old(
                dob,
            ).spec_balance(self.id) + amount,
            r is Ok ==> forall|k: u64|
                k != funder && k != self.id ==> final(dob).spec_balance(k) == old(
                    dob,
                ).spec_balance(k),
            r is Ok && funder == self.id ==> forall|k: u64|
                final(dob).spec_balance(k) == old(dob).spec_balance(k),
    {
        if amount <= 0 {
            return Err(Error::InvalidAmount);
        }
        match dob.transfer(funder, self.id, amount) {
            Ok(()) => Ok(()),
            Err(_) => Err(Error::InsufficientBalance),
        }
    }

    /// Quote what the source would pay for `dob_amount`: the gross value at
    /// the oracle's fair price, net of the risk-tier fee.  Declines with
    /// `InsufficientBalance` when its stable buffer cannot cover the payout.
    pub fn request_quote(&self, oracle: &DobOracle, usdc: &DobToken, dob_amount: i128) -> (r:
        Result<(i128, u32), Error>)
        requires
            oracle.wf(),
            usdc.wf(),
            oracle.id == self.oracle,
            usdc.id == self.usdc_token,
            dob_amount <= MAX_ROUTED,
        ensures
            r == Err::<(i128, u32), Error>(Error::InvalidAmount) <==> dob_amount <= 0,
            r == Err::<(i128, u32), Error>(Error::InsufficientBalance) <==> 0 < dob_amount
                && usdc.spec_balance(self.id) < spec_node_payout(
                dob_amount,
                oracle.nav,
                oracle.default_risk,
            ),
            r is Ok <==> 0 < dob_amount && spec_node_payout(
                dob_amount,
                oracle.nav,
                oracle.default_risk,
            ) <= usdc.spec_balance(self.id),
            r is Ok ==> r == Ok::<(i128, u32), Error>(
                (
                    spec_node_payout(dob_amount, oracle.nav, oracle.default_risk) as i128,
                    fees::spec_node_fee_bps(oracle.default_risk),
                ),
            ),
    {
        if dob_amount <= 0 {
            return Err(Error::InvalidAmount);
        }
        let fee_bps = fees::node_fee_bps(oracle.default_risk());
        let (_value, usdc_provided) = value_and_net(dob_amount, oracle.nav(), fee_bps);
        let usdc_balance = usdc.balance(self.id);
        if usdc_balance < usdc_provided {
            return Err(Error::InsufficientBalance);
        }
        Ok((usdc_provided, fee_bps))
    }

    /// Execute a previously quoted provision: re-derive the same fee and
    /// payout from the same readings, pay the seller from the buffer and
    /// accrue the fee margin.  Only the pool may call.
    pub fn execute_liquidity(
        &mut self,
        caller: u64,
        oracle: &DobOracle,
        usdc: &mut DobToken,
        seller: u64,
        dob_amount: i128,
    ) -> (r: Result<i128, Error>)
        requires
            old(self).wf(),
            old(self).can_accrue(),
            oracle.wf(),
            old(usdc).wf(),
            oracle.id == old(self).oracle,
            old(usdc).id == old(self).usdc_token,
            dob_amount <= MAX_ROUTED,
        ensures
            final(self).wf(),
            final(usdc).wf(),
            old(usdc).same_config(*final(usdc)),
            final(usdc).total_supply == old(usdc).total_supply,
            final(self).id == old(self).id && final(self).oracle == old(self).oracle,
            final(self).usdc_token == old(self).usdc_token && final(self).dob_token == old(
                self,
            ).dob_token,
            final(self).operator == old(self).operator && final(self).amm_pool == old(
                self,
            ).amm_pool,
            r == Err::<i128, Error>(Error::Unauthorized) <==> caller != old(self).amm_pool,
            r == Err::<i128, Error>(Error::InvalidAmount) <==> caller == old(self).amm_pool
                && dob_amount <= 0,
            r == Err::<i128, Error>(Error::InsufficientBalance) <==> caller == old(self).amm_pool
                && 0 < dob_amount && old(usdc).spec_balance(old(self).id) < spec_node_payout(
                dob_amount,
                oracle.nav,
                oracle.default_risk,
            ),
            r is Err ==> *final(self) == *old(self) && *final(usdc) == *old(usdc),
            r is Ok <==> caller == old(self).amm_pool && 0 < dob_amount && spec_node_payout(
                dob_amount,
                oracle.nav,
                oracle.default_risk,
            ) <= old(usdc).spec_balance(old(self).id),
            r is Ok ==> {
                let payout = spec_node_payout(dob_amount, oracle.nav, oracle.default_risk);
                &&& r == Ok::<i128, Error>(payout as i128)
                &&& 0 <= payout <= MAX_VALUE
                &&& final(self).total_fees_earned == old(self).total_fees_earned + (
                spec_gross_value(dob_amount as int, oracle.nav as int) - payout)
                &&& (seller != old(self).id ==> final(usdc).spec_balance(old(self).id) == old(
                    usdc,
                ).spec_balance(old(self).id) - payout && final(usdc).spec_balance(seller) == old(
                    usdc,
                ).spec_balance(seller) + payout)
                &&& (seller == old(self).id ==> forall|k: u64|
                    final(usdc).spec_balance(k) == old(usdc).spec_balance(k))
                &&& forall|k: u64|
                    k != seller && k != old(self).id ==> final(usdc).spec_balance(k) == old(
                        usdc,
                    ).spec_balance(k)
            },
    {
        if caller != self.amm_pool {
            return Err(Error::Unauthorized);
        }
        if dob_amount <= 0 {
            return Err(Error::InvalidAmount);
        }
        let fee_bps = fees::node_fee_bps(oracle.default_risk());
        let (value, usdc_provided) = value_and_net(dob_amount, oracle.nav(), fee_bps);
        let usdc_balance = usdc.balance(self.id);
        if usdc_balance < usdc_provided {
            return Err(Error::InsufficientBalance);
        }
        let transfer_result = usdc.transfer(self.id, seller, usdc_provided);
        proof {
            assert(transfer_result is Ok);
        }
        let fee_amount = value - usdc_provided;
        self.total_fees_earned = self.total_fees_earned + fee_amount;
        Ok(usdc_provided)
    }

    /// Sell `dob_amount` to the source directly, skipping the pool: the
    /// seller hands over asset and receives the quoted stable payout.
    pub fn provide_liquidity_direct(
        &mut self,
        oracle: &DobOracle,
        usdc: &mut DobToken,
        dob: &mut DobToken,
        seller: u64,
        dob_amount: i128,
    ) -> (r: Result<i128, Error>)
        requires
            old(self).wf(),
            old(self).can_accrue(),
            oracle.wf(),
            old(usdc).wf(),
            old(dob).wf(),
            oracle.id == old(self).oracle,
            old(usdc).id == old(self).usdc_token,
            old(dob).id == old(self).dob_token,
            dob_amount <= MAX_ROUTED,
            seller != old(self).id,
        ensures
            final(self).wf(),
            final(usdc).wf(),
            final(dob).wf(),
            old(usdc).same_config(*final(usdc)),
            old(dob).same_config(*final(dob)),
            final(usdc).total_supply == old(usdc).total_supply,
            final(dob).total_supply == old(dob).total_supply,
            final(self).id == old(self).id && final(self).oracle == old(self).oracle,
            final(self).usdc_token == old(self).usdc_token && final(self).dob_token == old(
                self,
            ).dob_token,
            final(self).operator == old(self).operator && final(self).amm_pool == old(
                self,
            ).amm_pool,
            r == Err::<i128, Error>(Error::InvalidAmount) <==> dob_amount <= 0,
            r == Err::<i128, Error>(Error::InsufficientBalance) <==> 0 < dob_amount && (old(
                usdc,
            ).spec_balance(old(self).id) < spec_node_payout(
                dob_amount,
                oracle.nav,
                oracle.default_risk,
            ) || old(dob).spec_balance(seller) < dob_amount),
            r is Err ==> *final(self) == *old(self) && *final(usdc) == *old(usdc) && *final(dob)
                == *old(dob),
            r is Ok <==> 0 < dob_amount && spec_node_payout(
                dob_amount,
                oracle.nav,
                oracle.default_risk,
            ) <= old(usdc).spec_balance(old(self).id) && dob_amount <= old(dob).spec_balance(
                seller,
            ),
            r is Ok ==> {
                let payout = spec_node_payout(dob_amount, oracle.nav, oracle.default_risk);
                &&& r == Ok::<i128, Error>(payout as i128)
                &&& final(self).total_fees_earned == old(self).total_fees_earned + (
                spec_gross_value(dob_amount as int, oracle.nav as int) - payout)
                &&& final(usdc).spec_balance(old(self).id) == old(usdc).spec_balance(old(self).id)
                    - payout
                &&& final(usdc).spec_balance(seller) == old(usdc).spec_balance(seller) + payout
                &&& forall|k: u64|
                    k != seller && k != old(self).id ==> final(usdc).spec_balance(k) == old(
                        usdc,
                    ).spec_balance(k)
                &&& final(dob).spec_balance(seller) == old(dob).spec_balance(seller) - dob_amount
                &&& final(dob).spec_balance(old(self).id) == old(dob).spec_balance(old(self).id)
                    + dob_amount
                &&& forall|k: u64|
                    k != seller && k != old(self).id ==> final(dob).spec_balance(k) == old(
                        dob,
                    ).spec_balance(k)
            },
    {
        if dob_amount <= 0 {
            return Err(Error::InvalidAmount);
        }
        let fee_bps = fees::node_fee_bps(oracle.default_risk());
        let (value, usdc_provided) = value_and_net(dob_amount, oracle.nav(), fee_bps);
        let usdc_balance = usdc.balance(self.id);
        if usdc_balance < usdc_provided {
            return Err(Error::InsufficientBalance);
        }
        if dob.balance(seller) < dob_amount {
            return Err(Error::InsufficientBalance);
        }
        let dob_result = dob.transfer(seller, self.id, dob_amount);
        proof {
            assert(dob_result is Ok);
        }
        let usdc_result = usdc.transfer(self.id, seller, usdc_provided);
        proof {
            assert(usdc_result is Ok);
        }
        let fee_amount = value - usdc_provided;
        self.total_fees_earned = self.total_fees_earned + fee_amount;
        Ok(usdc_provided)
    }

    /// Quote the direct-provision payout and fee without touching state.
    pub fn quote_liquidity_direct(&self, oracle: &DobOracle, dob_amount: i128) -> (r: (i128, u32))
        requires
            oracle.wf(),
            oracle.id == self.oracle,
            0 <= dob_amount <= MAX_ROUTED,
        ensures
            r.0 == spec_node_payout(dob_amount, oracle.nav, oracle.default_risk),
            r.1 == fees::spec_node_fee_bps(oracle.default_risk),
    {
        let fee_bps = fees::node_fee_bps(oracle.default_risk());
        let (_value, usdc_provided) = value_and_net(dob_amount, oracle.nav(), fee_bps);
        (usdc_provided, fee_bps)
    }

    /// Pay the accumulated fee revenue out to the operator; only the
    /// operator may call.
    pub fn withdraw_fees(&mut self, caller: u64, usdc: &mut DobToken) -> (r: Result<i128, Error>)
        requires
            old(self).wf(),
            old(usdc).wf(),
            old(usdc).id == old(self).usdc_token,
        ensures
            final(self).wf(),
            final(usdc).wf(),
            old(usdc).same_config(*final(usdc)),
            final(usdc).total_supply == old(usdc).total_supply,
            final(self).id == old(self).id && final(self).oracle == old(self).oracle,
            final(self).usdc_token == old(self).usdc_token && final(self).dob_token == old(
                self,
            ).dob_token,
            final(self).operator == old(self).operator && final(self).amm_pool == old(
                self,
            ).amm_pool,
            r == Err::<i128, Error>(Error::Unauthorized) <==> caller != old(self).operator,
            r == Err::<i128, Error>(Error::InsufficientBalance) <==> caller == old(self).operator
                && 0 < old(self).total_fees_earned && old(usdc).spec_balance(old(self).id) < old(
                self,
            ).total_fees_earned,
            r is Err ==> *final(self) == *old(self) && *final(usdc) == *old(usdc),
            r is Ok <==> caller == old(self).operator && (old(self).total_fees_earned == 0 || old(
                self,
            ).total_fees_earned <= old(usdc).spec_balance(old(self).id)),
            r is Ok ==> r == Ok::<i128, Error>(old(self).total_fees_earned)
                && final(self).total_fees_earned == 0,
            r is Ok && old(self).total_fees_earned > 0 && old(self).operator != old(self).id ==> {
                &&& final(usdc).spec_balance(old(self).id) == old(usdc).spec_balance(old(self).id)
                    - old(self).total_fees_earned
                &&& final(usdc).spec_balance(old(self).operator) == old(usdc).spec_balance(
                    old(self).operator,
                ) + old(self).total_fees_earned
            },
            r is Ok && (old(self).total_fees_earned == 0 || old(self).operator == old(self).id)
                ==> forall|k: u64| final(usdc).spec_balance(k) == old(usdc).spec_balance(k),
            r is Ok ==> forall|k: u64|
                k != old(self).id && k != old(self).operator ==> final(usdc).spec_balance(k) == old(
                    usdc,
                ).spec_balance(k),
    {
        if caller != self.operator {
            return Err(Error::Unauthorized);
        }
        let total_fees = self.total_fees_earned;
        if total_fees == 0 {
            return Ok(0);
        }
        if usdc.balance(self.id) < total_fees {
            return Err(Error::InsufficientBalance);
        }
        self.total_fees_earned = 0;
        let transfer_result = usdc.transfer(self.id, self.operator, total_fees);
        proof {
            assert(transfer_result is Ok);
        }
        Ok(total_fees)
    }

    /// The buffer's current stable and asset balances.
    pub fn get_balances(&self, usdc: &DobToken, dob: &DobToken) -> (r: (i128, i128))
        requires
            usdc.id == self.usdc_token,
            dob.id == self.dob_token,
        ensures
            r.0 == usdc.spec_balance(self.id),
            r.1 == dob.spec_balance(self.id),
    {
        (usdc.balance(self.id), dob.balance(self.id))
    }

    /// Total fee revenue accrued and not yet withdrawn.
    pub fn total_fees_earned(&self) -> (f: i128)
        ensures
            f == self.total_fees_earned,
    {
        self.total_fees_earned
    }

    /// The collaborators this source is wired to.
    pub fn get_addresses(&self) -> (r: (u64, u64, u64, u64, u64))
        ensures
            r == (self.oracle, self.usdc_token, self.dob_token, self.operator, self.amm_pool),
    {
        (self.oracle, self.usdc_token, self.dob_token, self.operator, self.amm_pool)
    }

    /// Enter `pool`'s source registry and remember the pool as the caller
    /// allowed to execute quotes; only the operator may call, and must also
    /// be the pool's operator with this source not yet registered there.
    pub fn register_with_pool(&mut self, caller: u64, pool: &mut AmmPool) -> (r: Result<(), Error>)
        requires
            old(pool).wf(),
            caller == old(self).operator ==> caller == old(pool).operator && !old(
                pool,
            ).spec_registered(old(self).id),
        ensures
            final(pool).wf(),
            final(self).id == old(self).id && final(self).oracle == old(self).oracle,
            final(self).usdc_token == old(self).usdc_token && final(self).dob_token == old(
                self,
            ).dob_token,
            final(self).operator == old(self).operator,
            final(self).total_fees_earned == old(self).total_fees_earned,
            r == Err::<(), Error>(Error::Unauthorized) <==> caller != old(self).operator,
            r is Err ==> *final(self) == *old(self) && *final(pool) == *old(pool),
            r is Ok <==> caller == old(self).operator,
            r is Ok ==> {
                &&& final(pool).liquid_nodes@ == old(pool).liquid_nodes@.push(old(self).id)
                &&& final(self).amm_pool == old(pool).id
                &&& final(pool).id == old(pool).id
                &&& final(pool).usdc_reserve == old(pool).usdc_reserve
                &&& final(pool).dob_reserve == old(pool).dob_reserve
                &&& final(pool).total_lp_shares == old(pool).total_lp_shares
                &&& final(pool).lp_shares == old(pool).lp_shares
            },
    {
        if caller != self.operator {
            return Err(Error::Unauthorized);
        }
        let registered = pool.register_liquid_node(caller, self.id);
        proof {
            assert(registered is Ok);
        }
        self.amm_pool = pool.id;
        Ok(())
    }
}

} // verus!
