//! A push oracle for the asset's net asset value and default risk.
//!
//! A trusted updater writes both readings; every other party only reads
//! them.  The fair price carries 7 fractional decimals and the risk score is
//! expressed in basis points.

use vstd::prelude::*;
use crate::fees;
use crate::MAX_PRICE;

verus! {

/// A snapshot of the oracle's readings, handed back by a successful update.
#[derive(Clone, Copy, Debug, PartialEq, Eq, Structural)]
pub struct OracleUpdate {
    pub nav: i128,
    pub default_risk: u32,
}

/// Errors the oracle can return.
#[derive(Clone, Copy, Debug, PartialEq, Eq, Structural)]
pub enum Error {
    Unauthorized,
}

/// Push oracle for net asset value (7 decimals) and default risk (bps).
pub struct DobOracle {
    /// The oracle contract's own identity, as other contracts address it.
    pub id: u64,
    pub updater: u64,
    pub nav: i128,
    pub default_risk: u32,
}

impl DobOracle {
    /// Readings the oracle accepts: a positive, bounded price and a risk
    /// score of at most 100%.
    pub open spec fn wf(self) -> bool {
        &&& 0 < self.nav <= MAX_PRICE
        &&& self.default_risk <= 10000
    }

    /// Create the oracle with its updater and initial readings.
    pub fn initialize(id: u64, updater: u64, initial_nav: i128, initial_risk: u32) -> (o: DobOracle)
        requires
            0 < initial_nav <= MAX_PRICE,
            initial_risk <= 10000,
        ensures
            o.wf(),
            o.id == id,
            o.updater == updater,
            o.nav == initial_nav,
            o.default_risk == initial_risk,
    {
        DobOracle { id, updater, nav: initial_nav, default_risk: initial_risk }
    }

    /// Current net asset value (e.g. 10000000 = 1.00 stable per asset).
    pub fn nav(&self) -> (n: i128)
        ensures
            n == self.nav,
    {
        self.nav
    }

    /// Current default risk in basis points (10000 bps = 100%).
    pub fn default_risk(&self) -> (r: u32)
        ensures
            r == self.default_risk,
    {
        self.default_risk
    }

    /// Replace both readings; only the updater may call.  On a refusal the
    /// readings stay as they were.
    pub fn update(&mut self, caller: u64, new_nav: i128, new_default_risk: u32) -> (r: Result<
        OracleUpdate,
        Error,
    >)
        requires
            old(self).wf(),
            0 < new_nav <= MAX_PRICE,
            new_default_risk <= 10000,
        ensures
            final(self).wf(),
            final(self).id == old(self).id,
            final(self).updater == old(self).updater,
            r is Ok <==> caller == old(self).updater,
            r is Ok ==> final(self).nav == new_nav && final(self).default_risk == new_default_risk
                && r == Ok::<OracleUpdate, Error>(
                OracleUpdate { nav: new_nav, default_risk: new_default_risk },
            ),
            r is Err ==> *final(self) == *old(self) && r == Err::<OracleUpdate, Error>(
                Error::Unauthorized,
            ),
    {
        if caller != self.updater {
            return Err(Error::Unauthorized);
        }
        self.nav = new_nav;
        self.default_risk = new_default_risk;
        Ok(OracleUpdate { nav: new_nav, default_risk: new_default_risk })
    }

    /// Identity allowed to push updates.
    pub fn updater(&self) -> (u: u64)
        ensures
            u == self.updater,
    {
        self.updater
    }

    /// Hand the updater role to another identity; only the current updater
    /// may call.
    pub fn set_updater(&mut self, caller: u64, new_updater: u64) -> (r: Result<(), Error>)
        ensures
            final(self).id == old(self).id,
            final(self).nav == old(self).nav,
            final(self).default_risk == old(self).default_risk,
            r is Ok <==> caller == old(self).updater,
            r is Ok ==> final(self).updater == new_updater,
            r is Err ==> *final(self) == *old(self) && r == Err::<(), Error>(Error::Unauthorized),
    {
        if caller != self.updater {
            return Err(Error::Unauthorized);
        }
        self.updater = new_updater;
        Ok(())
    }

    /// Redemption penalty for the current risk score: 3% base plus one
    /// tenth of the risk, capped at 50%.
    pub fn calculate_penalty(&self) -> (p: u32)
        ensures
            p == fees::spec_sell_fee_bps(self.default_risk),
    {
        fees::sell_fee_bps(self.default_risk)
    }
}

} // verus!
