//! The reserve pool and swap router.
//!
//! Liquidity providers deposit stable and asset into the pool for
//! proportional shares; buys mint fresh asset at the oracle's fair price;
//! sells are filled from pool reserves first and, when those fall short,
//! routed to registered external liquidity sources by competitive quote,
//! lowest fee first.

use vstd::prelude::*;
use crate::fees;
use crate::ledger::Ledger;
use crate::math;
use crate::oracle::DobOracle;
use crate::stabilizer::LiquidNodeStabilizer;
use crate::token::DobToken;
use crate::spec_gross_value;
use crate::spec_net_after_fee;
use crate::spec_sell_net;
use crate::value_and_net;
use crate::BPS;
use crate::MAX_AMOUNT;
use crate::MAX_ROUTED;
use crate::MAX_VALUE;
use crate::SCALE;

verus! {

/// Share of a buy's post-fee proceeds routed to the operator, in percent.
pub const OPERATOR_SHARE: u32 = 99;

/// Flat fee on buys, in basis points.
pub const DEX_FEE: u32 = 100;

/// Errors the pool can return.
#[derive(Clone, Copy, Debug, PartialEq, Eq, Structural)]
pub enum Error {
    InsufficientLiquidity,
    InvalidAmount,
    TransferFailed,
    NoLiquidityAvailable,
    InvalidLpShares,
    Unauthorized,
    AlreadyRegistered,
    NotRegistered,
}

/// How a prospective sell would be filled: total stable out, the pool-side
/// fee, and how the fill splits between pool reserves and external sources.
#[derive(Clone, Copy, Debug, PartialEq, Eq, Structural)]
pub struct SwapQuote {
    pub usdc_out: i128,
    pub total_fee_bps: u32,
    pub from_pool: i128,
    pub from_liquid_nodes: i128,
}

/// A proportional payout `reserve * shares / total` with `shares <= total`
/// never exceeds the reserve and never goes negative.
pub proof fn lemma_prop_le(reserve: int, shares: int, total: int)
    requires
        0 <= reserve,
        0 < shares,
        shares <= total,
    ensures
        0 <= (reserve * shares) / total <= reserve,
{
    assert(0 <= reserve * shares && reserve * shares <= reserve * total) by (nonlinear_arith)
        requires
            0 <= reserve,
            0 < shares <= total,
    ;
    vstd::arithmetic::div_mod::lemma_div_is_ordered(0, reserve * shares, total);
    vstd::arithmetic::div_mod::lemma_div_is_ordered(reserve * shares, reserve * total, total);
    vstd::arithmetic::div_mod::lemma_div_multiples_vanish(reserve, total);
    assert(reserve * total == total * reserve) by (nonlinear_arith);
    assert(0int / total == 0) by {
        vstd::arithmetic::div_mod::lemma_div_of0(total);
    }
}

/// Flat fee kept by the pool on a buy of `usdc_amount`.
pub open spec fn spec_buy_dex_fee(usdc_amount: i128) -> int {
    (usdc_amount * DEX_FEE) / (BPS as int)
}

/// Stable forwarded to the operator on a buy of `usdc_amount`.
pub open spec fn spec_buy_operator_amount(usdc_amount: i128) -> int {
    ((usdc_amount - spec_buy_dex_fee(usdc_amount)) * OPERATOR_SHARE) / 100
}

/// Asset minted to the buyer on a buy of `usdc_amount` at fair price `nav`.
pub open spec fn spec_buy_minted(usdc_amount: i128, nav: i128) -> int {
    (spec_buy_operator_amount(usdc_amount) * SCALE) / (nav as int)
}

/// The fee reported for a sell that was filled partly by the pool and
/// partly by an external source: the average of the two fees weighted by
/// the stable amount each side contributed, or the external fee alone when
/// the pool contributed nothing.
pub fn blended_fee_bps(
    pool_fee_bps: u32,
    from_pool: i128,
    external_fee_bps: u32,
    from_external: i128,
) -> (fee: u32)
    requires
        0 <= from_pool <= MAX_VALUE,
        0 < from_external <= MAX_VALUE,
        pool_fee_bps <= BPS,
        external_fee_bps <= BPS,
    ensures
        from_pool > 0 ==> fee == (pool_fee_bps * from_pool + external_fee_bps * from_external) / (
        from_pool + from_external),
        from_pool == 0 ==> fee == external_fee_bps,
        fee <= BPS,
{
    if from_pool > 0 {
        proof {
            assert(0 <= (pool_fee_bps as int) * from_pool <= (BPS as int) * (MAX_VALUE as int) && 0
                <= (external_fee_bps as int) * from_external <= (BPS as int) * (
            MAX_VALUE as int)) by (nonlinear_arith)
                requires
                    0 <= from_pool <= MAX_VALUE,
                    0 < from_external <= MAX_VALUE,
                    pool_fee_bps <= BPS,
                    external_fee_bps <= BPS,
            ;
        }
        let weighted = (pool_fee_bps as i128) * from_pool + (external_fee_bps as i128)
            * from_external;
        let total = from_pool + from_external;
        proof {
            assert(0 <= weighted <= (BPS as int) * total) by (nonlinear_arith)
                requires
                    weighted == (pool_fee_bps as int) * from_pool + (external_fee_bps as int)
                        * from_external,
                    total == from_pool + from_external,
                    0 <= from_pool,
                    0 < from_external,
                    pool_fee_bps <= BPS,
                    external_fee_bps <= BPS,
            ;
            vstd::arithmetic::div_mod::lemma_div_is_ordered(0, weighted as int, total as int);
            vstd::arithmetic::div_mod::lemma_div_is_ordered(
                weighted as int,
                (BPS as int) * total,
                total as int,
            );
            vstd::arithmetic::div_mod::lemma_div_multiples_vanish(BPS as int, total as int);
            assert((BPS as int) * total == (total as int) * (BPS as int)) by (nonlinear_arith);
            vstd::arithmetic::div_mod::lemma_div_of0(total as int);
        }
        (weighted / total) as u32
    } else {
        external_fee_bps
    }
}

/// Asset routed to an external source to cover a stable `shortage` at fair
/// price `nav`: the shortage converted back to asset, inflated by a 10%
/// safety buffer so the source's own fee cannot make it under-deliver.
pub open spec fn spec_dob_for_shortage(shortage: int, nav: i128) -> int {
    (((shortage * SCALE) / (nav as int)) * 11000) / 10000
}

/// Quote `j` exists and offers at least the required `shortage`.
pub open spec fn quote_feasible(quotes: Seq<Option<(i128, u32)>>, shortage: i128, j: int) -> bool {
    &&& 0 <= j < quotes.len()
    &&& quotes[j] is Some
    &&& quotes[j]->Some_0.0 >= shortage
}

/// Quote `i` is the winner: feasible, no feasible quote has a lower fee,
/// and among equal fees the earliest index wins.
pub open spec fn spec_selected(quotes: Seq<Option<(i128, u32)>>, shortage: i128, i: int) -> bool {
    &&& quote_feasible(quotes, shortage, i)
    &&& forall|j: int|
        quote_feasible(quotes, shortage, j) ==> quotes[i]->Some_0.1 <= quotes[j]->Some_0.1
    &&& forall|j: int|
        quote_feasible(quotes, shortage, j) && quotes[j]->Some_0.1 == quotes[i]->Some_0.1 ==> i
            <= j
}

/// What soliciting the source registered as `id` returns: nothing when no
/// such source answers or it declines, else its payout and fee for
/// `dob_for_shortage` at the current readings.
pub open spec fn spec_quote_outcome(
    id: u64,
    nodes: Seq<LiquidNodeStabilizer>,
    oracle: DobOracle,
    usdc: DobToken,
    dob_for_shortage: i128,
) -> Option<(i128, u32)> {
    if !(exists|j: int| 0 <= j < nodes.len() && nodes[j].id == id) {
        None
    } else if dob_for_shortage <= 0 {
        None
    } else if usdc.spec_balance(id) < crate::stabilizer::spec_node_payout(
        dob_for_shortage,
        oracle.nav,
        oracle.default_risk,
    ) {
        None
    } else {
        Some(
            (
                crate::stabilizer::spec_node_payout(
                    dob_for_shortage,
                    oracle.nav,
                    oracle.default_risk,
                ) as i128,
                fees::spec_node_fee_bps(oracle.default_risk),
            ),
        )
    }
}

/// The asset equivalent of a stable shortage never exceeds the asset that
/// produced it: converting the net value back through the same price
/// cannot grow the amount.
proof fn lemma_shortage_fits(dob_amount: int, nav: int, gross: int, shortage: int)
    requires
        0 < dob_amount,
        0 < nav,
        gross == (dob_amount * nav) / (SCALE as int),
        0 < shortage <= gross,
    ensures
        0 <= (shortage * (SCALE as int)) / nav <= dob_amount,
{
    vstd::arithmetic::div_mod::lemma_fundamental_div_mod(dob_amount * nav, SCALE as int);
    assert(gross * (SCALE as int) <= dob_amount * nav) by (nonlinear_arith)
        requires
            dob_amount * nav == (SCALE as int) * gross + (dob_amount * nav) % (SCALE as int),
            0 <= (dob_amount * nav) % (SCALE as int),
    ;
    assert(shortage * (SCALE as int) <= gross * (SCALE as int)) by (nonlinear_arith)
        requires
            shortage <= gross,
    ;
    vstd::arithmetic::div_mod::lemma_div_is_ordered(
        shortage * (SCALE as int),
        dob_amount * nav,
        nav,
    );
    vstd::arithmetic::div_mod::lemma_div_multiples_vanish(dob_amount, nav);
    assert(dob_amount * nav == nav * dob_amount) by (nonlinear_arith);
    vstd::arithmetic::div_mod::lemma_div_pos_is_pos(shortage * (SCALE as int), nav);
    assert(0 <= shortage * (SCALE as int)) by (nonlinear_arith)
        requires
            0 < shortage,
    ;
}

/// Find any source in `nodes` whose identity is `id`.
fn find_node(nodes: &Vec<LiquidNodeStabilizer>, id: u64) -> (r: Option<usize>)
    ensures
        r is Some ==> r->Some_0 < nodes@.len() && nodes@[r->Some_0 as int].id == id,
        r is None ==> forall|j: int| 0 <= j < nodes@.len() ==> nodes@[j].id != id,
{
    let n = nodes.len();
    let mut i: usize = 0;
    while i < n
        invariant
            0 <= i <= n,
            n == nodes@.len(),
            forall|j: int| 0 <= j < i ==> nodes@[j].id != id,
        decreases n - i,
    {
        if nodes[i].id == id {
            return Some(i);
        }
        i += 1;
    }
    None
}

/// Solicit every registered source in registration order, treating a
/// missing or declining source as "no quote".
fn collect_quotes(
    registry: &Vec<u64>,
    nodes: &Vec<LiquidNodeStabilizer>,
    oracle: &DobOracle,
    usdc: &DobToken,
    dob_for_shortage: i128,
) -> (qs: Vec<Option<(i128, u32)>>)
    requires
        oracle.wf(),
        usdc.wf(),
        dob_for_shortage <= MAX_ROUTED,
        forall|j: int|
            0 <= j < nodes@.len() ==> (#[trigger] nodes@[j]).oracle == oracle.id && nodes@[j].usdc_token
                == usdc.id,
    ensures
        qs@.len() == registry@.len(),
        forall|i: int|
            0 <= i < registry@.len() ==> qs@[i] == spec_quote_outcome(
                registry@[i],
                nodes@,
                *oracle,
                *usdc,
                dob_for_shortage,
            ),
{
    let n = registry.len();
    let mut qs: Vec<Option<(i128, u32)>> = Vec::new();
    let mut i: usize = 0;
    while i < n
        invariant
            0 <= i <= n,
            n == registry@.len(),
            qs@.len() == i,
            oracle.wf(),
            usdc.wf(),
            dob_for_shortage <= MAX_ROUTED,
            forall|j: int|
                0 <= j < nodes@.len() ==> (#[trigger] nodes@[j]).oracle == oracle.id
                    && nodes@[j].usdc_token == usdc.id,
            forall|m: int|
                0 <= m < i ==> qs@[m] == spec_quote_outcome(
                    registry@[m],
                    nodes@,
                    *oracle,
                    *usdc,
                    dob_for_shortage,
                ),
        decreases n - i,
    {
        let id = registry[i];
        let q: Option<(i128, u32)> = match find_node(nodes, id) {
            None => None,
            Some(w) => {
                match nodes[w].request_quote(oracle, usdc, dob_for_shortage) {
                    Ok(p) => Some(p),
                    Err(_) => None,
                }
            },
        };
        qs.push(q);
        i += 1;
    }
    qs
}

/// Pick the winning quote: among quotes offering at least `shortage`, the
/// one with the strictly lowest fee, ties broken by registration order.
pub fn select_best_quote(quotes: &Vec<Option<(i128, u32)>>, shortage: i128) -> (r: Option<usize>)
    requires
        forall|j: int|
            0 <= j < quotes@.len() && (#[trigger] quotes@[j]) is Some ==> quotes@[j]->Some_0.1
                < u32::MAX,
    ensures
        r is Some ==> spec_selected(quotes@, shortage, r->Some_0 as int),
        r is None ==> forall|j: int| !quote_feasible(quotes@, shortage, j),
{
    let n = quotes.len();
    let mut best: Option<usize> = None;
    let mut best_fee: u32 = u32::MAX;
    let mut i: usize = 0;
    while i < n
        invariant
            0 <= i <= n,
            n == quotes@.len(),
            forall|j: int|
                0 <= j < quotes@.len() && (#[trigger] quotes@[j]) is Some ==> quotes@[j]->Some_0.1
                    < u32::MAX,
            best is None ==> best_fee == u32::MAX && forall|j: int|
                0 <= j < i ==> !quote_feasible(quotes@, shortage, j),
            best is Some ==> {
                let b = best->Some_0 as int;
                &&& 0 <= b < i
                &&& quote_feasible(quotes@, shortage, b)
                &&& quotes@[b]->Some_0.1 == best_fee
                &&& forall|j: int|
                    0 <= j < i && quote_feasible(quotes@, shortage, j) ==> best_fee
                        <= quotes@[j]->Some_0.1
                &&& forall|j: int|
                    0 <= j < i && quote_feasible(quotes@, shortage, j)
                        && quotes@[j]->Some_0.1 == best_fee ==> b <= j
            },
        decreases n - i,
    {
        match quotes[i] {
            Some((usdc_provided, fee_bps)) => {
                if fee_bps < best_fee && usdc_provided >= shortage {
                    best = Some(i);
                    best_fee = fee_bps;
                }
            },
            None => {},
        }
        i += 1;
    }
    best
}

/// The reserve pool, its share ledger, and the source registry.
pub struct AmmPool {
    /// The pool contract's own identity; it holds custody under this
    /// identity on both token ledgers.
    pub id: u64,
    pub dob_token: u64,
    pub usdc_token: u64,
    pub oracle: u64,
    pub operator: u64,
    pub usdc_reserve: i128,
    pub dob_reserve: i128,
    pub total_lp_shares: i128,
    pub lp_shares: Ledger,
    pub liquid_nodes: Vec<u64>,
    pub total_bought: i128,
    pub total_sold: i128,
    pub dex_fee_collected: i128,
}

impl AmmPool {
    /// Well-formed: reserves and shares are non-negative and bounded, the
    /// share ledger sums to exactly the recorded total, the registry holds
    /// no duplicates, and the statistics counters never go negative.
    pub open spec fn wf(self) -> bool {
        &&& self.lp_shares.wf()
        &&& self.lp_shares.total() == self.total_lp_shares
        &&& 0 <= self.usdc_reserve <= MAX_AMOUNT
        &&& 0 <= self.dob_reserve <= MAX_AMOUNT
        &&& 0 <= self.total_lp_shares <= MAX_AMOUNT
        &&& forall|i: int, j: int|
            0 <= i < j < self.liquid_nodes@.len() ==> self.liquid_nodes@[i]
                != self.liquid_nodes@[j]
        &&& 0 <= self.total_bought
        &&& 0 <= self.total_sold
        &&& 0 <= self.dex_fee_collected
    }

    /// `node` is in the registry.
    pub open spec fn spec_registered(self, node: u64) -> bool {
        self.liquid_nodes@.contains(node)
    }

    /// Share conservation: in a well-formed pool the per-provider share
    /// entries sum to exactly the recorded share total.  Every operation
    /// of the pool takes a well-formed pool to a well-formed pool, so the
    /// equality holds after any sequence of deposits and withdrawals.
    pub proof fn lemma_share_conservation(self)
        requires
            self.wf(),
        ensures
            self.lp_shares.total() == self.total_lp_shares,
    {
    }

    /// The fields of the pool that a swap never touches.
    pub open spec fn same_wiring(self, other: AmmPool) -> bool {
        &&& self.id == other.id
        &&& self.dob_token == other.dob_token
        &&& self.usdc_token == other.usdc_token
        &&& self.oracle == other.oracle
        &&& self.operator == other.operator
        &&& self.liquid_nodes@ == other.liquid_nodes@
    }

    /// Create the pool, wired to its collaborators, with empty reserves,
    /// no shares and an empty registry.
    pub fn initialize(id: u64, dob_token: u64, usdc_token: u64, oracle: u64, operator: u64) -> (p:
        AmmPool)
        ensures
            p.wf(),
            p.id == id && p.dob_token == dob_token && p.usdc_token == usdc_token,
            p.oracle == oracle && p.operator == operator,
            p.usdc_reserve == 0 && p.dob_reserve == 0,
            p.total_lp_shares == 0,
            forall|k: u64| p.lp_shares.spec_get(k) == 0,
            p.liquid_nodes@.len() == 0,
            p.total_bought == 0 && p.total_sold == 0 && p.dex_fee_collected == 0,
    {
        AmmPool {
            id,
            dob_token,
            usdc_token,
            oracle,
            operator,
            usdc_reserve: 0,
            dob_reserve: 0,
            total_lp_shares: 0,
            lp_shares: Ledger::new(),
            liquid_nodes: Vec::new(),
            total_bought: 0,
            total_sold: 0,
            dex_fee_collected: 0,
        }
    }

    /// Append `node` to the registry; only the operator may call, and a
    /// node already present is refused.
    pub fn register_liquid_node(&mut self, caller: u64, node: u64) -> (r: Result<(), Error>)
        requires
            old(self).wf(),
        ensures
            final(self).wf(),
            final(self).id == old(self).id && final(self).dob_token == old(self).dob_token,
            final(self).usdc_token == old(self).usdc_token && final(self).oracle == old(
                self,
            ).oracle,
            final(self).operator == old(self).operator,
            final(self).usdc_reserve == old(self).usdc_reserve,
            final(self).dob_reserve == old(self).dob_reserve,
            final(self).total_lp_shares == old(self).total_lp_shares,
            final(self).lp_shares == old(self).lp_shares,
            final(self).total_bought == old(self).total_bought,
            final(self).total_sold == old(self).total_sold,
            final(self).dex_fee_collected == old(self).dex_fee_collected,
            r == Err::<(), Error>(Error::Unauthorized) <==> caller != old(self).operator,
            r == Err::<(), Error>(Error::AlreadyRegistered) <==> caller == old(self).operator
                && old(self).spec_registered(node),
            r is Ok <==> caller == old(self).operator && !old(self).spec_registered(node),
            r is Err ==> *final(self) == *old(self),
            r is Ok ==> final(self).liquid_nodes@ == old(self).liquid_nodes@.push(node),
    {
        if caller != self.operator {
            return Err(Error::Unauthorized);
        }
        let n = self.liquid_nodes.len();
        let mut i: usize = 0;
        while i < n
            invariant
                0 <= i <= n,
                n == self.liquid_nodes@.len(),
                *self == *old(self),
                old(self).wf(),
                caller == old(self).operator,
                forall|j: int| 0 <= j < i ==> self.liquid_nodes@[j] != node,
            decreases n - i,
        {
            if self.liquid_nodes[i] == node {
                proof {
                    assert(old(self).liquid_nodes@[i as int] == node);
                }
                return Err(Error::AlreadyRegistered);
            }
            i += 1;
        }
        proof {
            assert(!self.liquid_nodes@.contains(node));
        }
        self.liquid_nodes.push(node);
        Ok(())
    }

    /// Remove `node` from the registry, keeping the relative order of the
    /// remaining entries; only the operator may call.
    pub fn unregister_liquid_node(&mut self, caller: u64, node: u64) -> (r: Result<(), Error>)
        requires
            old(self).wf(),
        ensures
            final(self).wf(),
            final(self).id == old(self).id && final(self).dob_token == old(self).dob_token,
            final(self).usdc_token == old(self).usdc_token && final(self).oracle == old(
                self,
            ).oracle,
            final(self).operator == old(self).operator,
            final(self).usdc_reserve == old(self).usdc_reserve,
            final(self).dob_reserve == old(self).dob_reserve,
            final(self).total_lp_shares == old(self).total_lp_shares,
            final(self).lp_shares == old(self).lp_shares,
            final(self).total_bought == old(self).total_bought,
            final(self).total_sold == old(self).total_sold,
            final(self).dex_fee_collected == old(self).dex_fee_collected,
            r == Err::<(), Error>(Error::Unauthorized) <==> caller != old(self).operator,
            r == Err::<(), Error>(Error::NotRegistered) <==> caller == old(self).operator && !old(
                self,
            ).spec_registered(node),
            r is Ok <==> caller == old(self).operator && old(self).spec_registered(node),
            r is Err ==> *final(self) == *old(self),
            r is Ok ==> exists|i: int|
                0 <= i < old(self).liquid_nodes@.len() && old(self).liquid_nodes@[i] == node
                    && final(self).liquid_nodes@ == old(self).liquid_nodes@.remove(i),
            r is Ok ==> !final(self).spec_registered(node),
    {
        if caller != self.operator {
            return Err(Error::Unauthorized);
        }
        let n = self.liquid_nodes.len();
        let mut i: usize = 0;
        while i < n
            invariant
                0 <= i <= n,
                n == self.liquid_nodes@.len(),
                *self == *old(self),
                old(self).wf(),
                caller == old(self).operator,
                forall|j: int| 0 <= j < i ==> self.liquid_nodes@[j] != node,
            decreases n - i,
        {
            if self.liquid_nodes[i] == node {
                proof {
                    assert(old(self).liquid_nodes@[i as int] == node);
                }
                self.liquid_nodes.remove(i);
                proof {
                    let s = old(self).liquid_nodes@;
                    let t = self.liquid_nodes@;
                    assert(t =~= s.remove(i as int));
                    assert((i as int) < s.len() && s[i as int] == node && t == s.remove(
                        i as int,
                    ));
                    assert forall|k: int| 0 <= k < t.len() implies #[trigger] t[k] != node by {
                        if k < i as int {
                            assert(t[k] == s[k]);
                        } else {
                            assert(t[k] == s[k + 1]);
                        }
                    }
                    assert(!t.contains(node));
                }
                return Ok(());
            }
            i += 1;
        }
        proof {
            assert(!self.liquid_nodes@.contains(node));
        }
        Err(Error::NotRegistered)
    }

    /// Shares a deposit of `(usdc_amount, dob_amount)` mints against
    /// non-empty reserves: the lesser of the two proportional claims, so a
    /// deposit can never buy more shares than its scarcer side supports.
    pub open spec fn spec_prop_shares(self, usdc_amount: i128, dob_amount: i128) -> int {
        let u = (usdc_amount * self.total_lp_shares) / (self.usdc_reserve as int);
        let d = (dob_amount * self.total_lp_shares) / (self.dob_reserve as int);
        if u < d {
            u
        } else {
            d
        }
    }

    /// Stable paid out for burning `lp_shares` shares.
    pub open spec fn spec_usdc_out(self, lp_shares: i128) -> int {
        (self.usdc_reserve * lp_shares) / (self.total_lp_shares as int)
    }

    /// Asset paid out for burning `lp_shares` shares.
    pub open spec fn spec_dob_out(self, lp_shares: i128) -> int {
        (self.dob_reserve * lp_shares) / (self.total_lp_shares as int)
    }

    /// Deposit both assets and mint shares: the geometric mean of the
    /// amounts for the very first deposit, else in proportion to existing
    /// reserves.  Share conservation and all pool bounds are preserved, and
    /// on any error nothing changes.
    pub fn add_liquidity(
        &mut self,
        usdc: &mut DobToken,
        dob: &mut DobToken,
        provider: u64,
        usdc_amount: i128,
        dob_amount: i128,
    ) -> (r: Result<i128, Error>)
        requires
            old(self).wf(),
            old(usdc).wf(),
            old(dob).wf(),
            old(usdc).id == old(self).usdc_token,
            old(dob).id == old(self).dob_token,
            usdc_amount <= MAX_AMOUNT,
            dob_amount <= MAX_AMOUNT,
            old(self).usdc_reserve + usdc_amount <= MAX_AMOUNT,
            old(self).dob_reserve + dob_amount <= MAX_AMOUNT,
            old(self).total_lp_shares > 0 && old(self).usdc_reserve > 0 && old(self).dob_reserve
                > 0 ==> old(self).total_lp_shares + old(self).spec_prop_shares(
                usdc_amount,
                dob_amount,
            ) <= MAX_AMOUNT,
        ensures
            final(self).wf(),
            final(usdc).wf(),
            final(dob).wf(),
            old(self).same_wiring(*final(self)),
            old(usdc).same_config(*final(usdc)),
            old(dob).same_config(*final(dob)),
            final(usdc).total_supply == old(usdc).total_supply,
            final(dob).total_supply == old(dob).total_supply,
            final(self).total_bought == old(self).total_bought,
            final(self).total_sold == old(self).total_sold,
            final(self).dex_fee_collected == old(self).dex_fee_collected,
            r == Err::<i128, Error>(Error::InvalidAmount) <==> usdc_amount <= 0 || dob_amount <= 0,
            r == Err::<i128, Error>(Error::InvalidLpShares) <==> usdc_amount > 0 && dob_amount > 0
                && old(self).total_lp_shares > 0 && (old(self).usdc_reserve == 0 || old(
                self,
            ).dob_reserve == 0 || old(self).spec_prop_shares(usdc_amount, dob_amount) <= 0),
            r == Err::<i128, Error>(Error::TransferFailed) <==> usdc_amount > 0 && dob_amount > 0
                && (old(self).total_lp_shares == 0 || (old(self).usdc_reserve > 0 && old(
                self,
            ).dob_reserve > 0 && old(self).spec_prop_shares(usdc_amount, dob_amount) > 0)) && (old(
                usdc,
            ).spec_balance(provider) < usdc_amount || old(dob).spec_balance(provider)
                < dob_amount),
            r is Err ==> *final(self) == *old(self) && *final(usdc) == *old(usdc) && *final(dob)
                == *old(dob),
            r is Ok <==> usdc_amount > 0 && dob_amount > 0 && (old(self).total_lp_shares == 0 || (
            old(self).usdc_reserve > 0 && old(self).dob_reserve > 0 && old(self).spec_prop_shares(
                usdc_amount,
                dob_amount,
            ) > 0)) && old(usdc).spec_balance(provider) >= usdc_amount && old(dob).spec_balance(
                provider,
            ) >= dob_amount,
            r is Ok ==> {
                let minted = r->Ok_0;
                &&& 0 < minted
                &&& (old(self).total_lp_shares == 0 ==> math::is_isqrt(
                    usdc_amount * dob_amount,
                    minted as int,
                ))
                &&& (old(self).total_lp_shares > 0 ==> minted == old(self).spec_prop_shares(
                    usdc_amount,
                    dob_amount,
                ))
                &&& final(self).usdc_reserve == old(self).usdc_reserve + usdc_amount
                &&& final(self).dob_reserve == old(self).dob_reserve + dob_amount
                &&& final(self).total_lp_shares == old(self).total_lp_shares + minted
                &&& final(self).lp_shares.spec_get(provider) == old(self).lp_shares.spec_get(
                    provider,
                ) + minted
                &&& forall|k: u64|
                    k != provider ==> final(self).lp_shares.spec_get(k) == old(
                        self,
                    ).lp_shares.spec_get(k)
                &&& (provider != old(self).id ==> final(usdc).spec_balance(provider) == old(
                    usdc,
                ).spec_balance(provider) - usdc_amount && final(usdc).spec_balance(old(self).id)
                    == old(usdc).spec_balance(old(self).id) + usdc_amount && final(dob).spec_balance(provider) == old(dob).spec_balance(provider) - dob_amount && final(dob).spec_balance(old(self).id) == old(dob).spec_balance(old(self).id) + dob_amount)
                &&& (provider == old(self).id ==> (forall|k: u64|
                    final(usdc).spec_balance(k) == old(usdc).spec_balance(k)) && (forall|k: u64|
                    final(dob).spec_balance(k) == old(dob).spec_balance(k)))
                &&& forall|k: u64|
                    k != provider && k != old(self).id ==> final(usdc).spec_balance(k) == old(
                        usdc,
                    ).spec_balance(k) && final(dob).spec_balance(k) == old(dob).spec_balance(k)
            },
    {
        if usdc_amount <= 0 || dob_amount <= 0 {
            return Err(Error::InvalidAmount);
        }
        let total_lp = self.total_lp_shares;
        let lp_shares_minted: i128;
        if total_lp == 0 {
            proof {
                assert(1 <= usdc_amount * dob_amount <= MAX_AMOUNT * MAX_AMOUNT)
                    by (nonlinear_arith)
                    requires
                        1 <= usdc_amount <= MAX_AMOUNT,
                        1 <= dob_amount <= MAX_AMOUNT,
                ;
            }
            lp_shares_minted = math::isqrt(usdc_amount * dob_amount);
            proof {
                let m = lp_shares_minted as int;
                let p = usdc_amount * dob_amount;
                assert(1 <= m <= MAX_AMOUNT) by (nonlinear_arith)
                    requires
                        0 <= m,
                        m * m <= p,
                        p < (m + 1) * (m + 1),
                        1 <= p <= MAX_AMOUNT * MAX_AMOUNT,
                ;
            }
        } else {
            if self.usdc_reserve == 0 || self.dob_reserve == 0 {
                return Err(Error::InvalidLpShares);
            }
            proof {
                assert(0 <= usdc_amount * total_lp <= MAX_AMOUNT * MAX_AMOUNT && 0 <= dob_amount
                    * total_lp <= MAX_AMOUNT * MAX_AMOUNT) by (nonlinear_arith)
                    requires
                        0 < usdc_amount <= MAX_AMOUNT,
                        0 < dob_amount <= MAX_AMOUNT,
                        0 < total_lp <= MAX_AMOUNT,
                ;
            }
            let usdc_share = (usdc_amount * total_lp) / self.usdc_reserve;
            let dob_share = (dob_amount * total_lp) / self.dob_reserve;
            lp_shares_minted = if usdc_share < dob_share {
                usdc_share
            } else {
                dob_share
            };
            if lp_shares_minted <= 0 {
                return Err(Error::InvalidLpShares);
            }
        }
        if usdc.balance(provider) < usdc_amount {
            return Err(Error::TransferFailed);
        }
        if dob.balance(provider) < dob_amount {
            return Err(Error::TransferFailed);
        }
        let usdc_moved = usdc.transfer(provider, self.id, usdc_amount);
        proof {
            assert(usdc_moved is Ok);
        }
        let dob_moved = dob.transfer(provider, self.id, dob_amount);
        proof {
            assert(dob_moved is Ok);
        }
        self.usdc_reserve = self.usdc_reserve + usdc_amount;
        self.dob_reserve = self.dob_reserve + dob_amount;
        let provider_shares = self.lp_shares.get(provider);
        proof {
            self.lp_shares.lemma_entry_le_total(provider);
        }
        self.lp_shares.set(provider, provider_shares + lp_shares_minted);
        self.total_lp_shares = total_lp + lp_shares_minted;
        Ok(lp_shares_minted)
    }

    /// Burn `lp_shares` shares and pay out both reserves in proportion,
    /// truncated toward zero: the pool never overpays, and reserves never
    /// go negative.  On any error nothing changes.
    pub fn remove_liquidity(
        &mut self,
        usdc: &mut DobToken,
        dob: &mut DobToken,
        provider: u64,
        lp_shares: i128,
    ) -> (r: Result<(i128, i128), Error>)
        requires
            old(self).wf(),
            old(usdc).wf(),
            old(dob).wf(),
            old(usdc).id == old(self).usdc_token,
            old(dob).id == old(self).dob_token,
        ensures
            final(self).wf(),
            final(usdc).wf(),
            final(dob).wf(),
            old(self).same_wiring(*final(self)),
            old(usdc).same_config(*final(usdc)),
            old(dob).same_config(*final(dob)),
            final(usdc).total_supply == old(usdc).total_supply,
            final(dob).total_supply == old(dob).total_supply,
            final(self).total_bought == old(self).total_bought,
            final(self).total_sold == old(self).total_sold,
            final(self).dex_fee_collected == old(self).dex_fee_collected,
            r == Err::<(i128, i128), Error>(Error::InvalidAmount) <==> lp_shares <= 0,
            r == Err::<(i128, i128), Error>(Error::InvalidLpShares) <==> 0 < lp_shares && old(
                self,
            ).lp_shares.spec_get(provider) < lp_shares,
            r == Err::<(i128, i128), Error>(Error::TransferFailed) <==> 0 < lp_shares <= old(
                self,
            ).lp_shares.spec_get(provider) && (old(usdc).spec_balance(old(self).id) < old(
                self,
            ).spec_usdc_out(lp_shares) || old(dob).spec_balance(old(self).id) < old(
                self,
            ).spec_dob_out(lp_shares)),
            r is Err ==> *final(self) == *old(self) && *final(usdc) == *old(usdc) && *final(dob)
                == *old(dob),
            r is Ok <==> 0 < lp_shares <= old(self).lp_shares.spec_get(provider) && old(
                usdc,
            ).spec_balance(old(self).id) >= old(self).spec_usdc_out(lp_shares) && old(
                dob,
            ).spec_balance(old(self).id) >= old(self).spec_dob_out(lp_shares),
            r is Ok ==> {
                let usdc_out = old(self).spec_usdc_out(lp_shares);
                let dob_out = old(self).spec_dob_out(lp_shares);
                &&& r == Ok::<(i128, i128), Error>((usdc_out as i128, dob_out as i128))
                &&& 0 <= usdc_out <= old(self).usdc_reserve
                &&& 0 <= dob_out <= old(self).dob_reserve
                &&& final(self).usdc_reserve == old(self).usdc_reserve - usdc_out
                &&& final(self).dob_reserve == old(self).dob_reserve - dob_out
                &&& final(self).total_lp_shares == old(self).total_lp_shares - lp_shares
                &&& final(self).lp_shares.spec_get(provider) == old(self).lp_shares.spec_get(
                    provider,
                ) - lp_shares
                &&& forall|k: u64|
                    k != provider ==> final(self).lp_shares.spec_get(k) == old(
                        self,
                    ).lp_shares.spec_get(k)
                &&& (provider != old(self).id ==> final(usdc).spec_balance(provider) == old(
                    usdc,
                ).spec_balance(provider) + usdc_out && final(usdc).spec_balance(old(self).id)
                    == old(usdc).spec_balance(old(self).id) - usdc_out && final(dob).spec_balance(provider) == old(dob).spec_balance(provider) + dob_out && final(dob).spec_balance(old(self).id) == old(dob).spec_balance(old(self).id) - dob_out)
                &&& (provider == old(self).id ==> (forall|k: u64|
                    final(usdc).spec_balance(k) == old(usdc).spec_balance(k)) && (forall|k: u64|
                    final(dob).spec_balance(k) == old(dob).spec_balance(k)))
                &&& forall|k: u64|
                    k != provider && k != old(self).id ==> final(usdc).spec_balance(k) == old(
                        usdc,
                    ).spec_balance(k) && final(dob).spec_balance(k) == old(dob).spec_balance(k)
            },
    {
        if lp_shares <= 0 {
            return Err(Error::InvalidAmount);
        }
        let provider_shares = self.lp_shares.get(provider);
        if provider_shares < lp_shares {
            return Err(Error::InvalidLpShares);
        }
        proof {
            self.lp_shares.lemma_entry_le_total(provider);
            lemma_prop_le(self.usdc_reserve as int, lp_shares as int, self.total_lp_shares as int);
            lemma_prop_le(self.dob_reserve as int, lp_shares as int, self.total_lp_shares as int);
            assert(0 <= self.usdc_reserve * lp_shares <= MAX_AMOUNT * MAX_AMOUNT && 0
                <= self.dob_reserve * lp_shares <= MAX_AMOUNT * MAX_AMOUNT) by (nonlinear_arith)
                requires
                    0 <= self.usdc_reserve <= MAX_AMOUNT,
                    0 <= self.dob_reserve <= MAX_AMOUNT,
                    0 < lp_shares <= MAX_AMOUNT,
            ;
        }
        let usdc_out = (self.usdc_reserve * lp_shares) / self.total_lp_shares;
        let dob_out = (self.dob_reserve * lp_shares) / self.total_lp_shares;
        if usdc.balance(self.id) < usdc_out {
            return Err(Error::TransferFailed);
        }
        if dob.balance(self.id) < dob_out {
            return Err(Error::TransferFailed);
        }
        self.usdc_reserve = self.usdc_reserve - usdc_out;
        self.dob_reserve = self.dob_reserve - dob_out;
        self.lp_shares.set(provider, provider_shares - lp_shares);
        self.total_lp_shares = self.total_lp_shares - lp_shares;
        let usdc_moved = usdc.transfer(self.id, provider, usdc_out);
        proof {
            assert(usdc_moved is Ok);
        }
        let dob_moved = dob.transfer(self.id, provider, dob_out);
        proof {
            assert(dob_moved is Ok);
        }
        Ok((usdc_out, dob_out))
    }

    /// Buy DOB with USDC at the oracle's fair price.  The pool's reserves
    /// are untouched: a flat fee is kept, most of the remainder goes to the
    /// operator, and fresh asset supply is minted to the buyer.  On any
    /// error nothing changes.
    pub fn swap_buy(
        &mut self,
        oracle: &DobOracle,
        usdc: &mut DobToken,
        dob: &mut DobToken,
        buyer: u64,
        usdc_amount: i128,
    ) -> (r: Result<i128, Error>)
        requires
            old(self).wf(),
            oracle.wf(),
            old(usdc).wf(),
            old(dob).wf(),
            oracle.id == old(self).oracle,
            old(usdc).id == old(self).usdc_token,
            old(dob).id == old(self).dob_token,
            old(dob).hook == old(self).id,
            usdc_amount <= MAX_AMOUNT,
            buyer != old(self).id,
            old(self).operator != old(self).id,
            usdc_amount > 0 ==> old(dob).total_supply + spec_buy_minted(usdc_amount, oracle.nav)
                <= crate::MAX_SUPPLY,
            old(self).total_bought <= i128::MAX - MAX_AMOUNT,
            old(self).dex_fee_collected <= i128::MAX - MAX_AMOUNT,
        ensures
            final(self).wf(),
            final(usdc).wf(),
            final(dob).wf(),
            old(self).same_wiring(*final(self)),
            old(usdc).same_config(*final(usdc)),
            old(dob).same_config(*final(dob)),
            final(usdc).total_supply == old(usdc).total_supply,
            final(self).usdc_reserve == old(self).usdc_reserve,
            final(self).dob_reserve == old(self).dob_reserve,
            final(self).total_lp_shares == old(self).total_lp_shares,
            final(self).lp_shares == old(self).lp_shares,
            final(self).total_sold == old(self).total_sold,
            r == Err::<i128, Error>(Error::InvalidAmount) <==> usdc_amount <= 0,
            r == Err::<i128, Error>(Error::TransferFailed) <==> usdc_amount > 0 && old(
                usdc,
            ).spec_balance(buyer) < usdc_amount,
            r is Err ==> *final(self) == *old(self) && *final(usdc) == *old(usdc) && *final(dob)
                == *old(dob),
            r is Ok <==> 0 < usdc_amount <= old(usdc).spec_balance(buyer),
            r is Ok ==> {
                let minted = spec_buy_minted(usdc_amount, oracle.nav);
                let op_amount = spec_buy_operator_amount(usdc_amount);
                &&& r == Ok::<i128, Error>(minted as i128)
                &&& final(self).total_bought == old(self).total_bought + usdc_amount
                &&& final(self).dex_fee_collected == old(self).dex_fee_collected
                    + spec_buy_dex_fee(usdc_amount)
                &&& final(dob).total_supply == old(dob).total_supply + minted
                &&& final(dob).spec_balance(buyer) == old(dob).spec_balance(buyer) + minted
                &&& forall|k: u64|
                    k != buyer ==> final(dob).spec_balance(k) == old(dob).spec_balance(k)
                &&& (old(self).operator != buyer ==> final(usdc).spec_balance(buyer) == old(
                    usdc,
                ).spec_balance(buyer) - usdc_amount && final(usdc).spec_balance(old(self).operator)
                    == old(usdc).spec_balance(old(self).operator) + op_amount)
                &&& (old(self).operator == buyer ==> final(usdc).spec_balance(buyer) == old(
                    usdc,
                ).spec_balance(buyer) - usdc_amount + op_amount)
                &&& final(usdc).spec_balance(old(self).id) == old(usdc).spec_balance(old(self).id)
                    + usdc_amount - op_amount
                &&& forall|k: u64|
                    k != buyer && k != old(self).operator && k != old(self).id ==> final(usdc).spec_balance(k) == old(usdc).spec_balance(k)
            },
    {
        if usdc_amount <= 0 {
            return Err(Error::InvalidAmount);
        }
        let fair_price = oracle.nav();
        if usdc.balance(buyer) < usdc_amount {
            return Err(Error::TransferFailed);
        }
        proof {
            usdc.balances.lemma_entry_le_total(self.id);
        }
        let paid_in = usdc.transfer(buyer, self.id, usdc_amount);
        proof {
            assert(paid_in is Ok);
            lemma_prop_le(usdc_amount as int, DEX_FEE as int, BPS as int);
        }
        let dex_fee = (usdc_amount * (DEX_FEE as i128)) / (BPS as i128);
        let amount_after_fee = usdc_amount - dex_fee;
        proof {
            lemma_prop_le(amount_after_fee as int, OPERATOR_SHARE as int, 100);
        }
        let operator_amount = (amount_after_fee * (OPERATOR_SHARE as i128)) / 100;
        let paid_out = usdc.transfer(self.id, self.operator, operator_amount);
        proof {
            assert(paid_out is Ok);
            lemma_prop_le(operator_amount * SCALE, 1, fair_price as int);
            assert(operator_amount * SCALE * 1 == operator_amount * SCALE) by (nonlinear_arith);
        }
        let dob_amount = (operator_amount * SCALE) / fair_price;
        let minted = dob.mint(self.id, buyer, dob_amount);
        proof {
            assert(minted is Ok);
        }
        self.total_bought = self.total_bought + usdc_amount;
        self.dex_fee_collected = self.dex_fee_collected + dex_fee;
        Ok(dob_amount)
    }

    /// The quotes the registry would produce for routing `dob_for_shortage`
    /// asset units, in registration order.
    pub open spec fn spec_sell_quotes(
        self,
        nodes: Seq<LiquidNodeStabilizer>,
        oracle: DobOracle,
        usdc: DobToken,
        dob_for_shortage: i128,
    ) -> Seq<Option<(i128, u32)>> {
        Seq::new(
            self.liquid_nodes@.len(),
            |i: int| spec_quote_outcome(self.liquid_nodes@[i], nodes, oracle, usdc, dob_for_shortage),
        )
    }

    /// Sell DOB for USDC.  Custody of the whole amount is taken up front;
    /// the order is filled from pool reserves when they cover the net owed,
    /// else the shortage is routed to the best-quoting external source; the
    /// asset sold is burned.  On any error nothing changes, anywhere.
    ///
    /// Caution, candidate design defect: in the external branch the pool
    /// absorbs the seller's remaining asset at zero stable cost, diluting
    /// provider value relative to the fair price, and because the routed
    /// amount carries a 10% safety buffer the pool may forward more asset
    /// to the winning source than this order sold, drawing on its own
    /// holdings.  The contract states both flows exactly rather than
    /// endorsing them; confirm the intent with the domain owners before
    /// relying on either.
    pub fn swap_sell(
        &mut self,
        oracle: &DobOracle,
        usdc: &mut DobToken,
        dob: &mut DobToken,
        nodes: &mut Vec<LiquidNodeStabilizer>,
        seller: u64,
        dob_amount: i128,
    ) -> (r: Result<i128, Error>)
        requires
            old(self).wf(),
            oracle.wf(),
            old(usdc).wf(),
            old(dob).wf(),
            oracle.id == old(self).oracle,
            old(usdc).id == old(self).usdc_token,
            old(dob).id == old(self).dob_token,
            old(dob).hook == old(self).id,
            dob_amount <= MAX_AMOUNT,
            old(self).dob_reserve + dob_amount <= MAX_AMOUNT,
            seller != old(self).id,
            old(self).total_sold <= i128::MAX - MAX_AMOUNT,
            forall|j: int|
                0 <= j < old(nodes)@.len() ==> {
                    let n = #[trigger] old(nodes)@[j];
                    &&& n.wf()
                    &&& n.can_accrue()
                    &&& n.oracle == old(self).oracle
                    &&& n.usdc_token == old(self).usdc_token
                    &&& n.amm_pool == old(self).id
                    &&& n.id != old(self).id
                    &&& n.id != seller
                },
        ensures
            final(self).wf(),
            final(usdc).wf(),
            final(dob).wf(),
            old(self).same_wiring(*final(self)),
            old(usdc).same_config(*final(usdc)),
            old(dob).same_config(*final(dob)),
            final(usdc).total_supply == old(usdc).total_supply,
            final(self).total_lp_shares == old(self).total_lp_shares,
            final(self).lp_shares == old(self).lp_shares,
            final(self).total_bought == old(self).total_bought,
            final(self).dex_fee_collected == old(self).dex_fee_collected,
            r == Err::<i128, Error>(Error::InvalidAmount) <==> dob_amount <= 0,
            r is Err ==> *final(self) == *old(self) && *final(usdc) == *old(usdc) && *final(dob)
                == *old(dob) && final(nodes)@ == old(nodes)@,
            ({
                let net = spec_sell_net(dob_amount, oracle.nav, oracle.default_risk);
                let shortage = net - old(self).usdc_reserve;
                let dfs = spec_dob_for_shortage(shortage, oracle.nav);
                let dfp = if dob_amount > dfs {
                    dob_amount - dfs
                } else {
                    0
                };
                let quotes = old(self).spec_sell_quotes(old(nodes)@, *oracle, *old(usdc), dfs as i128);
                let pool_pays = old(self).usdc_reserve > 0 && dfp > 0;
                let pool_funded = !pool_pays || old(usdc).spec_balance(old(self).id) >= old(
                    self,
                ).usdc_reserve;
                let custody_ok = old(dob).spec_balance(seller) >= dob_amount;
                &&& (r == Err::<i128, Error>(Error::NoLiquidityAvailable) <==> 0 < dob_amount
                    && custody_ok && old(self).usdc_reserve < net && (old(
                    self,
                ).liquid_nodes@.len() == 0 || forall|j: int|
                    !(#[trigger] quote_feasible(quotes, shortage as i128, j))))
                &&& (r == Err::<i128, Error>(Error::TransferFailed) <==> 0 < dob_amount && (
                !custody_ok || (custody_ok && old(self).usdc_reserve >= net && old(
                    usdc,
                ).spec_balance(old(self).id) < net) || (custody_ok && old(self).usdc_reserve < net
                    && (exists|j: int| #[trigger] quote_feasible(quotes, shortage as i128, j)) && (
                !pool_funded || (pool_funded && old(dob).spec_balance(old(self).id) < dfs)))))
                &&& (r is Ok <==> 0 < dob_amount && custody_ok && ((old(self).usdc_reserve >= net
                    && old(usdc).spec_balance(old(self).id) >= net) || (old(self).usdc_reserve
                    < net && (exists|j: int| #[trigger] quote_feasible(quotes, shortage as i128, j))
                    && pool_funded && old(dob).spec_balance(old(self).id) >= dfs)))
                &&& (r is Ok ==> final(self).total_sold == old(self).total_sold + dob_amount
                    && final(dob).total_supply == old(dob).total_supply - dob_amount && final(dob).spec_balance(seller) == old(dob).spec_balance(seller) - dob_amount)
                &&& ((r is Ok && old(self).usdc_reserve >= net) ==> {
                    &&& r == Ok::<i128, Error>(net as i128)
                    &&& final(self).usdc_reserve == old(self).usdc_reserve - net
                    &&& final(self).dob_reserve == old(self).dob_reserve + dob_amount
                    &&& final(usdc).spec_balance(seller) == old(usdc).spec_balance(seller) + net
                    &&& final(usdc).spec_balance(old(self).id) == old(usdc).spec_balance(
                        old(self).id,
                    ) - net
                    &&& forall|k: u64|
                        k != seller && k != old(self).id ==> final(usdc).spec_balance(k) == old(
                            usdc,
                        ).spec_balance(k)
                    &&& final(dob).spec_balance(old(self).id) == old(dob).spec_balance(
                        old(self).id,
                    )
                    &&& forall|k: u64|
                        k != seller ==> final(dob).spec_balance(k) == old(dob).spec_balance(k)
                    &&& final(nodes)@ == old(nodes)@
                })
                &&& ((r is Ok && old(self).usdc_reserve < net) ==> exists|bi: int|
                    #[trigger] spec_selected(quotes, shortage as i128, bi) && {
                        let winner = old(self).liquid_nodes@[bi];
                        let payout = quotes[bi]->Some_0.0;
                        let from_pool: int = if pool_pays {
                            old(self).usdc_reserve as int
                        } else {
                            0
                        };
                        &&& spec_selected(quotes, shortage as i128, bi)
                        &&& r == Ok::<i128, Error>((from_pool + payout) as i128)
                        &&& (pool_pays ==> final(self).usdc_reserve == 0 && final(self).dob_reserve
                            == old(self).dob_reserve + dfp)
                        &&& (!pool_pays ==> final(self).usdc_reserve == old(self).usdc_reserve
                            && final(self).dob_reserve == old(self).dob_reserve)
                        &&& final(usdc).spec_balance(seller) == old(usdc).spec_balance(seller)
                            + from_pool + payout
                        &&& final(usdc).spec_balance(old(self).id) == old(usdc).spec_balance(
                            old(self).id,
                        ) - from_pool
                        &&& final(usdc).spec_balance(winner) == old(usdc).spec_balance(winner)
                            - payout
                        &&& forall|k: u64|
                            k != seller && k != old(self).id && k != winner ==> final(usdc).spec_balance(k) == old(usdc).spec_balance(k)
                        &&& final(dob).spec_balance(old(self).id) == old(dob).spec_balance(
                            old(self).id,
                        ) - dfs
                        &&& final(dob).spec_balance(winner) == old(dob).spec_balance(winner) + dfs
                        &&& forall|k: u64|
                            k != seller && k != old(self).id && k != winner ==> final(dob).spec_balance(k) == old(dob).spec_balance(k)
                        &&& exists|w: int|
                            0 <= w < old(nodes)@.len() && old(nodes)@[w].id == winner && final(nodes)@ == old(nodes)@.update(
                                w,
                                (LiquidNodeStabilizer {
                                    total_fees_earned: (old(nodes)@[w].total_fees_earned
                                        + spec_gross_value(dfs, oracle.nav as int) - payout) as i128,
                                    ..old(nodes)@[w]
                                }),
                            )
                    })
            }),
    {
        if dob_amount <= 0 {
            return Err(Error::InvalidAmount);
        }
        let fair_price = oracle.nav();
        let risk = oracle.default_risk();
        let base_fee_bps = fees::sell_fee_bps(risk);
        let (gross_value, usdc_after_fee) = value_and_net(dob_amount, fair_price, base_fee_bps);
        if dob.balance(seller) < dob_amount {
            return Err(Error::TransferFailed);
        }
        if self.usdc_reserve >= usdc_after_fee {
            if usdc.balance(self.id) < usdc_after_fee {
                return Err(Error::TransferFailed);
            }
            proof {
                dob.balances.lemma_entry_le_total(self.id);
            }
            let custody = dob.transfer(seller, self.id, dob_amount);
            proof {
                assert(custody is Ok);
            }
            self.usdc_reserve = self.usdc_reserve - usdc_after_fee;
            self.dob_reserve = self.dob_reserve + dob_amount;
            let paid = usdc.transfer(self.id, seller, usdc_after_fee);
            proof {
                assert(paid is Ok);
            }
            let burned = dob.burn(self.id, self.id, dob_amount);
            proof {
                assert(burned is Ok);
            }
            self.total_sold = self.total_sold + dob_amount;
            return Ok(usdc_after_fee);
        }
        let shortage = usdc_after_fee - self.usdc_reserve;
        proof {
            lemma_shortage_fits(
                dob_amount as int,
                fair_price as int,
                gross_value as int,
                shortage as int,
            );
        }
        let dob_for_shortage_base = (shortage * SCALE) / fair_price;
        proof {
            lemma_prop_le(dob_for_shortage_base as int, 11000int, 11000int);
            vstd::arithmetic::div_mod::lemma_div_is_ordered(
                dob_for_shortage_base * 11000,
                (MAX_AMOUNT as int) * 11000,
                10000,
            );
            assert(dob_for_shortage_base * 11000 <= (MAX_AMOUNT as int) * 11000)
                by (nonlinear_arith)
                requires
                    0 <= dob_for_shortage_base <= MAX_AMOUNT,
            ;
            vstd::arithmetic::div_mod::lemma_div_pos_is_pos(dob_for_shortage_base * 11000, 10000);
            assert(0 <= dob_for_shortage_base * 11000) by (nonlinear_arith)
                requires
                    0 <= dob_for_shortage_base,
            ;
        }
        let dob_for_shortage = (dob_for_shortage_base * 11000) / 10000;
        let dob_for_pool = if dob_amount > dob_for_shortage {
            dob_amount - dob_for_shortage
        } else {
            0
        };
        if self.liquid_nodes.len() == 0 {
            return Err(Error::NoLiquidityAvailable);
        }
        let quotes = collect_quotes(&self.liquid_nodes, nodes, oracle, usdc, dob_for_shortage);
        proof {
            let qspec = old(self).spec_sell_quotes(nodes@, *oracle, *usdc, dob_for_shortage);
            assert(quotes@ =~= qspec);
            assert forall|j: int|
                0 <= j < quotes@.len() && (#[trigger] quotes@[j]) is Some implies quotes@[j]->Some_0.1
                < u32::MAX by {
                assert(quotes@[j] == spec_quote_outcome(
                    self.liquid_nodes@[j],
                    nodes@,
                    *oracle,
                    *usdc,
                    dob_for_shortage,
                ));
            }
        }
        let best = select_best_quote(&quotes, shortage);
        let bi = match best {
            None => {
                return Err(Error::NoLiquidityAvailable);
            },
            Some(b) => b,
        };
        let winner_id = self.liquid_nodes[bi];
        let pool_pays = self.usdc_reserve > 0 && dob_for_pool > 0;
        if pool_pays && usdc.balance(self.id) < self.usdc_reserve {
            return Err(Error::TransferFailed);
        }
        if dob.balance(self.id) < dob_for_shortage {
            return Err(Error::TransferFailed);
        }
        let w = match find_node(nodes, winner_id) {
            None => {
                proof {
                    assert(quotes@[bi as int] is Some);
                    assert(false);
                }
                return Err(Error::NoLiquidityAvailable);
            },
            Some(w) => w,
        };
        let custody = dob.transfer(seller, self.id, dob_amount);
        proof {
            assert(custody is Ok);
        }
        let mut from_pool: i128 = 0;
        if pool_pays {
            from_pool = self.usdc_reserve;
            let pool_paid = usdc.transfer(self.id, seller, from_pool);
            proof {
                assert(pool_paid is Ok);
            }
            self.usdc_reserve = 0;
            self.dob_reserve = self.dob_reserve + dob_for_pool;
        }
        let routed = dob.transfer(self.id, winner_id, dob_for_shortage);
        proof {
            assert(routed is Ok);
        }
        let mut winner = nodes.remove(w);
        let executed = winner.execute_liquidity(self.id, oracle, usdc, seller, dob_for_shortage);
        let ln_usdc = match executed {
            Err(_) => {
                proof {
                    assert(false);
                }
                return Err(Error::NoLiquidityAvailable);
            },
            Ok(v) => v,
        };
        nodes.insert(w, winner);
        proof {
            assert(nodes@ =~= old(nodes)@.update(w as int, nodes@[w as int]));
        }
        let burned = dob.burn(self.id, self.id, dob_amount);
        proof {
            assert(burned is Ok);
        }
        self.total_sold = self.total_sold + dob_amount;
        Ok(from_pool + ln_usdc)
    }

    /// Preview how a sell of `dob_amount` would be filled at the current
    /// readings: the pool-side fee, the net stable owed, and how much of it
    /// current reserves could cover, the rest falling to external sources.
    pub fn quote_swap_sell(&self, oracle: &DobOracle, dob_amount: i128) -> (q: SwapQuote)
        requires
            self.wf(),
            oracle.wf(),
            oracle.id == self.oracle,
            0 <= dob_amount <= MAX_AMOUNT,
        ensures
            q.total_fee_bps == fees::spec_sell_fee_bps(oracle.default_risk),
            q.usdc_out == spec_sell_net(dob_amount, oracle.nav, oracle.default_risk),
            q.usdc_out == q.from_pool + q.from_liquid_nodes,
            self.usdc_reserve >= q.usdc_out ==> q.from_pool == q.usdc_out && q.from_liquid_nodes
                == 0,
            self.usdc_reserve < q.usdc_out ==> q.from_pool == self.usdc_reserve
                && q.from_liquid_nodes == q.usdc_out - self.usdc_reserve,
    {
        let base_fee_bps = fees::sell_fee_bps(oracle.default_risk());
        let (_value, usdc_after_fee) = value_and_net(dob_amount, oracle.nav(), base_fee_bps);
        if self.usdc_reserve >= usdc_after_fee {
            SwapQuote {
                usdc_out: usdc_after_fee,
                total_fee_bps: base_fee_bps,
                from_pool: usdc_after_fee,
                from_liquid_nodes: 0,
            }
        } else {
            SwapQuote {
                usdc_out: usdc_after_fee,
                total_fee_bps: base_fee_bps,
                from_pool: self.usdc_reserve,
                from_liquid_nodes: usdc_after_fee - self.usdc_reserve,
            }
        }
    }

    /// A snapshot of the registry, in registration order.
    pub fn get_liquid_nodes(&self) -> (r: Vec<u64>)
        ensures
            r@ == self.liquid_nodes@,
    {
        let n = self.liquid_nodes.len();
        let mut out: Vec<u64> = Vec::new();
        let mut i: usize = 0;
        while i < n
            invariant
                0 <= i <= n,
                n == self.liquid_nodes@.len(),
                out@ == self.liquid_nodes@.subrange(0, i as int),
            decreases n - i,
        {
            out.push(self.liquid_nodes[i]);
            proof {
                assert(out@ =~= self.liquid_nodes@.subrange(0, i + 1));
            }
            i += 1;
        }
        proof {
            assert(out@ =~= self.liquid_nodes@);
        }
        out
    }

    /// Current stable and asset reserves.
    pub fn get_reserves(&self) -> (r: (i128, i128))
        ensures
            r == (self.usdc_reserve, self.dob_reserve),
    {
        (self.usdc_reserve, self.dob_reserve)
    }

    /// Shares held by `provider`.
    pub fn get_lp_shares(&self, provider: u64) -> (s: i128)
        ensures
            s == self.lp_shares.spec_get(provider),
    {
        self.lp_shares.get(provider)
    }

    /// Total shares outstanding.
    pub fn get_total_lp_shares(&self) -> (t: i128)
        ensures
            t == self.total_lp_shares,
    {
        self.total_lp_shares
    }

    /// Cumulative statistics: stable spent on buys, asset sold, fee
    /// collected.
    pub fn get_stats(&self) -> (r: (i128, i128, i128))
        ensures
            r == (self.total_bought, self.total_sold, self.dex_fee_collected),
    {
        (self.total_bought, self.total_sold, self.dex_fee_collected)
    }

    /// The collaborators this pool is wired to.
    pub fn get_addresses(&self) -> (r: (u64, u64, u64, u64))
        ensures
            r == (self.dob_token, self.usdc_token, self.oracle, self.operator),
    {
        (self.dob_token, self.usdc_token, self.oracle, self.operator)
    }
}

} // verus!
