//! A fungible token ledger with hook-controlled issuance.
//!
//! Balances are ordinary transferable amounts; only the designated hook
//! contract may mint or burn, and only the admin may change the hook.  The
//! sum of all balances always equals the recorded total supply.

use vstd::prelude::*;
use crate::ledger::Ledger;
use crate::MAX_SUPPLY;

verus! {

/// Allowance bound to owner `o` and spender `p` in `s` (first match; zero
/// when absent).
pub open spec fn allow_get(s: Seq<(u64, u64, i128)>, o: u64, p: u64) -> i128
    decreases s.len(),
{
    if s.len() == 0 {
        0
    } else if s[0].0 == o && s[0].1 == p {
        s[0].2
    } else {
        allow_get(s.subrange(1, s.len() as int), o, p)
    }
}

/// No owner/spender pair occurs twice in `s`.
pub open spec fn pairs_unique(s: Seq<(u64, u64, i128)>) -> bool {
    forall|i: int, j: int|
        0 <= i < j < s.len() ==> !(s[i].0 == s[j].0 && s[i].1 == s[j].1)
}

proof fn lemma_allow_get_absent(s: Seq<(u64, u64, i128)>, o: u64, p: u64)
    requires
        forall|j: int| 0 <= j < s.len() ==> !(s[j].0 == o && s[j].1 == p),
    ensures
        allow_get(s, o, p) == 0,
    decreases s.len(),
{
    if s.len() > 0 {
        lemma_allow_get_absent(s.subrange(1, s.len() as int), o, p);
    }
}

proof fn lemma_allow_get_from_index(s: Seq<(u64, u64, i128)>, o: u64, p: u64, i: int)
    requires
        0 <= i <= s.len(),
        forall|j: int| 0 <= j < i ==> !(s[j].0 == o && s[j].1 == p),
    ensures
        allow_get(s, o, p) == allow_get(s.subrange(i, s.len() as int), o, p),
    decreases i,
{
    if i == 0 {
        assert(s.subrange(0, s.len() as int) =~= s);
    } else {
        lemma_allow_get_from_index(s, o, p, i - 1);
        let u = s.subrange(i - 1, s.len() as int);
        assert(u[0] == s[i - 1]);
        assert(u.subrange(1, u.len() as int) =~= s.subrange(i, s.len() as int));
    }
}

proof fn lemma_allow_get_push_new(s: Seq<(u64, u64, i128)>, e: (u64, u64, i128))
    requires
        forall|j: int| 0 <= j < s.len() ==> !(s[j].0 == e.0 && s[j].1 == e.1),
    ensures
        allow_get(s.push(e), e.0, e.1) == e.2,
    decreases s.len(),
{
    if s.len() == 0 {
        assert(s.push(e)[0] == e);
    } else {
        assert(s.push(e)[0] == s[0]);
        assert(s.push(e).subrange(1, s.push(e).len() as int) =~= s.subrange(
            1,
            s.len() as int,
        ).push(e));
        lemma_allow_get_push_new(s.subrange(1, s.len() as int), e);
    }
}

proof fn lemma_allow_get_push_other(
    s: Seq<(u64, u64, i128)>,
    e: (u64, u64, i128),
    o: u64,
    p: u64,
)
    requires
        !(o == e.0 && p == e.1),
    ensures
        allow_get(s.push(e), o, p) == allow_get(s, o, p),
    decreases s.len(),
{
    if s.len() == 0 {
        assert(s.push(e)[0] == e);
        assert(s.push(e).subrange(1, s.push(e).len() as int) =~= Seq::<(u64, u64, i128)>::empty());
        assert(allow_get(Seq::<(u64, u64, i128)>::empty(), o, p) == 0);
    } else {
        assert(s.push(e)[0] == s[0]);
        assert(s.push(e).subrange(1, s.push(e).len() as int) =~= s.subrange(
            1,
            s.len() as int,
        ).push(e));
        lemma_allow_get_push_other(s.subrange(1, s.len() as int), e, o, p);
    }
}

proof fn lemma_allow_get_update_match(s: Seq<(u64, u64, i128)>, i: int, e: (u64, u64, i128))
    requires
        0 <= i < s.len(),
        forall|j: int| 0 <= j < i ==> !(s[j].0 == e.0 && s[j].1 == e.1),
    ensures
        allow_get(s.update(i, e), e.0, e.1) == e.2,
    decreases i,
{
    let t = s.update(i, e);
    if i == 0 {
    } else {
        assert(t.subrange(1, t.len() as int) =~= s.subrange(1, s.len() as int).update(i - 1, e));
        lemma_allow_get_update_match(s.subrange(1, s.len() as int), i - 1, e);
    }
}

proof fn lemma_allow_get_update_other(
    s: Seq<(u64, u64, i128)>,
    i: int,
    e: (u64, u64, i128),
    o: u64,
    p: u64,
)
    requires
        0 <= i < s.len(),
        s[i].0 == e.0 && s[i].1 == e.1,
        !(o == e.0 && p == e.1),
    ensures
        allow_get(s.update(i, e), o, p) == allow_get(s, o, p),
    decreases i,
{
    let t = s.update(i, e);
    if i == 0 {
        assert(t.subrange(1, t.len() as int) =~= s.subrange(1, s.len() as int));
    } else {
        assert(t.subrange(1, t.len() as int) =~= s.subrange(1, s.len() as int).update(i - 1, e));
        lemma_allow_get_update_other(s.subrange(1, s.len() as int), i - 1, e, o, p);
    }
}

/// The token's book of spending allowances, keyed by owner and spender.
pub struct Allowances {
    pub entries: Vec<(u64, u64, i128)>,
}

impl Allowances {
    /// Well-formed: each owner/spender pair appears at most once.
    pub open spec fn wf(self) -> bool {
        pairs_unique(self.entries@)
    }

    /// Allowance granted by `o` to `p` (zero when never approved).
    pub open spec fn spec_get(self, o: u64, p: u64) -> i128 {
        allow_get(self.entries@, o, p)
    }

    /// The empty book.
    pub fn new() -> (a: Allowances)
        ensures
            a.wf(),
            forall|o: u64, p: u64| a.spec_get(o, p) == 0,
    {
        let a = Allowances { entries: Vec::new() };
        proof {
            assert forall|o: u64, p: u64| a.spec_get(o, p) == 0 by {
                lemma_allow_get_absent(a.entries@, o, p);
            }
        }
        a
    }

    /// Read the allowance granted by `o` to `p`.
    pub fn get(&self, o: u64, p: u64) -> (v: i128)
        ensures
            v == self.spec_get(o, p),
    {
        let n = self.entries.len();
        let mut i: usize = 0;
        while i < n
            invariant
                0 <= i <= n,
                n == self.entries@.len(),
                forall|j: int|
                    0 <= j < i ==> !(self.entries@[j].0 == o && self.entries@[j].1 == p),
            decreases n - i,
        {
            let (eo, ep, ev) = self.entries[i];
            if eo == o && ep == p {
                proof {
                    lemma_allow_get_from_index(self.entries@, o, p, i as int);
                }
                return ev;
            }
            i += 1;
        }
        proof {
            lemma_allow_get_from_index(self.entries@, o, p, n as int);
            lemma_allow_get_absent(self.entries@.subrange(n as int, n as int), o, p);
        }
        0
    }

    /// Bind the allowance of `o` to `p`, keeping every other pair unchanged.
    pub fn set(&mut self, o: u64, p: u64, v: i128)
        requires
            old(self).wf(),
        ensures
            final(self).wf(),
            final(self).spec_get(o, p) == v,
            forall|o2: u64, p2: u64|
                !(o2 == o && p2 == p) ==> final(self).spec_get(o2, p2) == old(self).spec_get(
                    o2,
                    p2,
                ),
    {
        let n = self.entries.len();
        let mut i: usize = 0;
        while i < n
            invariant
                0 <= i <= n,
                n == self.entries@.len(),
                *self == *old(self),
                self.wf(),
                forall|j: int|
                    0 <= j < i ==> !(self.entries@[j].0 == o && self.entries@[j].1 == p),
            decreases n - i,
        {
            let (eo, ep, _ev) = self.entries[i];
            if eo == o && ep == p {
                proof {
                    lemma_allow_get_update_match(self.entries@, i as int, (o, p, v));
                    assert forall|o2: u64, p2: u64| !(o2 == o && p2 == p) implies allow_get(
                        self.entries@.update(i as int, (o, p, v)),
                        o2,
                        p2,
                    ) == allow_get(self.entries@, o2, p2) by {
                        lemma_allow_get_update_other(self.entries@, i as int, (o, p, v), o2, p2);
                    }
                    let t = self.entries@.update(i as int, (o, p, v));
                    assert forall|m: int| 0 <= m < t.len() implies (#[trigger] t[m]).0
                        == self.entries@[m].0 && t[m].1 == self.entries@[m].1 by {
                        if m != i as int {
                            assert(t[m] == self.entries@[m]);
                        }
                    }
                }
                self.entries.set(i, (o, p, v));
                return ;
            }
            i += 1;
        }
        proof {
            lemma_allow_get_from_index(self.entries@, o, p, n as int);
            lemma_allow_get_absent(self.entries@.subrange(n as int, n as int), o, p);
            lemma_allow_get_push_new(self.entries@, (o, p, v));
            assert forall|o2: u64, p2: u64| !(o2 == o && p2 == p) implies allow_get(
                self.entries@.push((o, p, v)),
                o2,
                p2,
            ) == allow_get(self.entries@, o2, p2) by {
                lemma_allow_get_push_other(self.entries@, (o, p, v), o2, p2);
            }
        }
        self.entries.push((o, p, v));
    }
}

/// Errors the token ledger can return.
#[derive(Clone, Copy, Debug, PartialEq, Eq, Structural)]
pub enum Error {
    Unauthorized,
    InsufficientBalance,
    InsufficientAllowance,
}

/// A fungible token whose supply only the hook contract may change.
pub struct DobToken {
    /// The token contract's own identity, as other contracts address it.
    pub id: u64,
    pub admin: u64,
    pub hook: u64,
    pub name: String,
    pub symbol: String,
    pub decimals: u32,
    pub total_supply: i128,
    pub balances: Ledger,
    pub allowances: Allowances,
}

impl DobToken {
    /// Well-formed: balances and allowances are proper ledgers and the
    /// balances sum to exactly the recorded total supply.
    pub open spec fn wf(self) -> bool {
        &&& self.balances.wf()
        &&& self.allowances.wf()
        &&& self.balances.total() == self.total_supply
        &&& 0 <= self.total_supply <= MAX_SUPPLY
    }

    /// Balance of `account`.
    pub open spec fn spec_balance(self, account: u64) -> i128 {
        self.balances.spec_get(account)
    }

    /// Allowance granted by `owner` to `spender`.
    pub open spec fn spec_allowance(self, owner: u64, spender: u64) -> i128 {
        self.allowances.spec_get(owner, spender)
    }

    /// The fields no balance movement ever touches.
    pub open spec fn same_config(self, other: DobToken) -> bool {
        &&& self.id == other.id
        &&& self.admin == other.admin
        &&& self.hook == other.hook
        &&& self.name == other.name
        &&& self.symbol == other.symbol
        &&& self.decimals == other.decimals
    }

    /// Create the token with no supply.
    pub fn initialize(
        id: u64,
        admin: u64,
        hook: u64,
        name: String,
        symbol: String,
        decimals: u32,
    ) -> (t: DobToken)
        ensures
            t.wf(),
            t.id == id && t.admin == admin && t.hook == hook,
            t.name == name && t.symbol == symbol && t.decimals == decimals,
            t.total_supply == 0,
            forall|k: u64| t.spec_balance(k) == 0,
            forall|o: u64, p: u64| t.spec_allowance(o, p) == 0,
    {
        DobToken {
            id,
            admin,
            hook,
            name,
            symbol,
            decimals,
            total_supply: 0,
            balances: Ledger::new(),
            allowances: Allowances::new(),
        }
    }

    /// Token name.
    pub fn name(&self) -> (n: String)
        ensures
            n == self.name,
    {
        self.name.clone()
    }

    /// Token symbol.
    pub fn symbol(&self) -> (s: String)
        ensures
            s == self.symbol,
    {
        self.symbol.clone()
    }

    /// Token decimals.
    pub fn decimals(&self) -> (d: u32)
        ensures
            d == self.decimals,
    {
        self.decimals
    }

    /// Total supply outstanding.
    pub fn total_supply(&self) -> (t: i128)
        ensures
            t == self.total_supply,
    {
        self.total_supply
    }

    /// Balance of `account`.
    pub fn balance(&self, account: u64) -> (b: i128)
        ensures
            b == self.spec_balance(account),
    {
        self.balances.get(account)
    }

    /// Move `amount` from `from` to `to`.  Fails, leaving the ledger
    /// untouched, exactly when the amount is negative or exceeds the
    /// sender's balance; a self-transfer changes nothing.
    pub fn transfer(&mut self, from: u64, to: u64, amount: i128) -> (r: Result<(), Error>)
        requires
            old(self).wf(),
        ensures
            final(self).wf(),
            old(self).same_config(*final(self)),
            final(self).total_supply == old(self).total_supply,
            final(self).allowances == old(self).allowances,
            r is Ok <==> 0 <= amount <= old(self).spec_balance(from),
            r is Err ==> *final(self) == *old(self) && r == Err::<(), Error>(
                Error::InsufficientBalance,
            ),
            r is Ok ==> forall|k: u64|
                k != from && k != to ==> final(self).spec_balance(k) == old(self).spec_balance(k),
            r is Ok && from != to ==> final(self).spec_balance(from) == old(self).spec_balance(from)
                - amount && final(self).spec_balance(to) == old(self).spec_balance(to) + amount,
            r is Ok && from == to ==> forall|k: u64|
                final(self).spec_balance(k) == old(self).spec_balance(k),
    {
        if amount < 0 {
            return Err(Error::InsufficientBalance);
        }
        let from_balance = self.balances.get(from);
        if from_balance < amount {
            return Err(Error::InsufficientBalance);
        }
        self.balances.set(from, from_balance - amount);
        let to_balance = self.balances.get(to);
        proof {
            self.balances.lemma_entry_le_total(to);
        }
        self.balances.set(to, to_balance + amount);
        Ok(())
    }

    /// Grant `spender` an allowance over `owner`'s balance.
    pub fn approve(&mut self, owner: u64, spender: u64, amount: i128)
        requires
            old(self).wf(),
        ensures
            final(self).wf(),
            old(self).same_config(*final(self)),
            final(self).total_supply == old(self).total_supply,
            final(self).balances == old(self).balances,
            final(self).spec_allowance(owner, spender) == amount,
            forall|o: u64, p: u64|
                !(o == owner && p == spender) ==> final(self).spec_allowance(o, p) == old(
                    self,
                ).spec_allowance(o, p),
    {
        self.allowances.set(owner, spender, amount);
    }

    /// Allowance granted by `owner` to `spender`.
    pub fn allowance(&self, owner: u64, spender: u64) -> (a: i128)
        ensures
            a == self.spec_allowance(owner, spender),
    {
        self.allowances.get(owner, spender)
    }

    /// Move `amount` from `from` to `to` on `spender`'s authority, drawing
    /// down the allowance `from` granted to `spender`.
    pub fn transfer_from(&mut self, spender: u64, from: u64, to: u64, amount: i128) -> (r: Result<
        (),
        Error,
    >)
        requires
            old(self).wf(),
        ensures
            final(self).wf(),
            old(self).same_config(*final(self)),
            final(self).total_supply == old(self).total_supply,
            r is Ok <==> 0 <= amount && amount <= old(self).spec_allowance(from, spender) && amount
                <= old(self).spec_balance(from),
            r == Err::<(), Error>(Error::InsufficientAllowance) <==> 0 <= amount && old(
                self,
            ).spec_allowance(from, spender) < amount,
            r == Err::<(), Error>(Error::InsufficientBalance) <==> amount < 0 || (0 <= amount <= old(
                self,
            ).spec_allowance(from, spender) && old(self).spec_balance(from) < amount),
            r is Err ==> *final(self) == *old(self),
            r is Ok ==> final(self).spec_allowance(from, spender) == old(self).spec_allowance(
                from,
                spender,
            ) - amount,
            r is Ok ==> forall|o: u64, p: u64|
                !(o == from && p == spender) ==> final(self).spec_allowance(o, p) == old(
                    self,
                ).spec_allowance(o, p),
            r is Ok ==> forall|k: u64|
                k != from && k != to ==> final(self).spec_balance(k) == old(self).spec_balance(k),
            r is Ok && from != to ==> final(self).spec_balance(from) == old(self).spec_balance(from)
                - amount && final(self).spec_balance(to) == old(self).spec_balance(to) + amount,
            r is Ok && from == to ==> forall|k: u64|
                final(self).spec_balance(k) == old(self).spec_balance(k),
    {
        if amount < 0 {
            return Err(Error::InsufficientBalance);
        }
        let granted = self.allowances.get(from, spender);
        if granted < amount {
            return Err(Error::InsufficientAllowance);
        }
        let from_balance = self.balances.get(from);
        if from_balance < amount {
            return Err(Error::InsufficientBalance);
        }
        self.balances.set(from, from_balance - amount);
        let to_balance = self.balances.get(to);
        proof {
            self.balances.lemma_entry_le_total(to);
        }
        self.balances.set(to, to_balance + amount);
        self.allowances.set(from, spender, granted - amount);
        Ok(())
    }

    /// Create `amount` new tokens for `to`; only the hook may call.
    pub fn mint(&mut self, caller: u64, to: u64, amount: i128) -> (r: Result<(), Error>)
        requires
            old(self).wf(),
            0 <= amount,
            old(self).total_supply + amount <= MAX_SUPPLY,
        ensures
            final(self).wf(),
            old(self).same_config(*final(self)),
            final(self).allowances == old(self).allowances,
            r is Ok <==> caller == old(self).hook,
            r is Err ==> *final(self) == *old(self) && r == Err::<(), Error>(Error::Unauthorized),
            r is Ok ==> final(self).total_supply == old(self).total_supply + amount,
            r is Ok ==> final(self).spec_balance(to) == old(self).spec_balance(to) + amount,
            r is Ok ==> forall|k: u64|
                k != to ==> final(self).spec_balance(k) == old(self).spec_balance(k),
    {
        if caller != self.hook {
            return Err(Error::Unauthorized);
        }
        let to_balance = self.balances.get(to);
        proof {
            self.balances.lemma_entry_le_total(to);
        }
        self.balances.set(to, to_balance + amount);
        self.total_supply = self.total_supply + amount;
        Ok(())
    }

    /// Destroy `amount` tokens held by `from`; only the hook may call.
    pub fn burn(&mut self, caller: u64, from: u64, amount: i128) -> (r: Result<(), Error>)
        requires
            old(self).wf(),
            0 <= amount,
        ensures
            final(self).wf(),
            old(self).same_config(*final(self)),
            final(self).allowances == old(self).allowances,
            r is Ok <==> caller == old(self).hook && amount <= old(self).spec_balance(from),
            r == Err::<(), Error>(Error::Unauthorized) <==> caller != old(self).hook,
            r == Err::<(), Error>(Error::InsufficientBalance) <==> caller == old(self).hook && old(
                self,
            ).spec_balance(from) < amount,
            r is Err ==> *final(self) == *old(self),
            r is Ok ==> final(self).total_supply == old(self).total_supply - amount,
            r is Ok ==> final(self).spec_balance(from) == old(self).spec_balance(from) - amount,
            r is Ok ==> forall|k: u64|
                k != from ==> final(self).spec_balance(k) == old(self).spec_balance(k),
    {
        if caller != self.hook {
            return Err(Error::Unauthorized);
        }
        let from_balance = self.balances.get(from);
        if from_balance < amount {
            return Err(Error::InsufficientBalance);
        }
        proof {
            self.balances.lemma_entry_le_total(from);
        }
        self.balances.set(from, from_balance - amount);
        self.total_supply = self.total_supply - amount;
        Ok(())
    }

    /// Identity of the hook contract that may mint and burn.
    pub fn hook(&self) -> (h: u64)
        ensures
            h == self.hook,
    {
        self.hook
    }

    /// Identity of the admin.
    pub fn admin(&self) -> (a: u64)
        ensures
            a == self.admin,
    {
        self.admin
    }

    /// Point issuance at a new hook contract; only the admin may call.
    pub fn assign_hook(&mut self, caller: u64, new_hook: u64) -> (r: Result<(), Error>)
        requires
            old(self).wf(),
        ensures
            final(self).wf(),
            final(self).balances == old(self).balances,
            final(self).allowances == old(self).allowances,
            final(self).total_supply == old(self).total_supply,
            final(self).id == old(self).id && final(self).admin == old(self).admin,
            final(self).name == old(self).name && final(self).symbol == old(self).symbol,
            final(self).decimals == old(self).decimals,
            r is Ok <==> caller == old(self).admin,
            r is Ok ==> final(self).hook == new_hook,
            r is Err ==> *final(self) == *old(self) && r == Err::<(), Error>(Error::Unauthorized),
    {
        if caller != self.admin {
            return Err(Error::Unauthorized);
        }
        self.hook = new_hook;
        Ok(())
    }
}

} // verus!
