//! A keyed balance ledger: a map from account identity to a non-negative
//! amount, together with a verified running total.
//!
//! The pool uses one instance for provider shares and the token uses one for
//! account balances.  Entries are kept in insertion order, keys are unique,
//! and zero-valued entries are never pruned.

use vstd::prelude::*;

verus! {

/// Value bound to key `k` in `s` (first match; zero when absent).
pub open spec fn seq_get(s: Seq<(u64, i128)>, k: u64) -> i128
    decreases s.len(),
{
    if s.len() == 0 {
        0
    } else if s[0].0 == k {
        s[0].1
    } else {
        seq_get(s.subrange(1, s.len() as int), k)
    }
}

/// Sum of all values in `s`.
pub open spec fn seq_sum(s: Seq<(u64, i128)>) -> int
    decreases s.len(),
{
    if s.len() == 0 {
        0
    } else {
        s[0].1 + seq_sum(s.subrange(1, s.len() as int))
    }
}

/// No key occurs twice in `s`.
pub open spec fn keys_unique(s: Seq<(u64, i128)>) -> bool {
    forall|i: int, j: int| 0 <= i < j < s.len() ==> s[i].0 != s[j].0
}

proof fn lemma_sum_push(s: Seq<(u64, i128)>, e: (u64, i128))
    ensures
        seq_sum(s.push(e)) == seq_sum(s) + e.1,
    decreases s.len(),
{
    if s.len() == 0 {
        assert(s.push(e)[0] == e);
        assert(s.push(e).subrange(1, s.push(e).len() as int) =~= Seq::<(u64, i128)>::empty());
        assert(seq_sum(Seq::<(u64, i128)>::empty()) == 0);
        assert(seq_sum(s.push(e)) == e.1 + seq_sum(s.push(e).subrange(1, s.push(e).len() as int)));
        assert(seq_sum(s) == 0);
    } else {
        assert(s.push(e)[0] == s[0]);
        assert(s.push(e).subrange(1, s.push(e).len() as int) =~= s.subrange(
            1,
            s.len() as int,
        ).push(e));
        lemma_sum_push(s.subrange(1, s.len() as int), e);
        assert(seq_sum(s.push(e)) == s[0].1 + seq_sum(s.push(e).subrange(1, s.push(e).len() as int)));
        assert(seq_sum(s) == s[0].1 + seq_sum(s.subrange(1, s.len() as int)));
    }
}

proof fn lemma_get_push_absent(s: Seq<(u64, i128)>, e: (u64, i128))
    requires
        forall|j: int| 0 <= j < s.len() ==> s[j].0 != e.0,
    ensures
        seq_get(s.push(e), e.0) == e.1,
    decreases s.len(),
{
    if s.len() == 0 {
        assert(s.push(e)[0] == e);
    } else {
        assert(s.push(e).subrange(1, s.push(e).len() as int) =~= s.subrange(
            1,
            s.len() as int,
        ).push(e));
        lemma_get_push_absent(s.subrange(1, s.len() as int), e);
    }
}

proof fn lemma_get_push_other(s: Seq<(u64, i128)>, e: (u64, i128), k: u64)
    requires
        k != e.0,
    ensures
        seq_get(s.push(e), k) == seq_get(s, k),
    decreases s.len(),
{
    if s.len() == 0 {
        assert(s.push(e)[0] == e);
        assert(s.push(e).subrange(1, s.push(e).len() as int) =~= Seq::<(u64, i128)>::empty());
        assert(seq_get(Seq::<(u64, i128)>::empty(), k) == 0);
        assert(seq_get(s.push(e), k) == seq_get(
            s.push(e).subrange(1, s.push(e).len() as int),
            k,
        ));
    } else {
        assert(s.push(e)[0] == s[0]);
        assert(s.push(e).subrange(1, s.push(e).len() as int) =~= s.subrange(
            1,
            s.len() as int,
        ).push(e));
        lemma_get_push_other(s.subrange(1, s.len() as int), e, k);
        if s[0].0 != k {
            assert(seq_get(s.push(e), k) == seq_get(
                s.push(e).subrange(1, s.push(e).len() as int),
                k,
            ));
            assert(seq_get(s, k) == seq_get(s.subrange(1, s.len() as int), k));
        }
    }
}

proof fn lemma_get_absent(s: Seq<(u64, i128)>, k: u64)
    requires
        forall|j: int| 0 <= j < s.len() ==> s[j].0 != k,
    ensures
        seq_get(s, k) == 0,
    decreases s.len(),
{
    if s.len() > 0 {
        lemma_get_absent(s.subrange(1, s.len() as int), k);
    }
}

proof fn lemma_sum_update(s: Seq<(u64, i128)>, i: int, e: (u64, i128))
    requires
        0 <= i < s.len(),
    ensures
        seq_sum(s.update(i, e)) == seq_sum(s) - s[i].1 + e.1,
    decreases i,
{
    let t = s.update(i, e);
    if i == 0 {
        assert(t.subrange(1, t.len() as int) =~= s.subrange(1, s.len() as int));
    } else {
        assert(t.subrange(1, t.len() as int) =~= s.subrange(1, s.len() as int).update(i - 1, e));
        lemma_sum_update(s.subrange(1, s.len() as int), i - 1, e);
    }
}

proof fn lemma_get_update_match(s: Seq<(u64, i128)>, i: int, e: (u64, i128))
    requires
        0 <= i < s.len(),
        forall|j: int| 0 <= j < i ==> s[j].0 != e.0,
    ensures
        seq_get(s.update(i, e), e.0) == e.1,
    decreases i,
{
    let t = s.update(i, e);
    if i == 0 {
    } else {
        assert(t.subrange(1, t.len() as int) =~= s.subrange(1, s.len() as int).update(i - 1, e));
        lemma_get_update_match(s.subrange(1, s.len() as int), i - 1, e);
    }
}

proof fn lemma_get_update_other(s: Seq<(u64, i128)>, i: int, e: (u64, i128), k: u64)
    requires
        0 <= i < s.len(),
        s[i].0 == e.0,
        k != e.0,
    ensures
        seq_get(s.update(i, e), k) == seq_get(s, k),
    decreases i,
{
    let t = s.update(i, e);
    if i == 0 {
        assert(t.subrange(1, t.len() as int) =~= s.subrange(1, s.len() as int));
    } else {
        assert(t.subrange(1, t.len() as int) =~= s.subrange(1, s.len() as int).update(i - 1, e));
        lemma_get_update_other(s.subrange(1, s.len() as int), i - 1, e, k);
    }
}

proof fn lemma_get_from_index(s: Seq<(u64, i128)>, k: u64, i: int)
    requires
        0 <= i <= s.len(),
        forall|j: int| 0 <= j < i ==> s[j].0 != k,
    ensures
        seq_get(s, k) == seq_get(s.subrange(i, s.len() as int), k),
    decreases i,
{
    if i == 0 {
        assert(s.subrange(0, s.len() as int) =~= s);
    } else {
        lemma_get_from_index(s, k, i - 1);
        let u = s.subrange(i - 1, s.len() as int);
        assert(u[0] == s[i - 1]);
        assert(u.subrange(1, u.len() as int) =~= s.subrange(i, s.len() as int));
    }
}

/// All values non-negative makes the sum non-negative.
pub proof fn lemma_sum_nonneg(s: Seq<(u64, i128)>)
    requires
        forall|i: int| 0 <= i < s.len() ==> 0 <= s[i].1,
    ensures
        0 <= seq_sum(s),
    decreases s.len(),
{
    if s.len() > 0 {
        lemma_sum_nonneg(s.subrange(1, s.len() as int));
    }
}

/// With unique keys and non-negative values, no single entry exceeds the sum.
pub proof fn lemma_get_le_sum(s: Seq<(u64, i128)>, k: u64)
    requires
        forall|i: int| 0 <= i < s.len() ==> 0 <= s[i].1,
    ensures
        seq_get(s, k) <= seq_sum(s),
        0 <= seq_get(s, k),
    decreases s.len(),
{
    if s.len() > 0 {
        lemma_get_le_sum(s.subrange(1, s.len() as int), k);
        lemma_sum_nonneg(s.subrange(1, s.len() as int));
    }
}

/// With non-negative values, two distinct keys together never exceed the sum.
pub proof fn lemma_two_get_le_sum(s: Seq<(u64, i128)>, k1: u64, k2: u64)
    requires
        k1 != k2,
        forall|i: int| 0 <= i < s.len() ==> 0 <= s[i].1,
    ensures
        seq_get(s, k1) + seq_get(s, k2) <= seq_sum(s),
    decreases s.len(),
{
    if s.len() > 0 {
        let rest = s.subrange(1, s.len() as int);
        if s[0].0 == k1 {
            lemma_get_le_sum(rest, k2);
        } else if s[0].0 == k2 {
            lemma_get_le_sum(rest, k1);
        } else {
            lemma_two_get_le_sum(rest, k1, k2);
        }
    }
}

/// A keyed store of non-negative amounts with a verified total.
pub struct Ledger {
    pub entries: Vec<(u64, i128)>,
}

impl Ledger {
    /// Well-formed: keys unique, every amount non-negative.
    pub open spec fn wf(self) -> bool {
        &&& keys_unique(self.entries@)
        &&& forall|i: int| 0 <= i < self.entries@.len() ==> 0 <= self.entries@[i].1
    }

    /// Amount bound to `k` (zero when `k` was never written).
    pub open spec fn spec_get(self, k: u64) -> i128 {
        seq_get(self.entries@, k)
    }

    /// Sum of all amounts.
    pub open spec fn total(self) -> int {
        seq_sum(self.entries@)
    }

    /// The empty ledger.
    pub fn new() -> (l: Ledger)
        ensures
            l.wf(),
            l.total() == 0,
            forall|k: u64| l.spec_get(k) == 0,
    {
        let l = Ledger { entries: Vec::new() };
        proof {
            assert forall|k: u64| l.spec_get(k) == 0 by {
                lemma_get_absent(l.entries@, k);
            }
        }
        l
    }

    /// Read the amount bound to `k`.
    pub fn get(&self, k: u64) -> (v: i128)
        ensures
            v == self.spec_get(k),
    {
        let n = self.entries.len();
        let mut i: usize = 0;
        while i < n
            invariant
                0 <= i <= n,
                n == self.entries@.len(),
                forall|j: int| 0 <= j < i ==> self.entries@[j].0 != k,
            decreases n - i,
        {
            let (ek, ev) = self.entries[i];
            if ek == k {
                proof {
                    lemma_get_from_index(self.entries@, k, i as int);
                }
                return ev;
            }
            i += 1;
        }
        proof {
            lemma_get_from_index(self.entries@, k, n as int);
            lemma_get_absent(self.entries@.subrange(n as int, n as int), k);
        }
        0
    }

    /// Bind `k` to `v`, keeping every other key unchanged.
    pub fn set(&mut self, k: u64, v: i128)
        requires
            old(self).wf(),
            0 <= v,
        ensures
            final(self).wf(),
            final(self).spec_get(k) == v,
            forall|k2: u64| k2 != k ==> final(self).spec_get(k2) == old(self).spec_get(k2),
            final(self).total() == old(self).total() - old(self).spec_get(k) + v,
    {
        let n = self.entries.len();
        let mut i: usize = 0;
        while i < n
            invariant
                0 <= i <= n,
                n == self.entries@.len(),
                *self == *old(self),
                self.wf(),
                0 <= v,
                forall|j: int| 0 <= j < i ==> self.entries@[j].0 != k,
            decreases n - i,
        {
            let (ek, _ev) = self.entries[i];
            if ek == k {
                proof {
                    lemma_get_from_index(self.entries@, k, i as int);
                    lemma_sum_update(self.entries@, i as int, (k, v));
                    lemma_get_update_match(self.entries@, i as int, (k, v));
                    assert forall|k2: u64| k2 != k implies seq_get(
                        self.entries@.update(i as int, (k, v)),
                        k2,
                    ) == seq_get(self.entries@, k2) by {
                        lemma_get_update_other(self.entries@, i as int, (k, v), k2);
                    }
                    assert(seq_get(self.entries@.subrange(i as int, n as int), k)
                        == self.entries@[i as int].1);
                    let t = self.entries@.update(i as int, (k, v));
                    assert forall|m: int| 0 <= m < t.len() implies (#[trigger] t[m]).0
                        == self.entries@[m].0 && 0 <= t[m].1 by {
                        if m != i as int {
                            assert(t[m] == self.entries@[m]);
                            assert(0 <= self.entries@[m].1);
                        }
                    }
                }
                self.entries.set(i, (k, v));
                return ;
            }
            i += 1;
        }
        proof {
            lemma_get_from_index(self.entries@, k, n as int);
            lemma_get_absent(self.entries@.subrange(n as int, n as int), k);
            lemma_sum_push(self.entries@, (k, v));
            lemma_get_push_absent(self.entries@, (k, v));
            assert forall|k2: u64| k2 != k implies seq_get(self.entries@.push((k, v)), k2)
                == seq_get(self.entries@, k2) by {
                lemma_get_push_other(self.entries@, (k, v), k2);
            }
        }
        self.entries.push((k, v));
    }

    /// The amount under any one key never exceeds the ledger's total.
    pub proof fn lemma_entry_le_total(self, k: u64)
        requires
            self.wf(),
        ensures
            0 <= self.spec_get(k) <= self.total(),
    {
        lemma_get_le_sum(self.entries@, k);
    }

    /// Two distinct keys together never exceed the ledger's total.
    pub proof fn lemma_two_entries_le_total(self, k1: u64, k2: u64)
        requires
            self.wf(),
            k1 != k2,
        ensures
            self.spec_get(k1) + self.spec_get(k2) <= self.total(),
    {
        lemma_two_get_le_sum(self.entries@, k1, k2);
    }
}

} // verus!
