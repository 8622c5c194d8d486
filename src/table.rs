use vstd::prelude::*;

use crate::account::Account;
use crate::keyed::{find_key, keys_unique, lemma_lookup_absent, lemma_lookup_at, lemma_lookup_push, lemma_lookup_remove, lemma_lookup_update, lookup};

verus! {

/// The amount that `s` records for `a`, zero when `a` has no entry.
pub open spec fn amount_in(s: Seq<(Account, u128)>, a: Account) -> nat {
    match lookup(s, a) {
        Some(v) => v as nat,
        None => 0,
    }
}

/// The sum of all amounts in `s`.
pub open spec fn sum_in(s: Seq<(Account, u128)>) -> nat
    decreases s.len(),
{
    if s.len() == 0 {
        0
    } else {
        sum_in(s.drop_last()) + s.last().1 as nat
    }
}

/// No entry holds a zero amount.
pub open spec fn amounts_positive(s: Seq<(Account, u128)>) -> bool {
    forall|i: int| 0 <= i < s.len() ==> s[i].1 > 0
}

proof fn lemma_sum_update(s: Seq<(Account, u128)>, i: int, e: (Account, u128))
    requires
        0 <= i < s.len(),
    ensures
        sum_in(s.update(i, e)) + s[i].1 == sum_in(s) + e.1,
    decreases s.len(),
{
    let t = s.update(i, e);
    if i < s.len() - 1 {
        assert(t.drop_last() =~= s.drop_last().update(i, e));
        lemma_sum_update(s.drop_last(), i, e);
    } else {
        assert(t.drop_last() =~= s.drop_last());
    }
}

proof fn lemma_sum_remove(s: Seq<(Account, u128)>, i: int)
    requires
        0 <= i < s.len(),
    ensures
        sum_in(s.remove(i)) + s[i].1 == sum_in(s),
    decreases s.len(),
{
    let t = s.remove(i);
    if i < s.len() - 1 {
        assert(t.drop_last() =~= s.drop_last().remove(i));
        assert(t.last() == s.last());
        lemma_sum_remove(s.drop_last(), i);
    } else {
        assert(t =~= s.drop_last());
    }
}

proof fn lemma_sum_prefix(s: Seq<(Account, u128)>, i: int)
    requires
        0 <= i <= s.len(),
    ensures
        sum_in(s.subrange(0, i)) <= sum_in(s),
    decreases s.len() - i,
{
    if i < s.len() {
        let p = s.subrange(0, i + 1);
        assert(p.drop_last() =~= s.subrange(0, i));
        lemma_sum_prefix(s, i + 1);
    } else {
        assert(s.subrange(0, i) =~= s);
    }
}

/// A finite map from accounts to positive amounts; an absent account holds
/// zero, and storing zero removes the account's entry.
pub struct AmountTable {
    entries: Vec<(Account, u128)>,
}

impl AmountTable {
    /// Keys are unique and every stored amount is positive.
    pub open spec fn wf(&self) -> bool {
        keys_unique(self.entries()) && amounts_positive(self.entries())
    }

    /// The amount recorded for `a` (zero when absent).
    pub open spec fn amount(&self, a: Account) -> nat {
        amount_in(self.entries(), a)
    }

    /// The sum of all recorded amounts.
    pub open spec fn total(&self) -> nat {
        sum_in(self.entries())
    }

    /// The number of accounts with a positive amount.
    pub open spec fn holders(&self) -> nat {
        self.entries().len()
    }

    /// The entries, in storage order.
    pub closed spec fn entries(&self) -> Seq<(Account, u128)> {
        self.entries@
    }

    /// An empty table.
    pub fn new() -> (r: AmountTable)
        ensures
            r.wf(),
            forall|a: Account| r.amount(a) == 0,
            r.total() == 0,
            r.holders() == 0,
    {
        let r = AmountTable { entries: Vec::new() };
        assert forall|a: Account| r.amount(a) == 0 by {
            lemma_lookup_absent(r.entries@, a);
        }
        r
    }

    /// Builds a table from stored entries, provided that they hold each
    /// account at most once and no zero amount.
    pub fn from_entries(entries: &Vec<(Account, u128)>) -> (r: Option<AmountTable>)
        ensures
            r.is_some() <==> keys_unique(entries@) && amounts_positive(entries@),
            r matches Some(t) ==> t.wf() && t.entries() == entries@,
    {
        let n = entries.len();
        let mut i: usize = 0;
        while i < n
            invariant
                n == entries@.len(),
                i <= n,
                forall|x: int, y: int| 0 <= x < y < n && x < i ==> entries@[x].0 != entries@[y].0,
                forall|x: int| 0 <= x < i ==> entries@[x].1 > 0,
            decreases n - i,
        {
            if entries[i].1 == 0 {
                return None;
            }
            let mut j: usize = i + 1;
            while j < n
                invariant
                    n == entries@.len(),
                    i < n,
                    i < j <= n,
                    forall|y: int| i < y < j ==> entries@[i as int].0 != entries@[y].0,
                decreases n - j,
            {
                if entries[i].0 == entries[j].0 {
                    return None;
                }
                j = j + 1;
            }
            i = i + 1;
        }
        let mut copy: Vec<(Account, u128)> = Vec::new();
        let mut k: usize = 0;
        while k < n
            invariant
                n == entries@.len(),
                k <= n,
                copy@ == entries@.subrange(0, k as int),
            decreases n - k,
        {
            copy.push(entries[k]);
            k = k + 1;
            assert(copy@ =~= entries@.subrange(0, k as int));
        }
        assert(copy@ =~= entries@);
        Some(AmountTable { entries: copy })
    }

    /// The stored entries, in storage order.
    pub fn to_entries(&self) -> (r: Vec<(Account, u128)>)
        ensures
            r@ == self.entries(),
    {
        let mut out: Vec<(Account, u128)> = Vec::new();
        let mut i: usize = 0;
        while i < self.entries.len()
            invariant
                i <= self.entries@.len(),
                out@ == self.entries@.subrange(0, i as int),
            decreases self.entries@.len() - i,
        {
            out.push(self.entries[i]);
            i = i + 1;
            assert(out@ =~= self.entries@.subrange(0, i as int));
        }
        assert(out@ =~= self.entries@);
        out
    }

    /// The amount recorded for `a`.
    pub fn get(&self, a: &Account) -> (r: u128)
        requires
            self.wf(),
        ensures
            r == self.amount(*a),
    {
        match find_key(&self.entries, a) {
            Some(i) => self.entries[i].1,
            None => 0,
        }
    }

    /// Whether no account holds a positive amount.
    pub fn is_empty(&self) -> (r: bool)
        requires
            self.wf(),
        ensures
            r == (self.holders() == 0),
            r ==> forall|a: Account| self.amount(a) == 0,
            !r ==> exists|a: Account| self.amount(a) > 0,
    {
        if self.entries.len() == 0 {
            assert forall|a: Account| self.amount(a) == 0 by {
                lemma_lookup_absent(self.entries@, a);
            }
            true
        } else {
            proof {
                lemma_lookup_at(self.entries@, 0);
            }
            assert(self.amount(self.entries@[0].0) > 0);
            false
        }
    }

    /// Records `v` for `a`; a zero amount removes `a`'s entry.
    pub fn set(&mut self, a: Account, v: u128)
        requires
            old(self).wf(),
        ensures
            final(self).wf(),
            final(self).amount(a) == v,
            forall|b: Account| b != a ==> final(self).amount(b) == old(self).amount(b),
            final(self).total() + old(self).amount(a) == old(self).total() + v,
            old(self).amount(a) == 0 && v > 0 ==> final(self).holders() == old(self).holders() + 1,
            old(self).amount(a) > 0 && v == 0 ==> final(self).holders() + 1 == old(self).holders(),
            (old(self).amount(a) == 0) == (v == 0) ==> final(self).holders() == old(self).holders(),
    {
        let ghost s = self.entries@;
        match find_key(&self.entries, &a) {
            Some(i) => {
                proof {
                    lemma_lookup_at(s, i as int);
                }
                if v == 0 {
                    self.entries.remove(i);
                    proof {
                        lemma_sum_remove(s, i as int);
                        lemma_lookup_remove(s, i as int);
                        let t = self.entries@;
                        assert forall|k: int| 0 <= k < t.len() implies t[k].1 > 0 by {
                            let ks = if k < i { k } else { k + 1 };
                            assert(t[k] == s[ks]);
                        }
                    }
                } else {
                    self.entries.set(i, (a, v));
                    proof {
                        lemma_sum_update(s, i as int, (a, v));
                        lemma_lookup_update(s, i as int, v);
                    }
                }
            },
            None => {
                if v != 0 {
                    self.entries.push((a, v));
                    proof {
                        lemma_lookup_push(s, a, v);
                        assert(self.entries@.drop_last() =~= s);
                    }
                }
            },
        }
    }

    /// The sum of all amounts, which must fit in a `u128`.
    pub fn sum(&self) -> (r: u128)
        requires
            self.total() <= u128::MAX,
        ensures
            r == self.total(),
    {
        let mut acc: u128 = 0;
        let mut i: usize = 0;
        while i < self.entries.len()
            invariant
                i <= self.entries@.len(),
                self.total() <= u128::MAX,
                acc == sum_in(self.entries@.subrange(0, i as int)),
            decreases self.entries@.len() - i,
        {
            proof {
                let p = self.entries@.subrange(0, i + 1);
                assert(p.drop_last() =~= self.entries@.subrange(0, i as int));
                lemma_sum_prefix(self.entries@, i + 1);
            }
            acc = acc + self.entries[i].1;
            i = i + 1;
        }
        assert(self.entries@.subrange(0, i as int) =~= self.entries@);
        acc
    }

    /// The sum of all amounts, or none when it does not fit in a `u128`.
    pub fn checked_sum(&self) -> (r: Option<u128>)
        ensures
            r == (if self.total() <= u128::MAX {
                Some(self.total() as u128)
            } else {
                None::<u128>
            }),
    {
        let mut acc: u128 = 0;
        let mut i: usize = 0;
        while i < self.entries.len()
            invariant
                i <= self.entries@.len(),
                acc == sum_in(self.entries@.subrange(0, i as int)),
            decreases self.entries@.len() - i,
        {
            proof {
                let p = self.entries@.subrange(0, i + 1);
                assert(p.drop_last() =~= self.entries@.subrange(0, i as int));
                lemma_sum_prefix(self.entries@, i + 1);
            }
            if self.entries[i].1 > u128::MAX - acc {
                return None;
            }
            acc = acc + self.entries[i].1;
            i = i + 1;
        }
        assert(self.entries@.subrange(0, i as int) =~= self.entries@);
        Some(acc)
    }

    /// The number of accounts with a positive amount.
    pub fn len(&self) -> (r: usize)
        ensures
            r == self.holders(),
    {
        self.entries.len()
    }
}

/// Every recorded amount is at most the table's total.
pub proof fn lemma_amount_le_total(t: &AmountTable, a: Account)
    requires
        t.wf(),
    ensures
        t.amount(a) <= t.total(),
{
    lemma_amount_bounded(t.entries@, a);
}

proof fn lemma_amount_bounded(s: Seq<(Account, u128)>, a: Account)
    ensures
        amount_in(s, a) <= sum_in(s),
    decreases s.len(),
{
    if s.len() > 0 {
        lemma_amount_bounded(s.drop_last(), a);
    }
}

} // verus!
