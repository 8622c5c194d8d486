use std::collections::HashSet;

use vstd::prelude::*;

use crate::account::Account;
use crate::keyed::{
    find_key, keys_unique, lemma_lookup_absent, lemma_lookup_at, lemma_lookup_parallel,
    lemma_lookup_push, lemma_lookup_remove, lemma_lookup_update, lookup,
};
use crate::table::{amount_in, amounts_positive, lemma_amount_le_total, sum_in, AmountTable};
use crate::types::{GenericValue, InitArgs, Metadata, TokenError, TxEvent};

verus! {

/// How a move of `amount` from `from` to `to` changes the balance of `a`
/// (a move to oneself changes nothing).
pub open spec fn move_delta(from: Account, to: Account, amount: nat, a: Account) -> int {
    if from == to {
        0
    } else if a == from {
        -amount
    } else if a == to {
        amount as int
    } else {
        0
    }
}

/// Stored balances: each account at most once, no zero amount.
pub open spec fn entries_valid(s: Seq<(Account, u128)>) -> bool {
    keys_unique(s) && amounts_positive(s)
}

/// Stored allowance books: each owner at most once, each book valid and
/// non-empty.
pub open spec fn books_valid(s: Seq<(Account, Vec<(Account, u128)>)>) -> bool {
    &&& keys_unique(s)
    &&& forall|i: int| 0 <= i < s.len() ==> entries_valid((#[trigger] s[i]).1@) && s[i].1@.len() > 0
}

/// The allowance that stored books give `spender` over `owner`'s balance.
pub open spec fn book_amount(
    s: Seq<(Account, Vec<(Account, u128)>)>,
    owner: Account,
    spender: Account,
) -> nat {
    match lookup(s, owner) {
        Some(v) => amount_in(v@, spender),
        None => 0,
    }
}

/// Every stored allowance book is a well-formed, non-empty table.
pub open spec fn books_wf(s: Seq<(Account, AmountTable)>) -> bool {
    &&& keys_unique(s)
    &&& forall|i: int| 0 <= i < s.len() ==> (#[trigger] s[i]).1.wf() && s[i].1.holders() > 0
}

/// The whole state of the token: settings, balances, allowances, consumed
/// deposit records and the transaction log.
pub struct Ledger {
    metadata: Metadata,
    balances: AmountTable,
    allowances: Vec<(Account, AmountTable)>,
    used_blocks: HashSet<u64>,
    tx_records: Vec<TxEvent>,
    /// Amounts debited by withdrawals whose outside transfer has not yet
    /// been settled; kept so that a compensating credit always fits.
    withdrawals_in_flight: u128,
    /// The account that initialised the ledger; it stays a custodian.
    initializer: Option<Account>,
}

impl Ledger {
    /// The state's invariant: well-formed tables, and room in a `u128` for the
    /// supply together with every unsettled withdrawal.
    pub closed spec fn wf(&self) -> bool {
        &&& self.balances.wf()
        &&& books_wf(self.allowances@)
        &&& self.balances.total() + self.withdrawals_in_flight <= u128::MAX
        &&& self.initializer matches Some(i) ==> self.metadata.custodians@.contains(i)
    }

    /// The account that initialised the ledger, once it was initialised.
    pub closed spec fn init_account(&self) -> Option<Account> {
        self.initializer
    }

    /// The balance of `a` (zero when absent).
    pub closed spec fn balance(&self, a: Account) -> nat {
        self.balances.amount(a)
    }

    /// The total supply: the sum of all balances.
    pub closed spec fn supply(&self) -> nat {
        self.balances.total()
    }

    /// The number of accounts with a positive balance.
    pub closed spec fn holders(&self) -> nat {
        self.balances.holders()
    }

    /// What `spender` may still spend out of `owner`'s balance.
    pub closed spec fn allowance_of(&self, owner: Account, spender: Account) -> nat {
        match lookup(self.allowances@, owner) {
            Some(t) => t.amount(spender),
            None => 0,
        }
    }

    /// The deposit identifiers already consumed.
    pub closed spec fn used(&self) -> Set<u64> {
        self.used_blocks@
    }

    /// The transaction log, oldest first.
    pub closed spec fn log(&self) -> Seq<TxEvent> {
        self.tx_records@
    }

    /// The settings.
    pub closed spec fn meta(&self) -> Metadata {
        self.metadata
    }

    /// The sum of withdrawals debited but not yet settled.
    pub closed spec fn in_flight(&self) -> nat {
        self.withdrawals_in_flight as nat
    }

    /// The fee in force.
    pub open spec fn fee(&self) -> nat {
        self.meta().fee_amount()
    }

    /// The balance of `a` once `payer` has paid the fee in force to the fee
    /// collector, if one is configured.
    pub open spec fn balance_after_fee(&self, payer: Account, a: Account) -> int {
        match self.meta().fee_to {
            Some(c) => self.balance(a) + move_delta(payer, c, self.fee(), a),
            None => self.balance(a) as int,
        }
    }

    /// Whether charging the fee to `payer` is refused for want of balance.
    pub open spec fn fee_refused(&self, payer: Account) -> bool {
        self.meta().fee_to is Some && self.balance(payer) < self.fee()
    }

    /// Both ledgers hold the same balances.
    pub open spec fn same_balances(&self, o: &Ledger) -> bool {
        &&& forall|a: Account| #[trigger] self.balance(a) == o.balance(a)
        &&& self.supply() == o.supply()
        &&& self.holders() == o.holders()
    }

    /// Both ledgers hold the same allowances.
    pub open spec fn same_allowances(&self, o: &Ledger) -> bool {
        forall|a: Account, b: Account| #[trigger]
            self.allowance_of(a, b) == o.allowance_of(a, b)
    }

    /// Both ledgers agree on settings, consumed deposits, log and unsettled
    /// withdrawals.
    pub open spec fn same_records(&self, o: &Ledger) -> bool {
        &&& self.meta() == o.meta()
        &&& self.used() == o.used()
        &&& self.log() == o.log()
        &&& self.in_flight() == o.in_flight()
        &&& self.init_account() == o.init_account()
    }

    /// An empty ledger with empty settings.
    pub fn new() -> (r: Ledger)
        ensures
            r.wf(),
            forall|a: Account| r.balance(a) == 0,
            forall|a: Account, b: Account| r.allowance_of(a, b) == 0,
            r.supply() == 0,
            r.holders() == 0,
            r.used() == Set::<u64>::empty(),
            r.log() == Seq::<TxEvent>::empty(),
            r.in_flight() == 0,
            r.meta().name is None,
            r.meta().logo is None,
            r.meta().symbol is None,
            r.meta().decimals is None,
            r.meta().fee is None,
            r.meta().fee_to is None,
            r.meta().custodians@ == Seq::<Account>::empty(),
            r.meta().cap is None,
            r.meta().created_at == 0,
            r.meta().upgraded_at == 0,
            r.init_account() is None,
    {
        let metadata = Metadata {
            name: None,
            logo: None,
            symbol: None,
            decimals: None,
            fee: None,
            fee_to: None,
            custodians: Vec::new(),
            cap: None,
            created_at: 0,
            upgraded_at: 0,
        };
        let r = Ledger {
            metadata,
            balances: AmountTable::new(),
            allowances: Vec::new(),
            used_blocks: HashSet::new(),
            tx_records: Vec::new(),
            withdrawals_in_flight: 0,
            initializer: None,
        };
        assert(r.used() =~= Set::<u64>::empty());
        r
    }

    /// The settings.
    pub fn metadata(&self) -> (r: &Metadata)
        ensures
            *r == self.meta(),
    {
        &self.metadata
    }

    /// The fee in force: the configured one, or zero.
    pub fn actual_fee(&self) -> (r: u128)
        ensures
            r == self.fee(),
    {
        match self.metadata.fee {
            Some(f) => f,
            None => 0,
        }
    }

    /// The sum of withdrawals debited but not yet settled.
    pub fn in_flight_amount(&self) -> (r: u128)
        ensures
            r == self.in_flight(),
    {
        self.withdrawals_in_flight
    }

    /// The number of log entries.
    pub fn tx_count(&self) -> (r: usize)
        ensures
            r == self.log().len(),
    {
        self.tx_records.len()
    }

    /// The number of accounts with a positive balance.
    pub fn balances_count(&self) -> (r: usize)
        ensures
            r == self.holders(),
    {
        self.balances.len()
    }

    /// The sum of all balances.
    pub fn total_supply(&self) -> (r: u128)
        requires
            self.wf(),
        ensures
            r == self.supply(),
            r + self.in_flight() <= u128::MAX,
    {
        self.balances.sum()
    }

    /// The balance of `owner`; zero for an unknown account.
    pub fn balance_of(&self, owner: &Account) -> (r: u128)
        requires
            self.wf(),
        ensures
            r == self.balance(*owner),
    {
        self.balances.get(owner)
    }

    /// What `spender` may spend out of `owner`'s balance; zero when nothing
    /// was approved.
    pub fn allowance(&self, owner: &Account, spender: &Account) -> (r: u128)
        requires
            self.wf(),
        ensures
            r == self.allowance_of(*owner, *spender),
    {
        match find_key(&self.allowances, owner) {
            Some(i) => {
                assert(self.allowances@[i as int].1.wf());
                self.allowances[i].1.get(spender)
            },
            None => 0,
        }
    }

    /// The log entry at 0-based position `tx_id`.
    pub fn get_tx(&self, tx_id: usize) -> (r: Option<&TxEvent>)
        ensures
            tx_id < self.log().len() ==> r == Some(&self.log()[tx_id as int]),
            tx_id >= self.log().len() ==> r is None,
    {
        if tx_id < self.tx_records.len() {
            Some(&self.tx_records[tx_id])
        } else {
            None
        }
    }

    /// Whether deposit `block_height` was already consumed.
    pub fn is_block_used(&self, block_height: &u64) -> (r: bool)
        ensures
            r == self.used().contains(*block_height),
    {
        self.used_blocks.contains(block_height)
    }

    /// Whether `who` holds at least `amount`.
    pub fn is_enough_balance_to_spend(&self, who: &Account, amount: u128) -> (r: bool)
        requires
            self.wf(),
        ensures
            r == (self.balance(*who) >= amount),
    {
        self.balance_of(who) >= amount
    }

    /// Whether `spender` may spend at least `amount` of `owner`'s balance.
    pub fn is_enough_allowance_to_spend(
        &self,
        owner: &Account,
        spender: &Account,
        amount: u128,
    ) -> (r: bool)
        requires
            self.wf(),
        ensures
            r == (self.allowance_of(*owner, *spender) >= amount),
    {
        self.allowance(owner, spender) >= amount
    }

    /// Records `v` as what `spender` may spend of `owner`'s balance; zero
    /// removes the entry, and an owner left with no entry loses its row.
    fn put_allowance(&mut self, owner: Account, spender: Account, v: u128)
        requires
            old(self).wf(),
        ensures
            final(self).wf(),
            final(self).allowance_of(owner, spender) == v,
            forall|a: Account, b: Account|
                (a, b) != (owner, spender) ==> #[trigger] final(self).allowance_of(a, b)
                    == old(self).allowance_of(a, b),
            final(self).same_balances(old(self)),
            final(self).same_records(old(self)),
    {
        let ghost s = self.allowances@;
        match find_key(&self.allowances, &owner) {
            Some(i) => {
                proof {
                    lemma_lookup_at(s, i as int);
                }
                let (k, mut t) = self.allowances.remove(i);
                assert(t.wf());
                t.set(spender, v);
                if t.is_empty() {
                    proof {
                        lemma_lookup_remove(s, i as int);
                        let r = self.allowances@;
                        assert(r =~= s.remove(i as int));
                        assert forall|j: int| 0 <= j < r.len() implies (#[trigger] r[j]).1.wf()
                            && r[j].1.holders() > 0 by {
                            let js = if j < i { j } else { j + 1 };
                            assert(r[j] == s[js]);
                        }
                    }
                } else {
                    self.allowances.insert(i, (k, t));
                    proof {
                        lemma_lookup_update(s, i as int, t);
                        let r = self.allowances@;
                        assert(r =~= s.update(i as int, (s[i as int].0, t)));
                        assert forall|j: int| 0 <= j < r.len() implies (#[trigger] r[j]).1.wf()
                            && r[j].1.holders() > 0 by {
                            if j != i {
                                assert(r[j] == s[j]);
                            }
                        }
                    }
                }
            },
            None => {
                if v != 0 {
                    let mut t = AmountTable::new();
                    t.set(spender, v);
                    self.allowances.push((owner, t));
                    proof {
                        lemma_lookup_push(s, owner, t);
                        let r = self.allowances@;
                        assert forall|j: int| 0 <= j < r.len() implies (#[trigger] r[j]).1.wf()
                            && r[j].1.holders() > 0 by {
                            if j < s.len() {
                                assert(r[j] == s[j]);
                            }
                        }
                    }
                }
            },
        }
    }

    /// Lowers what `spender` may spend of `owner`'s balance by `amount`,
    /// which must not exceed it; an allowance brought to zero is removed.
    pub fn spend_allowance(&mut self, owner: &Account, spender: &Account, amount: u128)
        requires
            old(self).wf(),
            old(self).allowance_of(*owner, *spender) >= amount,
        ensures
            final(self).wf(),
            final(self).allowance_of(*owner, *spender) == old(self).allowance_of(*owner, *spender)
                - amount,
            forall|a: Account, b: Account|
                (a, b) != (*owner, *spender) ==> #[trigger] final(self).allowance_of(a, b)
                    == old(self).allowance_of(a, b),
            final(self).same_balances(old(self)),
            final(self).same_records(old(self)),
    {
        let left = self.allowance(owner, spender) - amount;
        self.put_allowance(*owner, *spender, left);
    }

    /// Sets what `to` may spend of `from`'s balance to `amount`, except that
    /// an amount equal to the fee in force clears the entry instead.
    pub fn grant_allowance(&mut self, from: &Account, to: &Account, amount: u128)
        requires
            old(self).wf(),
        ensures
            final(self).wf(),
            final(self).allowance_of(*from, *to) == (if amount == old(self).fee() {
                0
            } else {
                amount as nat
            }),
            forall|a: Account, b: Account|
                (a, b) != (*from, *to) ==> #[trigger] final(self).allowance_of(a, b)
                    == old(self).allowance_of(a, b),
            final(self).same_balances(old(self)),
            final(self).same_records(old(self)),
    {
        if amount == self.actual_fee() {
            self.put_allowance(*from, *to, 0);
        } else {
            self.put_allowance(*from, *to, amount);
        }
    }

    /// Moves `amount` from `from` to `to`; refused, with no effect, when
    /// `from` holds less.
    pub fn transfer(&mut self, from: &Account, to: &Account, amount: u128)
        -> (r: Result<(), TokenError>)
        requires
            old(self).wf(),
        ensures
            final(self).wf(),
            r is Err <==> old(self).balance(*from) < amount,
            r is Err ==> r == Err::<(), TokenError>(TokenError::InsufficientBalance)
                && *final(self) == *old(self),
            r is Ok ==> forall|a: Account| #[trigger] final(self).balance(a) == old(self).balance(a)
                + move_delta(*from, *to, amount as nat, a),
            final(self).supply() == old(self).supply(),
            final(self).same_allowances(old(self)),
            final(self).same_records(old(self)),
    {
        let from_balance = self.balances.get(from);
        if from_balance < amount {
            return Err(TokenError::InsufficientBalance);
        }
        self.balances.set(*from, from_balance - amount);
        let to_balance = self.balances.get(to);
        proof {
            lemma_amount_le_total(&self.balances, *to);
        }
        self.balances.set(*to, to_balance + amount);
        Ok(())
    }

    /// Charges the fee in force to `payer`, paid to the fee collector when one
    /// is configured; refused, with no effect, when `payer` holds less.
    pub fn charge_fee(&mut self, payer: &Account) -> (r: Result<(), TokenError>)
        requires
            old(self).wf(),
        ensures
            final(self).wf(),
            r is Err <==> old(self).fee_refused(*payer),
            r is Err ==> r == Err::<(), TokenError>(TokenError::InsufficientBalance)
                && *final(self) == *old(self),
            r is Ok ==> forall|a: Account| #[trigger] final(self).balance(a)
                == old(self).balance_after_fee(*payer, a),
            final(self).supply() == old(self).supply(),
            final(self).same_allowances(old(self)),
            final(self).same_records(old(self)),
    {
        match self.metadata.fee_to {
            Some(collector) => {
                let fee = self.actual_fee();
                self.transfer(payer, &collector, fee)
            },
            None => Ok(()),
        }
    }
}


/// Whether `a` occurs in `s`, compared with the accounts' own equality.
fn contains_account(s: &Vec<Account>, a: &Account) -> (r: bool)
    ensures
        r == s@.contains(*a),
{
    let mut i: usize = 0;
    while i < s.len()
        invariant
            i <= s@.len(),
            forall|j: int| 0 <= j < i ==> s@[j] != *a,
        decreases s@.len() - i,
    {
        if s[i] == *a {
            assert(s@[i as int] == *a);
            return true;
        }
        i = i + 1;
    }
    false
}

/// Appends `a` to `s` unless it is there already.
fn insert_account(s: &mut Vec<Account>, a: Account)
    ensures
        forall|b: Account| final(s)@.contains(b) <==> old(s)@.contains(b) || b == a,
{
    if !contains_account(s, &a) {
        s.push(a);
        proof {
            assert forall|b: Account| final(s)@.contains(b) <==> old(s)@.contains(b) || b == a by {
                if old(s)@.contains(b) {
                    let j = choose|j: int| 0 <= j < old(s)@.len() && old(s)@[j] == b;
                    assert(final(s)@[j] == b);
                }
                if b == a {
                    assert(final(s)@[old(s)@.len() as int] == a);
                }
                if final(s)@.contains(b) {
                    let j = choose|j: int| 0 <= j < final(s)@.len() && final(s)@[j] == b;
                    if j < old(s)@.len() {
                        assert(old(s)@[j] == b);
                    }
                }
            }
        }
    }
}

impl Ledger {
    /// Marks deposit `block_height` as consumed; it must not be already.
    pub fn set_block_used(&mut self, block_height: u64)
        requires
            old(self).wf(),
            !old(self).used().contains(block_height),
        ensures
            final(self).wf(),
            final(self).used() == old(self).used().insert(block_height),
            final(self).same_balances(old(self)),
            final(self).same_allowances(old(self)),
            final(self).meta() == old(self).meta(),
            final(self).log() == old(self).log(),
            final(self).in_flight() == old(self).in_flight(),
            final(self).init_account() == old(self).init_account(),
    {
        self.used_blocks.insert(block_height);
    }

    /// Clears the consumed mark of deposit `block_height`.
    pub fn revert_block_used(&mut self, block_height: &u64)
        requires
            old(self).wf(),
        ensures
            final(self).wf(),
            final(self).used() == old(self).used().remove(*block_height),
            final(self).same_balances(old(self)),
            final(self).same_allowances(old(self)),
            final(self).meta() == old(self).meta(),
            final(self).log() == old(self).log(),
            final(self).in_flight() == old(self).in_flight(),
            final(self).init_account() == old(self).init_account(),
    {
        self.used_blocks.remove(block_height);
    }

    /// Credits `amount` to `to`, creating that much new supply.
    pub fn mint(&mut self, to: Account, amount: u128)
        requires
            old(self).wf(),
            old(self).supply() + old(self).in_flight() + amount <= u128::MAX,
        ensures
            final(self).wf(),
            final(self).balance(to) == old(self).balance(to) + amount,
            forall|a: Account| a != to ==> #[trigger] final(self).balance(a) == old(self).balance(a),
            final(self).supply() == old(self).supply() + amount,
            final(self).same_allowances(old(self)),
            final(self).same_records(old(self)),
    {
        let b = self.balances.get(&to);
        proof {
            lemma_amount_le_total(&self.balances, to);
        }
        self.balances.set(to, b + amount);
    }

    /// Debits `amount` from `to` and holds it as an unsettled withdrawal;
    /// `to` must hold at least `amount`.
    pub fn withdraw(&mut self, to: Account, amount: u128)
        requires
            old(self).wf(),
            old(self).balance(to) >= amount,
        ensures
            final(self).wf(),
            final(self).balance(to) == old(self).balance(to) - amount,
            forall|a: Account| a != to ==> #[trigger] final(self).balance(a) == old(self).balance(a),
            final(self).supply() == old(self).supply() - amount,
            final(self).in_flight() == old(self).in_flight() + amount,
            final(self).same_allowances(old(self)),
            final(self).meta() == old(self).meta(),
            final(self).used() == old(self).used(),
            final(self).log() == old(self).log(),
            final(self).init_account() == old(self).init_account(),
    {
        let b = self.balances.get(&to);
        self.balances.set(to, b - amount);
        self.withdrawals_in_flight = self.withdrawals_in_flight + amount;
    }

    /// Releases `amount` of the unsettled withdrawals, once the outside
    /// transfer has either happened or failed.
    pub fn settle_withdrawal(&mut self, amount: u128)
        requires
            old(self).wf(),
            old(self).in_flight() >= amount,
        ensures
            final(self).wf(),
            final(self).in_flight() == old(self).in_flight() - amount,
            final(self).same_balances(old(self)),
            final(self).same_allowances(old(self)),
            final(self).meta() == old(self).meta(),
            final(self).used() == old(self).used(),
            final(self).log() == old(self).log(),
            final(self).init_account() == old(self).init_account(),
    {
        self.withdrawals_in_flight = self.withdrawals_in_flight - amount;
    }

    /// Appends a log entry stamped `now` and returns the new log length,
    /// which is the entry's 1-based reference.
    pub fn add_tx(
        &mut self,
        caller: Account,
        operation: String,
        details: Vec<(String, GenericValue)>,
        now: u64,
    ) -> (r: usize)
        requires
            old(self).wf(),
        ensures
            final(self).wf(),
            final(self).log() == old(self).log().push(
                (TxEvent { time: now, caller, operation, details }),
            ),
            r == final(self).log().len(),
            final(self).same_balances(old(self)),
            final(self).same_allowances(old(self)),
            final(self).meta() == old(self).meta(),
            final(self).used() == old(self).used(),
            final(self).in_flight() == old(self).in_flight(),
            final(self).init_account() == old(self).init_account(),
    {
        self.tx_records.push(TxEvent { time: now, caller, operation, details });
        self.tx_records.len()
    }

    /// Installs the initial settings: `default_custodian` and any listed
    /// custodians join the custodian set, the other fields come from `args`,
    /// and both timestamps become `now`.
    pub fn init_metadata(&mut self, default_custodian: Account, args: Option<InitArgs>, now: u64)
        requires
            old(self).wf(),
        ensures
            final(self).wf(),
            forall|a: Account| #[trigger]
                final(self).meta().custodians@.contains(a) <==> old(self).meta().custodians@.contains(
                    a,
                ) || a == default_custodian || (args matches Some(g) && g.custodians matches Some(
                    c,
                ) && c@.contains(a)),
            args matches Some(g) ==> {
                &&& final(self).meta().name == g.name
                &&& final(self).meta().logo == g.logo
                &&& final(self).meta().symbol == g.symbol
                &&& final(self).meta().decimals == g.decimals
                &&& final(self).meta().fee == g.fee
                &&& final(self).meta().fee_to == g.fee_to
                &&& final(self).meta().cap == g.cap
            },
            args is None ==> {
                &&& final(self).meta().name == old(self).meta().name
                &&& final(self).meta().logo == old(self).meta().logo
                &&& final(self).meta().symbol == old(self).meta().symbol
                &&& final(self).meta().decimals == old(self).meta().decimals
                &&& final(self).meta().fee == old(self).meta().fee
                &&& final(self).meta().fee_to == old(self).meta().fee_to
                &&& final(self).meta().cap == old(self).meta().cap
            },
            final(self).meta().created_at == now,
            final(self).meta().upgraded_at == now,
            final(self).init_account() == (match old(self).init_account() {
                Some(i) => Some(i),
                None => Some(default_custodian),
            }),
            final(self).same_balances(old(self)),
            final(self).same_allowances(old(self)),
            final(self).used() == old(self).used(),
            final(self).log() == old(self).log(),
            final(self).in_flight() == old(self).in_flight(),
    {
        insert_account(&mut self.metadata.custodians, default_custodian);
        if let Some(args) = args {
            self.metadata.name = args.name;
            self.metadata.logo = args.logo;
            self.metadata.symbol = args.symbol;
            self.metadata.decimals = args.decimals;
            self.metadata.fee = args.fee;
            self.metadata.fee_to = args.fee_to;
            self.metadata.cap = args.cap;
            if let Some(custodians) = args.custodians {
                let ghost before = self.metadata.custodians@;
                let ghost pre = *self;
                let mut i: usize = 0;
                while i < custodians.len()
                    invariant
                        self.balances == pre.balances,
                        self.allowances == pre.allowances,
                        self.used_blocks == pre.used_blocks,
                        self.tx_records == pre.tx_records,
                        self.withdrawals_in_flight == pre.withdrawals_in_flight,
                        self.initializer == pre.initializer,
                        self.metadata == (Metadata {
                            custodians: self.metadata.custodians,
                            ..pre.metadata
                        }),
                        i <= custodians@.len(),
                        forall|a: Account| #[trigger]
                            self.metadata.custodians@.contains(a) <==> before.contains(a) || exists|
                                j: int,
                            | 0 <= j < i && custodians@[j] == a,
                    decreases custodians@.len() - i,
                {
                    insert_account(&mut self.metadata.custodians, custodians[i]);
                    i = i + 1;
                }
            }
        }
        self.metadata.created_at = now;
        self.metadata.upgraded_at = now;
        if self.initializer.is_none() {
            self.initializer = Some(default_custodian);
        }
    }

    /// Refreshes the upgrade timestamp after the state was restored.
    pub fn mark_upgraded(&mut self, now: u64)
        requires
            old(self).wf(),
        ensures
            final(self).wf(),
            final(self).meta() == (Metadata { upgraded_at: now, ..old(self).meta() }),
            final(self).same_balances(old(self)),
            final(self).same_allowances(old(self)),
            final(self).used() == old(self).used(),
            final(self).log() == old(self).log(),
            final(self).in_flight() == old(self).in_flight(),
            final(self).init_account() == old(self).init_account(),
    {
        self.metadata.upgraded_at = now;
    }
}

impl Ledger {
    /// Whether `a` may administer the ledger.
    pub open spec fn is_custodian(&self, a: Account) -> bool {
        self.meta().custodians@.contains(a)
    }

    /// Both ledgers agree on everything but the settings.
    pub open spec fn same_accounts(&self, o: &Ledger) -> bool {
        &&& self.same_balances(o)
        &&& self.same_allowances(o)
        &&& self.used() == o.used()
        &&& self.log() == o.log()
        &&& self.in_flight() == o.in_flight()
    }

    /// Admits custodians only; anyone else gets `Unauthorized`.
    pub fn is_canister_custodian(&self, caller: &Account) -> (r: Result<(), TokenError>)
        ensures
            r is Ok <==> self.is_custodian(*caller),
            r is Err ==> r == Err::<(), TokenError>(TokenError::Unauthorized),
    {
        if contains_account(&self.metadata.custodians, caller) {
            Ok(())
        } else {
            Err(TokenError::Unauthorized)
        }
    }

    /// Replaces the name; custodians only.
    pub fn set_name(&mut self, caller: &Account, value: String) -> (r: Result<(), TokenError>)
        requires
            old(self).wf(),
        ensures
            final(self).wf(),
            r is Ok <==> old(self).is_custodian(*caller),
            r is Err ==> r == Err::<(), TokenError>(TokenError::Unauthorized)
                && *final(self) == *old(self),
            r is Ok ==> final(self).meta() == (Metadata { name: Some(value), ..old(self).meta() }),
            final(self).same_accounts(old(self)),
            final(self).init_account() == old(self).init_account(),
    {
        self.is_canister_custodian(caller)?;
        self.metadata.name = Some(value);
        Ok(())
    }

    /// Replaces the logo; custodians only.
    pub fn set_logo(&mut self, caller: &Account, value: String) -> (r: Result<(), TokenError>)
        requires
            old(self).wf(),
        ensures
            final(self).wf(),
            r is Ok <==> old(self).is_custodian(*caller),
            r is Err ==> r == Err::<(), TokenError>(TokenError::Unauthorized)
                && *final(self) == *old(self),
            r is Ok ==> final(self).meta() == (Metadata { logo: Some(value), ..old(self).meta() }),
            final(self).same_accounts(old(self)),
            final(self).init_account() == old(self).init_account(),
    {
        self.is_canister_custodian(caller)?;
        self.metadata.logo = Some(value);
        Ok(())
    }

    /// Replaces the symbol; custodians only.
    pub fn set_symbol(&mut self, caller: &Account, value: String) -> (r: Result<(), TokenError>)
        requires
            old(self).wf(),
        ensures
            final(self).wf(),
            r is Ok <==> old(self).is_custodian(*caller),
            r is Err ==> r == Err::<(), TokenError>(TokenError::Unauthorized)
                && *final(self) == *old(self),
            r is Ok ==> final(self).meta() == (Metadata { symbol: Some(value), ..old(self).meta() }),
            final(self).same_accounts(old(self)),
            final(self).init_account() == old(self).init_account(),
    {
        self.is_canister_custodian(caller)?;
        self.metadata.symbol = Some(value);
        Ok(())
    }

    /// Replaces the decimals; custodians only.
    pub fn set_decimals(&mut self, caller: &Account, value: u8) -> (r: Result<(), TokenError>)
        requires
            old(self).wf(),
        ensures
            final(self).wf(),
            r is Ok <==> old(self).is_custodian(*caller),
            r is Err ==> r == Err::<(), TokenError>(TokenError::Unauthorized)
                && *final(self) == *old(self),
            r is Ok ==> final(self).meta() == (Metadata { decimals: Some(value), ..old(self).meta() }),
            final(self).same_accounts(old(self)),
            final(self).init_account() == old(self).init_account(),
    {
        self.is_canister_custodian(caller)?;
        self.metadata.decimals = Some(value);
        Ok(())
    }

    /// Replaces the fee; custodians only.
    pub fn set_fee(&mut self, caller: &Account, value: u128) -> (r: Result<(), TokenError>)
        requires
            old(self).wf(),
        ensures
            final(self).wf(),
            r is Ok <==> old(self).is_custodian(*caller),
            r is Err ==> r == Err::<(), TokenError>(TokenError::Unauthorized)
                && *final(self) == *old(self),
            r is Ok ==> final(self).meta() == (Metadata { fee: Some(value), ..old(self).meta() }),
            final(self).same_accounts(old(self)),
            final(self).init_account() == old(self).init_account(),
    {
        self.is_canister_custodian(caller)?;
        self.metadata.fee = Some(value);
        Ok(())
    }

    /// Replaces the fee to; custodians only.
    pub fn set_fee_to(&mut self, caller: &Account, value: Account) -> (r: Result<(), TokenError>)
        requires
            old(self).wf(),
        ensures
            final(self).wf(),
            r is Ok <==> old(self).is_custodian(*caller),
            r is Err ==> r == Err::<(), TokenError>(TokenError::Unauthorized)
                && *final(self) == *old(self),
            r is Ok ==> final(self).meta() == (Metadata { fee_to: Some(value), ..old(self).meta() }),
            final(self).same_accounts(old(self)),
            final(self).init_account() == old(self).init_account(),
    {
        self.is_canister_custodian(caller)?;
        self.metadata.fee_to = Some(value);
        Ok(())
    }

    /// Replaces the custodian set; custodians only. The account that
    /// initialised the ledger stays in the set.
    pub fn set_custodians(&mut self, caller: &Account, value: Vec<Account>) -> (r: Result<(), TokenError>)
        requires
            old(self).wf(),
        ensures
            final(self).wf(),
            r is Ok <==> old(self).is_custodian(*caller),
            r is Err ==> r == Err::<(), TokenError>(TokenError::Unauthorized)
                && *final(self) == *old(self),
            r is Ok ==> final(self).meta() == (Metadata {
                custodians: final(self).meta().custodians,
                ..old(self).meta()
            }),
            r is Ok ==> forall|a: Account| #[trigger] final(self).meta().custodians@.contains(a)
                <==> value@.contains(a) || old(self).init_account() == Some(a),
            r is Ok && old(self).init_account() is None ==> final(self).meta().custodians == value,
            final(self).same_accounts(old(self)),
            final(self).init_account() == old(self).init_account(),
    {
        self.is_canister_custodian(caller)?;
        let mut value = value;
        if let Some(i) = self.initializer {
            insert_account(&mut value, i);
        }
        self.metadata.custodians = value;
        Ok(())
    }

    /// Replaces the cap; custodians only.
    pub fn set_cap(&mut self, caller: &Account, value: Account) -> (r: Result<(), TokenError>)
        requires
            old(self).wf(),
        ensures
            final(self).wf(),
            r is Ok <==> old(self).is_custodian(*caller),
            r is Err ==> r == Err::<(), TokenError>(TokenError::Unauthorized)
                && *final(self) == *old(self),
            r is Ok ==> final(self).meta() == (Metadata { cap: Some(value), ..old(self).meta() }),
            final(self).same_accounts(old(self)),
            final(self).init_account() == old(self).init_account(),
    {
        self.is_canister_custodian(caller)?;
        self.metadata.cap = Some(value);
        Ok(())
    }
}

impl Ledger {
    /// Under the invariant, the supply and the unsettled withdrawals fit
    /// together in a `u128`.
    pub proof fn lemma_capacity(&self)
        requires
            self.wf(),
        ensures
            self.supply() + self.in_flight() <= u128::MAX,
            self.init_account() matches Some(i) ==> self.meta().custodians@.contains(i),
    {
    }

    /// The balances as stored entries.
    pub fn balance_entries(&self) -> (r: Vec<(Account, u128)>)
        requires
            self.wf(),
        ensures
            entries_valid(r@),
            forall|a: Account| #[trigger] amount_in(r@, a) == self.balance(a),
            sum_in(r@) == self.supply(),
    {
        self.balances.to_entries()
    }

    /// The allowances as stored books, one per owner.
    pub fn allowance_entries(&self) -> (r: Vec<(Account, Vec<(Account, u128)>)>)
        requires
            self.wf(),
        ensures
            books_valid(r@),
            forall|o: Account, s: Account| #[trigger] book_amount(r@, o, s) == self.allowance_of(o, s),
    {
        let mut out: Vec<(Account, Vec<(Account, u128)>)> = Vec::new();
        let mut i: usize = 0;
        while i < self.allowances.len()
            invariant
                books_wf(self.allowances@),
                i <= self.allowances@.len(),
                out@.len() == i,
                forall|j: int| 0 <= j < i ==> (#[trigger] out@[j]).0 == self.allowances@[j].0
                    && out@[j].1@ == self.allowances@[j].1.entries(),
            decreases self.allowances@.len() - i,
        {
            let entries = self.allowances[i].1.to_entries();
            out.push((self.allowances[i].0, entries));
            i = i + 1;
        }
        proof {
            let s = self.allowances@;
            let t = out@;
            assert forall|j: int| 0 <= j < s.len() implies #[trigger] s[j].0 == t[j].0 by {}
            lemma_lookup_parallel(s, t);
            assert forall|j: int| 0 <= j < t.len() implies entries_valid((#[trigger] t[j]).1@)
                && t[j].1@.len() > 0 by {
                assert(s[j].1.wf() && s[j].1.holders() > 0);
            }
            assert forall|o: Account, sp: Account| #[trigger] book_amount(t, o, sp)
                == self.allowance_of(o, sp) by {
                if exists|j: int| 0 <= j < s.len() && s[j].0 == o {
                    let j = choose|j: int| 0 <= j < s.len() && s[j].0 == o;
                    assert(lookup(s, s[j].0) == Some(s[j].1));
                } else {
                    lemma_lookup_absent(s, o);
                }
            }
        }
        out
    }

    /// The account that initialised the ledger, once it was initialised.
    pub fn initializing_account(&self) -> (r: Option<Account>)
        ensures
            r == self.init_account(),
    {
        self.initializer
    }

    /// The consumed deposit identifiers.
    pub fn used_blocks(&self) -> (r: &HashSet<u64>)
        ensures
            r@ == self.used(),
    {
        &self.used_blocks
    }

    /// The transaction log, oldest first.
    pub fn tx_records(&self) -> (r: &Vec<TxEvent>)
        ensures
            r@ == self.log(),
    {
        &self.tx_records
    }

    /// Rebuilds a ledger from its stored parts; none when the parts break the
    /// invariant (a repeated account, a zero or empty entry, or more supply
    /// than a `u128` holds beside the unsettled withdrawals).
    pub fn restore(
        metadata: Metadata,
        balances: &Vec<(Account, u128)>,
        allowances: &Vec<(Account, Vec<(Account, u128)>)>,
        used_blocks: HashSet<u64>,
        tx_records: Vec<TxEvent>,
        in_flight: u128,
        initializer: Option<Account>,
    ) -> (r: Option<Ledger>)
        ensures
            r is Some <==> entries_valid(balances@) && books_valid(allowances@) && sum_in(
                balances@,
            ) + in_flight <= u128::MAX && (initializer matches Some(i)
                ==> metadata.custodians@.contains(i)),
            r matches Some(l) ==> {
                &&& l.wf()
                &&& l.meta() == metadata
                &&& forall|a: Account| #[trigger] l.balance(a) == amount_in(balances@, a)
                &&& l.supply() == sum_in(balances@)
                &&& forall|o: Account, s: Account| #[trigger] l.allowance_of(o, s) == book_amount(
                    allowances@,
                    o,
                    s,
                )
                &&& l.used() == used_blocks@
                &&& l.log() == tx_records@
                &&& l.in_flight() == in_flight
                &&& l.init_account() == initializer
            },
    {
        if let Some(i) = initializer {
            if !contains_account(&metadata.custodians, &i) {
                return None;
            }
        }
        let table = match AmountTable::from_entries(balances) {
            Some(t) => t,
            None => return None,
        };
        let mut books: Vec<(Account, AmountTable)> = Vec::new();
        let mut i: usize = 0;
        while i < allowances.len()
            invariant
                i <= allowances@.len(),
                books@.len() == i,
                books_wf(books@),
                forall|j: int| 0 <= j < i ==> (#[trigger] books@[j]).0 == allowances@[j].0
                    && books@[j].1.entries() == allowances@[j].1@,
            decreases allowances@.len() - i,
        {
            let inner = match AmountTable::from_entries(&allowances[i].1) {
                Some(t) => t,
                None => return None,
            };
            if inner.is_empty() {
                return None;
            }
            match find_key(&books, &allowances[i].0) {
                Some(j) => {
                    assert(allowances@[j as int].0 == allowances@[i as int].0);
                    return None;
                },
                None => {},
            }
            let ghost prev = books@;
            books.push((allowances[i].0, inner));
            proof {
                lemma_lookup_push(prev, allowances@[i as int].0, inner);
                assert forall|j: int| 0 <= j < books@.len() implies (#[trigger] books@[j]).1.wf()
                    && books@[j].1.holders() > 0 by {
                    if j < prev.len() {
                        assert(books@[j] == prev[j]);
                    }
                }
            }
            i = i + 1;
        }
        let total = match table.checked_sum() {
            Some(t) => t,
            None => return None,
        };
        if total > u128::MAX - in_flight {
            return None;
        }
        proof {
            let s = books@;
            let t = allowances@;
            assert forall|j: int| 0 <= j < s.len() implies #[trigger] s[j].0 == t[j].0 by {}
            lemma_lookup_parallel(s, t);
            assert forall|j: int| 0 <= j < t.len() implies entries_valid((#[trigger] t[j]).1@)
                && t[j].1@.len() > 0 by {
                assert(s[j].1.wf() && s[j].1.holders() > 0);
            }
        }
        let l = Ledger {
            metadata,
            balances: table,
            allowances: books,
            used_blocks,
            tx_records,
            withdrawals_in_flight: in_flight,
            initializer,
        };
        proof {
            let s = l.allowances@;
            let t = allowances@;
            assert forall|o: Account, sp: Account| #[trigger] l.allowance_of(o, sp) == book_amount(
                t,
                o,
                sp,
            ) by {
                if exists|j: int| 0 <= j < s.len() && s[j].0 == o {
                    let j = choose|j: int| 0 <= j < s.len() && s[j].0 == o;
                    assert(lookup(s, s[j].0) == Some(s[j].1));
                } else {
                    lemma_lookup_absent(s, o);
                    assert forall|j: int| 0 <= j < t.len() implies t[j].0 != o by {
                        assert(s[j].0 == t[j].0);
                    }
                    lemma_lookup_absent(t, o);
                }
            }
        }
        Some(l)
    }
}
} // verus!
