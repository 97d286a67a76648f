//! The balance-consistency protocol.
//!
//! A transaction row is inserted, replaced or removed in three steps: the
//! row is changed, the balance of every account it touches is worked out
//! again from all of that account's rows, and only then is the change kept.
//! If a balance cannot be worked out, the row change is undone and the
//! ledger is as it was.

use crate::error::LedgerError;
use crate::ledger::{
    balance_for, balances_agree, has_account, has_category, has_transaction,
    lemma_sum_push, lemma_sum_remove_other, lemma_sum_update_other, same_but_balances, Ledger,
    BALANCE_PLACES,
};
use crate::models::{Account, Transaction};
use vstd::prelude::*;

verus! {

impl Ledger {
    /// The two ledgers differ at most in their accounts.
    pub open spec fn same_but_accounts(self, other: Ledger) -> bool {
        &&& self.categories@ == other.categories@
        &&& self.transactions@ == other.transactions@
        &&& self.next_account_id == other.next_account_id
        &&& self.next_category_id == other.next_category_id
        &&& self.next_transaction_id == other.next_transaction_id
        &&& self.same_side(other)
    }

    /// The two ledgers hold the same recurring items, budgets, goals and
    /// rates.
    pub open spec fn same_side(self, other: Ledger) -> bool {
        &&& self.recurring@ == other.recurring@
        &&& self.budgets@ == other.budgets@
        &&& self.goals@ == other.goals@
        &&& self.rates@ == other.rates@
        &&& self.next_recurring_id == other.next_recurring_id
        &&& self.next_budget_id == other.next_budget_id
        &&& self.next_goal_id == other.next_goal_id
    }

    /// The two ledgers hold the same rows in every table.
    pub open spec fn same_as(self, other: Ledger) -> bool {
        &&& self.accounts@ == other.accounts@
        &&& self.same_but_accounts(other)
    }

    /// Everything the invariant asks but that the balances agree: the state
    /// between changing a row and settling the accounts it touches.
    pub open spec fn wf_but_balances(self) -> bool {
        &&& crate::ledger::ascending_account_ids(self.accounts@)
        &&& crate::ledger::distinct_category_ids(self.categories@)
        &&& crate::ledger::ascending_transaction_ids(self.transactions@)
        &&& forall|i: int|
            0 <= i < self.accounts.len() ==> {
                &&& 1 <= (#[trigger] self.accounts[i]).account_id < self.next_account_id
                &&& self.accounts[i].account_created_at.wf()
            }
        &&& forall|i: int|
            0 <= i < self.categories.len() ==> 1 <= (#[trigger] self.categories[i]).category_id
                < self.next_category_id
        &&& forall|i: int|
            0 <= i < self.transactions.len() ==> 1 <= (
            #[trigger] self.transactions[i]).transaction_id < self.next_transaction_id
        &&& 1 <= self.next_account_id
        &&& 1 <= self.next_category_id
        &&& 1 <= self.next_transaction_id
        &&& crate::ledger::transactions_sound(self.accounts@, self.categories@, self.transactions@)
        &&& self.side_wf()
    }

    /// Works out the balance of one account from all its transactions and
    /// stores it. Where the sum does not fit an amount, nothing is stored
    /// and the answer is `false`.
    pub fn recompute_balance(&mut self, account_id: i64) -> (settled: bool)
        requires
            old(self).wf_but_balances(),
            has_account(old(self).accounts@, account_id),
        ensures
            settled == (balance_for(old(self).transactions@, account_id) is Some),
            final(self).same_but_accounts(*old(self)),
            final(self).wf_but_balances(),
            same_but_balances(old(self).accounts@, final(self).accounts@),
            !settled ==> final(self).accounts@ == old(self).accounts@,
            forall|i: int|
                0 <= i < old(self).accounts.len() ==> (#[trigger] final(self).accounts[i]).balance
                    == if settled && old(self).accounts[i].account_id == account_id {
                    balance_for(old(self).transactions@, account_id)->0
                } else {
                    old(self).accounts[i].balance
                },
    {
        let found = self.find_account(account_id);
        let j: usize = found.unwrap();
        match self.sum_of(account_id) {
            None => false,
            Some(sum) => {
                let balance = sum.round(BALANCE_PLACES);
                let mut account = self.accounts.remove(j);
                account.balance = balance;
                self.accounts.insert(j, account);
                proof {
                    let before = old(self).accounts@;
                    let after = self.accounts@;
                    assert(after.len() == before.len());
                    assert forall|i: int| 0 <= i < before.len() implies (#[trigger] after[i]) == (
                    Account { balance: after[i].balance, ..before[i] }) && after[i].balance == if
                        before[i].account_id == account_id {
                        balance
                    } else {
                        before[i].balance
                    } by {
                        if i < j {
                            assert(before[i].account_id < before[j as int].account_id);
                        }
                        if j < i {
                            assert(before[j as int].account_id < before[i].account_id);
                        }
                    }
                    lemma_accounts_keep_ids(before, after);
                    lemma_sound_carries_over(
                        before,
                        after,
                        self.categories@,
                        self.transactions@,
                    );
                }
                true
            },
        }
    }

    /// The row as it is stored: under the next id.
    pub open spec fn row_to_insert(self, row: Transaction) -> Transaction {
        Transaction { transaction_id: self.next_transaction_id, ..row }
    }

    /// Why a row is not inserted, if it is not.
    pub open spec fn insert_refusal(self, row: Transaction) -> Option<LedgerError> {
        row_refusal(
            self.accounts@,
            self.categories@,
            self.transactions@,
            self.next_transaction_id,
            row,
        )
    }

    /// Inserts a transaction and settles its account. The id of the row is
    /// assigned here; the one that `row` carries is not looked at.
    pub fn insert_transaction(&mut self, row: Transaction) -> (r: Result<i64, LedgerError>)
        requires
            old(self).wf(),
        ensures
            final(self).wf(),
            r == match old(self).insert_refusal(row) {
                Some(e) => Err::<i64, LedgerError>(e),
                None => Ok(old(self).next_transaction_id),
            },
            r is Err ==> final(self).same_as(*old(self)),
            r is Ok ==> {
                &&& final(self).transactions@ == old(self).transactions@.push(
                    old(self).row_to_insert(row),
                )
                &&& final(self).next_transaction_id == old(self).next_transaction_id + 1
                &&& final(self).next_account_id == old(self).next_account_id
                &&& final(self).next_category_id == old(self).next_category_id
                &&& final(self).categories@ == old(self).categories@
                &&& same_but_balances(old(self).accounts@, final(self).accounts@)
                &&& final(self).same_side(*old(self))
            },
    {
        if !row.amount.is_valid() || !row.base_amount.is_valid() || !row.transacted_at.is_valid()
            || !row.trans_create_at.is_valid() {
            return Err(LedgerError::InvalidValue);
        }
        if row.amount.is_negative() {
            return Err(LedgerError::AmbiguousAmount);
        }
        if self.find_account(row.account_id).is_none() {
            return Err(LedgerError::AccountNotFound);
        }
        if self.find_category(row.category_id).is_none() {
            return Err(LedgerError::CategoryNotFound);
        }
        if self.next_transaction_id == i64::MAX {
            return Err(LedgerError::IdsExhausted);
        }
        let id: i64 = self.next_transaction_id;
        let account_id: i64 = row.account_id;
        let mut stored = row;
        stored.transaction_id = id;
        let ghost kept = stored;
        self.transactions.push(stored);
        self.next_transaction_id = id + 1;
        proof {
            lemma_pushed_row_keeps_shape(*old(self), *self, kept);
        }
        let settled = self.recompute_balance(account_id);
        if !settled {
            self.transactions.pop();
            self.next_transaction_id = id;
            proof {
                assert(self.transactions@ =~= old(self).transactions@);
            }
            return Err(LedgerError::Overflow);
        }
        proof {
            lemma_settled_after_insert(*old(self), *self, kept);
        }
        Ok(id)
    }

    /// Why a row is not removed, if it is not.
    pub open spec fn remove_refusal(self, transaction_id: i64) -> Option<LedgerError> {
        if !has_transaction(self.transactions@, transaction_id) {
            Some(LedgerError::TransactionNotFound)
        } else {
            let k = crate::ledger::transaction_index(self.transactions@, transaction_id);
            if balance_for(self.transactions@.remove(k), self.transactions[k].account_id)
                is None {
                Some(LedgerError::Overflow)
            } else {
                None
            }
        }
    }

    /// Removes a transaction and settles the account it belonged to.
    pub fn remove_transaction(&mut self, transaction_id: i64) -> (r: Result<(), LedgerError>)
        requires
            old(self).wf(),
        ensures
            final(self).wf(),
            r == match old(self).remove_refusal(transaction_id) {
                Some(e) => Err::<(), LedgerError>(e),
                None => Ok(()),
            },
            r is Err ==> final(self).same_as(*old(self)),
            r is Ok ==> {
                &&& final(self).transactions@ == old(self).transactions@.remove(
                    crate::ledger::transaction_index(old(self).transactions@, transaction_id),
                )
                &&& final(self).next_transaction_id == old(self).next_transaction_id
                &&& final(self).next_account_id == old(self).next_account_id
                &&& final(self).next_category_id == old(self).next_category_id
                &&& final(self).categories@ == old(self).categories@
                &&& same_but_balances(old(self).accounts@, final(self).accounts@)
                &&& final(self).same_side(*old(self))
            },
    {
        let k: usize = match self.find_transaction(transaction_id) {
            Some(k) => k,
            None => {
                return Err(LedgerError::TransactionNotFound);
            },
        };
        proof {
            lemma_index_found(old(self).transactions@, transaction_id, k as int);
        }
        let account_id: i64 = self.transactions[k].account_id;
        let row = self.transactions.remove(k);
        proof {
            lemma_removed_row_keeps_shape(*old(self), *self, k as int);
        }
        let settled = self.recompute_balance(account_id);
        if !settled {
            self.transactions.insert(k, row);
            proof {
                assert(self.transactions@ =~= old(self).transactions@);
            }
            return Err(LedgerError::Overflow);
        }
        proof {
            lemma_settled_after_remove(*old(self), *self, k as int);
        }
        Ok(())
    }

    /// The row as it is stored in place of an old one: under the old id,
    /// and with the old row's time of creation, which never changes.
    pub open spec fn row_to_replace(self, transaction_id: i64, row: Transaction) -> Transaction {
        let k = crate::ledger::transaction_index(self.transactions@, transaction_id);
        Transaction {
            transaction_id,
            trans_create_at: self.transactions[k].trans_create_at,
            ..row
        }
    }

    /// Why a row is not replaced, if it is not.
    pub open spec fn replace_refusal(self, transaction_id: i64, row: Transaction) -> Option<
        LedgerError,
    > {
        if !row.amount.wf() || !row.base_amount.wf() || !row.transacted_at.wf() {
            Some(LedgerError::InvalidValue)
        } else if row.amount.mantissa < 0 {
            Some(LedgerError::AmbiguousAmount)
        } else if !has_transaction(self.transactions@, transaction_id) {
            Some(LedgerError::TransactionNotFound)
        } else if !has_account(self.accounts@, row.account_id) {
            Some(LedgerError::AccountNotFound)
        } else if !has_category(self.categories@, row.category_id) {
            Some(LedgerError::CategoryNotFound)
        } else {
            let k = crate::ledger::transaction_index(self.transactions@, transaction_id);
            let changed = self.transactions@.update(
                k,
                self.row_to_replace(transaction_id, row),
            );
            if balance_for(changed, row.account_id) is None || balance_for(
                changed,
                self.transactions[k].account_id,
            ) is None {
                Some(LedgerError::Overflow)
            } else {
                None
            }
        }
    }

    /// Puts a row in the place of the transaction with the given id, and
    /// settles both the account the transaction belonged to and the one it
    /// belongs to now.
    pub fn replace_transaction(&mut self, transaction_id: i64, row: Transaction) -> (r: Result<
        (),
        LedgerError,
    >)
        requires
            old(self).wf(),
        ensures
            final(self).wf(),
            r == match old(self).replace_refusal(transaction_id, row) {
                Some(e) => Err::<(), LedgerError>(e),
                None => Ok(()),
            },
            r is Err ==> final(self).same_as(*old(self)),
            r is Ok ==> {
                &&& final(self).transactions@ == old(self).transactions@.update(
                    crate::ledger::transaction_index(old(self).transactions@, transaction_id),
                    old(self).row_to_replace(transaction_id, row),
                )
                &&& final(self).next_transaction_id == old(self).next_transaction_id
                &&& final(self).next_account_id == old(self).next_account_id
                &&& final(self).next_category_id == old(self).next_category_id
                &&& final(self).categories@ == old(self).categories@
                &&& same_but_balances(old(self).accounts@, final(self).accounts@)
                &&& final(self).same_side(*old(self))
            },
    {
        if !row.amount.is_valid() || !row.base_amount.is_valid() || !row.transacted_at.is_valid() {
            return Err(LedgerError::InvalidValue);
        }
        if row.amount.is_negative() {
            return Err(LedgerError::AmbiguousAmount);
        }
        let k: usize = match self.find_transaction(transaction_id) {
            Some(k) => k,
            None => {
                return Err(LedgerError::TransactionNotFound);
            },
        };
        if self.find_account(row.account_id).is_none() {
            return Err(LedgerError::AccountNotFound);
        }
        if self.find_category(row.category_id).is_none() {
            return Err(LedgerError::CategoryNotFound);
        }
        proof {
            lemma_index_found(old(self).transactions@, transaction_id, k as int);
        }
        let new_account: i64 = row.account_id;
        let old_account: i64 = self.transactions[k].account_id;
        let previous = self.transactions.remove(k);
        let mut stored = row;
        stored.transaction_id = transaction_id;
        stored.trans_create_at = previous.trans_create_at;
        let ghost kept = stored;
        self.transactions.insert(k, stored);
        proof {
            assert(self.transactions@ =~= old(self).transactions@.update(k as int, kept));
            assert(old(self).transactions@[k as int].wf());
            lemma_replaced_row_keeps_shape(*old(self), *self, k as int, kept);
        }
        let first = self.sum_of(new_account);
        let second = self.sum_of(old_account);
        if first.is_none() || second.is_none() {
            self.transactions.remove(k);
            self.transactions.insert(k, previous);
            proof {
                assert(self.transactions@ =~= old(self).transactions@);
            }
            return Err(LedgerError::Overflow);
        }
        let ghost shaped = *self;
        self.recompute_balance(new_account);
        let ghost between = *self;
        proof {
            lemma_accounts_keep_ids(shaped.accounts@, between.accounts@);
        }
        self.recompute_balance(old_account);
        proof {
            lemma_accounts_keep_ids(between.accounts@, self.accounts@);
            lemma_same_but_balances_twice(shaped.accounts@, between.accounts@, self.accounts@);
            assert forall|i: int| 0 <= i < self.accounts@.len() implies (
            #[trigger] self.accounts@[i]).balance == if old(self).accounts@[i].account_id
                == new_account || old(self).accounts@[i].account_id == old_account {
                balance_for(self.transactions@, old(self).accounts@[i].account_id)->0
            } else {
                old(self).accounts@[i].balance
            } by {
                assert(between.accounts@[i].account_id == old(self).accounts@[i].account_id);
            }
            lemma_settled_after_replace(*old(self), *self, k as int, kept);
        }
        Ok(())
    }
}

/// Why a row is not added to a table under the next id, if it is not: its
/// values are out of bounds, its amount is negative, its account or its
/// category is missing, the ids have run out, or the balance of its account
/// would not fit.
pub open spec fn row_refusal(
    accounts: Seq<Account>,
    categories: Seq<crate::models::Category>,
    transactions: Seq<Transaction>,
    next_id: i64,
    row: Transaction,
) -> Option<LedgerError> {
    if !row.amount.wf() || !row.base_amount.wf() || !row.transacted_at.wf()
        || !row.trans_create_at.wf() {
        Some(LedgerError::InvalidValue)
    } else if row.amount.mantissa < 0 {
        Some(LedgerError::AmbiguousAmount)
    } else if !has_account(accounts, row.account_id) {
        Some(LedgerError::AccountNotFound)
    } else if !has_category(categories, row.category_id) {
        Some(LedgerError::CategoryNotFound)
    } else if next_id == i64::MAX {
        Some(LedgerError::IdsExhausted)
    } else if balance_for(
        transactions.push(Transaction { transaction_id: next_id, ..row }),
        row.account_id,
    ) is None {
        Some(LedgerError::Overflow)
    } else {
        None
    }
}

/// Whether two rows agree in all that the rules of the ledger read of a
/// row: account, category, amounts, direction and the two times. Texts are
/// free.
pub open spec fn same_entry(a: Transaction, b: Transaction) -> bool {
    &&& a.account_id == b.account_id
    &&& a.category_id == b.category_id
    &&& a.amount == b.amount
    &&& a.base_amount == b.base_amount
    &&& a.is_expense == b.is_expense
    &&& a.transacted_at == b.transacted_at
    &&& a.trans_create_at == b.trans_create_at
}

/// Whether a row is inserted does not depend on its texts.
pub proof fn lemma_insert_reads_entry(db: Ledger, a: Transaction, b: Transaction)
    requires
        same_entry(a, b),
    ensures
        db.insert_refusal(a) == db.insert_refusal(b),
{
    let x = db.transactions@.push(db.row_to_insert(a));
    let y = db.transactions@.push(db.row_to_insert(b));
    assert forall|i: int| 0 <= i < x.len() implies crate::ledger::counts_alike(
        #[trigger] x[i],
        y[i],
    ) by {}
    crate::ledger::lemma_sum_of_like_rows(x, y, a.account_id);
}

/// Whether a row takes the place of another does not depend on its texts.
pub proof fn lemma_replace_reads_entry(db: Ledger, id: i64, a: Transaction, b: Transaction)
    requires
        same_entry(a, b),
    ensures
        db.replace_refusal(id, a) == db.replace_refusal(id, b),
{
    if has_transaction(db.transactions@, id) {
        let k = crate::ledger::transaction_index(db.transactions@, id);
        let x = db.transactions@.update(k, db.row_to_replace(id, a));
        let y = db.transactions@.update(k, db.row_to_replace(id, b));
        assert forall|i: int| 0 <= i < x.len() implies crate::ledger::counts_alike(
            #[trigger] x[i],
            y[i],
        ) by {}
        crate::ledger::lemma_sum_of_like_rows(x, y, a.account_id);
        crate::ledger::lemma_sum_of_like_rows(x, y, db.transactions@[k].account_id);
    }
}

/// In a table whose ids ascend, the place where an id was found is the
/// place of that id.
pub proof fn lemma_index_found(transactions: Seq<Transaction>, id: i64, k: int)
    requires
        crate::ledger::ascending_transaction_ids(transactions),
        0 <= k < transactions.len(),
        transactions[k].transaction_id == id,
    ensures
        crate::ledger::transaction_index(transactions, id) == k,
{
    let c = crate::ledger::transaction_index(transactions, id);
    if c < k {
        assert(transactions[c].transaction_id < transactions[k].transaction_id);
    }
    if k < c {
        assert(transactions[k].transaction_id < transactions[c].transaction_id);
    }
}

/// A ledger that gained a sound row under the next id is in order but for
/// its balances.
pub proof fn lemma_pushed_row_keeps_shape(before: Ledger, after: Ledger, row: Transaction)
    requires
        before.wf(),
        before.next_transaction_id < i64::MAX,
        after.transactions@ == before.transactions@.push(row),
        after.next_transaction_id == before.next_transaction_id + 1,
        after.accounts@ == before.accounts@,
        after.same_but_accounts(
            Ledger {
                transactions: after.transactions,
                next_transaction_id: after.next_transaction_id,
                ..before
            },
        ),
        row.wf(),
        row.transaction_id == before.next_transaction_id,
        has_account(before.accounts@, row.account_id),
        has_category(before.categories@, row.category_id),
    ensures
        after.wf_but_balances(),
{
    let was = before.transactions@;
    let now = after.transactions@;
    assert forall|i: int| 0 <= i < was.len() implies #[trigger] now[i] == was[i] by {}
    assert forall|i: int, j: int| 0 <= i < j < now.len() implies (#[trigger] now[i]).transaction_id
        < (#[trigger] now[j]).transaction_id by {
        if j < was.len() {
            assert(was[i].transaction_id < was[j].transaction_id);
        } else {
            assert(was[i].transaction_id < before.next_transaction_id);
        }
    }
    assert forall|i: int| 0 <= i < now.len() implies {
        &&& (#[trigger] now[i]).wf()
        &&& has_account(after.accounts@, now[i].account_id)
        &&& has_category(after.categories@, now[i].category_id)
        &&& 1 <= now[i].transaction_id < after.next_transaction_id
    } by {
        if i < was.len() {
            assert(was[i].wf());
            assert(1 <= was[i].transaction_id < before.next_transaction_id);
        }
    }
}

/// After a row was added and its account was settled, every balance agrees
/// with the rows again.
pub proof fn lemma_settled_after_insert(before: Ledger, after: Ledger, row: Transaction)
    requires
        before.wf(),
        after.wf_but_balances(),
        after.transactions@ == before.transactions@.push(row),
        same_but_balances(before.accounts@, after.accounts@),
        balance_for(after.transactions@, row.account_id) is Some,
        forall|i: int|
            0 <= i < after.accounts@.len() ==> (#[trigger] after.accounts@[i]).balance == if
                before.accounts@[i].account_id == row.account_id {
                balance_for(after.transactions@, row.account_id)->0
            } else {
                before.accounts@[i].balance
            },
    ensures
        after.wf(),
{
    lemma_accounts_keep_ids(before.accounts@, after.accounts@);
    assert forall|i: int| 0 <= i < after.accounts@.len() implies balance_for(
        after.transactions@,
        (#[trigger] after.accounts@[i]).account_id,
    ) == Some(after.accounts@[i].balance) by {
        let id = after.accounts@[i].account_id;
        assert(before.accounts@[i].account_id == id);
        assert(balance_for(before.transactions@, before.accounts@[i].account_id) == Some(
            before.accounts@[i].balance,
        ));
        lemma_sum_push(before.transactions@, row, id);
    }
}

/// A ledger from which one row was taken is in order but for its balances.
pub proof fn lemma_removed_row_keeps_shape(before: Ledger, after: Ledger, k: int)
    requires
        before.wf(),
        0 <= k < before.transactions@.len(),
        after.transactions@ == before.transactions@.remove(k),
        after.accounts@ == before.accounts@,
        after.same_but_accounts(Ledger { transactions: after.transactions, ..before }),
    ensures
        after.wf_but_balances(),
        has_account(after.accounts@, before.transactions@[k].account_id),
{
    let was = before.transactions@;
    let now = after.transactions@;
    assert forall|i: int| 0 <= i < now.len() implies #[trigger] now[i] == was[if i < k {
        i
    } else {
        i + 1
    }] by {}
    assert forall|i: int, j: int| 0 <= i < j < now.len() implies (#[trigger] now[i]).transaction_id
        < (#[trigger] now[j]).transaction_id by {
        let a = if i < k { i } else { i + 1 };
        let b = if j < k { j } else { j + 1 };
        assert(was[a].transaction_id < was[b].transaction_id);
    }
    assert forall|i: int| 0 <= i < now.len() implies {
        &&& (#[trigger] now[i]).wf()
        &&& has_account(after.accounts@, now[i].account_id)
        &&& has_category(after.categories@, now[i].category_id)
        &&& 1 <= now[i].transaction_id < after.next_transaction_id
    } by {
        let a = if i < k { i } else { i + 1 };
        assert(was[a].wf());
        assert(1 <= was[a].transaction_id < before.next_transaction_id);
    }
    assert(was[k].wf());
}

/// After a row was taken away and its account was settled, every balance
/// agrees with the rows again.
pub proof fn lemma_settled_after_remove(before: Ledger, after: Ledger, k: int)
    requires
        before.wf(),
        after.wf_but_balances(),
        0 <= k < before.transactions@.len(),
        after.transactions@ == before.transactions@.remove(k),
        same_but_balances(before.accounts@, after.accounts@),
        balance_for(after.transactions@, before.transactions@[k].account_id) is Some,
        forall|i: int|
            0 <= i < after.accounts@.len() ==> (#[trigger] after.accounts@[i]).balance == if
                before.accounts@[i].account_id == before.transactions@[k].account_id {
                balance_for(after.transactions@, before.transactions@[k].account_id)->0
            } else {
                before.accounts@[i].balance
            },
    ensures
        after.wf(),
{
    lemma_accounts_keep_ids(before.accounts@, after.accounts@);
    assert forall|i: int| 0 <= i < after.accounts@.len() implies balance_for(
        after.transactions@,
        (#[trigger] after.accounts@[i]).account_id,
    ) == Some(after.accounts@[i].balance) by {
        let id = after.accounts@[i].account_id;
        assert(before.accounts@[i].account_id == id);
        assert(balance_for(before.transactions@, before.accounts@[i].account_id) == Some(
            before.accounts@[i].balance,
        ));
        if id != before.transactions@[k].account_id {
            lemma_sum_remove_other(before.transactions@, k, id);
        }
    }
}

/// Balances changed twice over are balances changed.
pub proof fn lemma_same_but_balances_twice(a: Seq<Account>, b: Seq<Account>, c: Seq<Account>)
    requires
        same_but_balances(a, b),
        same_but_balances(b, c),
    ensures
        same_but_balances(a, c),
{
    assert forall|i: int| 0 <= i < a.len() implies (#[trigger] c[i]) == (Account {
        balance: c[i].balance,
        ..a[i]
    }) by {
        assert(b[i] == (Account { balance: b[i].balance, ..a[i] }));
        assert(c[i] == (Account { balance: c[i].balance, ..b[i] }));
    }
}

/// A ledger in which one row was replaced by a sound row of the same id is
/// in order but for its balances.
pub proof fn lemma_replaced_row_keeps_shape(
    before: Ledger,
    after: Ledger,
    k: int,
    row: Transaction,
)
    requires
        before.wf(),
        0 <= k < before.transactions@.len(),
        after.transactions@ == before.transactions@.update(k, row),
        after.accounts@ == before.accounts@,
        after.same_but_accounts(Ledger { transactions: after.transactions, ..before }),
        row.wf(),
        row.transaction_id == before.transactions@[k].transaction_id,
        has_account(before.accounts@, row.account_id),
        has_category(before.categories@, row.category_id),
    ensures
        after.wf_but_balances(),
{
    let was = before.transactions@;
    let now = after.transactions@;
    assert forall|i: int, j: int| 0 <= i < j < now.len() implies (#[trigger] now[i]).transaction_id
        < (#[trigger] now[j]).transaction_id by {
        assert(was[i].transaction_id < was[j].transaction_id);
    }
    assert forall|i: int| 0 <= i < now.len() implies {
        &&& (#[trigger] now[i]).wf()
        &&& has_account(after.accounts@, now[i].account_id)
        &&& has_category(after.categories@, now[i].category_id)
        &&& 1 <= now[i].transaction_id < after.next_transaction_id
    } by {
        assert(was[i].wf());
        assert(1 <= was[i].transaction_id < before.next_transaction_id);
    }
}

/// After a row was replaced and the two accounts it touches were settled,
/// every balance agrees with the rows again.
pub proof fn lemma_settled_after_replace(
    before: Ledger,
    after: Ledger,
    k: int,
    row: Transaction,
)
    requires
        before.wf(),
        after.wf_but_balances(),
        0 <= k < before.transactions@.len(),
        after.transactions@ == before.transactions@.update(k, row),
        same_but_balances(before.accounts@, after.accounts@),
        balance_for(after.transactions@, row.account_id) is Some,
        balance_for(after.transactions@, before.transactions@[k].account_id) is Some,
        forall|i: int|
            0 <= i < after.accounts@.len() ==> (#[trigger] after.accounts@[i]).balance == if
                before.accounts@[i].account_id == row.account_id
                || before.accounts@[i].account_id == before.transactions@[k].account_id {
                balance_for(after.transactions@, before.accounts@[i].account_id)->0
            } else {
                before.accounts@[i].balance
            },
    ensures
        after.wf(),
{
    lemma_accounts_keep_ids(before.accounts@, after.accounts@);
    assert forall|i: int| 0 <= i < after.accounts@.len() implies balance_for(
        after.transactions@,
        (#[trigger] after.accounts@[i]).account_id,
    ) == Some(after.accounts@[i].balance) by {
        let id = after.accounts@[i].account_id;
        assert(before.accounts@[i].account_id == id);
        assert(balance_for(before.transactions@, before.accounts@[i].account_id) == Some(
            before.accounts@[i].balance,
        ));
        if id != row.account_id && id != before.transactions@[k].account_id {
            lemma_sum_update_other(before.transactions@, k, row, id);
        }
    }
}

/// Accounts that differ at most in their balances have the same ids at the
/// same places.
pub proof fn lemma_accounts_keep_ids(before: Seq<Account>, after: Seq<Account>)
    requires
        same_but_balances(before, after),
    ensures
        forall|i: int| 0 <= i < before.len() ==> (#[trigger] after[i]).account_id == before[i].account_id,
        forall|i: int|
            0 <= i < before.len() ==> (#[trigger] after[i]).account_created_at
                == before[i].account_created_at,
        forall|id: i64| has_account(before, id) == has_account(after, id),
        crate::ledger::ascending_account_ids(before) == crate::ledger::ascending_account_ids(after),
{
    assert forall|i: int| 0 <= i < before.len() implies (#[trigger] after[i]).account_id
        == before[i].account_id && after[i].account_created_at == before[i].account_created_at by {
        assert(after[i] == (Account { balance: after[i].balance, ..before[i] }));
    }
    assert forall|id: i64| has_account(before, id) == has_account(after, id) by {
        if has_account(before, id) {
            let i = choose|i: int| 0 <= i < before.len() && (#[trigger] before[i]).account_id == id;
            assert(after[i].account_id == id);
        }
        if has_account(after, id) {
            let i = choose|i: int| 0 <= i < after.len() && (#[trigger] after[i]).account_id == id;
            assert(before[i].account_id == id);
        }
    }
    if crate::ledger::ascending_account_ids(before) {
        assert forall|i: int, j: int| 0 <= i < j < after.len() implies (#[trigger] after[i]).account_id
            < (#[trigger] after[j]).account_id by {
            assert(before[i].account_id < before[j].account_id);
        }
    }
    if crate::ledger::ascending_account_ids(after) {
        assert forall|i: int, j: int| 0 <= i < j < before.len() implies (
        #[trigger] before[i]).account_id < (#[trigger] before[j]).account_id by {
            assert(after[i].account_id < after[j].account_id);
        }
    }
}

/// Transactions that were sound stay so when only balances change.
pub proof fn lemma_sound_carries_over(
    before: Seq<Account>,
    after: Seq<Account>,
    categories: Seq<crate::models::Category>,
    transactions: Seq<Transaction>,
)
    requires
        same_but_balances(before, after),
        crate::ledger::transactions_sound(before, categories, transactions),
    ensures
        crate::ledger::transactions_sound(after, categories, transactions),
{
    lemma_accounts_keep_ids(before, after);
    assert forall|k: int| 0 <= k < transactions.len() implies {
        &&& (#[trigger] transactions[k]).wf()
        &&& has_account(after, transactions[k].account_id)
        &&& has_category(categories, transactions[k].category_id)
    } by {
        assert(has_account(before, transactions[k].account_id));
    }
}

} // verus!
