//! Checking a ledger that was put together from stored rows.
//!
//! The operations of the ledger expect its invariant. A ledger that was read
//! from storage is checked here first: ids in order and below the counters,
//! values within bounds, every transaction with its account and category,
//! and every cached balance equal to what the transactions add up to.

use crate::ledger::{
    ascending_account_ids, ascending_transaction_ids, balance_for, balances_agree,
    distinct_category_ids, has_account, has_category, same_but_balances, transactions_sound,
    Ledger, BALANCE_PLACES,
};
use crate::text::same_text;
use vstd::prelude::*;

verus! {

/// The largest of some ids, or 0 if none is positive.
pub open spec fn largest_id(ids: Seq<i64>) -> int
    decreases ids.len(),
{
    if ids.len() == 0 {
        0
    } else {
        let before = largest_id(ids.drop_last());
        if ids.last() > before {
            ids.last() as int
        } else {
            before
        }
    }
}

/// The id with which a table goes on whose rows have the given ids: one
/// more than the largest of them, and 1 for an empty table. A table that
/// holds the largest id there is has none left.
pub open spec fn next_id_spec(ids: Seq<i64>) -> i64 {
    if largest_id(ids) >= i64::MAX {
        i64::MAX
    } else {
        (largest_id(ids) + 1) as i64
    }
}

/// None of the ids is larger than the largest.
pub proof fn lemma_largest_id(ids: Seq<i64>)
    ensures
        largest_id(ids) >= 0,
        forall|i: int| 0 <= i < ids.len() ==> (#[trigger] ids[i]) <= largest_id(ids),
    decreases ids.len(),
{
    if ids.len() > 0 {
        let shorter = ids.drop_last();
        lemma_largest_id(shorter);
        assert forall|i: int| 0 <= i < ids.len() implies (#[trigger] ids[i]) <= largest_id(
            ids,
        ) by {
            if i < shorter.len() {
                assert(shorter[i] == ids[i]);
            }
        }
    }
}

/// Works out the counter of a table from the ids of its rows.
pub fn next_id(ids: &Vec<i64>) -> (r: i64)
    ensures
        r == next_id_spec(ids@),
        r >= 1,
        r < i64::MAX ==> forall|i: int| 0 <= i < ids@.len() ==> (#[trigger] ids@[i]) < r,
{
    let mut largest: i64 = 0;
    let mut i: usize = 0;
    while i < ids.len()
        invariant
            i <= ids.len(),
            largest == largest_id(ids@.take(i as int)),
        decreases ids.len() - i,
    {
        proof {
            assert(ids@.take(i + 1).drop_last() =~= ids@.take(i as int));
        }
        if ids[i] > largest {
            largest = ids[i];
        }
        i = i + 1;
    }
    proof {
        assert(ids@.take(i as int) =~= ids@);
        lemma_largest_id(ids@);
    }
    if largest == i64::MAX {
        i64::MAX
    } else {
        largest + 1
    }
}

impl Ledger {
    /// What the invariant asks of the accounts alone.
    pub open spec fn accounts_in_order(self) -> bool {
        &&& ascending_account_ids(self.accounts@)
        &&& forall|i: int|
            0 <= i < self.accounts.len() ==> {
                &&& 1 <= (#[trigger] self.accounts[i]).account_id < self.next_account_id
                &&& self.accounts[i].account_created_at.wf()
            }
    }

    /// What the invariant asks of the categories alone.
    pub open spec fn categories_in_order(self) -> bool {
        &&& distinct_category_ids(self.categories@)
        &&& forall|i: int|
            0 <= i < self.categories.len() ==> 1 <= (#[trigger] self.categories[i]).category_id
                < self.next_category_id
    }

    /// What the invariant asks of the ids of the transactions.
    pub open spec fn transactions_in_order(self) -> bool {
        &&& ascending_transaction_ids(self.transactions@)
        &&& forall|i: int|
            0 <= i < self.transactions.len() ==> 1 <= (
            #[trigger] self.transactions[i]).transaction_id < self.next_transaction_id
    }

    /// Checks the accounts.
    pub fn check_accounts(&self) -> (r: bool)
        ensures
            r == self.accounts_in_order(),
    {
        let mut i: usize = 0;
        while i < self.accounts.len()
            invariant
                i <= self.accounts.len(),
                forall|a: int, b: int|
                    0 <= a < b < i ==> (#[trigger] self.accounts@[a]).account_id < (
                    #[trigger] self.accounts@[b]).account_id,
                forall|k: int|
                    0 <= k < i ==> {
                        &&& 1 <= (#[trigger] self.accounts@[k]).account_id < self.next_account_id
                        &&& self.accounts@[k].account_created_at.wf()
                    },
            decreases self.accounts.len() - i,
        {
            let row = &self.accounts[i];
            if row.account_id < 1 || row.account_id >= self.next_account_id
                || !row.account_created_at.is_valid() {
                return false;
            }
            if i > 0 {
                if self.accounts[i - 1].account_id >= row.account_id {
                    proof {
                        if self.accounts_in_order() {
                            assert(self.accounts@[i - 1].account_id
                                < self.accounts@[i as int].account_id);
                        }
                    }
                    return false;
                }
                proof {
                    assert forall|a: int, b: int| 0 <= a < b < i + 1 implies (
                    #[trigger] self.accounts@[a]).account_id < (
                    #[trigger] self.accounts@[b]).account_id by {
                        if b == i && a < i - 1 {
                            assert(self.accounts@[a].account_id < self.accounts@[i
                                - 1].account_id);
                        }
                    }
                }
            }
            i = i + 1;
        }
        true
    }

    /// Checks the categories.
    pub fn check_categories(&self) -> (r: bool)
        ensures
            r == self.categories_in_order(),
    {
        let mut i: usize = 0;
        while i < self.categories.len()
            invariant
                i <= self.categories.len(),
                forall|a: int, b: int|
                    0 <= a < b < i ==> (#[trigger] self.categories@[a]).category_id != (
                    #[trigger] self.categories@[b]).category_id,
                forall|k: int|
                    0 <= k < i ==> 1 <= (#[trigger] self.categories@[k]).category_id
                        < self.next_category_id,
            decreases self.categories.len() - i,
        {
            let id: i64 = self.categories[i].category_id;
            if id < 1 || id >= self.next_category_id {
                return false;
            }
            let mut j: usize = 0;
            while j < i
                invariant
                    j <= i < self.categories.len(),
                    id == self.categories@[i as int].category_id,
                    forall|a: int| 0 <= a < j ==> (#[trigger] self.categories@[a]).category_id != id,
                decreases i - j,
            {
                if self.categories[j].category_id == id {
                    proof {
                        if self.categories_in_order() {
                            assert(self.categories@[j as int].category_id
                                != self.categories@[i as int].category_id);
                        }
                    }
                    return false;
                }
                j = j + 1;
            }
            i = i + 1;
        }
        true
    }

    /// Checks the ids of the transactions.
    pub fn check_transaction_ids(&self) -> (r: bool)
        ensures
            r == self.transactions_in_order(),
    {
        let mut i: usize = 0;
        while i < self.transactions.len()
            invariant
                i <= self.transactions.len(),
                forall|a: int, b: int|
                    0 <= a < b < i ==> (#[trigger] self.transactions@[a]).transaction_id < (
                    #[trigger] self.transactions@[b]).transaction_id,
                forall|k: int|
                    0 <= k < i ==> 1 <= (#[trigger] self.transactions@[k]).transaction_id
                        < self.next_transaction_id,
            decreases self.transactions.len() - i,
        {
            let id: i64 = self.transactions[i].transaction_id;
            if id < 1 || id >= self.next_transaction_id {
                return false;
            }
            if i > 0 {
                if self.transactions[i - 1].transaction_id >= id {
                    proof {
                        if self.transactions_in_order() {
                            assert(self.transactions@[i - 1].transaction_id
                                < self.transactions@[i as int].transaction_id);
                        }
                    }
                    return false;
                }
                proof {
                    assert forall|a: int, b: int| 0 <= a < b < i + 1 implies (
                    #[trigger] self.transactions@[a]).transaction_id < (
                    #[trigger] self.transactions@[b]).transaction_id by {
                        if b == i && a < i - 1 {
                            assert(self.transactions@[a].transaction_id < self.transactions@[i
                                - 1].transaction_id);
                        }
                    }
                }
            }
            i = i + 1;
        }
        true
    }

    /// Checks that every transaction holds values within bounds and belongs
    /// to an account and a category that exist.
    pub fn check_transactions(&self) -> (r: bool)
        ensures
            r == transactions_sound(self.accounts@, self.categories@, self.transactions@),
    {
        let mut i: usize = 0;
        while i < self.transactions.len()
            invariant
                i <= self.transactions.len(),
                forall|k: int|
                    0 <= k < i ==> {
                        &&& (#[trigger] self.transactions@[k]).wf()
                        &&& has_account(self.accounts@, self.transactions@[k].account_id)
                        &&& has_category(self.categories@, self.transactions@[k].category_id)
                    },
            decreases self.transactions.len() - i,
        {
            let row = &self.transactions[i];
            let sound: bool = row.amount.is_valid() && !row.amount.is_negative()
                && row.base_amount.is_valid() && row.transacted_at.is_valid()
                && row.trans_create_at.is_valid() && self.find_account(row.account_id).is_some()
                && self.find_category(row.category_id).is_some();
            if !sound {
                proof {
                    if transactions_sound(self.accounts@, self.categories@, self.transactions@) {
                        assert(self.transactions@[i as int].wf());
                    }
                }
                return false;
            }
            i = i + 1;
        }
        true
    }

    /// Checks every cached balance against the transactions.
    pub fn check_balances(&self) -> (r: bool)
        requires
            forall|k: int| 0 <= k < self.transactions.len() ==> (#[trigger] self.transactions[k]).wf(),
        ensures
            r == balances_agree(self.accounts@, self.transactions@),
    {
        let mut i: usize = 0;
        while i < self.accounts.len()
            invariant
                i <= self.accounts.len(),
                forall|k: int|
                    0 <= k < self.transactions.len() ==> (#[trigger] self.transactions[k]).wf(),
                forall|k: int|
                    0 <= k < i ==> balance_for(
                        self.transactions@,
                        (#[trigger] self.accounts@[k]).account_id,
                    ) == Some(self.accounts@[k].balance),
            decreases self.accounts.len() - i,
        {
            let agrees: bool = match self.sum_of(self.accounts[i].account_id) {
                Some(sum) => sum.round(BALANCE_PLACES) == self.accounts[i].balance,
                None => false,
            };
            if !agrees {
                proof {
                    if balances_agree(self.accounts@, self.transactions@) {
                        assert(balance_for(
                            self.transactions@,
                            self.accounts@[i as int].account_id,
                        ) == Some(self.accounts@[i as int].balance));
                    }
                }
                return false;
            }
            i = i + 1;
        }
        true
    }

    /// Checks the recurring items, budgets, goals and rates.
    pub fn check_side(&self) -> (r: bool)
        ensures
            r == self.side_wf(),
    {
        if self.next_recurring_id < 1 || self.next_budget_id < 1 || self.next_goal_id < 1 {
            return false;
        }
        let mut i: usize = 0;
        while i < self.recurring.len()
            invariant
                i <= self.recurring.len(),
                forall|a: int, b: int|
                    0 <= a < b < i ==> (#[trigger] self.recurring@[a]).recurring_id < (
                    #[trigger] self.recurring@[b]).recurring_id,
                forall|k: int|
                    0 <= k < i ==> {
                        &&& 1 <= (#[trigger] self.recurring@[k]).recurring_id
                            < self.next_recurring_id
                        &&& self.recurring@[k].amount.wf()
                        &&& self.recurring@[k].next_run_date.wf()
                    },
            decreases self.recurring.len() - i,
        {
            let row = &self.recurring[i];
            if row.recurring_id < 1 || row.recurring_id >= self.next_recurring_id
                || !row.amount.is_valid() || !row.next_run_date.is_valid() {
                return false;
            }
            if i > 0 {
                if self.recurring[i - 1].recurring_id >= row.recurring_id {
                    proof {
                        if self.side_wf() {
                            assert(self.recurring@[i - 1].recurring_id
                                < self.recurring@[i as int].recurring_id);
                        }
                    }
                    return false;
                }
                proof {
                    assert forall|a: int, b: int| 0 <= a < b < i + 1 implies (
                    #[trigger] self.recurring@[a]).recurring_id < (
                    #[trigger] self.recurring@[b]).recurring_id by {
                        if b == i && a < i - 1 {
                            assert(self.recurring@[a].recurring_id < self.recurring@[i
                                - 1].recurring_id);
                        }
                    }
                }
            }
            i = i + 1;
        }
        let mut i: usize = 0;
        while i < self.budgets.len()
            invariant
                i <= self.budgets.len(),
                forall|k: int|
                    0 <= k < i ==> {
                        &&& 1 <= (#[trigger] self.budgets@[k]).budget_id < self.next_budget_id
                        &&& self.budgets@[k].amount.wf()
                        &&& self.budgets@[k].start_date.wf()
                    },
            decreases self.budgets.len() - i,
        {
            let row = &self.budgets[i];
            if row.budget_id < 1 || row.budget_id >= self.next_budget_id || !row.amount.is_valid()
                || !row.start_date.is_valid() {
                return false;
            }
            i = i + 1;
        }
        let mut i: usize = 0;
        while i < self.goals.len()
            invariant
                i <= self.goals.len(),
                forall|a: int, b: int|
                    0 <= a < b < i ==> (#[trigger] self.goals@[a]).goal_id != (
                    #[trigger] self.goals@[b]).goal_id,
                forall|k: int|
                    0 <= k < i ==> {
                        &&& 1 <= (#[trigger] self.goals@[k]).goal_id < self.next_goal_id
                        &&& self.goals@[k].target_amount.wf()
                        &&& self.goals@[k].current_amount.wf()
                        &&& self.goals@[k].deadline matches Some(d) ==> d.wf()
                    },
            decreases self.goals.len() - i,
        {
            let row = &self.goals[i];
            let id: i64 = row.goal_id;
            if id < 1 || id >= self.next_goal_id || !crate::planning::goal_is_valid(row) {
                return false;
            }
            let mut j: usize = 0;
            while j < i
                invariant
                    j <= i < self.goals.len(),
                    id == self.goals@[i as int].goal_id,
                    forall|a: int| 0 <= a < j ==> (#[trigger] self.goals@[a]).goal_id != id,
                decreases i - j,
            {
                if self.goals[j].goal_id == id {
                    proof {
                        if self.side_wf() {
                            assert(self.goals@[j as int].goal_id != self.goals@[i as int].goal_id);
                        }
                    }
                    return false;
                }
                j = j + 1;
            }
            i = i + 1;
        }
        let mut i: usize = 0;
        while i < self.rates.len()
            invariant
                i <= self.rates.len(),
                forall|a: int, b: int|
                    0 <= a < b < i ==> (#[trigger] self.rates@[a]).currency@ != (
                    #[trigger] self.rates@[b]).currency@,
                forall|k: int| 0 <= k < i ==> (#[trigger] self.rates@[k]).rate_to_base.wf(),
            decreases self.rates.len() - i,
        {
            if !self.rates[i].rate_to_base.is_valid() {
                return false;
            }
            let mut j: usize = 0;
            while j < i
                invariant
                    j <= i < self.rates.len(),
                    forall|a: int|
                        0 <= a < j ==> (#[trigger] self.rates@[a]).currency@
                            != self.rates@[i as int].currency@,
                decreases i - j,
            {
                if same_text(self.rates[j].currency.as_str(), self.rates[i].currency.as_str()) {
                    proof {
                        if self.side_wf() {
                            assert(self.rates@[j as int].currency@
                                != self.rates@[i as int].currency@);
                        }
                    }
                    return false;
                }
                j = j + 1;
            }
            i = i + 1;
        }
        true
    }

    /// Whether the ledger is in order but for its balances: the state of a
    /// ledger whose cached balances cannot be trusted.
    pub fn is_shaped(&self) -> (r: bool)
        ensures
            r == self.wf_but_balances(),
    {
        if self.next_account_id < 1 || self.next_category_id < 1 || self.next_transaction_id < 1 {
            return false;
        }
        if !self.check_accounts() || !self.check_categories() || !self.check_transaction_ids() {
            return false;
        }
        self.check_transactions() && self.check_side()
    }

    /// Works out every balance again from the transactions. If the sum of
    /// some account does not fit an amount, the answer is that account's id
    /// and nothing has changed.
    pub fn recompute_all_balances(&mut self) -> (r: Result<(), i64>)
        requires
            old(self).wf_but_balances(),
        ensures
            final(self).same_but_accounts(*old(self)),
            same_but_balances(old(self).accounts@, final(self).accounts@),
            match r {
                Ok(()) => final(self).wf(),
                Err(id) => {
                    &&& has_account(old(self).accounts@, id)
                    &&& balance_for(old(self).transactions@, id) is None
                    &&& final(self).accounts@ == old(self).accounts@
                },
            },
    {
        // First make sure that every sum fits, so that nothing is changed
        // unless everything can be.
        let mut i: usize = 0;
        while i < self.accounts.len()
            invariant
                i <= self.accounts.len(),
                *self == *old(self),
                self.wf_but_balances(),
                forall|k: int|
                    0 <= k < i ==> balance_for(
                        self.transactions@,
                        (#[trigger] self.accounts@[k]).account_id,
                    ) is Some,
            decreases self.accounts.len() - i,
        {
            proof {
                assert forall|k: int| 0 <= k < self.transactions.len() implies (
                #[trigger] self.transactions[k]).wf() by {}
            }
            let id: i64 = self.accounts[i].account_id;
            if self.sum_of(id).is_none() {
                proof {
                    crate::protocol::lemma_same_but_balances_twice(
                        self.accounts@,
                        self.accounts@,
                        self.accounts@,
                    );
                }
                return Err(id);
            }
            i = i + 1;
        }
        let mut i: usize = 0;
        while i < self.accounts.len()
            invariant
                i <= self.accounts.len(),
                self.wf_but_balances(),
                self.same_but_accounts(*old(self)),
                same_but_balances(old(self).accounts@, self.accounts@),
                forall|k: int|
                    0 <= k < self.accounts@.len() ==> balance_for(
                        self.transactions@,
                        (#[trigger] old(self).accounts@[k]).account_id,
                    ) is Some,
                forall|k: int|
                    0 <= k < i ==> balance_for(
                        self.transactions@,
                        (#[trigger] self.accounts@[k]).account_id,
                    ) == Some(self.accounts@[k].balance),
            decreases self.accounts.len() - i,
        {
            let ghost before = self.accounts@;
            let id: i64 = self.accounts[i].account_id;
            proof {
                crate::protocol::lemma_accounts_keep_ids(old(self).accounts@, before);
                assert(before[i as int].account_id == old(self).accounts@[i as int].account_id);
            }
            self.recompute_balance(id);
            proof {
                let after = self.accounts@;
                crate::protocol::lemma_accounts_keep_ids(before, after);
                crate::protocol::lemma_same_but_balances_twice(old(self).accounts@, before, after);
                assert forall|k: int| 0 <= k < i + 1 implies balance_for(
                    self.transactions@,
                    (#[trigger] after[k]).account_id,
                ) == Some(after[k].balance) by {
                    assert(after[k].account_id == before[k].account_id);
                    if k < i {
                        assert(before[k].account_id < before[i as int].account_id);
                        assert(balance_for(self.transactions@, before[k].account_id) == Some(
                            before[k].balance,
                        ));
                    }
                }
            }
            i = i + 1;
        }
        Ok(())
    }

    /// Whether the ledger keeps its invariant. A ledger that was put
    /// together from stored rows is checked with this before it is used.
    pub fn is_consistent(&self) -> (r: bool)
        ensures
            r == self.wf(),
    {
        if self.next_account_id < 1 || self.next_category_id < 1 || self.next_transaction_id < 1 {
            return false;
        }
        if !self.check_accounts() || !self.check_categories() || !self.check_transaction_ids() {
            return false;
        }
        if !self.check_transactions() {
            return false;
        }
        proof {
            assert forall|k: int| 0 <= k < self.transactions.len() implies (
            #[trigger] self.transactions[k]).wf() by {}
        }
        self.check_balances() && self.check_side()
    }
}

} // verus!
