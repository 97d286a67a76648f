//! The ledger: its tables, and what must hold of them at all times.
//!
//! The transactions are the truth. An account's balance is kept beside them
//! as a cache, and every operation that touches a transaction works the
//! balance out again from all the account's transactions before it returns.
//! An operation that cannot finish leaves the ledger as it found it.

use crate::models::{
    Account, Budget, Category, CurrencyRate, RecurringTransaction, SavingsGoal, Transaction,
};
use crate::money::{lemma_add_units, Money, MAX_SCALE};
use vstd::prelude::*;

verus! {

/// The number of decimal places of a balance.
pub const BALANCE_PLACES: u32 = 2;

/// All the tables. Ids are handed out from the counters and never reused.
pub struct Ledger {
    pub accounts: Vec<Account>,
    pub categories: Vec<Category>,
    pub transactions: Vec<Transaction>,
    pub recurring: Vec<RecurringTransaction>,
    pub budgets: Vec<Budget>,
    pub goals: Vec<SavingsGoal>,
    pub rates: Vec<CurrencyRate>,
    pub next_account_id: i64,
    pub next_category_id: i64,
    pub next_transaction_id: i64,
    pub next_recurring_id: i64,
    pub next_budget_id: i64,
    pub next_goal_id: i64,
}

/// Whether some account has the id.
pub open spec fn has_account(accounts: Seq<Account>, id: i64) -> bool {
    exists|i: int| 0 <= i < accounts.len() && (#[trigger] accounts[i]).account_id == id
}

/// Whether some category has the id.
pub open spec fn has_category(categories: Seq<Category>, id: i64) -> bool {
    exists|i: int| 0 <= i < categories.len() && (#[trigger] categories[i]).category_id == id
}

/// Whether some transaction has the id.
pub open spec fn has_transaction(transactions: Seq<Transaction>, id: i64) -> bool {
    exists|i: int|
        0 <= i < transactions.len() && (#[trigger] transactions[i]).transaction_id == id
}

/// The place of the account with the id.
pub open spec fn account_index(accounts: Seq<Account>, id: i64) -> int {
    choose|i: int| 0 <= i < accounts.len() && (#[trigger] accounts[i]).account_id == id
}

/// The place of the transaction with the id.
pub open spec fn transaction_index(transactions: Seq<Transaction>, id: i64) -> int {
    choose|i: int|
        0 <= i < transactions.len() && (#[trigger] transactions[i]).transaction_id == id
}

/// The sum of the signed amounts of an account's transactions, taken in the
/// order of the rows with exact additions; `None` where a partial sum does
/// not fit an amount.
pub open spec fn sum_for(transactions: Seq<Transaction>, account_id: i64) -> Option<Money>
    decreases transactions.len(),
{
    if transactions.len() == 0 {
        Some(Money::zero_spec())
    } else {
        let last = transactions.last();
        match sum_for(transactions.drop_last(), account_id) {
            None => None,
            Some(so_far) => if last.account_id == account_id {
                so_far.add_spec(last.signed_amount_spec())
            } else {
                Some(so_far)
            },
        }
    }
}

/// What the balance of an account has to be: the sum of its transactions,
/// rounded to two places.
pub open spec fn balance_for(transactions: Seq<Transaction>, account_id: i64) -> Option<Money> {
    match sum_for(transactions, account_id) {
        Some(sum) => Some(sum.round_spec(BALANCE_PLACES)),
        None => None,
    }
}

/// The same sum as a plain number, in units of `10^-28`. It does not depend
/// on the order of the rows.
pub open spec fn total_units(transactions: Seq<Transaction>, account_id: i64) -> int
    decreases transactions.len(),
{
    if transactions.len() == 0 {
        0
    } else {
        let last = transactions.last();
        total_units(transactions.drop_last(), account_id) + if last.account_id == account_id {
            last.signed_amount_spec().units()
        } else {
            0
        }
    }
}

/// The largest scale among an account's transactions.
pub open spec fn widest_scale(transactions: Seq<Transaction>, account_id: i64) -> u32
    decreases transactions.len(),
{
    if transactions.len() == 0 {
        0
    } else {
        let last = transactions.last();
        let before = widest_scale(transactions.drop_last(), account_id);
        if last.account_id == account_id && last.amount.scale > before {
            last.amount.scale
        } else {
            before
        }
    }
}

/// The accounts stand in the order of their ids, so no two share one.
pub open spec fn ascending_account_ids(accounts: Seq<Account>) -> bool {
    forall|i: int, j: int|
        0 <= i < j < accounts.len() ==> (#[trigger] accounts[i]).account_id < (
        #[trigger] accounts[j]).account_id
}

/// No two categories share an id.
pub open spec fn distinct_category_ids(categories: Seq<Category>) -> bool {
    forall|i: int, j: int|
        0 <= i < j < categories.len() ==> (#[trigger] categories[i]).category_id != (
        #[trigger] categories[j]).category_id
}

/// The transactions stand in the order of their ids, so no two share one.
pub open spec fn ascending_transaction_ids(transactions: Seq<Transaction>) -> bool {
    forall|i: int, j: int|
        0 <= i < j < transactions.len() ==> (#[trigger] transactions[i]).transaction_id < (
        #[trigger] transactions[j]).transaction_id
}

/// Every transaction belongs to an account and a category that exist, and
/// holds values within bounds.
pub open spec fn transactions_sound(
    accounts: Seq<Account>,
    categories: Seq<Category>,
    transactions: Seq<Transaction>,
) -> bool {
    forall|k: int|
        0 <= k < transactions.len() ==> {
            &&& (#[trigger] transactions[k]).wf()
            &&& has_account(accounts, transactions[k].account_id)
            &&& has_category(categories, transactions[k].category_id)
        }
}

/// Every account's cached balance is what its transactions add up to.
pub open spec fn balances_agree(accounts: Seq<Account>, transactions: Seq<Transaction>) -> bool {
    forall|i: int|
        0 <= i < accounts.len() ==> balance_for(
            transactions,
            (#[trigger] accounts[i]).account_id,
        ) == Some(accounts[i].balance)
}

/// The two lists hold the same accounts in the same order, but for their
/// balances.
pub open spec fn same_but_balances(before: Seq<Account>, after: Seq<Account>) -> bool {
    &&& before.len() == after.len()
    &&& forall|i: int|
        0 <= i < before.len() ==> (#[trigger] after[i]) == (Account {
            balance: after[i].balance,
            ..before[i]
        })
}

impl Ledger {
    /// What holds of the accounts, categories and transactions.
    pub open spec fn core_wf(self) -> bool {
        &&& ascending_account_ids(self.accounts@)
        &&& distinct_category_ids(self.categories@)
        &&& ascending_transaction_ids(self.transactions@)
        &&& forall|i: int|
            0 <= i < self.accounts.len() ==> {
                &&& 1 <= (#[trigger] self.accounts[i]).account_id < self.next_account_id
                &&& self.accounts[i].account_created_at.wf()
            }
        &&& forall|i: int|
            0 <= i < self.categories.len() ==> 1 <= (#[trigger] self.categories[i]).category_id
                < self.next_category_id
        &&& forall|i: int|
            0 <= i < self.transactions.len() ==> 1 <= (
            #[trigger] self.transactions[i]).transaction_id < self.next_transaction_id
        &&& 1 <= self.next_account_id
        &&& 1 <= self.next_category_id
        &&& 1 <= self.next_transaction_id
        &&& transactions_sound(self.accounts@, self.categories@, self.transactions@)
        &&& balances_agree(self.accounts@, self.transactions@)
    }

    /// What holds of the recurring items, budgets, goals and rates.
    pub open spec fn side_wf(self) -> bool {
        &&& 1 <= self.next_recurring_id
        &&& 1 <= self.next_budget_id
        &&& 1 <= self.next_goal_id
        &&& forall|i: int|
            0 <= i < self.recurring.len() ==> {
                &&& 1 <= (#[trigger] self.recurring[i]).recurring_id < self.next_recurring_id
                &&& self.recurring[i].amount.wf()
                &&& self.recurring[i].next_run_date.wf()
            }
        &&& forall|i: int, j: int|
            0 <= i < j < self.recurring.len() ==> (#[trigger] self.recurring[i]).recurring_id < (
            #[trigger] self.recurring[j]).recurring_id
        &&& forall|i: int|
            0 <= i < self.budgets.len() ==> {
                &&& 1 <= (#[trigger] self.budgets[i]).budget_id < self.next_budget_id
                &&& self.budgets[i].amount.wf()
                &&& self.budgets[i].start_date.wf()
            }
        &&& forall|i: int|
            0 <= i < self.goals.len() ==> {
                &&& 1 <= (#[trigger] self.goals[i]).goal_id < self.next_goal_id
                &&& self.goals[i].target_amount.wf()
                &&& self.goals[i].current_amount.wf()
                &&& self.goals[i].deadline matches Some(d) ==> d.wf()
            }
        &&& forall|i: int, j: int|
            0 <= i < j < self.goals.len() ==> (#[trigger] self.goals[i]).goal_id != (
            #[trigger] self.goals[j]).goal_id
        &&& forall|i: int| 0 <= i < self.rates.len() ==> (#[trigger] self.rates[i]).rate_to_base.wf()
        &&& forall|i: int, j: int|
            0 <= i < j < self.rates.len() ==> (#[trigger] self.rates[i]).currency@ != (
            #[trigger] self.rates[j]).currency@
    }

    /// The invariant of the ledger. Every operation expects it and keeps it.
    pub open spec fn wf(self) -> bool {
        self.core_wf() && self.side_wf()
    }

    /// An empty ledger. Every table hands out 1 as its first id.
    pub fn new() -> (r: Ledger)
        ensures
            r.wf(),
            r.accounts@.len() == 0,
            r.categories@.len() == 0,
            r.transactions@.len() == 0,
            r.recurring@.len() == 0,
            r.budgets@.len() == 0,
            r.goals@.len() == 0,
            r.rates@.len() == 0,
            r.next_account_id == 1,
            r.next_category_id == 1,
            r.next_transaction_id == 1,
            r.next_recurring_id == 1,
            r.next_budget_id == 1,
            r.next_goal_id == 1,
    {
        Ledger {
            accounts: Vec::new(),
            categories: Vec::new(),
            transactions: Vec::new(),
            recurring: Vec::new(),
            budgets: Vec::new(),
            goals: Vec::new(),
            rates: Vec::new(),
            next_account_id: 1,
            next_category_id: 1,
            next_transaction_id: 1,
            next_recurring_id: 1,
            next_budget_id: 1,
            next_goal_id: 1,
        }
    }

    /// The place of the account with the id, if there is one.
    pub fn find_account(&self, id: i64) -> (r: Option<usize>)
        ensures
            r is Some <==> has_account(self.accounts@, id),
            r matches Some(i) ==> i < self.accounts.len() && self.accounts[i as int].account_id
                == id,
    {
        let mut i: usize = 0;
        while i < self.accounts.len()
            invariant
                i <= self.accounts.len(),
                forall|k: int| 0 <= k < i ==> (#[trigger] self.accounts[k]).account_id != id,
            decreases self.accounts.len() - i,
        {
            if self.accounts[i].account_id == id {
                return Some(i);
            }
            i = i + 1;
        }
        None
    }

    /// The place of the category with the id, if there is one.
    pub fn find_category(&self, id: i64) -> (r: Option<usize>)
        ensures
            r is Some <==> has_category(self.categories@, id),
            r matches Some(i) ==> i < self.categories.len() && self.categories[i as int].category_id
                == id,
    {
        let mut i: usize = 0;
        while i < self.categories.len()
            invariant
                i <= self.categories.len(),
                forall|k: int| 0 <= k < i ==> (#[trigger] self.categories[k]).category_id != id,
            decreases self.categories.len() - i,
        {
            if self.categories[i].category_id == id {
                return Some(i);
            }
            i = i + 1;
        }
        None
    }

    /// The place of the transaction with the id, if there is one.
    pub fn find_transaction(&self, id: i64) -> (r: Option<usize>)
        ensures
            r is Some <==> has_transaction(self.transactions@, id),
            r matches Some(i) ==> i < self.transactions.len()
                && self.transactions[i as int].transaction_id == id,
    {
        let mut i: usize = 0;
        while i < self.transactions.len()
            invariant
                i <= self.transactions.len(),
                forall|k: int|
                    0 <= k < i ==> (#[trigger] self.transactions[k]).transaction_id != id,
            decreases self.transactions.len() - i,
        {
            if self.transactions[i].transaction_id == id {
                return Some(i);
            }
            i = i + 1;
        }
        None
    }

    /// Adds up the signed amounts of an account's transactions, from the
    /// first row to the last.
    pub fn sum_of(&self, account_id: i64) -> (r: Option<Money>)
        requires
            forall|k: int| 0 <= k < self.transactions.len() ==> (#[trigger] self.transactions[k]).wf(),
        ensures
            r == sum_for(self.transactions@, account_id),
            r matches Some(m) ==> m.wf(),
    {
        let mut total = Money::zero();
        let mut i: usize = 0;
        while i < self.transactions.len()
            invariant
                i <= self.transactions.len(),
                total.wf(),
                sum_for(self.transactions@.take(i as int), account_id) == Some(total),
                forall|k: int|
                    0 <= k < self.transactions.len() ==> (#[trigger] self.transactions[k]).wf(),
            decreases self.transactions.len() - i,
        {
            proof {
                let next = self.transactions@.take(i + 1);
                assert(next.drop_last() =~= self.transactions@.take(i as int));
                assert(next.last() == self.transactions@[i as int]);
            }
            if self.transactions[i].account_id == account_id {
                let signed = self.transactions[i].signed_amount();
                match total.checked_add(&signed) {
                    Some(t) => {
                        total = t;
                    },
                    None => {
                        proof {
                            lemma_sum_none_stays(
                                self.transactions@,
                                (i + 1) as int,
                                account_id,
                            );
                        }
                        return None;
                    },
                }
            }
            i = i + 1;
        }
        proof {
            assert(self.transactions@.take(i as int) =~= self.transactions@);
        }
        Some(total)
    }
}

/// In a list of accounts whose ids ascend, the place where an id was found
/// is the place of that id.
pub proof fn lemma_account_found(accounts: Seq<Account>, id: i64, j: int)
    requires
        ascending_account_ids(accounts),
        0 <= j < accounts.len(),
        accounts[j].account_id == id,
    ensures
        account_index(accounts, id) == j,
        has_account(accounts, id),
{
    let c = account_index(accounts, id);
    if c < j {
        assert(accounts[c].account_id < accounts[j].account_id);
    }
    if j < c {
        assert(accounts[j].account_id < accounts[c].account_id);
    }
}

/// Once a partial sum does not fit, no longer one does.
pub proof fn lemma_sum_none_stays(transactions: Seq<Transaction>, n: int, account_id: i64)
    requires
        0 <= n <= transactions.len(),
        sum_for(transactions.take(n), account_id) is None,
    ensures
        sum_for(transactions, account_id) is None,
    decreases transactions.len() - n,
{
    if n < transactions.len() {
        let next = transactions.take(n + 1);
        assert(next.drop_last() =~= transactions.take(n));
        lemma_sum_none_stays(transactions, n + 1, account_id);
    } else {
        assert(transactions.take(n) =~= transactions);
    }
}

/// The sum after one more row.
pub proof fn lemma_sum_push(transactions: Seq<Transaction>, t: Transaction, account_id: i64)
    ensures
        sum_for(transactions.push(t), account_id) == match sum_for(transactions, account_id) {
            None => None,
            Some(so_far) => if t.account_id == account_id {
                so_far.add_spec(t.signed_amount_spec())
            } else {
                Some(so_far)
            },
        },
{
    assert(transactions.push(t).drop_last() =~= transactions);
    assert(transactions.push(t).last() == t);
}

/// Taking a row away does not change the sum of any other account.
pub proof fn lemma_sum_remove_other(transactions: Seq<Transaction>, k: int, account_id: i64)
    requires
        0 <= k < transactions.len(),
        transactions[k].account_id != account_id,
    ensures
        sum_for(transactions.remove(k), account_id) == sum_for(transactions, account_id),
    decreases transactions.len(),
{
    if k == transactions.len() - 1 {
        assert(transactions.remove(k) =~= transactions.drop_last());
    } else {
        let shorter = transactions.remove(k);
        assert(shorter.drop_last() =~= transactions.drop_last().remove(k));
        assert(shorter.last() == transactions.last());
        lemma_sum_remove_other(transactions.drop_last(), k, account_id);
    }
}

/// Replacing a row changes the sum of no account but the one it belonged to
/// and the one it belongs to now.
pub proof fn lemma_sum_update_other(
    transactions: Seq<Transaction>,
    k: int,
    t: Transaction,
    account_id: i64,
)
    requires
        0 <= k < transactions.len(),
        transactions[k].account_id != account_id,
        t.account_id != account_id,
    ensures
        sum_for(transactions.update(k, t), account_id) == sum_for(transactions, account_id),
    decreases transactions.len(),
{
    let changed = transactions.update(k, t);
    if k == transactions.len() - 1 {
        assert(changed.drop_last() =~= transactions.drop_last());
    } else {
        assert(changed.drop_last() =~= transactions.drop_last().update(k, t));
        assert(changed.last() == transactions.last());
        lemma_sum_update_other(transactions.drop_last(), k, t, account_id);
    }
}

/// Whether two rows count alike for a balance: the same account, amount
/// and direction.
pub open spec fn counts_alike(a: Transaction, b: Transaction) -> bool {
    a.account_id == b.account_id && a.amount == b.amount && a.is_expense == b.is_expense
}

/// The sum of an account reads nothing of a row but its account, amount and
/// direction.
pub proof fn lemma_sum_of_like_rows(a: Seq<Transaction>, b: Seq<Transaction>, account_id: i64)
    requires
        a.len() == b.len(),
        forall|i: int| 0 <= i < a.len() ==> counts_alike(#[trigger] a[i], b[i]),
    ensures
        sum_for(a, account_id) == sum_for(b, account_id),
    decreases a.len(),
{
    if a.len() > 0 {
        assert(counts_alike(a[a.len() - 1], b[a.len() - 1]));
        assert forall|i: int| 0 <= i < a.drop_last().len() implies counts_alike(
            #[trigger] a.drop_last()[i],
            b.drop_last()[i],
        ) by {
            assert(counts_alike(a[i], b[i]));
        }
        lemma_sum_of_like_rows(a.drop_last(), b.drop_last(), account_id);
    }
}

/// An account without transactions has the sum zero.
pub proof fn lemma_sum_without_rows(transactions: Seq<Transaction>, account_id: i64)
    requires
        forall|k: int|
            0 <= k < transactions.len() ==> (#[trigger] transactions[k]).account_id != account_id,
    ensures
        sum_for(transactions, account_id) == Some(Money::zero_spec()),
    decreases transactions.len(),
{
    if transactions.len() > 0 {
        lemma_sum_without_rows(transactions.drop_last(), account_id);
    }
}

/// A sum that fits is the plain total of the signed amounts, held at the
/// largest scale among them.
pub proof fn lemma_sum_value(transactions: Seq<Transaction>, account_id: i64)
    requires
        forall|k: int| 0 <= k < transactions.len() ==> (#[trigger] transactions[k]).wf(),
        sum_for(transactions, account_id) is Some,
    ensures
        sum_for(transactions, account_id)->0.wf(),
        sum_for(transactions, account_id)->0.units() == total_units(transactions, account_id),
        sum_for(transactions, account_id)->0.scale == widest_scale(transactions, account_id),
    decreases transactions.len(),
{
    if transactions.len() > 0 {
        let last = transactions.last();
        let rest = transactions.drop_last();
        assert(last.wf());
        assert forall|k: int| 0 <= k < rest.len() implies (#[trigger] rest[k]).wf() by {
            assert(rest[k] == transactions[k]);
        }
        lemma_sum_value(rest, account_id);
        if last.account_id == account_id {
            lemma_add_units(sum_for(rest, account_id)->0, last.signed_amount_spec());
        }
    } else {
        assert(Money::zero_spec().units() == 0 * crate::money::pow10(MAX_SCALE as nat));
    }
}

} // verus!
