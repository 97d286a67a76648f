//! The rows of the ledger's tables.

use crate::dates::DateTime;
use crate::money::Money;
use crate::sorting::Row;
use crate::text::copy_optional_text;
use vstd::prelude::*;

verus! {

/// An account. `balance` is a cache: the ledger keeps it equal to the signed
/// sum of the account's transactions, rounded to two places.
#[derive(Debug)]
pub struct Account {
    pub account_id: i64,
    pub account_name: String,
    pub account_type: String,
    pub balance: Money,
    pub currency: Option<String>,
    pub account_created_at: DateTime,
}

/// A category of income or expense.
#[derive(Debug)]
pub struct Category {
    pub category_id: i64,
    pub category_name: String,
    pub category_type: String,
    pub icon: String,
}

/// One movement of money. `amount` is a magnitude, never negative; whether
/// it adds to the balance or takes from it is said by `is_expense` alone.
#[derive(Debug)]
pub struct Transaction {
    pub transaction_id: i64,
    pub account_id: i64,
    pub category_id: i64,
    pub amount: Money,
    pub base_amount: Money,
    pub is_expense: bool,
    pub description: Option<String>,
    pub payee: Option<String>,
    pub currency: String,
    pub transacted_at: DateTime,
    pub trans_create_at: DateTime,
}

/// A movement that comes back on a schedule. The rule is a label for
/// whoever computes the next date; the ledger only keeps that date.
#[derive(Debug)]
pub struct RecurringTransaction {
    pub recurring_id: i64,
    pub account_id: i64,
    pub amount: Money,
    pub currency: String,
    pub category_id: Option<i64>,
    pub description: Option<String>,
    pub recurrence_rule: String,
    pub next_run_date: DateTime,
}

/// A spending limit for a period.
#[derive(Debug)]
pub struct Budget {
    pub budget_id: i64,
    pub account_id: i64,
    pub category_id: Option<i64>,
    pub period: String,
    pub amount: Money,
    pub currency: String,
    pub start_date: DateTime,
}

/// A savings goal and how far it has come.
#[derive(Debug)]
pub struct SavingsGoal {
    pub goal_id: i64,
    pub account_id: i64,
    pub goal_name: String,
    pub target_amount: Money,
    pub current_amount: Money,
    pub deadline: Option<DateTime>,
}

/// What one unit of a currency is worth in the base currency.
#[derive(Debug)]
pub struct CurrencyRate {
    pub currency: String,
    pub rate_to_base: Money,
}

/// A label that transactions can carry.
#[derive(Debug)]
pub struct Tag {
    pub tag_id: i64,
    pub tag: String,
}

/// The total spent in one category.
#[derive(Debug)]
pub struct CategorySpending {
    pub category: String,
    pub total_amount: Money,
}

impl Row for Account {
    fn duplicate(&self) -> (r: Account) {
        Account {
            account_id: self.account_id,
            account_name: self.account_name.clone(),
            account_type: self.account_type.clone(),
            balance: self.balance,
            currency: copy_optional_text(&self.currency),
            account_created_at: self.account_created_at,
        }
    }
}

impl Row for Category {
    fn duplicate(&self) -> (r: Category) {
        Category {
            category_id: self.category_id,
            category_name: self.category_name.clone(),
            category_type: self.category_type.clone(),
            icon: self.icon.clone(),
        }
    }
}

impl Transaction {
    /// What the transaction does to the balance of its account: the amount,
    /// taken negative for an expense.
    pub open spec fn signed_amount_spec(self) -> Money {
        if self.is_expense {
            self.amount.negate_spec()
        } else {
            self.amount
        }
    }

    /// Amounts and dates are within bounds and the amount is a magnitude.
    pub open spec fn wf(self) -> bool {
        &&& self.amount.wf()
        &&& self.amount.mantissa >= 0
        &&& self.base_amount.wf()
        &&& self.transacted_at.wf()
        &&& self.trans_create_at.wf()
    }

    /// The one place where the sign of a transaction is worked out.
    pub fn signed_amount(&self) -> (r: Money)
        requires
            self.amount.wf(),
        ensures
            r == self.signed_amount_spec(),
            r.wf(),
    {
        if self.is_expense {
            self.amount.negate()
        } else {
            self.amount
        }
    }

}

impl Row for Transaction {
    fn duplicate(&self) -> (r: Transaction) {
        Transaction {
            transaction_id: self.transaction_id,
            account_id: self.account_id,
            category_id: self.category_id,
            amount: self.amount,
            base_amount: self.base_amount,
            is_expense: self.is_expense,
            description: copy_optional_text(&self.description),
            payee: copy_optional_text(&self.payee),
            currency: self.currency.clone(),
            transacted_at: self.transacted_at,
            trans_create_at: self.trans_create_at,
        }
    }
}

impl Row for RecurringTransaction {
    fn duplicate(&self) -> (r: RecurringTransaction) {
        RecurringTransaction {
            recurring_id: self.recurring_id,
            account_id: self.account_id,
            amount: self.amount,
            currency: self.currency.clone(),
            category_id: self.category_id,
            description: copy_optional_text(&self.description),
            recurrence_rule: self.recurrence_rule.clone(),
            next_run_date: self.next_run_date,
        }
    }
}

impl Row for Budget {
    fn duplicate(&self) -> (r: Budget) {
        Budget {
            budget_id: self.budget_id,
            account_id: self.account_id,
            category_id: self.category_id,
            period: self.period.clone(),
            amount: self.amount,
            currency: self.currency.clone(),
            start_date: self.start_date,
        }
    }
}

impl Row for SavingsGoal {
    fn duplicate(&self) -> (r: SavingsGoal) {
        SavingsGoal {
            goal_id: self.goal_id,
            account_id: self.account_id,
            goal_name: self.goal_name.clone(),
            target_amount: self.target_amount,
            current_amount: self.current_amount,
            deadline: self.deadline,
        }
    }
}

impl Row for CategorySpending {
    fn duplicate(&self) -> (r: CategorySpending) {
        CategorySpending { category: self.category.clone(), total_amount: self.total_amount }
    }
}

impl Row for CurrencyRate {
    fn duplicate(&self) -> (r: CurrencyRate) {
        CurrencyRate { currency: self.currency.clone(), rate_to_base: self.rate_to_base }
    }
}

impl Row for Tag {
    fn duplicate(&self) -> (r: Tag) {
        Tag { tag_id: self.tag_id, tag: self.tag.clone() }
    }
}

} // verus!
