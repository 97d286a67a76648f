//! Plain data shared by the ledger and the terminal front end.

use crate::dates::{Date, DateTime};
use crate::money::Money;
use vstd::prelude::*;

verus! {

/// The kind of an account.
#[derive(Debug, Clone, Copy, PartialEq, Eq, Structural)]
pub enum AccountType {
    Checking,
    Credit,
    Savings,
    Cash,
    Other,
}

impl AccountType {
    /// The persisted, upper-case tag of each kind.
    pub open spec fn tag(self) -> Seq<char> {
        match self {
            AccountType::Checking => "CHECKING"@,
            AccountType::Credit => "CREDIT"@,
            AccountType::Savings => "SAVINGS"@,
            AccountType::Cash => "CASH"@,
            AccountType::Other => "OTHER"@,
        }
    }

    pub fn as_str(&self) -> (r: &'static str)
        ensures
            r@ == self.tag(),
    {
        match self {
            AccountType::Checking => "CHECKING",
            AccountType::Credit => "CREDIT",
            AccountType::Savings => "SAVINGS",
            AccountType::Cash => "CASH",
            AccountType::Other => "OTHER",
        }
    }
}

impl Default for AccountType {
    fn default() -> (r: Self)
        ensures
            r == AccountType::Cash,
    {
        AccountType::Cash
    }
}

/// The fields of the form for a savings goal.
#[derive(Debug, Clone, Copy, PartialEq, Eq, Structural)]
pub enum GoalField {
    Name,
    Target,
    Current,
    Deadline,
}

/// The fields of the form for an account.
#[derive(Debug, Clone, Copy, PartialEq, Eq, Structural)]
pub enum AccField {
    Name,
    Currency,
    Opening,
    Type,
}

/// The fields of the form for a transaction.
#[derive(Debug, Clone, Copy, PartialEq, Eq, Structural)]
pub enum EditField {
    Payee,
    Memo,
    Category,
    Amount,
    Date,
}

/// The pages of the front end.
#[derive(Debug, Clone, Copy, PartialEq, Eq, Structural)]
pub enum Tab {
    Accounts,
    Transactions,
    AddTxn,
    Dashboard,
    Help,
}

/// What has been typed into the form for a savings goal.
#[derive(Debug)]
pub struct GoalForm {
    pub name: String,
    pub target: String,
    pub current: String,
    pub deadline: String,
    pub error: Option<String>,
    pub editing: Option<GoalField>,
}

/// What has been typed into the form for an account.
#[derive(Debug)]
pub struct AccountForm {
    pub name: String,
    pub currency: String,
    pub opening: String,
    pub kind: AccountType,
    pub error: Option<String>,
    pub editing: Option<AccField>,
}

impl GoalField {
    pub open spec fn next_spec(self) -> GoalField {
        match self {
            GoalField::Name => GoalField::Target,
            GoalField::Target => GoalField::Current,
            GoalField::Current => GoalField::Deadline,
            GoalField::Deadline => GoalField::Name,
        }
    }

    /// The field that the tab key leads to.
    pub fn next(self) -> (r: GoalField)
        ensures
            r == self.next_spec(),
    {
        match self {
            GoalField::Name => GoalField::Target,
            GoalField::Target => GoalField::Current,
            GoalField::Current => GoalField::Deadline,
            GoalField::Deadline => GoalField::Name,
        }
    }
}

impl AccField {
    pub open spec fn next_spec(self) -> AccField {
        match self {
            AccField::Name => AccField::Type,
            AccField::Type => AccField::Currency,
            AccField::Currency => AccField::Opening,
            AccField::Opening => AccField::Name,
        }
    }

    /// The field that the tab key leads to.
    pub fn next(self) -> (r: AccField)
        ensures
            r == self.next_spec(),
    {
        match self {
            AccField::Name => AccField::Type,
            AccField::Type => AccField::Currency,
            AccField::Currency => AccField::Opening,
            AccField::Opening => AccField::Name,
        }
    }
}

impl EditField {
    /// The field that the tab key leads to from a field, or from none. The
    /// category is not a stop: it is chosen with the arrow keys.
    pub open spec fn after(editing: Option<EditField>) -> EditField {
        match editing {
            Some(EditField::Date) => EditField::Payee,
            Some(EditField::Payee) => EditField::Memo,
            Some(EditField::Memo) => EditField::Amount,
            Some(EditField::Amount) => EditField::Date,
            _ => EditField::Date,
        }
    }

    /// The field that the tab key leads to.
    pub fn next_after(editing: Option<EditField>) -> (r: EditField)
        ensures
            r == EditField::after(editing),
    {
        match editing {
            Some(EditField::Date) => EditField::Payee,
            Some(EditField::Payee) => EditField::Memo,
            Some(EditField::Memo) => EditField::Amount,
            Some(EditField::Amount) => EditField::Date,
            _ => EditField::Date,
        }
    }
}

impl AccountType {
    /// The kinds in the order in which the arrow keys go through them.
    pub open spec fn cycled(self, forward: bool) -> AccountType {
        if forward {
            match self {
                AccountType::Cash => AccountType::Checking,
                AccountType::Checking => AccountType::Savings,
                AccountType::Savings => AccountType::Credit,
                AccountType::Credit => AccountType::Other,
                AccountType::Other => AccountType::Cash,
            }
        } else {
            match self {
                AccountType::Cash => AccountType::Other,
                AccountType::Other => AccountType::Credit,
                AccountType::Credit => AccountType::Savings,
                AccountType::Savings => AccountType::Checking,
                AccountType::Checking => AccountType::Cash,
            }
        }
    }

    /// The kind that follows, or comes before, in the order of the form.
    pub fn cycle(self, forward: bool) -> (r: AccountType)
        ensures
            r == self.cycled(forward),
            r.cycled(!forward) == self,
    {
        if forward {
            match self {
                AccountType::Cash => AccountType::Checking,
                AccountType::Checking => AccountType::Savings,
                AccountType::Savings => AccountType::Credit,
                AccountType::Credit => AccountType::Other,
                AccountType::Other => AccountType::Cash,
            }
        } else {
            match self {
                AccountType::Cash => AccountType::Other,
                AccountType::Other => AccountType::Credit,
                AccountType::Credit => AccountType::Savings,
                AccountType::Savings => AccountType::Checking,
                AccountType::Checking => AccountType::Cash,
            }
        }
    }
}

/// Whether a category stands for income or for expense.
#[derive(Debug, Clone, Copy, PartialEq, Eq, Structural)]
pub enum CategoryType {
    Income,
    Expense,
}

/// An account as the front end shows it. `opening_balance` holds the amount
/// the account was opened with when the account has just been created, and
/// its current balance when it comes from a listing.
#[derive(Debug)]
pub struct AccountDto {
    pub id: i64,
    pub name: String,
    pub kind: AccountType,
    pub currency: String,
    pub opening_balance: Money,
    pub created_at: String,
}

/// A category as the front end shows it.
#[derive(Debug)]
pub struct CategoryDto {
    pub id: i64,
    pub name: String,
    pub kind: CategoryType,
    pub icon: String,
}

/// A transaction as the front end shows it. Here the amount carries its
/// sign: negative for an expense.
#[derive(Debug)]
pub struct TransactionDto {
    pub id: i64,
    pub account_id: i64,
    pub category_id: Option<i64>,
    pub amount: Money,
    pub memo: Option<String>,
    pub payee: Option<String>,
    pub currency: String,
    pub txn_date: Date,
    pub cleared: bool,
    pub reconciled: bool,
}

/// A savings goal as the front end shows it.
#[derive(Debug)]
pub struct SavingGoalDto {
    pub id: i64,
    pub name: String,
    pub target_amount: Money,
    pub current_amount: Money,
    pub deadline: Option<String>,
}

/// One line of the spending report.
#[derive(Debug)]
pub struct CategorySpendingDto {
    pub category: String,
    pub total_amount: Money,
}

/// What is needed to open an account.
#[derive(Debug)]
pub struct CreateAccountReq {
    pub name: String,
    pub kind: AccountType,
    pub currency: String,
    pub opening_balance: Money,
}

/// What is needed to record or to change a transaction. The amount may
/// carry a sign; `is_expense` says which way the money went. The base
/// amount of the request is not used: the ledger works it out from the rate
/// of the currency when the transaction is stored.
#[derive(Debug)]
pub struct CreateTxnReq {
    pub account_id: i64,
    pub category_id: i64,
    pub amount: Money,
    pub base_amount: Money,
    pub is_expense: bool,
    pub description: Option<String>,
    pub payee: Option<String>,
    pub currency: String,
    pub transacted_at: DateTime,
}

/// The balance of one account.
#[derive(Debug, Clone, Copy, PartialEq, Eq, Structural)]
pub struct BalanceDto {
    pub account_id: i64,
    pub balance: Money,
}

} // verus!
