//! What can go wrong in a ledger operation.

use vstd::prelude::*;

verus! {

/// The family an error belongs to; callers react by family.
#[derive(Debug, Clone, Copy, PartialEq, Eq, Structural)]
pub enum ErrorKind {
    /// The input was not acceptable; storage was not touched.
    Validation,
    /// The operation names a row that does not exist.
    NotFound,
    /// Storage could not take the change; nothing of it was kept.
    Storage,
    /// A persisted value could not be read back.
    Decode,
}

/// The outcome of an operation that was refused. Whatever the error, the
/// ledger is as it was before the call.
#[derive(Debug, Clone, Copy, PartialEq, Eq, Structural)]
pub enum LedgerError {
    /// A name that must not be empty was empty.
    EmptyName,
    /// A negative amount was given for something that is not an expense.
    AmbiguousAmount,
    /// An amount, a date or a balance in the input is outside its bounds.
    InvalidValue,
    /// There is no account with the given id.
    AccountNotFound,
    /// There is no category with the given id.
    CategoryNotFound,
    /// There is no transaction with the given id.
    TransactionNotFound,
    /// There is no recurring item with the given id.
    RecurringNotFound,
    /// There is no savings goal with the given id.
    GoalNotFound,
    /// There is no rate for the given currency.
    RateNotFound,
    /// A sum or a product does not fit an amount.
    Overflow,
    /// The table has handed out its last id.
    IdsExhausted,
    /// A persisted amount or date could not be read.
    Unreadable,
}

impl LedgerError {
    pub open spec fn kind_spec(self) -> ErrorKind {
        match self {
            LedgerError::EmptyName => ErrorKind::Validation,
            LedgerError::AmbiguousAmount => ErrorKind::Validation,
            LedgerError::InvalidValue => ErrorKind::Validation,
            LedgerError::AccountNotFound => ErrorKind::NotFound,
            LedgerError::CategoryNotFound => ErrorKind::NotFound,
            LedgerError::TransactionNotFound => ErrorKind::NotFound,
            LedgerError::RecurringNotFound => ErrorKind::NotFound,
            LedgerError::GoalNotFound => ErrorKind::NotFound,
            LedgerError::RateNotFound => ErrorKind::NotFound,
            LedgerError::Overflow => ErrorKind::Storage,
            LedgerError::IdsExhausted => ErrorKind::Storage,
            LedgerError::Unreadable => ErrorKind::Decode,
        }
    }

    /// The error in words.
    pub open spec fn message_spec(self) -> Seq<char> {
        match self {
            LedgerError::EmptyName => "name cannot be empty"@,
            LedgerError::AmbiguousAmount => "a negative amount must be an expense"@,
            LedgerError::InvalidValue => "a value is out of bounds"@,
            LedgerError::AccountNotFound => "no such account"@,
            LedgerError::CategoryNotFound => "no such category"@,
            LedgerError::TransactionNotFound => "no such transaction"@,
            LedgerError::RecurringNotFound => "no such recurring item"@,
            LedgerError::GoalNotFound => "no such savings goal"@,
            LedgerError::RateNotFound => "no rate for the currency"@,
            LedgerError::Overflow => "the amount does not fit"@,
            LedgerError::IdsExhausted => "no ids are left"@,
            LedgerError::Unreadable => "a stored value could not be read"@,
        }
    }

    /// The error in words, for a status line.
    pub fn message(&self) -> (r: &'static str)
        ensures
            r@ == self.message_spec(),
    {
        match self {
            LedgerError::EmptyName => "name cannot be empty",
            LedgerError::AmbiguousAmount => "a negative amount must be an expense",
            LedgerError::InvalidValue => "a value is out of bounds",
            LedgerError::AccountNotFound => "no such account",
            LedgerError::CategoryNotFound => "no such category",
            LedgerError::TransactionNotFound => "no such transaction",
            LedgerError::RecurringNotFound => "no such recurring item",
            LedgerError::GoalNotFound => "no such savings goal",
            LedgerError::RateNotFound => "no rate for the currency",
            LedgerError::Overflow => "the amount does not fit",
            LedgerError::IdsExhausted => "no ids are left",
            LedgerError::Unreadable => "a stored value could not be read",
        }
    }

    /// The family of the error.
    pub fn kind(&self) -> (r: ErrorKind)
        ensures
            r == self.kind_spec(),
    {
        match self {
            LedgerError::EmptyName => ErrorKind::Validation,
            LedgerError::AmbiguousAmount => ErrorKind::Validation,
            LedgerError::InvalidValue => ErrorKind::Validation,
            LedgerError::AccountNotFound => ErrorKind::NotFound,
            LedgerError::CategoryNotFound => ErrorKind::NotFound,
            LedgerError::TransactionNotFound => ErrorKind::NotFound,
            LedgerError::RecurringNotFound => ErrorKind::NotFound,
            LedgerError::GoalNotFound => ErrorKind::NotFound,
            LedgerError::RateNotFound => ErrorKind::NotFound,
            LedgerError::Overflow => ErrorKind::Storage,
            LedgerError::IdsExhausted => ErrorKind::Storage,
            LedgerError::Unreadable => ErrorKind::Decode,
        }
    }
}

} // verus!
