//! The ledger as the front end uses it.
//!
//! `Client` holds the tables and offers the operations of the ledger in the
//! shapes that a form or a listing needs. Every operation that changes a
//! transaction goes through the balance-consistency protocol.

use crate::dates::{chrono_format_date_time, date_time_text, spaced_format, Date, DateTime};
use crate::error::LedgerError;
use crate::ledger::{
    account_index, balance_for, has_account, has_category, lemma_sum_push,
    lemma_sum_without_rows, same_but_balances, sum_for, Ledger,
};
use crate::models::{Account, Category, CategorySpending, SavingsGoal, Transaction};
use crate::planning::{
    create_goal_refusal, create_saving_goal, find_goal, get_all_saving_goals, goal_index,
    goal_is_valid, goal_valid, has_goal, lemma_goal_replaced, same_but_goals,
};
use crate::report::{get_category_spending_report, spending_report_refusal, spending_totals};
use crate::money::Money;
use crate::queries::{
    account_rows, create_account_refusal, find_rate, get_all_categories, has_rate, rate_of,
    rows_in_span, rows_selected, rows_without,
};
use crate::sorting::{listed, listing};
use crate::state::{
    AccountDto, AccountType, CategoryDto, CategoryType, CategorySpendingDto, CreateAccountReq,
    CreateTxnReq, SavingGoalDto, TransactionDto,
};
use crate::text::{
    copy_optional_text, same_ignoring_ascii_case, same_text, same_text_ignoring_case,
};
use vstd::prelude::*;

verus! {

/// The number of rows of a listing for which no limit was given.
pub const DEFAULT_LIMIT: i64 = 200;

/// The ledger behind the front end.
pub struct Client {
    pub db: Ledger,
}

/// The kind that a persisted tag stands for. Case does not matter; a tag
/// that is none of the known ones stands for `Other`.
pub open spec fn account_type_of(tag: Seq<char>) -> AccountType {
    if same_ignoring_ascii_case(tag, "checking"@) {
        AccountType::Checking
    } else if same_ignoring_ascii_case(tag, "credit"@) {
        AccountType::Credit
    } else if same_ignoring_ascii_case(tag, "savings"@) {
        AccountType::Savings
    } else if same_ignoring_ascii_case(tag, "cash"@) {
        AccountType::Cash
    } else {
        AccountType::Other
    }
}

/// The kind that a persisted tag of a category stands for: income for
/// `INCOME` in any case, expense for everything else.
pub open spec fn category_type_of(tag: Seq<char>) -> CategoryType {
    if same_ignoring_ascii_case(tag, "INCOME"@) {
        CategoryType::Income
    } else {
        CategoryType::Expense
    }
}

/// The currency of rows that name none.
pub open spec fn default_currency() -> Seq<char> {
    "CAD"@
}

pub fn map_account_type(s: &str) -> (r: AccountType)
    ensures
        r == account_type_of(s@),
{
    if same_text_ignoring_case(s, "checking") {
        AccountType::Checking
    } else if same_text_ignoring_case(s, "credit") {
        AccountType::Credit
    } else if same_text_ignoring_case(s, "savings") {
        AccountType::Savings
    } else if same_text_ignoring_case(s, "cash") {
        AccountType::Cash
    } else {
        AccountType::Other
    }
}

impl AccountDto {
    /// The entry shows the row: its balance stands where a new account shows
    /// what it was opened with.
    pub open spec fn shows(self, row: Account) -> bool {
        &&& self.id == row.account_id
        &&& self.name@ == row.account_name@
        &&& self.kind == account_type_of(row.account_type@)
        &&& self.currency@ == match row.currency {
            Some(c) => c@,
            None => default_currency(),
        }
        &&& self.opening_balance == row.balance
        &&& self.created_at@ == row.account_created_at.text()
    }

    /// The entry for a row.
    pub fn of(row: &Account) -> (r: AccountDto)
        requires
            row.account_created_at.wf(),
        ensures
            r.shows(*row),
    {
        AccountDto {
            id: row.account_id,
            name: row.account_name.clone(),
            kind: map_account_type(row.account_type.as_str()),
            currency: match &row.currency {
                Some(c) => c.clone(),
                None => "CAD".to_owned(),
            },
            opening_balance: row.balance,
            created_at: row.account_created_at.format(),
        }
    }
}

impl CategoryDto {
    pub open spec fn shows(self, row: Category) -> bool {
        &&& self.id == row.category_id
        &&& self.name@ == row.category_name@
        &&& self.kind == category_type_of(row.category_type@)
        &&& self.icon@ == row.icon@
    }

    /// The entry for a row.
    pub fn of(row: &Category) -> (r: CategoryDto)
        ensures
            r.shows(*row),
    {
        CategoryDto {
            id: row.category_id,
            name: row.category_name.clone(),
            kind: if same_text_ignoring_case(row.category_type.as_str(), "INCOME") {
                CategoryType::Income
            } else {
                CategoryType::Expense
            },
            icon: row.icon.clone(),
        }
    }
}

impl TransactionDto {
    /// The entry for a row: the amount with its sign, the day of the
    /// transaction without its time.
    pub open spec fn of_spec(row: Transaction) -> TransactionDto {
        TransactionDto {
            id: row.transaction_id,
            account_id: row.account_id,
            category_id: Some(row.category_id),
            amount: row.signed_amount_spec(),
            memo: row.description,
            payee: row.payee,
            currency: row.currency,
            txn_date: row.transacted_at.date,
            cleared: false,
            reconciled: false,
        }
    }

    /// The entry for a row.
    pub fn of(row: &Transaction) -> (r: TransactionDto)
        requires
            row.amount.wf(),
        ensures
            r == TransactionDto::of_spec(*row),
    {
        TransactionDto {
            id: row.transaction_id,
            account_id: row.account_id,
            category_id: Some(row.category_id),
            amount: row.signed_amount(),
            memo: copy_optional_text(&row.description),
            payee: copy_optional_text(&row.payee),
            currency: row.currency.clone(),
            txn_date: row.transacted_at.date,
            cleared: false,
            reconciled: false,
        }
    }
}

/// Where a page starts in a listing of `len` rows.
pub open spec fn page_start(len: int, offset: Option<i64>) -> int {
    let skip = match offset {
        Some(o) => if o < 0 {
            0
        } else {
            o as int
        },
        None => 0,
    };
    if skip < len {
        skip
    } else {
        len
    }
}

/// Where the page ends. Without a limit a page has 200 rows; a negative
/// limit means no limit.
pub open spec fn page_end(len: int, limit: Option<i64>, offset: Option<i64>) -> int {
    let start = page_start(len, offset);
    let most = match limit {
        Some(l) => l as int,
        None => DEFAULT_LIMIT as int,
    };
    if most < 0 || start + most > len {
        len
    } else {
        start + most
    }
}

/// One page of a listing.
pub open spec fn page<T>(rows: Seq<T>, limit: Option<i64>, offset: Option<i64>) -> Seq<T> {
    rows.subrange(
        page_start(rows.len() as int, offset),
        page_end(rows.len() as int, limit, offset),
    )
}

impl Client {
    /// A client for a ledger.
    pub fn new(db: Ledger) -> (r: Client)
        ensures
            r.db == db,
    {
        Client { db }
    }

    /// All accounts, in the order of their ids, each with its current
    /// balance.
    pub fn list_accounts(&self) -> (r: Vec<AccountDto>)
        requires
            self.db.wf(),
        ensures
            r@.len() == self.db.accounts@.len(),
            forall|i: int| 0 <= i < r@.len() ==> (#[trigger] r@[i]).shows(self.db.accounts@[i]),
    {
        let mut out: Vec<AccountDto> = Vec::new();
        let mut i: usize = 0;
        while i < self.db.accounts.len()
            invariant
                i <= self.db.accounts.len(),
                self.db.wf(),
                out@.len() == i,
                forall|k: int| 0 <= k < i ==> (#[trigger] out@[k]).shows(self.db.accounts@[k]),
            decreases self.db.accounts.len() - i,
        {
            out.push(AccountDto::of(&self.db.accounts[i]));
            i = i + 1;
        }
        out
    }

    /// All categories by name.
    pub fn list_categories(&self) -> (r: Vec<CategoryDto>)
        requires
            self.db.wf(),
        ensures
            r@.len() == self.db.categories@.len(),
            forall|i: int|
                0 <= i < r@.len() ==> (#[trigger] r@[i]).shows(listing(self.db.categories@)[i]),
    {
        let rows = get_all_categories(&self.db);
        proof {
            assert(self.db.categories@.len() == self.db.categories.len());
            crate::sorting::lemma_listing(self.db.categories@);
        }
        let mut out: Vec<CategoryDto> = Vec::new();
        let mut i: usize = 0;
        while i < rows.len()
            invariant
                i <= rows.len(),
                out@.len() == i,
                forall|k: int| 0 <= k < i ==> (#[trigger] out@[k]).shows(rows@[k]),
            decreases rows.len() - i,
        {
            out.push(CategoryDto::of(&rows[i]));
            i = i + 1;
        }
        out
    }

    /// One page of an account's transactions, the latest first and, of two
    /// at the same time, the one with the larger id first. With a span of
    /// time only the transactions within it are listed, both ends counted.
    /// The page starts after `offset` rows and has at most `limit` rows, 200
    /// if no limit is given.
    pub fn list_transactions(
        &self,
        account_id: i64,
        limit: Option<i64>,
        offset: Option<i64>,
        date_range: Option<(DateTime, DateTime)>,
    ) -> (r: Result<Vec<TransactionDto>, LedgerError>)
        requires
            self.db.wf(),
        ensures
            r is Ok <==> (date_range matches Some((start, end)) ==> start.wf() && end.wf()),
            r matches Err(e) ==> e == LedgerError::InvalidValue,
            r matches Ok(rows) ==> rows@ == page(
                listing(rows_selected(self.db.transactions@, account_id, date_range)),
                limit,
                offset,
            ).map_values(|row: Transaction| TransactionDto::of_spec(row)),
    {
        let mine = account_rows(&self.db, account_id);
        proof {
            crate::queries::lemma_rows_of(self.db.transactions@, account_id);
            assert forall|i: int| 0 <= i < mine@.len() implies (#[trigger] mine@[i]).wf() by {
                assert(self.db.transactions@.contains(mine@[i]));
                let j = choose|j: int|
                    0 <= j < self.db.transactions@.len() && self.db.transactions@[j] == mine@[i];
                assert(self.db.transactions@[j].wf());
            }
        }
        let chosen = match date_range {
            None => mine,
            Some((start, end)) => {
                if !start.is_valid() || !end.is_valid() {
                    return Err(LedgerError::InvalidValue);
                }
                proof {
                    crate::queries::lemma_rows_within(mine@, start, end);
                }
                rows_in_span(&mine, &start, &end)
            },
        };
        proof {
            assert forall|i: int| 0 <= i < chosen@.len() implies (#[trigger] chosen@[i]).wf() by {
                if date_range is Some {
                    assert(mine@.contains(chosen@[i]));
                    let j = choose|j: int| 0 <= j < mine@.len() && mine@[j] == chosen@[i];
                    assert(mine@[j].wf());
                }
            }
        }
        let rows = listed(&chosen);
        let ghost all = listing(chosen@);
        proof {
            assert(chosen@.len() == chosen.len());
            crate::sorting::lemma_listing(chosen@);
            assert forall|k: int| 0 <= k < all.len() implies (#[trigger] all[k]).wf() by {
                assert(all[k] == chosen@[crate::sorting::arranged(chosen@)[k] as int]);
            }
        }
        let len: usize = rows.len();
        let start: usize = match offset {
            Some(o) => if o < 0 {
                0
            } else if (o as u64) < (len as u64) {
                o as usize
            } else {
                len
            },
            None => 0,
        };
        let most: i64 = match limit {
            Some(l) => l,
            None => DEFAULT_LIMIT,
        };
        let end: usize = if most < 0 || (most as u64) > ((len - start) as u64) {
            len
        } else {
            start + most as usize
        };
        assert(start == page_start(len as int, offset));
        assert(end == page_end(len as int, limit, offset));
        let ghost want = page(all, limit, offset).map_values(
            |row: Transaction| TransactionDto::of_spec(row),
        );
        let mut out: Vec<TransactionDto> = Vec::new();
        let mut i: usize = start;
        while i < end
            invariant
                start <= i <= end <= len,
                len == rows@.len(),
                rows@ == all,
                forall|k: int| 0 <= k < all.len() ==> (#[trigger] all[k]).wf(),
                want == all.subrange(start as int, end as int).map_values(
                    |row: Transaction| TransactionDto::of_spec(row),
                ),
                out@ == want.take(i - start),
            decreases end - i,
        {
            out.push(TransactionDto::of(&rows[i]));
            proof {
                assert(want.take(i + 1 - start) =~= want.take(i - start).push(
                    TransactionDto::of_spec(all[i as int]),
                ));
            }
            i = i + 1;
        }
        proof {
            assert(want.take(i - start) =~= want);
        }
        Ok(out)
    }
}

/// The name of the category under which opening balances are booked.
pub open spec fn opening_category_name() -> Seq<char> {
    "Initial Balance"@
}

/// The place of the first category of the name, or -1 if there is none.
pub open spec fn first_named(categories: Seq<Category>, name: Seq<char>) -> int
    decreases categories.len(),
{
    if categories.len() == 0 {
        -1
    } else {
        let earlier = first_named(categories.drop_last(), name);
        if earlier >= 0 {
            earlier
        } else if categories.last().category_name@ == name {
            categories.len() - 1
        } else {
            -1
        }
    }
}

/// What the place of the first category of a name is.
pub proof fn lemma_first_named(categories: Seq<Category>, name: Seq<char>)
    ensures
        -1 <= first_named(categories, name) < categories.len(),
        first_named(categories, name) >= 0 ==> categories[first_named(
            categories,
            name,
        )].category_name@ == name,
        forall|i: int|
            0 <= i < categories.len() && (first_named(categories, name) < 0 || i < first_named(
                categories,
                name,
            )) ==> (#[trigger] categories[i]).category_name@ != name,
    decreases categories.len(),
{
    if categories.len() > 0 {
        let shorter = categories.drop_last();
        lemma_first_named(shorter, name);
        assert forall|i: int|
            0 <= i < categories.len() && (first_named(categories, name) < 0 || i < first_named(
                categories,
                name,
            )) implies (#[trigger] categories[i]).category_name@ != name by {
            if i < shorter.len() {
                assert(shorter[i] == categories[i]);
            }
        }
    }
}

/// Adding zero changes nothing.
pub proof fn lemma_add_to_zero(x: Money)
    requires
        x.wf(),
    ensures
        Money::zero_spec().add_spec(x) == Some(x),
{
    assert(crate::money::pow10(0) == 1);
    crate::money::lemma_pow10_positive(x.scale as nat);
    assert(0 * crate::money::pow10(x.scale as nat) == 0);
    assert(x.mantissa * 1 == x.mantissa);
}

/// A row with the given account, category, amounts, direction and times,
/// and with no memo and no payee. It stands for every row that agrees with
/// it in these: the rules of the ledger read nothing else of a row.
pub open spec fn entry_row(
    account_id: i64,
    category_id: i64,
    amount: Money,
    base_amount: Money,
    is_expense: bool,
    transacted_at: DateTime,
    created_at: DateTime,
) -> Transaction {
    Transaction {
        transaction_id: 0,
        account_id,
        category_id,
        amount,
        base_amount,
        is_expense,
        description: None,
        payee: None,
        currency: arbitrary(),
        transacted_at,
        trans_create_at: created_at,
    }
}

impl CreateTxnReq {
    /// The row that the request asks for, given the base amount and the
    /// time at which it is recorded. The amount is stored as a magnitude.
    pub open spec fn row(self, base_amount: Money, now: DateTime) -> Transaction {
        Transaction {
            transaction_id: 0,
            account_id: self.account_id,
            category_id: self.category_id,
            amount: self.amount.abs_spec(),
            base_amount,
            is_expense: self.is_expense,
            description: self.description,
            payee: self.payee,
            currency: self.currency,
            transacted_at: self.transacted_at,
            trans_create_at: now,
        }
    }
}

impl Client {
    /// The amount in the base currency: the amount times the rate of its
    /// currency. A currency without a rate counts at a rate of one.
    pub open spec fn base_amount_for(self, amount: Money, currency: Seq<char>) -> Option<Money> {
        if has_rate(self.db.rates@, currency) {
            amount.mul_spec(rate_of(self.db.rates@, currency))
        } else {
            Some(amount)
        }
    }

    /// Works out the base amount of a magnitude in a currency.
    pub fn base_amount(&self, amount: &Money, currency: &str) -> (r: Option<Money>)
        requires
            self.db.wf(),
            amount.wf(),
        ensures
            r == self.base_amount_for(*amount, currency@),
            r matches Some(m) ==> m.wf(),
    {
        match find_rate(&self.db, currency) {
            Some(i) => amount.checked_mul(&self.db.rates[i].rate_to_base),
            None => Some(*amount),
        }
    }

    /// Why a request is refused before a row is made of it, if it is.
    pub open spec fn request_refusal(self, req: CreateTxnReq) -> Option<LedgerError> {
        if !req.amount.wf() {
            Some(LedgerError::InvalidValue)
        } else if req.amount.mantissa < 0 && !req.is_expense {
            Some(LedgerError::AmbiguousAmount)
        } else if self.base_amount_for(req.amount.abs_spec(), req.currency@) is None {
            Some(LedgerError::Overflow)
        } else {
            None
        }
    }

    /// The row that a request that is not refused asks for.
    pub open spec fn requested_row(self, req: CreateTxnReq, now: DateTime) -> Transaction {
        req.row(self.base_amount_for(req.amount.abs_spec(), req.currency@)->0, now)
    }

    /// Makes the row of a request: the amount as a magnitude, the base
    /// amount from the rate of the currency.
    pub fn prepare(&self, req: &CreateTxnReq, now: DateTime) -> (r: Result<Transaction, LedgerError>)
        requires
            self.db.wf(),
        ensures
            r == match self.request_refusal(*req) {
                Some(e) => Err::<Transaction, LedgerError>(e),
                None => Ok(self.requested_row(*req, now)),
            },
    {
        if !req.amount.is_valid() {
            return Err(LedgerError::InvalidValue);
        }
        if req.amount.is_negative() && !req.is_expense {
            return Err(LedgerError::AmbiguousAmount);
        }
        let magnitude = req.amount.abs();
        let base = match self.base_amount(&magnitude, req.currency.as_str()) {
            Some(b) => b,
            None => {
                return Err(LedgerError::Overflow);
            },
        };
        Ok(
            Transaction {
                transaction_id: 0,
                account_id: req.account_id,
                category_id: req.category_id,
                amount: magnitude,
                base_amount: base,
                is_expense: req.is_expense,
                description: copy_optional_text(&req.description),
                payee: copy_optional_text(&req.payee),
                currency: req.currency.clone(),
                transacted_at: req.transacted_at,
                trans_create_at: now,
            },
        )
    }

    /// Why a transaction is not created, if it is not.
    pub open spec fn create_transaction_refusal(self, req: CreateTxnReq, now: DateTime) -> Option<
        LedgerError,
    > {
        match self.request_refusal(req) {
            Some(e) => Some(e),
            None => self.db.insert_refusal(self.requested_row(req, now)),
        }
    }

    /// Records a transaction and settles its account, both or neither. The
    /// sign of the amount is dropped and `is_expense` decides the direction;
    /// a negative amount that is not an expense is refused as ambiguous.
    pub fn create_transaction(&mut self, req: &CreateTxnReq, now: DateTime) -> (r: Result<
        TransactionDto,
        LedgerError,
    >)
        requires
            old(self).db.wf(),
        ensures
            final(self).db.wf(),
            r is Err <==> old(self).create_transaction_refusal(*req, now) is Some,
            r matches Err(e) ==> old(self).create_transaction_refusal(*req, now) == Some(e)
                && final(self).db.same_as(old(self).db),
            r matches Ok(dto) ==> {
                &&& final(self).db.transactions@ == old(self).db.transactions@.push(
                    old(self).db.row_to_insert(old(self).requested_row(*req, now)),
                )
                &&& dto == TransactionDto::of_spec(
                    old(self).db.row_to_insert(old(self).requested_row(*req, now)),
                )
                &&& final(self).db.next_transaction_id == old(self).db.next_transaction_id + 1
                &&& final(self).db.next_account_id == old(self).db.next_account_id
                &&& final(self).db.next_category_id == old(self).db.next_category_id
                &&& final(self).db.categories@ == old(self).db.categories@
                &&& same_but_balances(old(self).db.accounts@, final(self).db.accounts@)
                &&& final(self).db.same_side(old(self).db)
            },
    {
        let row = match self.prepare(req, now) {
            Ok(row) => row,
            Err(e) => {
                return Err(e);
            },
        };
        let mut shown = TransactionDto::of(&row);
        match self.db.insert_transaction(row) {
            Ok(id) => {
                shown.id = id;
                Ok(shown)
            },
            Err(e) => Err(e),
        }
    }

    /// Why a transaction is not changed, if it is not.
    pub open spec fn update_transaction_refusal(
        self,
        transaction_id: i64,
        req: CreateTxnReq,
    ) -> Option<LedgerError> {
        match self.request_refusal(req) {
            Some(e) => Some(e),
            None => self.db.replace_refusal(
                transaction_id,
                self.requested_row(req, req.transacted_at),
            ),
        }
    }

    /// Why an entry is refused, if it is: a new transaction where `editing`
    /// is `None`, else a change to the transaction of that id. It is given
    /// by what the rules read of it: account, category, amount as typed,
    /// direction, the name of the currency, and the times. A transaction
    /// that is changed keeps its time of creation, so `now` counts for a
    /// new one only.
    pub open spec fn entry_refusal(
        self,
        editing: Option<i64>,
        account_id: i64,
        category_id: i64,
        amount: Money,
        is_expense: bool,
        currency: Seq<char>,
        transacted_at: DateTime,
        now: DateTime,
    ) -> Option<LedgerError> {
        if !amount.wf() {
            Some(LedgerError::InvalidValue)
        } else if amount.mantissa < 0 && !is_expense {
            Some(LedgerError::AmbiguousAmount)
        } else {
            match self.base_amount_for(amount.abs_spec(), currency) {
                None => Some(LedgerError::Overflow),
                Some(base) => match editing {
                    None => self.db.insert_refusal(
                        entry_row(
                            account_id,
                            category_id,
                            amount.abs_spec(),
                            base,
                            is_expense,
                            transacted_at,
                            now,
                        ),
                    ),
                    Some(id) => self.db.replace_refusal(
                        id,
                        entry_row(
                            account_id,
                            category_id,
                            amount.abs_spec(),
                            base,
                            is_expense,
                            transacted_at,
                            transacted_at,
                        ),
                    ),
                },
            }
        }
    }

    /// The refusal of a request is the refusal of the entry that it
    /// describes.
    pub proof fn lemma_entry_refusal(self, req: CreateTxnReq, now: DateTime)
        ensures
            self.create_transaction_refusal(req, now) == self.entry_refusal(
                None,
                req.account_id,
                req.category_id,
                req.amount,
                req.is_expense,
                req.currency@,
                req.transacted_at,
                now,
            ),
            forall|id: i64|
                #[trigger] self.update_transaction_refusal(id, req) == self.entry_refusal(
                    Some(id),
                    req.account_id,
                    req.category_id,
                    req.amount,
                    req.is_expense,
                    req.currency@,
                    req.transacted_at,
                    now,
                ),
    {
        if self.request_refusal(req) is None {
            let base = self.base_amount_for(req.amount.abs_spec(), req.currency@)->0;
            let made = self.requested_row(req, now);
            let probe = entry_row(
                req.account_id,
                req.category_id,
                req.amount.abs_spec(),
                base,
                req.is_expense,
                req.transacted_at,
                now,
            );
            crate::protocol::lemma_insert_reads_entry(self.db, made, probe);
            let changed = self.requested_row(req, req.transacted_at);
            let other = entry_row(
                req.account_id,
                req.category_id,
                req.amount.abs_spec(),
                base,
                req.is_expense,
                req.transacted_at,
                req.transacted_at,
            );
            assert forall|id: i64|
                #[trigger] self.update_transaction_refusal(id, req) == self.entry_refusal(
                    Some(id),
                    req.account_id,
                    req.category_id,
                    req.amount,
                    req.is_expense,
                    req.currency@,
                    req.transacted_at,
                    now,
                ) by {
                crate::protocol::lemma_replace_reads_entry(self.db, id, changed, other);
            }
        }
    }

    /// Changes a transaction to what the request says, and settles the
    /// account it belonged to as well as the one it belongs to now. The id
    /// and the time of creation stay.
    pub fn update_transaction(&mut self, id: i64, req: &CreateTxnReq) -> (r: Result<(), LedgerError>)
        requires
            old(self).db.wf(),
        ensures
            final(self).db.wf(),
            r == match old(self).update_transaction_refusal(id, *req) {
                Some(e) => Err::<(), LedgerError>(e),
                None => Ok(()),
            },
            r is Err ==> final(self).db.same_as(old(self).db),
            r is Ok ==> {
                &&& final(self).db.transactions@ == old(self).db.transactions@.update(
                    crate::ledger::transaction_index(old(self).db.transactions@, id),
                    old(self).db.row_to_replace(
                        id,
                        old(self).requested_row(*req, req.transacted_at),
                    ),
                )
                &&& final(self).db.next_transaction_id == old(self).db.next_transaction_id
                &&& final(self).db.next_account_id == old(self).db.next_account_id
                &&& final(self).db.next_category_id == old(self).db.next_category_id
                &&& final(self).db.categories@ == old(self).db.categories@
                &&& same_but_balances(old(self).db.accounts@, final(self).db.accounts@)
                &&& final(self).db.same_side(old(self).db)
            },
    {
        let row = match self.prepare(req, req.transacted_at) {
            Ok(row) => row,
            Err(e) => {
                return Err(e);
            },
        };
        self.db.replace_transaction(id, row)
    }

    /// Deletes a transaction and settles the account it belonged to.
    pub fn delete_transaction(&mut self, transaction_id: i64) -> (r: Result<(), LedgerError>)
        requires
            old(self).db.wf(),
        ensures
            final(self).db.wf(),
            r == match old(self).db.remove_refusal(transaction_id) {
                Some(e) => Err::<(), LedgerError>(e),
                None => Ok(()),
            },
            r is Err ==> final(self).db.same_as(old(self).db),
            r is Ok ==> {
                &&& final(self).db.transactions@ == old(self).db.transactions@.remove(
                    crate::ledger::transaction_index(old(self).db.transactions@, transaction_id),
                )
                &&& final(self).db.next_transaction_id == old(self).db.next_transaction_id
                &&& final(self).db.next_account_id == old(self).db.next_account_id
                &&& final(self).db.next_category_id == old(self).db.next_category_id
                &&& final(self).db.categories@ == old(self).db.categories@
                &&& same_but_balances(old(self).db.accounts@, final(self).db.accounts@)
                &&& final(self).db.same_side(old(self).db)
            },
    {
        self.db.remove_transaction(transaction_id)
    }

    /// Deletes an account and all its transactions.
    pub fn delete_account(&mut self, id: i64) -> (r: Result<(), LedgerError>)
        requires
            old(self).db.wf(),
        ensures
            final(self).db.wf(),
            r == if has_account(old(self).db.accounts@, id) {
                Ok::<(), LedgerError>(())
            } else {
                Err(LedgerError::AccountNotFound)
            },
            r is Err ==> final(self).db.same_as(old(self).db),
            r is Ok ==> {
                &&& final(self).db.transactions@ == rows_without(old(self).db.transactions@, id)
                &&& final(self).db.accounts@ == old(self).db.accounts@.remove(
                    account_index(old(self).db.accounts@, id),
                )
                &&& final(self).db.same_but_accounts(
                    Ledger { transactions: final(self).db.transactions, ..old(self).db },
                )
            },
            !has_account(final(self).db.accounts@, id),
            forall|k: int|
                0 <= k < final(self).db.transactions@.len() ==> (
                #[trigger] final(self).db.transactions@[k]).account_id != id,
    {
        match crate::queries::delete_account(&mut self.db, id) {
            Ok(true) => Ok(()),
            _ => Err(LedgerError::AccountNotFound),
        }
    }

    /// Changes the name, the kind and the currency of an account. The
    /// balance is not touched.
    pub fn update_account(&mut self, id: i64, name: &str, atype: &str, currency: &str) -> (r: Result<
        (),
        LedgerError,
    >)
        requires
            old(self).db.wf(),
        ensures
            final(self).db.wf(),
            r == if has_account(old(self).db.accounts@, id) {
                Ok::<(), LedgerError>(())
            } else {
                Err(LedgerError::AccountNotFound)
            },
            r is Err ==> final(self).db.same_as(old(self).db),
            final(self).db.same_but_accounts(old(self).db),
            r is Ok ==> {
                let j = account_index(old(self).db.accounts@, id);
                &&& final(self).db.accounts@.len() == old(self).db.accounts@.len()
                &&& forall|i: int|
                    0 <= i < old(self).db.accounts@.len() && i != j ==> (
                    #[trigger] final(self).db.accounts@[i]) == old(self).db.accounts@[i]
                &&& final(self).db.accounts@[j].account_id == id
                &&& final(self).db.accounts@[j].account_name@ == name@
                &&& final(self).db.accounts@[j].account_type@ == atype@
                &&& final(self).db.accounts@[j].currency matches Some(c) && c@ == currency@
                &&& final(self).db.accounts@[j].balance == old(self).db.accounts@[j].balance
                &&& final(self).db.accounts@[j].account_created_at == old(self).db.accounts@[j].account_created_at
            },
    {
        let j: usize = match self.db.find_account(id) {
            Some(j) => j,
            None => {
                return Err(LedgerError::AccountNotFound);
            },
        };
        proof {
            crate::ledger::lemma_account_found(self.db.accounts@, id, j as int);
        }
        let mut account = self.db.accounts.remove(j);
        account.account_name = name.to_owned();
        account.account_type = atype.to_owned();
        account.currency = Some(currency.to_owned());
        self.db.accounts.insert(j, account);
        proof {
            crate::queries::lemma_renamed_accounts(old(self).db, self.db);
        }
        Ok(())
    }
}

/// Whether a row is the one that books an opening balance.
pub open spec fn is_opening_row(
    row: Transaction,
    transaction_id: i64,
    account_id: i64,
    category_id: i64,
    opening: Money,
    currency: Seq<char>,
    now: DateTime,
) -> bool {
    &&& row.transaction_id == transaction_id
    &&& row.account_id == account_id
    &&& row.category_id == category_id
    &&& row.amount == opening.abs_spec()
    &&& row.base_amount == opening.abs_spec()
    &&& row.is_expense == (opening.mantissa < 0)
    &&& row.description matches Some(d) && d@ == "Opening Balance"@
    &&& row.payee is None
    &&& row.currency@ == currency
    &&& row.transacted_at == now
    &&& row.trans_create_at == now
}

/// Whether a category is the one under which opening balances are booked.
pub open spec fn is_opening_category(category: Category, category_id: i64) -> bool {
    &&& category.category_id == category_id
    &&& category.category_name@ == opening_category_name()
    &&& category.category_type@ == "INCOME"@
    &&& category.icon@ == "\u{1F4B0}"@
}

impl Client {
    /// The id of the category for opening balances once there is one: that
    /// of the first category of the name, or the next id to be handed out.
    pub open spec fn opening_category_id(self) -> i64 {
        let at = first_named(self.db.categories@, opening_category_name());
        if at >= 0 {
            self.db.categories@[at].category_id
        } else {
            self.db.next_category_id
        }
    }

    /// Gives the category under which opening balances are booked, and
    /// makes it first if there is none yet.
    pub fn opening_category(&mut self) -> (r: Result<i64, LedgerError>)
        requires
            old(self).db.wf(),
        ensures
            final(self).db.wf(),
            r == if first_named(old(self).db.categories@, opening_category_name()) < 0 && old(self).db.next_category_id == i64::MAX {
                Err::<i64, LedgerError>(LedgerError::IdsExhausted)
            } else {
                Ok(old(self).opening_category_id())
            },
            r is Err ==> final(self).db.same_as(old(self).db),
            r is Ok ==> has_category(final(self).db.categories@, old(self).opening_category_id()),
            final(self).db.accounts@ == old(self).db.accounts@,
            final(self).db.transactions@ == old(self).db.transactions@,
            final(self).db.same_side(old(self).db),
            final(self).db.next_account_id == old(self).db.next_account_id,
            final(self).db.next_transaction_id == old(self).db.next_transaction_id,
            first_named(old(self).db.categories@, opening_category_name()) >= 0 ==> final(self).db.same_as(old(self).db),
            r is Ok && first_named(old(self).db.categories@, opening_category_name()) < 0 ==> {
                &&& final(self).db.categories@.len() == old(self).db.categories@.len() + 1
                &&& final(self).db.categories@.drop_last() == old(self).db.categories@
                &&& is_opening_category(
                    final(self).db.categories@.last(),
                    old(self).db.next_category_id,
                )
                &&& final(self).db.next_category_id == old(self).db.next_category_id + 1
            },
    {
        proof {
            lemma_first_named(self.db.categories@, opening_category_name());
        }
        let mut i: usize = 0;
        while i < self.db.categories.len()
            invariant
                i <= self.db.categories.len(),
                *self == *old(self),
                self.db.wf(),
                forall|k: int|
                    0 <= k < i ==> (#[trigger] self.db.categories@[k]).category_name@
                        != opening_category_name(),
            decreases self.db.categories.len() - i,
        {
            if same_text(self.db.categories[i].category_name.as_str(), "Initial Balance") {
                proof {
                    lemma_first_named(self.db.categories@, opening_category_name());
                    let at = first_named(self.db.categories@, opening_category_name());
                    if at < 0 || i < at {
                        assert(self.db.categories@[i as int].category_name@
                            != opening_category_name());
                    }
                    if 0 <= at < i {
                        assert(self.db.categories@[at].category_name@ != opening_category_name());
                    }
                }
                return Ok(self.db.categories[i].category_id);
            }
            i = i + 1;
        }
        proof {
            let at = first_named(self.db.categories@, opening_category_name());
            if at >= 0 {
                assert(self.db.categories@[at].category_name@ != opening_category_name());
            }
        }
        crate::queries::create_category(&mut self.db, "Initial Balance", "INCOME", "\u{1F4B0}")
    }

    /// Why an account of a name is not opened with an opening balance, if
    /// it is not.
    pub open spec fn open_refusal(self, name: Seq<char>, opening: Money, now: DateTime) -> Option<
        LedgerError,
    > {
        if crate::text::trimmed(name).len() == 0 {
            Some(LedgerError::EmptyName)
        } else if !now.wf() || !opening.wf() {
            Some(LedgerError::InvalidValue)
        } else if self.db.next_account_id == i64::MAX {
            Some(LedgerError::IdsExhausted)
        } else if opening.mantissa != 0 && (self.db.next_transaction_id == i64::MAX || (
            first_named(self.db.categories@, opening_category_name()) < 0
            && self.db.next_category_id == i64::MAX)) {
            Some(LedgerError::IdsExhausted)
        } else {
            None
        }
    }

    /// Why an account is not opened, if it is not.
    pub open spec fn create_account_refusal(self, req: CreateAccountReq, now: DateTime) -> Option<
        LedgerError,
    > {
        self.open_refusal(req.name@, req.opening_balance, now)
    }

    /// Opens an account. With an opening balance other than zero, one
    /// transaction is booked for it under the category `Initial Balance`,
    /// which is made first if there is none, and the balance of the new
    /// account is worked out from that one row. Either all of this happens
    /// or nothing.
    pub fn create_account(&mut self, req: &CreateAccountReq, now: DateTime) -> (r: Result<
        AccountDto,
        LedgerError,
    >)
        requires
            old(self).db.wf(),
        ensures
            final(self).db.wf(),
            r is Err <==> old(self).create_account_refusal(*req, now) is Some,
            r matches Err(e) ==> old(self).create_account_refusal(*req, now) == Some(e)
                && final(self).db.same_as(old(self).db),
            r matches Ok(dto) ==> {
                let id = old(self).db.next_account_id;
                let opening = req.opening_balance;
                let at = first_named(old(self).db.categories@, opening_category_name());
                &&& dto.id == id
                &&& dto.name@ == req.name@
                &&& dto.kind == req.kind
                &&& dto.currency@ == req.currency@
                &&& dto.opening_balance == opening
                &&& dto.created_at@ == now.text()
                &&& final(self).db.next_account_id == id + 1
                &&& final(self).db.accounts@.len() == old(self).db.accounts@.len() + 1
                &&& final(self).db.accounts@.drop_last() == old(self).db.accounts@
                &&& final(self).db.accounts@.last().account_id == id
                &&& final(self).db.accounts@.last().account_name@ == req.name@
                &&& final(self).db.accounts@.last().account_type@ == req.kind.tag()
                &&& final(self).db.accounts@.last().currency matches Some(c) && c@ == req.currency@
                &&& final(self).db.accounts@.last().account_created_at == now
                &&& final(self).db.accounts@.last().balance == if opening.mantissa == 0 {
                    Money::zero_spec()
                } else {
                    opening.round_spec(crate::ledger::BALANCE_PLACES)
                }
                &&& final(self).db.same_side(old(self).db)
                &&& opening.mantissa == 0 ==> {
                    &&& final(self).db.transactions@ == old(self).db.transactions@
                    &&& final(self).db.categories@ == old(self).db.categories@
                    &&& final(self).db.next_transaction_id == old(self).db.next_transaction_id
                    &&& final(self).db.next_category_id == old(self).db.next_category_id
                }
                &&& opening.mantissa != 0 ==> {
                    &&& final(self).db.transactions@.len() == old(self).db.transactions@.len() + 1
                    &&& final(self).db.transactions@.drop_last() == old(self).db.transactions@
                    &&& is_opening_row(
                        final(self).db.transactions@.last(),
                        old(self).db.next_transaction_id,
                        id,
                        old(self).opening_category_id(),
                        opening,
                        req.currency@,
                        now,
                    )
                    &&& final(self).db.next_transaction_id == old(self).db.next_transaction_id + 1
                }
                &&& opening.mantissa != 0 && at >= 0 ==> {
                    &&& final(self).db.categories@ == old(self).db.categories@
                    &&& final(self).db.next_category_id == old(self).db.next_category_id
                }
                &&& opening.mantissa != 0 && at < 0 ==> {
                    &&& final(self).db.categories@.len() == old(self).db.categories@.len() + 1
                    &&& final(self).db.categories@.drop_last() == old(self).db.categories@
                    &&& is_opening_category(
                        final(self).db.categories@.last(),
                        old(self).db.next_category_id,
                    )
                    &&& final(self).db.next_category_id == old(self).db.next_category_id + 1
                }
            },
    {
        if crate::text::trim(req.name.as_str()).is_empty() {
            return Err(LedgerError::EmptyName);
        }
        if !now.is_valid() || !req.opening_balance.is_valid() {
            return Err(LedgerError::InvalidValue);
        }
        if self.db.next_account_id == i64::MAX {
            return Err(LedgerError::IdsExhausted);
        }
        let with_opening: bool = !req.opening_balance.is_zero();
        let mut category_id: i64 = 0;
        if with_opening {
            if self.db.next_transaction_id == i64::MAX {
                return Err(LedgerError::IdsExhausted);
            }
            category_id =
            match self.opening_category() {
                Ok(c) => c,
                Err(e) => {
                    return Err(e);
                },
            };
        }
        let created = crate::queries::create_account(
            &mut self.db,
            req.name.as_str(),
            req.kind.as_str(),
            req.currency.as_str(),
            now,
        );
        let id: i64 = match created {
            Ok(id) => id,
            Err(e) => {
                assert(false);
                return Err(e);
            },
        };
        let ghost with_account = self.db;
        if with_opening {
            let magnitude = req.opening_balance.abs();
            let row = Transaction {
                transaction_id: 0,
                account_id: id,
                category_id,
                amount: magnitude,
                base_amount: magnitude,
                is_expense: req.opening_balance.is_negative(),
                description: Some("Opening Balance".to_owned()),
                payee: None,
                currency: req.currency.clone(),
                transacted_at: now,
                trans_create_at: now,
            };
            proof {
                let rows = self.db.transactions@;
                lemma_sum_without_rows(rows, id);
                lemma_sum_push(rows, self.db.row_to_insert(row), id);
                lemma_add_to_zero(row.signed_amount_spec());
                assert(self.db.accounts@.last().account_id == id);
                assert(has_account(self.db.accounts@, id));
                assert(self.db.insert_refusal(row) is None);
            }
            let booked = self.db.insert_transaction(row);
            proof {
                let before = with_account.accounts@;
                let after = self.db.accounts@;
                let rows = self.db.transactions@;
                assert(rows.drop_last() =~= with_account.transactions@);
                assert forall|i: int| 0 <= i < after.len() implies (#[trigger] after[i]).balance
                    == if i == after.len() - 1 {
                    req.opening_balance.round_spec(crate::ledger::BALANCE_PLACES)
                } else {
                    before[i].balance
                } by {
                    crate::protocol::lemma_accounts_keep_ids(before, after);
                    lemma_sum_push(
                        with_account.transactions@,
                        with_account.row_to_insert(row),
                        after[i].account_id,
                    );
                    assert(balance_for(rows, after[i].account_id) == Some(after[i].balance));
                    assert(balance_for(with_account.transactions@, before[i].account_id) == Some(
                        before[i].balance,
                    ));
                    if i < after.len() - 1 {
                        assert(before[i].account_id < before[before.len() - 1].account_id);
                    }
                }
                let first = old(self).db.accounts@;
                assert(after.drop_last() =~= first) by {
                    assert forall|i: int| 0 <= i < after.len() - 1 implies after[i] == first[i] by {
                        assert(after[i] == (Account { balance: after[i].balance, ..before[i] }));
                        assert(before.drop_last()[i] == before[i]);
                    }
                }
            }
        }
        Ok(
            AccountDto {
                id,
                name: req.name.clone(),
                kind: req.kind,
                currency: req.currency.clone(),
                opening_balance: req.opening_balance,
                created_at: now.format(),
            },
        )
    }
}

/// What is needed to set up or to change a savings goal.
#[derive(Debug)]
pub struct CreateGoalReq {
    pub account_id: i64,
    pub name: String,
    pub target_amount: Money,
    pub current_amount: Money,
    pub deadline: Option<DateTime>,
}

impl CreateGoalReq {
    /// The goal that the request describes, under a given id.
    pub open spec fn goal(self, goal_id: i64) -> SavingsGoal {
        SavingsGoal {
            goal_id,
            account_id: self.account_id,
            goal_name: self.name,
            target_amount: self.target_amount,
            current_amount: self.current_amount,
            deadline: self.deadline,
        }
    }

    /// The goal that the request describes, under a given id.
    pub fn to_goal(&self, goal_id: i64) -> (r: SavingsGoal)
        ensures
            r == self.goal(goal_id),
    {
        SavingsGoal {
            goal_id,
            account_id: self.account_id,
            goal_name: self.name.clone(),
            target_amount: self.target_amount,
            current_amount: self.current_amount,
            deadline: self.deadline,
        }
    }
}

impl SavingGoalDto {
    /// The text of a deadline: date and time parted by a blank.
    pub open spec fn deadline_text(d: DateTime) -> Seq<char> {
        date_time_text(
            d.date.year as int,
            d.date.month as int,
            d.date.day as int,
            d.hour as int,
            d.minute as int,
            d.second as int,
            spaced_format(),
        )
    }

    pub open spec fn shows(self, row: SavingsGoal) -> bool {
        &&& self.id == row.goal_id
        &&& self.name@ == row.goal_name@
        &&& self.target_amount == row.target_amount
        &&& self.current_amount == row.current_amount
        &&& match row.deadline {
            Some(d) => self.deadline matches Some(t) && t@ == SavingGoalDto::deadline_text(d),
            None => self.deadline is None,
        }
    }

    /// The entry for a row.
    pub fn of(row: &SavingsGoal) -> (r: SavingGoalDto)
        requires
            goal_valid(*row),
        ensures
            r.shows(*row),
    {
        SavingGoalDto {
            id: row.goal_id,
            name: row.goal_name.clone(),
            target_amount: row.target_amount,
            current_amount: row.current_amount,
            deadline: match row.deadline {
                Some(d) => Some(chrono_format_date_time(&d, "%Y-%m-%d %H:%M:%S")),
                None => None,
            },
        }
    }
}

impl CategorySpendingDto {
    pub open spec fn shows(self, row: CategorySpending) -> bool {
        &&& self.category@ == row.category@
        &&& self.total_amount == row.total_amount
    }
}

/// The first moment of the month of a date.
pub open spec fn month_start(now: DateTime) -> DateTime {
    DateTime {
        date: Date { year: now.date.year, month: now.date.month, day: 1 },
        hour: 0,
        minute: 0,
        second: 0,
    }
}

impl Client {
    /// Sets up a savings goal.
    pub fn create_goal(&mut self, req: &CreateGoalReq) -> (r: Result<(), LedgerError>)
        requires
            old(self).db.wf(),
        ensures
            final(self).db.wf(),
            r == match create_goal_refusal(old(self).db, req.goal(0)) {
                Some(e) => Err::<(), LedgerError>(e),
                None => Ok(()),
            },
            r is Err ==> final(self).db.same_as(old(self).db),
            same_but_goals(final(self).db, old(self).db),
            r is Ok ==> {
                &&& final(self).db.next_goal_id == old(self).db.next_goal_id + 1
                &&& final(self).db.goals@ == old(self).db.goals@.push(
                    req.goal(old(self).db.next_goal_id),
                )
            },
    {
        let goal = req.to_goal(0);
        match create_saving_goal(&mut self.db, &goal) {
            Ok(_) => Ok(()),
            Err(e) => Err(e),
        }
    }

    /// Why a goal is not changed, if it is not.
    pub open spec fn update_goal_refusal(self, id: i64, req: CreateGoalReq) -> Option<LedgerError> {
        if !goal_valid(req.goal(id)) {
            Some(LedgerError::InvalidValue)
        } else if !has_goal(self.db.goals@, id) {
            Some(LedgerError::GoalNotFound)
        } else {
            None
        }
    }

    /// Changes the name, the amounts and the deadline of a goal. The goal
    /// stays with its account.
    pub fn update_goal(&mut self, id: i64, req: &CreateGoalReq) -> (r: Result<(), LedgerError>)
        requires
            old(self).db.wf(),
        ensures
            final(self).db.wf(),
            r == match old(self).update_goal_refusal(id, *req) {
                Some(e) => Err::<(), LedgerError>(e),
                None => Ok(()),
            },
            r is Err ==> final(self).db.same_as(old(self).db),
            same_but_goals(final(self).db, old(self).db),
            final(self).db.next_goal_id == old(self).db.next_goal_id,
            r is Ok ==> final(self).db.goals@ == old(self).db.goals@.update(
                goal_index(old(self).db.goals@, id),
                SavingsGoal {
                    account_id: old(self).db.goals@[goal_index(old(self).db.goals@, id)].account_id,
                    ..req.goal(id)
                },
            ),
    {
        let mut goal = req.to_goal(id);
        if !goal_is_valid(&goal) {
            return Err(LedgerError::InvalidValue);
        }
        let i: usize = match find_goal(&self.db, id) {
            Some(i) => i,
            None => {
                return Err(LedgerError::GoalNotFound);
            },
        };
        let previous = self.db.goals.remove(i);
        goal.account_id = previous.account_id;
        let ghost kept = goal;
        self.db.goals.insert(i, goal);
        proof {
            assert(self.db.goals@ =~= old(self).db.goals@.update(i as int, kept));
            lemma_goal_replaced(old(self).db, self.db, i as int, kept);
        }
        Ok(())
    }

    /// Deletes a goal.
    pub fn delete_goal(&mut self, id: i64) -> (r: Result<(), LedgerError>)
        requires
            old(self).db.wf(),
        ensures
            final(self).db.wf(),
            r == if has_goal(old(self).db.goals@, id) {
                Ok::<(), LedgerError>(())
            } else {
                Err(LedgerError::GoalNotFound)
            },
            r is Err ==> final(self).db.same_as(old(self).db),
            same_but_goals(final(self).db, old(self).db),
            final(self).db.next_goal_id == old(self).db.next_goal_id,
            r is Ok ==> final(self).db.goals@ == old(self).db.goals@.remove(
                goal_index(old(self).db.goals@, id),
            ),
            !has_goal(final(self).db.goals@, id),
    {
        let i: usize = match find_goal(&self.db, id) {
            Some(i) => i,
            None => {
                return Err(LedgerError::GoalNotFound);
            },
        };
        self.db.goals.remove(i);
        proof {
            let was = old(self).db.goals@;
            let now = self.db.goals@;
            assert forall|k: int| 0 <= k < now.len() implies #[trigger] now[k] == was[if k < i {
                k
            } else {
                k + 1
            }] by {}
            assert forall|a: int, b: int| 0 <= a < b < now.len() implies (#[trigger] now[a]).goal_id
                != (#[trigger] now[b]).goal_id by {
                let x = if a < i { a } else { a + 1 };
                let y = if b < i { b } else { b + 1 };
                assert(was[x].goal_id != was[y].goal_id);
            }
            assert forall|k: int| 0 <= k < now.len() implies {
                &&& 1 <= (#[trigger] now[k]).goal_id < self.db.next_goal_id
                &&& now[k].target_amount.wf()
                &&& now[k].current_amount.wf()
                &&& now[k].deadline matches Some(d) ==> d.wf()
                &&& now[k].goal_id != id
            } by {
                let x = if k < i { k } else { k + 1 };
                assert(1 <= was[x].goal_id < self.db.next_goal_id);
                if x < i {
                    assert(was[x].goal_id != was[i as int].goal_id);
                } else {
                    assert(was[i as int].goal_id != was[x].goal_id);
                }
            }
        }
        Ok(())
    }

    /// All savings goals, the one that is due soonest first.
    pub fn list_goals(&self) -> (r: Vec<SavingGoalDto>)
        requires
            self.db.wf(),
        ensures
            r@.len() == self.db.goals@.len(),
            forall|i: int|
                0 <= i < r@.len() ==> (#[trigger] r@[i]).shows(listing(self.db.goals@)[i]),
    {
        let rows = get_all_saving_goals(&self.db);
        proof {
            assert(self.db.goals@.len() == self.db.goals.len());
            crate::sorting::lemma_listing(self.db.goals@);
            assert forall|k: int| 0 <= k < rows@.len() implies goal_valid(#[trigger] rows@[k]) by {
                let at = crate::sorting::arranged(self.db.goals@)[k] as int;
                assert(rows@[k] == self.db.goals@[at]);
                assert(1 <= self.db.goals@[at].goal_id);
            }
        }
        let mut out: Vec<SavingGoalDto> = Vec::new();
        let mut i: usize = 0;
        while i < rows.len()
            invariant
                i <= rows.len(),
                out@.len() == i,
                forall|k: int| 0 <= k < rows@.len() ==> goal_valid(#[trigger] rows@[k]),
                forall|k: int| 0 <= k < i ==> (#[trigger] out@[k]).shows(rows@[k]),
            decreases rows.len() - i,
        {
            out.push(SavingGoalDto::of(&rows[i]));
            i = i + 1;
        }
        out
    }

    /// What was spent in each category from the start of the month of `now`
    /// up to `now`, the largest total first.
    pub fn get_monthly_report(&self, now: DateTime) -> (r: Result<
        Vec<CategorySpendingDto>,
        LedgerError,
    >)
        requires
            self.db.wf(),
        ensures
            r is Err <==> spending_report_refusal(self.db, month_start(now), now) is Some,
            r matches Err(e) ==> spending_report_refusal(self.db, month_start(now), now) == Some(e),
            r matches Ok(rows) ==> {
                let totals = listing(
                    spending_totals(
                        self.db.transactions@,
                        self.db.categories@,
                        month_start(now),
                        now,
                    )->0,
                );
                &&& rows@.len() == totals.len()
                &&& forall|i: int| 0 <= i < rows@.len() ==> (#[trigger] rows@[i]).shows(totals[i])
            },
    {
        let start = DateTime {
            date: Date { year: now.date.year, month: now.date.month, day: 1 },
            hour: 0,
            minute: 0,
            second: 0,
        };
        let totals = match get_category_spending_report(&self.db, start, now) {
            Ok(t) => t,
            Err(e) => {
                return Err(e);
            },
        };
        let mut out: Vec<CategorySpendingDto> = Vec::new();
        let mut i: usize = 0;
        while i < totals.len()
            invariant
                i <= totals.len(),
                out@.len() == i,
                forall|k: int| 0 <= k < i ==> (#[trigger] out@[k]).shows(totals@[k]),
            decreases totals.len() - i,
        {
            out.push(
                CategorySpendingDto {
                    category: totals[i].category.clone(),
                    total_amount: totals[i].total_amount,
                },
            );
            i = i + 1;
        }
        Ok(out)
    }
}

} // verus!
