//! The state of the terminal front end and what each key does to it.
//!
//! Nothing here draws or reads a terminal. A key arrives as a plain value,
//! the state changes, and whoever owns the terminal shows the new state.
//! The ledger is reached only through `Client`.

use crate::api::{Client, CreateGoalReq};
use crate::dates::{Date, DateTime};
use crate::error::LedgerError;
use crate::money::Money;
use crate::state::{
    AccField, AccountDto, AccountForm, AccountType, CategoryDto, CategorySpendingDto,
    CategoryType, CreateAccountReq, CreateTxnReq, EditField, GoalField, GoalForm, SavingGoalDto,
    Tab, TransactionDto,
};
use crate::text::{pop_char, push_char, to_uppercase, trim, trimmed, uppercased};
use vstd::prelude::*;
use vstd::string::{StrSliceExecFns, StringExecFns};

verus! {

/// Why a form was not accepted.
#[derive(Debug, Clone, Copy, PartialEq, Eq, Structural)]
pub enum FormError {
    /// No account was chosen.
    NoAccount,
    /// The amount was left empty.
    EmptyAmount,
    /// The amount is no decimal number.
    InvalidAmount,
    /// The date is not written as `YYYY-MM-DD`.
    BadDate,
    /// No category was chosen.
    NoCategory,
    /// The name was left empty.
    EmptyName,
}

impl FormError {
    pub open spec fn message_spec(self) -> Seq<char> {
        match self {
            FormError::NoAccount => "Please choose account"@,
            FormError::EmptyAmount => "Amount cannot be empty"@,
            FormError::InvalidAmount => "Invalid amount format"@,
            FormError::BadDate => "Date must be YYYY-MM-DD"@,
            FormError::NoCategory => "Category is required!"@,
            FormError::EmptyName => "Name cannot be empty"@,
        }
    }

    /// What the form shows for the error.
    pub fn message(&self) -> (r: &'static str)
        ensures
            r@ == self.message_spec(),
    {
        match self {
            FormError::NoAccount => "Please choose account",
            FormError::EmptyAmount => "Amount cannot be empty",
            FormError::InvalidAmount => "Invalid amount format",
            FormError::BadDate => "Date must be YYYY-MM-DD",
            FormError::NoCategory => "Category is required!",
            FormError::EmptyName => "Name cannot be empty",
        }
    }
}

/// A text without the white space around it, or nothing if that leaves
/// nothing.
pub fn filled(s: &String) -> (r: Option<String>)
    ensures
        trimmed(s@).len() == 0 ==> r is None,
        trimmed(s@).len() > 0 ==> (r matches Some(t) && t@ == trimmed(s@)),
{
    let t = trim(s.as_str());
    if t.is_empty() {
        None
    } else {
        Some(t.to_owned())
    }
}

/// The keys that the front end tells apart.
#[derive(Debug, Clone, Copy, PartialEq, Eq, Structural)]
pub enum KeyCode {
    Char(char),
    Enter,
    Esc,
    Tab,
    Backspace,
    Delete,
    Up,
    Down,
    Other,
}

/// Whether a key went down, is held, or came up.
#[derive(Debug, Clone, Copy, PartialEq, Eq, Structural)]
pub enum KeyEventKind {
    Press,
    Repeat,
    Release,
}

/// One event of the keyboard.
#[derive(Debug, Clone, Copy, PartialEq, Eq, Structural)]
pub struct KeyEvent {
    pub code: KeyCode,
    pub control: bool,
    pub kind: KeyEventKind,
}

impl KeyEvent {
    /// Whether the key is one of those that can change the ledger: enter,
    /// delete, `y`, `d` and `s`. After any other key the ledger is as it
    /// was, whatever page is shown.
    pub open spec fn may_change_ledger_spec(self) -> bool {
        match self.code {
            KeyCode::Enter => true,
            KeyCode::Delete => true,
            KeyCode::Char(c) => c == 'y' || c == 'd' || c == 's',
            _ => false,
        }
    }

    /// Whether the ledger has to be stored again after the key.
    pub fn may_change_ledger(&self) -> (r: bool)
        ensures
            r == self.may_change_ledger_spec(),
    {
        match self.code {
            KeyCode::Enter => true,
            KeyCode::Delete => true,
            KeyCode::Char(c) => c == 'y' || c == 'd' || c == 's',
            _ => false,
        }
    }
}

/// The page of accounts.
#[derive(Debug)]
pub struct AccountsPage {
    pub list: Vec<AccountDto>,
    pub sel: Option<usize>,
    pub creating: bool,
    pub form: AccountForm,
    pub editing_id: Option<i64>,
    pub show_delete_confirm: bool,
}

/// The page of the transactions of one account.
#[derive(Debug)]
pub struct TxnPage {
    pub account_id: Option<i64>,
    pub table: Vec<TransactionDto>,
    pub tsel: Option<usize>,
    pub loading: bool,
}

/// The page of goals and of the spending report.
#[derive(Debug)]
pub struct DashboardPage {
    pub goals: Vec<SavingGoalDto>,
    pub report: Vec<CategorySpendingDto>,
    pub loading: bool,
    pub creating: bool,
    pub editing_id: Option<i64>,
    pub form: GoalForm,
    pub selected_index: usize,
}

/// The form for a transaction.
#[derive(Debug)]
pub struct AddTxnForm {
    pub account_id: Option<i64>,
    pub date: String,
    pub payee: String,
    pub memo: String,
    pub categories: Vec<CategoryDto>,
    pub cat_sel: Option<usize>,
    pub amount: String,
    pub is_expense: bool,
    pub error: Option<String>,
    pub success: Option<String>,
    pub just_entered: bool,
    pub editing: Option<EditField>,
    pub editing_txn_id: Option<i64>,
}

/// The whole front end.
pub struct App {
    pub api: Client,
    pub tab: Tab,
    pub status: String,
    pub quit: bool,
    pub accounts: AccountsPage,
    pub txn: TxnPage,
    pub dashboard: DashboardPage,
    pub add: AddTxnForm,
}

/// The place that a selection moves to in a list of `len` rows when it goes
/// `delta` rows on from `cur`, going round at the ends.
pub open spec fn wrapped(cur: int, delta: int, len: int) -> int {
    (cur + delta) % len
}

/// Moves a place in a list by a number of rows, going round at the ends.
pub fn wrap_index(cur: usize, delta: i64, len: usize) -> (r: usize)
    requires
        len > 0,
    ensures
        r == wrapped(cur as int, delta as int, len as int),
        r < len,
{
    let s: i128 = cur as i128 + delta as i128;
    let n: i128 = len as i128;
    if s >= 0 {
        let m: i128 = s % n;
        proof {
            vstd::arithmetic::div_mod::lemma_mod_bound(s as int, n as int);
        }
        m as usize
    } else {
        let a: i128 = -s;
        let q: i128 = a / n;
        let m: i128 = a % n;
        proof {
            vstd::arithmetic::div_mod::lemma_fundamental_div_mod(a as int, n as int);
            vstd::arithmetic::div_mod::lemma_mod_bound(a as int, n as int);
            if m == 0 {
                assert(s == (-q) * n + 0) by (nonlinear_arith)
                    requires
                        a == n * q + m,
                        m == 0,
                        s == -a,
                ;
                vstd::arithmetic::div_mod::lemma_fundamental_div_mod_converse(
                    s as int,
                    n as int,
                    -q as int,
                    0,
                );
            } else {
                assert(s == (-q - 1) * n + (n - m)) by (nonlinear_arith)
                    requires
                        a == n * q + m,
                        s == -a,
                ;
                vstd::arithmetic::div_mod::lemma_fundamental_div_mod_converse(
                    s as int,
                    n as int,
                    (-q - 1) as int,
                    (n - m) as int,
                );
            }
        }
        if m == 0 {
            0
        } else {
            (n - m) as usize
        }
    }
}

impl GoalForm {
    /// An empty form with no field chosen.
    pub fn empty() -> (r: GoalForm)
        ensures
            r.name@.len() == 0,
            r.target@.len() == 0,
            r.current@.len() == 0,
            r.deadline@.len() == 0,
            r.error is None,
            r.editing is None,
    {
        GoalForm {
            name: String::new(),
            target: String::new(),
            current: String::new(),
            deadline: String::new(),
            error: None,
            editing: None,
        }
    }
}

impl AccountForm {
    /// An empty form with no field chosen, for a cash account.
    pub fn empty() -> (r: AccountForm)
        ensures
            r.name@.len() == 0,
            r.currency@.len() == 0,
            r.opening@.len() == 0,
            r.kind == AccountType::Cash,
            r.error is None,
            r.editing is None,
    {
        AccountForm {
            name: String::new(),
            currency: String::new(),
            opening: String::new(),
            kind: AccountType::Cash,
            error: None,
            editing: None,
        }
    }
}

impl App {
    /// What holds of the front end at all times: its ledger is in order.
    pub open spec fn wf(self) -> bool {
        self.api.db.wf()
    }

    /// The list of accounts shows the accounts of the ledger, in the order of
    /// their ids, each with its balance.
    pub open spec fn accounts_shown(self) -> bool {
        &&& self.accounts.list@.len() == self.api.db.accounts@.len()
        &&& forall|i: int|
            0 <= i < self.accounts.list@.len() ==> (#[trigger] self.accounts.list@[i]).shows(
                self.api.db.accounts@[i],
            )
    }

    /// The list of categories in the form shows the categories of the
    /// ledger by name.
    pub open spec fn categories_shown(self) -> bool {
        &&& self.add.categories@.len() == self.api.db.categories@.len()
        &&& forall|i: int|
            0 <= i < self.add.categories@.len() ==> (#[trigger] self.add.categories@[i]).shows(
                crate::sorting::listing(self.api.db.categories@)[i],
            )
    }

    /// The table of transactions shows the first 200 transactions of an
    /// account, the latest first.
    pub open spec fn txns_shown(self, account_id: i64) -> bool {
        self.txn.table@ == crate::api::page(
            crate::sorting::listing(
                crate::queries::rows_selected(self.api.db.transactions@, account_id, None),
            ),
            Some(200i64),
            Some(0i64),
        ).map_values(|row: crate::models::Transaction| TransactionDto::of_spec(row))
    }

    /// The list of goals shows the goals of the ledger, the one that is due
    /// soonest first.
    pub open spec fn goals_shown(self) -> bool {
        &&& self.dashboard.goals@.len() == self.api.db.goals@.len()
        &&& forall|i: int|
            0 <= i < self.dashboard.goals@.len() ==> (#[trigger] self.dashboard.goals@[i]).shows(
                crate::sorting::listing(self.api.db.goals@)[i],
            )
    }

    /// The report shows what was spent in each category from the start of
    /// the month of `now` up to `now`, the largest total first; it is empty
    /// where the report cannot be drawn up.
    pub open spec fn report_shown(self, now: DateTime) -> bool {
        if crate::report::spending_report_refusal(
            self.api.db,
            crate::api::month_start(now),
            now,
        ) is Some {
            self.dashboard.report@.len() == 0
        } else {
            let totals = crate::sorting::listing(
                crate::report::spending_totals(
                    self.api.db.transactions@,
                    self.api.db.categories@,
                    crate::api::month_start(now),
                    now,
                )->0,
            );
            &&& self.dashboard.report@.len() == totals.len()
            &&& forall|i: int|
                0 <= i < totals.len() ==> (#[trigger] self.dashboard.report@[i]).shows(totals[i])
        }
    }

    /// The characters of a text that may be missing.
    pub open spec fn text_or_none(t: Option<String>) -> Seq<char> {
        match t {
            Some(text) => text@,
            None => Seq::empty(),
        }
    }

    /// The category that the form selects for a transaction that is edited:
    /// the first one in the list with the id of the transaction's category,
    /// or, where the list has none, what was selected before.
    pub open spec fn category_chosen(
        categories: Seq<CategoryDto>,
        wanted: Option<i64>,
        was: Option<usize>,
        now: Option<usize>,
    ) -> bool {
        match wanted {
            None => now == was,
            Some(id) => if exists|k: int| 0 <= k < categories.len() && (#[trigger] categories[k]).id
                == id {
                now matches Some(p) && p < categories.len() && categories[p as int].id == id
                    && forall|k: int| 0 <= k < p ==> (#[trigger] categories[k]).id != id
            } else {
                now == was
            },
        }
    }

    /// The selection of a row after a list was loaded again: it stays, and
    /// where there was none the first row is selected.
    pub open spec fn kept_selection(was: Option<usize>, rows: nat) -> Option<usize> {
        if was is None && rows > 0 {
            Some(0usize)
        } else {
            was
        }
    }

    /// What loading the transactions of the selected account does: without a
    /// selected account nothing; else table and categories are loaded.
    pub open spec fn txns_loaded(before: App, after: App) -> bool {
        match before.current_account_id_spec() {
            None => after == before,
            Some(aid) => {
                &&& after == (App {
                    txn: TxnPage {
                        table: after.txn.table,
                        tsel: after.txn.tsel,
                        loading: false,
                        ..before.txn
                    },
                    add: AddTxnForm { categories: after.add.categories, ..before.add },
                    ..before
                })
                &&& after.txns_shown(aid)
                &&& after.categories_shown()
                &&& after.txn.tsel == App::kept_selection(before.txn.tsel, after.txn.table@.len())
            },
        }
    }

    /// What loading goals and report does.
    pub open spec fn dashboard_loaded(before: App, now: DateTime, after: App) -> bool {
        &&& after == (App {
            dashboard: DashboardPage {
                goals: after.dashboard.goals,
                report: after.dashboard.report,
                loading: false,
                ..before.dashboard
            },
            ..before
        })
        &&& after.goals_shown()
        &&& after.report_shown(now)
    }

    /// What loading the accounts does.
    pub open spec fn accounts_loaded(before: App, after: App) -> bool {
        &&& after == (App {
            accounts: AccountsPage {
                list: after.accounts.list,
                sel: after.accounts.sel,
                ..before.accounts
            },
            ..before
        })
        &&& after.accounts_shown()
        &&& after.accounts.sel == App::kept_selection(before.accounts.sel, after.accounts.list@.len())
    }

    /// The front end as it starts: on the page of accounts, nothing loaded,
    /// the form for a transaction dated today.
    pub fn new(api: Client, today: Date) -> (r: App)
        requires
            api.db.wf(),
            today.wf(),
        ensures
            r.wf(),
            r.api == api,
            r.tab == Tab::Accounts,
            !r.quit,
            r.status@ == "Press ? for help | q to quit"@,
            r.accounts.list@.len() == 0 && r.accounts.sel is None && !r.accounts.creating
                && r.accounts.editing_id is None && !r.accounts.show_delete_confirm,
            r.txn.account_id is None && r.txn.table@.len() == 0 && r.txn.tsel is None
                && !r.txn.loading,
            r.dashboard.goals@.len() == 0 && r.dashboard.report@.len() == 0
                && !r.dashboard.creating && r.dashboard.selected_index == 0,
            r.add.date@ == today.text(),
            r.add.account_id is None && r.add.categories@.len() == 0 && r.add.cat_sel is None
                && !r.add.is_expense && r.add.editing is None && r.add.editing_txn_id is None
                && !r.add.just_entered,
    {
        App {
            api,
            tab: Tab::Accounts,
            status: "Press ? for help | q to quit".to_owned(),
            quit: false,
            accounts: AccountsPage {
                list: Vec::new(),
                sel: None,
                creating: false,
                form: AccountForm::empty(),
                editing_id: None,
                show_delete_confirm: false,
            },
            txn: TxnPage { account_id: None, table: Vec::new(), tsel: None, loading: false },
            dashboard: DashboardPage {
                goals: Vec::new(),
                report: Vec::new(),
                loading: false,
                creating: false,
                editing_id: None,
                form: GoalForm::empty(),
                selected_index: 0,
            },
            add: AddTxnForm {
                account_id: None,
                date: today.format(),
                payee: String::new(),
                memo: String::new(),
                categories: Vec::new(),
                cat_sel: None,
                amount: String::new(),
                is_expense: false,
                error: None,
                success: None,
                just_entered: false,
                editing: None,
                editing_txn_id: None,
            },
        }
    }

    /// The id of the account that is selected, if one is.
    pub open spec fn current_account_id_spec(self) -> Option<i64> {
        match self.accounts.sel {
            Some(i) => if i < self.accounts.list@.len() {
                Some(self.accounts.list@[i as int].id)
            } else {
                None
            },
            None => None,
        }
    }

    /// The account that is selected, if one is.
    pub fn current_account(&self) -> (r: Option<&AccountDto>)
        ensures
            match r {
                Some(a) => self.accounts.sel matches Some(i) && i < self.accounts.list@.len() && *a
                    == self.accounts.list@[i as int],
                None => self.current_account_id_spec() is None,
            },
    {
        match self.accounts.sel {
            Some(i) => if i < self.accounts.list.len() {
                Some(&self.accounts.list[i])
            } else {
                None
            },
            None => None,
        }
    }

    /// The id of the account that is selected, if one is.
    pub fn current_account_id(&self) -> (r: Option<i64>)
        ensures
            r == self.current_account_id_spec(),
    {
        match self.current_account() {
            Some(a) => Some(a.id),
            None => None,
        }
    }

    /// The place of the transaction that is selected, if one is.
    pub fn current_txn_index(&self) -> (r: Option<usize>)
        ensures
            r == self.txn.tsel,
    {
        self.txn.tsel
    }

    /// The id of the transaction that is selected, if one is.
    pub open spec fn current_txn_id_spec(self) -> Option<i64> {
        match self.txn.tsel {
            Some(i) => if i < self.txn.table@.len() {
                Some(self.txn.table@[i as int].id)
            } else {
                None
            },
            None => None,
        }
    }

    /// The id of the transaction that is selected, if one is.
    pub fn current_txn_id(&self) -> (r: Option<i64>)
        ensures
            r == self.current_txn_id_spec(),
    {
        match self.txn.tsel {
            Some(i) => if i < self.txn.table.len() {
                Some(self.txn.table[i].id)
            } else {
                None
            },
            None => None,
        }
    }

    /// Loads the accounts again and selects the first one if none is
    /// selected.
    pub fn refresh_accounts(&mut self)
        requires
            old(self).wf(),
        ensures
            final(self).wf(),
            App::accounts_loaded(*old(self), *final(self)),
    {
        let data = self.api.list_accounts();
        self.accounts.list = data;
        if self.accounts.sel.is_none() && self.accounts.list.len() > 0 {
            self.accounts.sel = Some(0);
        }
    }

    /// Loads the categories for the form.
    pub fn load_categories(&mut self)
        requires
            old(self).wf(),
        ensures
            final(self).wf(),
            *final(self) == (App {
                add: AddTxnForm { categories: final(self).add.categories, ..old(self).add },
                ..*old(self)
            }),
            final(self).categories_shown(),
    {
        let list = self.api.list_categories();
        self.add.categories = list;
    }

    /// Loads the transactions of the selected account, and the categories
    /// with them; selects the first transaction if none is selected. Without
    /// a selected account nothing happens.
    pub fn refresh_txns(&mut self)
        requires
            old(self).wf(),
        ensures
            final(self).wf(),
            App::txns_loaded(*old(self), *final(self)),
    {
        if let Some(aid) = self.current_account_id() {
            self.txn.loading = true;
            self.load_categories();
            let rows = match self.api.list_transactions(aid, Some(200), Some(0), None) {
                Ok(rows) => rows,
                Err(_) => Vec::new(),
            };
            self.txn.table = rows;
            if self.txn.tsel.is_none() && self.txn.table.len() > 0 {
                self.txn.tsel = Some(0);
            }
            self.txn.loading = false;
        }
    }

    /// Clears the selection of a category if there are none, and pulls it
    /// back to the last category if it points beyond.
    pub fn clamp_cat_selection(&mut self)
        ensures
            *final(self) == (App {
                add: AddTxnForm { cat_sel: final(self).add.cat_sel, ..old(self).add },
                ..*old(self)
            }),
            final(self).add.cat_sel == if old(self).add.categories@.len() == 0 {
                None
            } else {
                match old(self).add.cat_sel {
                    Some(i) => if i >= old(self).add.categories@.len() {
                        Some((old(self).add.categories@.len() - 1) as usize)
                    } else {
                        Some(i)
                    },
                    None => None,
                }
            },
    {
        let len: usize = self.add.categories.len();
        if len == 0 {
            self.add.cat_sel = None;
        } else if let Some(i) = self.add.cat_sel {
            if i >= len {
                self.add.cat_sel = Some(len - 1);
            }
        }
    }

    /// On first entering the form: selects the first category if none is
    /// selected, and takes the direction of the amount from the kind of the
    /// selected category. At any later time nothing happens.
    pub fn ensure_cat_selected(&mut self)
        ensures
            !old(self).add.just_entered ==> *final(self) == *old(self),
            old(self).add.just_entered ==> {
                &&& *final(self) == (App {
                    add: AddTxnForm {
                        cat_sel: final(self).add.cat_sel,
                        is_expense: final(self).add.is_expense,
                        just_entered: false,
                        ..old(self).add
                    },
                    ..*old(self)
                })
                &&& final(self).add.cat_sel == if old(self).add.categories@.len() == 0 {
                    None
                } else if old(self).add.cat_sel is None {
                    Some(0usize)
                } else {
                    old(self).add.cat_sel
                }
                &&& final(self).add.is_expense == if old(self).add.categories@.len() == 0 {
                    false
                } else if final(self).add.cat_sel->0 < old(self).add.categories@.len() {
                    old(self).add.categories@[final(self).add.cat_sel->0 as int].kind
                        == CategoryType::Expense
                } else {
                    old(self).add.is_expense
                }
            },
    {
        if !self.add.just_entered {
            return ;
        }
        if self.add.categories.len() == 0 {
            self.add.cat_sel = None;
            self.add.is_expense = false;
        } else {
            if self.add.cat_sel.is_none() {
                self.add.cat_sel = Some(0);
            }
            if let Some(i) = self.add.cat_sel {
                if i < self.add.categories.len() {
                    self.add.is_expense = match self.add.categories[i].kind {
                        CategoryType::Expense => true,
                        CategoryType::Income => false,
                    };
                }
            }
        }
        self.add.just_entered = false;
    }

    /// Moves the selection of a category, going round at the ends, and takes
    /// the direction of the amount from the kind of the category reached.
    pub fn move_cat(&mut self, delta: i32)
        ensures
            *final(self) == (App {
                add: AddTxnForm {
                    cat_sel: final(self).add.cat_sel,
                    is_expense: final(self).add.is_expense,
                    ..old(self).add
                },
                ..*old(self)
            }),
            old(self).add.categories@.len() == 0 ==> final(self).add.cat_sel is None && final(self).add.is_expense == old(self).add.is_expense,
            old(self).add.categories@.len() > 0 ==> {
                let cur = match old(self).add.cat_sel {
                    Some(i) => i as int,
                    None => 0,
                };
                let to = wrapped(cur, delta as int, old(self).add.categories@.len() as int);
                &&& final(self).add.cat_sel == Some(to as usize)
                &&& final(self).add.is_expense == (old(self).add.categories@[to].kind
                    == CategoryType::Expense)
            },
    {
        let len: usize = self.add.categories.len();
        if len == 0 {
            self.add.cat_sel = None;
            return ;
        }
        let cur: usize = match self.add.cat_sel {
            Some(i) => i,
            None => 0,
        };
        let to: usize = wrap_index(cur, delta as i64, len);
        self.add.cat_sel = Some(to);
        self.add.is_expense = match self.add.categories[to].kind {
            CategoryType::Expense => true,
            CategoryType::Income => false,
        };
    }

    /// Moves the selection of a transaction, going round at the ends.
    pub fn move_txn(&mut self, delta: isize)
        ensures
            *final(self) == (App {
                txn: TxnPage { tsel: final(self).txn.tsel, ..old(self).txn },
                ..*old(self)
            }),
            final(self).txn.tsel == if old(self).txn.table@.len() == 0 {
                None
            } else {
                Some(
                    wrapped(
                        match old(self).txn.tsel {
                            Some(i) => i as int,
                            None => 0,
                        },
                        delta as int,
                        old(self).txn.table@.len() as int,
                    ) as usize,
                )
            },
    {
        let n: usize = self.txn.table.len();
        if n == 0 {
            self.txn.tsel = None;
            return ;
        }
        let cur: usize = match self.txn.tsel {
            Some(i) => i,
            None => 0,
        };
        self.txn.tsel = Some(wrap_index(cur, delta as i64, n));
    }

    /// Moves the selection of an account, going round at the ends. With no
    /// accounts nothing happens.
    pub fn move_account(&mut self, delta: isize)
        ensures
            *final(self) == (App {
                accounts: AccountsPage { sel: final(self).accounts.sel, ..old(self).accounts },
                ..*old(self)
            }),
            final(self).accounts.sel == if old(self).accounts.list@.len() == 0 {
                old(self).accounts.sel
            } else {
                Some(
                    wrapped(
                        match old(self).accounts.sel {
                            Some(i) => i as int,
                            None => 0,
                        },
                        delta as int,
                        old(self).accounts.list@.len() as int,
                    ) as usize,
                )
            },
    {
        let n: usize = self.accounts.list.len();
        if n == 0 {
            return ;
        }
        let cur: usize = match self.accounts.sel {
            Some(i) => i,
            None => 0,
        };
        self.accounts.sel = Some(wrap_index(cur, delta as i64, n));
    }
}

impl AddTxnForm {
    /// The id of the category that is selected, if one is.
    pub open spec fn category_id(self) -> Option<i64> {
        match self.cat_sel {
            Some(i) => if i < self.categories@.len() {
                Some(self.categories@[i as int].id)
            } else {
                None
            },
            None => None,
        }
    }

    /// The day that the form names: today if the field is empty.
    pub open spec fn day(self, today: Date) -> Option<Date> {
        if trimmed(self.date@).len() == 0 {
            Some(today)
        } else {
            Date::parse_spec(trimmed(self.date@))
        }
    }

    /// What is wrong with the form, if anything; the first fault in the
    /// order account, amount, date, category.
    pub open spec fn fault(self, today: Date) -> Option<FormError> {
        if self.account_id is None {
            Some(FormError::NoAccount)
        } else if trimmed(self.amount@).len() == 0 {
            Some(FormError::EmptyAmount)
        } else if Money::parse_spec(trimmed(self.amount@)) is None {
            Some(FormError::InvalidAmount)
        } else if self.day(today) is None {
            Some(FormError::BadDate)
        } else if self.category_id() is None {
            Some(FormError::NoCategory)
        } else {
            None
        }
    }

    /// The amount that the form asks for: the magnitude of what was typed,
    /// negative for an expense.
    pub open spec fn signed_amount(self) -> Money {
        let typed = Money::parse_spec(trimmed(self.amount@))->0.abs_spec();
        if self.is_expense {
            typed.negate_spec()
        } else {
            typed
        }
    }

    /// Reads the form. The request that comes out is for the chosen account
    /// and category, with the amount signed by the direction of the form,
    /// dated at the start of the day, and with memo and payee only where
    /// something was typed.
    pub fn to_request(&self, currency: &str, today: Date) -> (r: Result<CreateTxnReq, FormError>)
        requires
            today.wf(),
        ensures
            r is Err <==> self.fault(today) is Some,
            r matches Err(e) ==> self.fault(today) == Some(e),
            r matches Ok(req) ==> {
                &&& Some(req.account_id) == self.account_id
                &&& Some(req.category_id) == self.category_id()
                &&& req.amount == self.signed_amount()
                &&& req.base_amount == self.signed_amount()
                &&& req.amount.wf()
                &&& req.is_expense == self.is_expense
                &&& trimmed(self.memo@).len() == 0 ==> req.description is None
                &&& trimmed(self.memo@).len() > 0 ==> (req.description matches Some(t) && t@
                    == trimmed(self.memo@))
                &&& trimmed(self.payee@).len() == 0 ==> req.payee is None
                &&& trimmed(self.payee@).len() > 0 ==> (req.payee matches Some(t) && t@ == trimmed(
                    self.payee@,
                ))
                &&& req.currency@ == currency@
                &&& Some(req.transacted_at.date) == self.day(today)
                &&& req.transacted_at.hour == 0 && req.transacted_at.minute == 0
                    && req.transacted_at.second == 0
                &&& req.transacted_at.wf()
            },
    {
        let account_id: i64 = match self.account_id {
            Some(id) => id,
            None => {
                return Err(FormError::NoAccount);
            },
        };
        let typed = trim(self.amount.as_str());
        if typed.is_empty() {
            return Err(FormError::EmptyAmount);
        }
        let amount = match Money::parse(typed) {
            Ok(m) => m,
            Err(_) => {
                return Err(FormError::InvalidAmount);
            },
        };
        let mut signed = amount.abs();
        if self.is_expense {
            signed = signed.negate();
        }
        let written = trim(self.date.as_str());
        let date = if written.is_empty() {
            today
        } else {
            match Date::parse(written) {
                Ok(d) => d,
                Err(_) => {
                    return Err(FormError::BadDate);
                },
            }
        };
        let category_id: i64 = match self.cat_sel {
            Some(i) => if i < self.categories.len() {
                self.categories[i].id
            } else {
                return Err(FormError::NoCategory);
            },
            None => {
                return Err(FormError::NoCategory);
            },
        };
        Ok(
            CreateTxnReq {
                account_id,
                category_id,
                amount: signed,
                base_amount: signed,
                is_expense: self.is_expense,
                description: filled(&self.memo),
                payee: filled(&self.payee),
                currency: currency.to_owned(),
                transacted_at: date.at_midnight(),
            },
        )
    }
}

impl GoalForm {
    /// An amount as the form reads it: zero for an empty field and for one
    /// that is no number.
    pub open spec fn amount_of(field: Seq<char>) -> Money {
        if trimmed(field).len() == 0 {
            Money::zero_spec()
        } else {
            match Money::parse_spec(trimmed(field)) {
                Some(m) => m,
                None => Money::zero_spec(),
            }
        }
    }

    /// Reads an amount of the form.
    pub fn read_amount(field: &String) -> (r: Money)
        ensures
            r == GoalForm::amount_of(field@),
            r.wf(),
    {
        let t = trim(field.as_str());
        if t.is_empty() {
            Money::zero()
        } else {
            match Money::parse(t) {
                Ok(m) => m,
                Err(_) => Money::zero(),
            }
        }
    }

    /// What is wrong with the form, if anything.
    pub open spec fn fault(self) -> Option<FormError> {
        if trimmed(self.name@).len() == 0 {
            Some(FormError::EmptyName)
        } else if trimmed(self.deadline@).len() > 0 && Date::parse_spec(trimmed(self.deadline@))
            is None {
            Some(FormError::BadDate)
        } else {
            None
        }
    }

    /// Reads the form. A goal needs a name; its deadline, if one was typed,
    /// is the start of that day.
    pub fn to_request(&self) -> (r: Result<CreateGoalReq, FormError>)
        ensures
            r is Err <==> self.fault() is Some,
            r matches Err(e) ==> self.fault() == Some(e),
            r matches Ok(req) ==> {
                &&& req.account_id == 1
                &&& req.name@ == trimmed(self.name@)
                &&& req.target_amount == GoalForm::amount_of(self.target@)
                &&& req.current_amount == GoalForm::amount_of(self.current@)
                &&& req.deadline == if trimmed(self.deadline@).len() == 0 {
                    None
                } else {
                    Some(
                        DateTime {
                            date: Date::parse_spec(trimmed(self.deadline@))->0,
                            hour: 0,
                            minute: 0,
                            second: 0,
                        },
                    )
                }
                &&& crate::planning::goal_valid(req.goal(0))
            },
    {
        let name = trim(self.name.as_str());
        if name.is_empty() {
            return Err(FormError::EmptyName);
        }
        let target = GoalForm::read_amount(&self.target);
        let current = GoalForm::read_amount(&self.current);
        let written = trim(self.deadline.as_str());
        let deadline = if written.is_empty() {
            None
        } else {
            match Date::parse(written) {
                Ok(d) => Some(d.at_midnight()),
                Err(_) => {
                    return Err(FormError::BadDate);
                },
            }
        };
        Ok(
            CreateGoalReq {
                account_id: 1,
                name: name.to_owned(),
                target_amount: target,
                current_amount: current,
                deadline,
            },
        )
    }
}

impl App {
    /// Loads the savings goals again.
    pub fn refresh_goals(&mut self)
        requires
            old(self).wf(),
        ensures
            *final(self) == (App {
                dashboard: DashboardPage {
                    goals: final(self).dashboard.goals,
                    ..old(self).dashboard
                },
                ..*old(self)
            }),
            final(self).goals_shown(),
    {
        let goals = self.api.list_goals();
        self.dashboard.goals = goals;
    }

    /// Loads the spending report of the month of `now` again; a report that
    /// cannot be drawn up is shown as empty.
    pub fn refresh_monthly_report(&mut self, now: DateTime)
        requires
            old(self).wf(),
        ensures
            *final(self) == (App {
                dashboard: DashboardPage {
                    report: final(self).dashboard.report,
                    ..old(self).dashboard
                },
                ..*old(self)
            }),
            final(self).report_shown(now),
    {
        let report = match self.api.get_monthly_report(now) {
            Ok(r) => r,
            Err(_) => Vec::new(),
        };
        self.dashboard.report = report;
    }

    /// Loads goals and report again.
    pub fn refresh_dashboard(&mut self, now: DateTime)
        requires
            old(self).wf(),
        ensures
            App::dashboard_loaded(*old(self), now, *final(self)),
    {
        self.dashboard.loading = true;
        self.refresh_goals();
        self.refresh_monthly_report(now);
        self.dashboard.loading = false;
    }

    /// The currency of the selected account, or the default one.
    pub open spec fn currency_shown(self) -> Seq<char> {
        match self.accounts.sel {
            Some(i) => if i < self.accounts.list@.len() {
                self.accounts.list@[i as int].currency@
            } else {
                crate::api::default_currency()
            },
            None => crate::api::default_currency(),
        }
    }

    /// The currency of the selected account, or the default one.
    pub fn current_currency(&self) -> (r: String)
        ensures
            r@ == self.currency_shown(),
    {
        match self.current_account() {
            Some(a) => a.currency.clone(),
            None => "CAD".to_owned(),
        }
    }

    /// The start of the day that the form for a transaction names.
    pub open spec fn txn_time(self, now: DateTime) -> DateTime {
        DateTime { date: self.add.day(now.date)->0, hour: 0, minute: 0, second: 0 }
    }

    /// Why the ledger refuses what a form for a transaction without fault
    /// asks for, if it does: the refusal of a new transaction, or of the
    /// change to the one that is being edited, with the account, category,
    /// signed amount, direction and day of the form and the currency of the
    /// selected account.
    pub open spec fn txn_refusal(self, now: DateTime) -> Option<LedgerError> {
        self.api.entry_refusal(
            self.add.editing_txn_id,
            self.add.account_id->0,
            self.add.category_id()->0,
            self.add.signed_amount(),
            self.add.is_expense,
            self.currency_shown(),
            self.txn_time(now),
            now,
        )
    }

    /// What sending the form for a transaction does. A form with a fault
    /// shows the fault and nothing else changes. A form without fault is
    /// sent to the ledger exactly once: if the ledger refuses, the form
    /// shows why and the ledger is as it was; if not, the row is stored, the
    /// form is emptied, the lists are loaded again and the page of
    /// transactions is shown.
    pub open spec fn txn_sent(before: App, now: DateTime, after: App) -> bool {
        &&& after.quit == before.quit
        &&& after.dashboard == before.dashboard
        &&& match before.add.fault(now.date) {
            Some(fault) => {
                &&& after == (App {
                    add: AddTxnForm { error: after.add.error, ..before.add },
                    ..before
                })
                &&& after.add.error matches Some(t) && t@ == fault.message_spec()
            },
            None => match before.txn_refusal(now) {
                Some(e) => {
                    &&& after == (App {
                        api: after.api,
                        add: AddTxnForm { error: after.add.error, ..before.add },
                        ..before
                    })
                    &&& after.api.db.same_as(before.api.db)
                    &&& after.add.error matches Some(t) && t@ == "Error: "@ + e.message_spec()
                },
                None => App::txn_saved(before, now, after),
            },
        }
    }

    /// What closing the form for a transaction does once the ledger has
    /// stored it: the form is emptied and says so, the transactions of the
    /// selected account, the categories and the accounts are loaded again,
    /// and the page of transactions is shown. The ledger stays as it is.
    pub open spec fn txn_form_closed(before: App, after: App) -> bool {
        &&& after.api == before.api
        &&& after.quit == before.quit
        &&& after.dashboard == before.dashboard
        &&& after.tab == Tab::Transactions
        &&& after.status@ == "Transaction saved."@
        &&& after.add.error is None
        &&& after.add.success matches Some(t) && t@ == "Saved!"@
        &&& after.add.amount@.len() == 0
        &&& after.add.memo@.len() == 0
        &&& after.add.payee@.len() == 0
        &&& after.add.editing_txn_id is None
        &&& after.add.account_id == before.add.account_id
        &&& after.add.date == before.add.date
        &&& after.add.cat_sel == before.add.cat_sel
        &&& after.add.is_expense == before.add.is_expense
        &&& after.add.editing == before.add.editing
        &&& after.add.just_entered == before.add.just_entered
        &&& after.accounts == (AccountsPage {
            list: after.accounts.list,
            sel: after.accounts.sel,
            ..before.accounts
        })
        &&& after.accounts_shown()
        &&& after.accounts.sel == App::kept_selection(
            before.accounts.sel,
            after.accounts.list@.len(),
        )
        &&& after.txn.account_id == before.txn.account_id
        &&& match before.current_account_id_spec() {
            Some(aid) => {
                &&& after.txns_shown(aid)
                &&& after.categories_shown()
                &&& !after.txn.loading
                &&& after.txn.tsel == App::kept_selection(
                    before.txn.tsel,
                    after.txn.table@.len(),
                )
            },
            None => after.txn == before.txn && after.add.categories == before.add.categories,
        }
    }

    /// What holds after a form for a transaction was stored: the ledger
    /// holds the row that the form asked for, and the form was closed.
    pub open spec fn txn_saved(before: App, now: DateTime, after: App) -> bool {
        &&& App::txn_form_closed(App { api: after.api, ..before }, after)
        &&& crate::ledger::same_but_balances(before.api.db.accounts@, after.api.db.accounts@)
        &&& after.api.db.categories@ == before.api.db.categories@
        &&& after.api.db.same_side(before.api.db)
        &&& before.add.editing_txn_id is None ==> {
            let row = after.api.db.transactions@.last();
            &&& after.api.db.transactions@.len() == before.api.db.transactions@.len() + 1
            &&& after.api.db.transactions@.drop_last() == before.api.db.transactions@
            &&& row.transaction_id == before.api.db.next_transaction_id
            &&& App::row_holds_form(row, before, now)
            &&& row.trans_create_at == now
        }
        &&& before.add.editing_txn_id matches Some(id) ==> {
            let at = crate::ledger::transaction_index(before.api.db.transactions@, id);
            let row = after.api.db.transactions@[at];
            &&& crate::ledger::has_transaction(before.api.db.transactions@, id)
            &&& after.api.db.transactions@.len() == before.api.db.transactions@.len()
            &&& forall|i: int|
                0 <= i < before.api.db.transactions@.len() && i != at ==> (
                #[trigger] after.api.db.transactions@[i]) == before.api.db.transactions@[i]
            &&& row.transaction_id == id
            &&& App::row_holds_form(row, before, now)
            &&& row.trans_create_at == before.api.db.transactions@[at].trans_create_at
        }
    }

    /// Whether a stored row holds what the form for a transaction asked for:
    /// its account and category, the amount as a magnitude with the
    /// direction of the form, the base amount at the rate of the currency,
    /// memo and payee where something was typed, and the start of the day.
    pub open spec fn row_holds_form(row: crate::models::Transaction, before: App, now: DateTime)
        -> bool {
        &&& Some(row.account_id) == before.add.account_id
        &&& Some(row.category_id) == before.add.category_id()
        &&& row.amount == before.add.signed_amount().abs_spec()
        &&& Some(row.base_amount) == before.api.base_amount_for(
            before.add.signed_amount().abs_spec(),
            before.currency_shown(),
        )
        &&& row.is_expense == before.add.is_expense
        &&& row.currency@ == before.currency_shown()
        &&& row.transacted_at == before.txn_time(now)
        &&& trimmed(before.add.memo@).len() == 0 ==> row.description is None
        &&& trimmed(before.add.memo@).len() > 0 ==> (row.description matches Some(t) && t@
            == trimmed(before.add.memo@))
        &&& trimmed(before.add.payee@).len() == 0 ==> row.payee is None
        &&& trimmed(before.add.payee@).len() > 0 ==> (row.payee matches Some(t) && t@ == trimmed(
            before.add.payee@,
        ))
    }

    /// Sends the form for a transaction: a new transaction, or a change to
    /// the one that is being edited.
    pub fn submit_txn(&mut self, now: DateTime)
        requires
            old(self).wf(),
            now.wf(),
        ensures
            final(self).wf(),
            App::txn_sent(*old(self), now, *final(self)),
    {
        let currency = self.current_currency();
        let req = match self.add.to_request(currency.as_str(), now.date) {
            Ok(req) => req,
            Err(fault) => {
                self.add.error = Some(fault.message().to_owned());
                return ;
            },
        };
        proof {
            self.api.lemma_entry_refusal(req, now);
            assert(req.transacted_at == old(self).txn_time(now));
            assert(req.amount == old(self).add.signed_amount());
        }
        let outcome = match self.add.editing_txn_id {
            Some(id) => self.api.update_transaction(id, &req),
            None => match self.api.create_transaction(&req, now) {
                Ok(_) => Ok(()),
                Err(e) => Err(e),
            },
        };
        proof {
            if outcome is Ok {
                let was = old(self).api.db.transactions@;
                let rows = self.api.db.transactions@;
                if old(self).add.editing_txn_id is None {
                    assert(rows.drop_last() =~= was);
                } else {
                    let id = old(self).add.editing_txn_id->0;
                    assert(0 <= crate::ledger::transaction_index(was, id) < was.len());
                }
            }
        }
        match outcome {
            Ok(_) => {
                assert(*self == (App { api: self.api, ..*old(self) }));
                self.close_txn_form();
            },
            Err(e) => {
                self.add.error = Some(failure_text("Error: ", e));
            },
        }
    }

    /// Empties the form for a transaction after the ledger has stored it,
    /// loads the lists again and shows the page of transactions.
    pub fn close_txn_form(&mut self)
        requires
            old(self).wf(),
        ensures
            final(self).wf(),
            App::txn_form_closed(*old(self), *final(self)),
    {
        self.add.success = Some("Saved!".to_owned());
        self.add.error = None;
        self.add.amount = String::new();
        self.add.memo = String::new();
        self.add.payee = String::new();
        self.add.editing_txn_id = None;
        self.refresh_txns();
        self.refresh_accounts();
        self.tab = Tab::Transactions;
        self.status = "Transaction saved.".to_owned();
    }

    /// Why the ledger refuses what a form for a goal without fault asks for,
    /// if it does. The amounts and the deadline that a form gives are always
    /// within bounds, so a new goal is refused only when there is no id
    /// left, and a change only when there is no goal of the id.
    pub open spec fn goal_refusal(self) -> Option<LedgerError> {
        match self.dashboard.editing_id {
            None => if self.api.db.next_goal_id == i64::MAX {
                Some(LedgerError::IdsExhausted)
            } else {
                None
            },
            Some(id) => if crate::planning::has_goal(self.api.db.goals@, id) {
                None
            } else {
                Some(LedgerError::GoalNotFound)
            },
        }
    }

    /// The answer to sending the form for a goal: the refusal of the ledger
    /// for a form without fault, and else success.
    pub open spec fn goal_outcome(self) -> Result<(), LedgerError> {
        if self.dashboard.form.fault() is None && self.goal_refusal() is Some {
            Err(self.goal_refusal()->0)
        } else {
            Ok(())
        }
    }

    /// The deadline that the form for a goal names: none, or the start of
    /// the day that was typed.
    pub open spec fn goal_deadline(self) -> Option<DateTime> {
        if trimmed(self.dashboard.form.deadline@).len() == 0 {
            None
        } else {
            Some(
                DateTime {
                    date: Date::parse_spec(trimmed(self.dashboard.form.deadline@))->0,
                    hour: 0,
                    minute: 0,
                    second: 0,
                },
            )
        }
    }

    /// Whether a stored goal holds what the form asked for.
    pub open spec fn goal_holds_form(goal: crate::models::SavingsGoal, before: App) -> bool {
        &&& goal.goal_name@ == trimmed(before.dashboard.form.name@)
        &&& goal.target_amount == GoalForm::amount_of(before.dashboard.form.target@)
        &&& goal.current_amount == GoalForm::amount_of(before.dashboard.form.current@)
        &&& goal.deadline == before.goal_deadline()
    }

    /// What sending the form for a goal does. A form with a fault shows the
    /// fault. A form without fault is sent to the ledger exactly once: if
    /// the ledger refuses, nothing changes; if not, the goal is stored, the
    /// form is closed and the goals are loaded again.
    pub open spec fn goal_sent(before: App, after: App) -> bool {
        &&& after.tab == before.tab
        &&& after.quit == before.quit
        &&& after.accounts == before.accounts
        &&& after.txn == before.txn
        &&& after.add == before.add
        &&& match before.dashboard.form.fault() {
            Some(fault) => {
                &&& after == (App {
                    dashboard: DashboardPage {
                        form: GoalForm {
                            error: after.dashboard.form.error,
                            ..before.dashboard.form
                        },
                        ..before.dashboard
                    },
                    ..before
                })
                &&& after.dashboard.form.error matches Some(t) && t@ == fault.message_spec()
            },
            None => match before.goal_refusal() {
                Some(e) => {
                    &&& after == (App { api: after.api, ..before })
                    &&& after.api.db.same_as(before.api.db)
                },
                None => App::goal_saved(before, after),
            },
        }
    }

    /// What holds after a form for a goal was stored.
    pub open spec fn goal_saved(before: App, after: App) -> bool {
        let was = before.api.db.goals@;
        let now = after.api.db.goals@;
        &&& !after.dashboard.creating
        &&& after.dashboard.editing_id is None
        &&& after.dashboard.form == before.dashboard.form
        &&& after.dashboard.report == before.dashboard.report
        &&& after.dashboard.loading == before.dashboard.loading
        &&& after.dashboard.selected_index == before.dashboard.selected_index
        &&& after.status@ == "Goal saved."@
        &&& crate::planning::same_but_goals(after.api.db, before.api.db)
        &&& after.dashboard.goals@.len() == now.len()
        &&& forall|i: int|
            0 <= i < after.dashboard.goals@.len() ==> (#[trigger] after.dashboard.goals@[i]).shows(
                crate::sorting::listing(now)[i],
            )
        &&& match before.dashboard.editing_id {
            None => {
                &&& now.len() == was.len() + 1
                &&& now.drop_last() == was
                &&& now.last().goal_id == before.api.db.next_goal_id
                &&& now.last().account_id == 1
                &&& App::goal_holds_form(now.last(), before)
                &&& after.api.db.next_goal_id == before.api.db.next_goal_id + 1
            },
            Some(id) => {
                let at = crate::planning::goal_index(was, id);
                &&& now.len() == was.len()
                &&& forall|i: int| 0 <= i < was.len() && i != at ==> (#[trigger] now[i]) == was[i]
                &&& now[at].goal_id == id
                &&& now[at].account_id == was[at].account_id
                &&& App::goal_holds_form(now[at], before)
                &&& after.api.db.next_goal_id == before.api.db.next_goal_id
            },
        }
    }

    /// Sends the form for a savings goal: a new goal, or a change to the one
    /// that is being edited. The answer is the refusal of the ledger, if it
    /// refuses a form without fault; a form with a fault is no error of the
    /// ledger.
    pub fn submit_goal(&mut self) -> (r: Result<(), LedgerError>)
        requires
            old(self).wf(),
        ensures
            final(self).wf(),
            r == old(self).goal_outcome(),
            App::goal_sent(*old(self), *final(self)),
    {
        let req = match self.dashboard.form.to_request() {
            Ok(req) => req,
            Err(fault) => {
                self.dashboard.form.error = Some(fault.message().to_owned());
                return Ok(());
            },
        };
        let done = match self.dashboard.editing_id {
            Some(id) => self.api.update_goal(id, &req),
            None => self.api.create_goal(&req),
        };
        proof {
            let was = old(self).api.db.goals@;
            let now = self.api.db.goals@;
            if done is Ok {
                match old(self).dashboard.editing_id {
                    None => {
                        assert(now.drop_last() =~= was);
                    },
                    Some(id) => {
                        assert(0 <= crate::planning::goal_index(was, id) < was.len());
                    },
                }
            }
        }
        match done {
            Ok(_) => {},
            Err(e) => {
                return Err(e);
            },
        }
        self.dashboard.creating = false;
        self.dashboard.editing_id = None;
        self.refresh_goals();
        self.status = "Goal saved.".to_owned();
        Ok(())
    }
}

/// Whether a character may stand in an amount: a digit or the point.
pub open spec fn is_amount_char(c: char) -> bool {
    ('0' <= c && c <= '9') || c == '.'
}

/// Whether a character may stand in an amount.
pub fn amount_char(c: char) -> (r: bool)
    ensures
        r == is_amount_char(c),
{
    ('0' <= c && c <= '9') || c == '.'
}

/// The first `n` characters of a text, or all of it if it has fewer.
pub fn first_chars(s: &str, n: usize) -> (r: String)
    ensures
        r@ == s@.take(if n <= s@.len() { n as int } else { s@.len() as int }),
{
    let len: usize = s.unicode_len();
    let to: usize = if n <= len {
        n
    } else {
        len
    };
    let part = s.substring_char(0, to);
    proof {
        assert(s@.subrange(0, to as int) =~= s@.take(to as int));
    }
    part.to_owned()
}

/// A status line made of a lead and the words of an error.
pub fn failure_text(lead: &str, e: LedgerError) -> (r: String)
    ensures
        r@ == lead@ + e.message_spec(),
{
    lead.to_owned().concat(e.message())
}

impl App {
    /// The help page: escape leads back to the accounts.
    pub fn on_help(&mut self, k: KeyEvent)
        ensures
            App::help_step(*old(self), k, *final(self)),
    {
        match k.code {
            KeyCode::Esc => {
                self.tab = Tab::Accounts;
            },
            _ => {},
        }
    }

    /// While the question whether to delete the selected account is open:
    /// `y` or enter deletes it with all its transactions, `n` or escape
    /// leaves it; either way the question is closed. Other keys do nothing.
    pub fn on_delete_confirm(&mut self, k: KeyEvent)
        requires
            old(self).wf(),
        ensures
            final(self).wf(),
            App::delete_confirm_step(*old(self), k, *final(self)),
    {
        match k.code {
            KeyCode::Char('y') | KeyCode::Enter => {
                if let Some(id) = self.current_account_id() {
                    match self.api.delete_account(id) {
                        Err(e) => {
                            self.status = failure_text("Delete failed: ", e);
                        },
                        Ok(_) => {
                            self.status = "Account deleted.".to_owned();
                            self.refresh_accounts();
                            let len: usize = self.accounts.list.len();
                            if len > 0 {
                                self.accounts.sel = Some(len - 1);
                            } else {
                                self.accounts.sel = None;
                            }
                        },
                    }
                }
                self.accounts.show_delete_confirm = false;
            },
            KeyCode::Char('n') | KeyCode::Esc => {
                self.accounts.show_delete_confirm = false;
                self.status = "Delete cancelled.".to_owned();
            },
            _ => {},
        }
    }

    /// The page of accounts: the arrows move the selection, enter opens the
    /// transactions of the selected account, `n` opens the form for a new
    /// account and `e` the form for the selected one, `d` or delete asks
    /// whether to delete it, `g` shows the dashboard, `r` loads the accounts
    /// again, `?` shows the help. No key on this page changes the ledger.
    pub fn on_accounts(&mut self, k: KeyEvent, now: DateTime)
        requires
            old(self).wf(),
        ensures
            final(self).wf(),
            App::accounts_step(*old(self), k, now, *final(self)),
    {
        match k.code {
            KeyCode::Up => {
                self.move_account(-1);
            },
            KeyCode::Down => {
                self.move_account(1);
            },
            KeyCode::Enter => {
                self.tab = Tab::Transactions;
                self.txn.account_id = self.current_account_id();
                self.refresh_txns();
            },
            KeyCode::Char('n') => {
                self.accounts.creating = true;
                self.accounts.editing_id = None;
                self.accounts.form = AccountForm {
                    name: String::new(),
                    currency: "CAD".to_owned(),
                    opening: "0".to_owned(),
                    kind: AccountType::Cash,
                    error: None,
                    editing: Some(AccField::Name),
                };
            },
            KeyCode::Char('e') => {
                if let Some(i) = self.accounts.sel {
                    if i < self.accounts.list.len() {
                        let acc = &self.accounts.list[i];
                        if acc.opening_balance.is_valid() {
                            let form = AccountForm {
                                name: acc.name.clone(),
                                currency: acc.currency.clone(),
                                opening: acc.opening_balance.format(),
                                kind: acc.kind,
                                error: None,
                                editing: Some(AccField::Name),
                            };
                            let id: i64 = acc.id;
                            self.accounts.creating = true;
                            self.accounts.editing_id = Some(id);
                            self.accounts.form = form;
                        }
                    }
                }
            },
            KeyCode::Char('d') | KeyCode::Delete => {
                if self.accounts.sel.is_some() {
                    self.accounts.show_delete_confirm = true;
                }
            },
            KeyCode::Char('g') => {
                self.tab = Tab::Dashboard;
                self.refresh_dashboard(now);
            },
            KeyCode::Char('r') => {
                self.refresh_accounts();
            },
            KeyCode::Char('?') => {
                self.tab = Tab::Help;
            },
            _ => {},
        }
    }
}

impl AccountForm {
    /// The text of the field that is being edited after a key: a character
    /// is put at its end, backspace takes the last one away, and any other
    /// key leaves the text as it is.
    pub open spec fn retyped(field: Seq<char>, code: KeyCode) -> Seq<char> {
        match code {
            KeyCode::Char(c) => field.push(c),
            KeyCode::Backspace => if field.len() > 0 {
                field.drop_last()
            } else {
                field
            },
            _ => field,
        }
    }

    /// The currency that the form asks for: what was typed, in upper case,
    /// or the default where nothing was typed.
    pub open spec fn currency_asked(self) -> Seq<char> {
        if trimmed(self.currency@).len() == 0 {
            crate::api::default_currency()
        } else {
            uppercased(trimmed(self.currency@))
        }
    }

    /// What is wrong with the form for a new account, if anything.
    pub open spec fn fault(self) -> Option<Seq<char>> {
        if trimmed(self.name@).len() == 0 {
            Some("Name cannot be empty"@)
        } else if Money::parse_spec(trimmed(self.opening@)) is None {
            Some("Invalid opening balance"@)
        } else {
            None
        }
    }

    /// Reads the form for a new account.
    pub fn to_request(&self) -> (r: Result<CreateAccountReq, &'static str>)
        ensures
            r is Err <==> self.fault() is Some,
            r matches Err(text) ==> self.fault() == Some(text@),
            r matches Ok(req) ==> {
                &&& req.name@ == trimmed(self.name@)
                &&& req.kind == self.kind
                &&& req.currency@ == self.currency_asked()
                &&& Some(req.opening_balance) == Money::parse_spec(trimmed(self.opening@))
                &&& req.opening_balance.wf()
            },
    {
        let name = trim(self.name.as_str());
        if name.is_empty() {
            return Err("Name cannot be empty");
        }
        let opening = match Money::parse(trim(self.opening.as_str())) {
            Ok(m) => m,
            Err(_) => {
                return Err("Invalid opening balance");
            },
        };
        let typed = trim(self.currency.as_str());
        Ok(
            CreateAccountReq {
                name: name.to_owned(),
                kind: self.kind,
                currency: if typed.is_empty() {
                    "CAD".to_owned()
                } else {
                    to_uppercase(typed)
                },
                opening_balance: opening,
            },
        )
    }
}

impl App {
    /// A key other than enter in the form for an account: characters and
    /// backspace edit the field that is chosen, the opening balance only for
    /// a new account; tab goes to the next field; the arrows change the kind
    /// while the kind is chosen; escape closes the form.
    pub fn edit_account_form(&mut self, k: KeyEvent)
        requires
            old(self).wf(),
            k.code != KeyCode::Enter,
        ensures
            final(self).wf(),
            App::account_form_frame(*old(self), *final(self)),
            App::account_form_edited(*old(self), k, *final(self)),
    {
        match k.code {
            KeyCode::Char(c) => {
                match self.accounts.form.editing {
                    Some(AccField::Name) => {
                        push_char(&mut self.accounts.form.name, c);
                    },
                    Some(AccField::Currency) => {
                        push_char(&mut self.accounts.form.currency, c);
                    },
                    Some(AccField::Opening) => {
                        if self.accounts.editing_id.is_none() {
                            push_char(&mut self.accounts.form.opening, c);
                        }
                    },
                    _ => {},
                }
            },
            KeyCode::Backspace => {
                match self.accounts.form.editing {
                    Some(AccField::Name) => {
                        pop_char(&mut self.accounts.form.name);
                    },
                    Some(AccField::Currency) => {
                        pop_char(&mut self.accounts.form.currency);
                    },
                    Some(AccField::Opening) => {
                        if self.accounts.editing_id.is_none() {
                            pop_char(&mut self.accounts.form.opening);
                        }
                    },
                    _ => {},
                }
            },
            KeyCode::Tab => {
                let cur = match self.accounts.form.editing {
                    Some(f) => f,
                    None => AccField::Name,
                };
                self.accounts.form.editing = Some(cur.next());
            },
            KeyCode::Up => {
                if let Some(AccField::Type) = self.accounts.form.editing {
                    self.accounts.form.kind = self.accounts.form.kind.cycle(true);
                }
            },
            KeyCode::Down => {
                if let Some(AccField::Type) = self.accounts.form.editing {
                    self.accounts.form.kind = self.accounts.form.kind.cycle(false);
                }
            },
            KeyCode::Esc => {
                self.accounts.creating = false;
                self.accounts.editing_id = None;
                self.accounts.form.error = None;
                self.accounts.form.editing = None;
            },
            _ => {},
        }
        }

    /// Enter in the form for an account: for an account that is being
    /// edited its name, kind and currency are changed; else a new account is
    /// opened. A form with a fault shows the fault instead.
    pub fn send_account_form(&mut self, now: DateTime)
        requires
            old(self).wf(),
        ensures
            final(self).wf(),
            App::account_form_frame(*old(self), *final(self)),
            App::account_form_sent(*old(self), now, *final(self)),
    {
        let name = trim(self.accounts.form.name.as_str());
        if name.is_empty() {
            self.accounts.form.error = Some("Name cannot be empty".to_owned());
            return ;
        }
        if let Some(edit_id) = self.accounts.editing_id {
            let outcome = self.api.update_account(
                edit_id,
                name,
                self.accounts.form.kind.as_str(),
                self.accounts.form.currency.as_str(),
            );
            match outcome {
                Ok(_) => {
                    self.status = "Account updated.".to_owned();
                    self.accounts.creating = false;
                    self.accounts.editing_id = None;
                    self.refresh_accounts();
                },
                Err(e) => {
                    self.accounts.form.error = Some(e.message().to_owned());
                },
            }
        } else {
            let req = match self.accounts.form.to_request() {
                Ok(req) => req,
                Err(text) => {
                    self.accounts.form.error = Some(text.to_owned());
                    return ;
                },
            };
            match self.api.create_account(&req, now) {
                Ok(_) => {
                    self.accounts.creating = false;
                    self.accounts.form.editing = None;
                    self.accounts.form.error = None;
                    self.refresh_accounts();
                    let len: usize = self.accounts.list.len();
                    if len > 0 {
                        self.accounts.sel = Some(len - 1);
                    }
                    self.status = "Account created.".to_owned();
                },
                Err(e) => {
                    self.accounts.form.error = Some(failure_text("Create failed: ", e));
                },
            }
        }
    }

    /// The form for an account. Enter sends it; every other key edits it.
    /// Only enter can change the ledger.
    pub fn on_account_form(&mut self, k: KeyEvent, now: DateTime)
        requires
            old(self).wf(),
        ensures
            final(self).wf(),
            App::account_form_step(*old(self), k, now, *final(self)),
    {
        match k.code {
            KeyCode::Enter => {
                self.send_account_form(now);
            },
            _ => {
                self.edit_account_form(k);
            },
        }
    }
}

/// The place of the first category with an id, if there is one.
pub fn category_position(categories: &Vec<CategoryDto>, id: i64) -> (r: Option<usize>)
    ensures
        match r {
            Some(p) => p < categories@.len() && categories@[p as int].id == id && forall|k: int|
                0 <= k < p ==> (#[trigger] categories@[k]).id != id,
            None => forall|k: int| 0 <= k < categories@.len() ==> (#[trigger] categories@[k]).id != id,
        },
{
    let mut i: usize = 0;
    while i < categories.len()
        invariant
            i <= categories.len(),
            forall|k: int| 0 <= k < i ==> (#[trigger] categories@[k]).id != id,
        decreases categories.len() - i,
    {
        if categories[i].id == id {
            return Some(i);
        }
        i = i + 1;
    }
    None
}

impl App {
    /// Opens the form for a new transaction of the selected account.
    pub fn open_new_txn_form(&mut self, now: DateTime)
        requires
            old(self).wf(),
            now.wf(),
        ensures
            final(self).wf(),
            App::new_txn_form_opened(*old(self), now, *final(self)),
    {
        self.tab = Tab::AddTxn;
        self.add.account_id = self.current_account_id();
        self.add.editing = None;
        self.add.cat_sel = None;
        self.add.just_entered = true;
        self.add.editing_txn_id = None;
        self.add.amount = String::new();
        self.add.memo = String::new();
        self.add.payee = String::new();
        self.add.date = now.date.format();
        self.load_categories();
        self.ensure_cat_selected();
    }

    /// Opens the form with what the selected transaction holds.
    pub fn open_edit_txn_form(&mut self)
        requires
            old(self).wf(),
        ensures
            final(self).wf(),
            App::edit_txn_form_opened(*old(self), *final(self)),
    {
        if let Some(i) = self.txn.tsel {
            if i < self.txn.table.len() {
                if self.txn.table[i].amount.is_valid() && self.txn.table[i].txn_date.is_valid() {
                    self.tab = Tab::AddTxn;
                    self.load_categories();
                    let t = &self.txn.table[i];
                    self.add.account_id = Some(t.account_id);
                    self.add.editing_txn_id = Some(t.id);
                    self.add.date = t.txn_date.format();
                    self.add.memo = match &t.memo {
                        Some(m) => m.clone(),
                        None => String::new(),
                    };
                    self.add.payee = match &t.payee {
                        Some(p) => p.clone(),
                        None => String::new(),
                    };
                    self.add.amount = t.amount.abs().format();
                    self.add.is_expense = t.amount.is_negative();
                    if let Some(cat_id) = t.category_id {
                        if let Some(pos) = category_position(&self.add.categories, cat_id) {
                            self.add.cat_sel = Some(pos);
                        }
                    }
                    self.add.just_entered = false;
                    self.add.editing = None;
                }
            }
        }
    }

    /// Deletes the selected transaction and loads the lists again.
    pub fn delete_selected_txn(&mut self)
        requires
            old(self).wf(),
        ensures
            final(self).wf(),
            App::selected_txn_deleted(*old(self), *final(self)),
    {
        if let Some(id) = self.current_txn_id() {
            match self.api.delete_transaction(id) {
                Err(e) => {
                    self.status = failure_text("Delete failed: ", e);
                },
                Ok(_) => {
                    let old_idx: usize = match self.txn.tsel {
                        Some(i) => i,
                        None => 0,
                    };
                    self.refresh_txns();
                    self.refresh_accounts();
                    let n: usize = self.txn.table.len();
                    if n == 0 {
                        self.txn.tsel = None;
                    } else if old_idx < n {
                        self.txn.tsel = Some(old_idx);
                    } else {
                        self.txn.tsel = Some(n - 1);
                    }
                    self.status = "Deleted.".to_owned();
                },
            }
        }
    }

    /// The page of transactions: the arrows move the selection, `a` opens
    /// the form for a new transaction and `e` the form for the selected one,
    /// `d` or delete deletes the selected transaction, `r` loads the list
    /// again, escape leads back to the accounts, `?` shows the help. Only
    /// deleting changes the ledger.
    pub fn on_transactions(&mut self, k: KeyEvent, now: DateTime)
        requires
            old(self).wf(),
            now.wf(),
        ensures
            final(self).wf(),
            App::transactions_step(*old(self), k, now, *final(self)),
    {
        match k.code {
            KeyCode::Up => {
                self.move_txn(-1);
            },
            KeyCode::Down => {
                self.move_txn(1);
            },
            KeyCode::Char('a') => {
                self.open_new_txn_form(now);
            },
            KeyCode::Char('e') => {
                self.open_edit_txn_form();
            },
            KeyCode::Char('r') => {
                self.refresh_txns();
            },
            KeyCode::Char('d') | KeyCode::Delete => {
                self.delete_selected_txn();
            },
            KeyCode::Esc => {
                self.tab = Tab::Accounts;
            },
            KeyCode::Char('?') => {
                self.tab = Tab::Help;
            },
            _ => {},
        }
    }

    /// The form for a transaction. Control-s sends it and escape leaves it.
    /// Enter starts or ends editing, tab goes to the next field, characters
    /// and backspace edit the field that is chosen; the amount takes only
    /// digits and the point, and `t` there, or while no field is chosen,
    /// turns an expense into income and back. The arrows choose the
    /// category. Only sending the form can change the ledger.
    pub fn on_add_txn(&mut self, k: KeyEvent, now: DateTime)
        requires
            old(self).wf(),
            now.wf(),
        ensures
            final(self).wf(),
            App::add_txn_step(*old(self), k, now, *final(self)),
    {
        if k.control {
            if let KeyCode::Char('s') = k.code {
                self.submit_txn(now);
                return ;
            }
        }
        if let KeyCode::Esc = k.code {
            self.tab = Tab::Transactions;
            self.add.editing = None;
            return ;
        }
        let amount_chosen: bool = match self.add.editing {
            Some(EditField::Amount) => true,
            _ => false,
        };
        match k.code {
            KeyCode::Enter => {
                if self.add.editing.is_some() {
                    self.add.editing = None;
                } else {
                    self.add.editing = Some(EditField::Date);
                }
            },
            KeyCode::Char(c) => {
                if amount_chosen {
                    if c == 't' {
                        self.add.is_expense = !self.add.is_expense;
                    } else if amount_char(c) {
                        push_char(&mut self.add.amount, c);
                    }
                } else {
                    match self.add.editing {
                        Some(EditField::Payee) => {
                            push_char(&mut self.add.payee, c);
                        },
                        Some(EditField::Memo) => {
                            push_char(&mut self.add.memo, c);
                        },
                        Some(EditField::Date) => {
                            push_char(&mut self.add.date, c);
                        },
                        Some(_) => {},
                        None => {
                            if c == 't' {
                                self.add.is_expense = !self.add.is_expense;
                            }
                        },
                    }
                }
            },
            KeyCode::Backspace => {
                match self.add.editing {
                    Some(EditField::Date) => {
                        pop_char(&mut self.add.date);
                    },
                    Some(EditField::Payee) => {
                        pop_char(&mut self.add.payee);
                    },
                    Some(EditField::Memo) => {
                        pop_char(&mut self.add.memo);
                    },
                    Some(EditField::Amount) => {
                        pop_char(&mut self.add.amount);
                    },
                    _ => {},
                }
            },
            KeyCode::Tab => {
                self.add.editing = Some(EditField::next_after(self.add.editing));
            },
            KeyCode::Up => {
                self.move_cat(-1);
            },
            KeyCode::Down => {
                self.move_cat(1);
            },
            _ => {},
        }
    }
}

impl App {
    /// The form for a savings goal. Characters and backspace edit the field
    /// that is chosen, the amounts taking only digits and the point; tab
    /// goes to the next field, escape closes the form, enter sends it. Only
    /// enter can change the ledger.
    pub fn on_goal_form(&mut self, k: KeyEvent)
        requires
            old(self).wf(),
        ensures
            final(self).wf(),
            App::goal_form_step(*old(self), k, *final(self)),
    {
        match k.code {
            KeyCode::Esc => {
                self.dashboard.creating = false;
            },
            KeyCode::Tab => {
                let cur = match self.dashboard.form.editing {
                    Some(f) => f,
                    None => GoalField::Name,
                };
                self.dashboard.form.editing = Some(cur.next());
            },
            KeyCode::Char(c) => {
                match self.dashboard.form.editing {
                    Some(GoalField::Name) => {
                        push_char(&mut self.dashboard.form.name, c);
                    },
                    Some(GoalField::Target) => {
                        if amount_char(c) {
                            push_char(&mut self.dashboard.form.target, c);
                        }
                    },
                    Some(GoalField::Current) => {
                        if amount_char(c) {
                            push_char(&mut self.dashboard.form.current, c);
                        }
                    },
                    Some(GoalField::Deadline) => {
                        push_char(&mut self.dashboard.form.deadline, c);
                    },
                    None => {},
                }
            },
            KeyCode::Backspace => {
                match self.dashboard.form.editing {
                    Some(GoalField::Name) => {
                        pop_char(&mut self.dashboard.form.name);
                    },
                    Some(GoalField::Target) => {
                        pop_char(&mut self.dashboard.form.target);
                    },
                    Some(GoalField::Current) => {
                        pop_char(&mut self.dashboard.form.current);
                    },
                    Some(GoalField::Deadline) => {
                        pop_char(&mut self.dashboard.form.deadline);
                    },
                    None => {},
                }
            },
            KeyCode::Enter => {
                let _ = self.submit_goal();
            },
            _ => {},
        }
    }

    /// The dashboard: the arrows move the selection among the goals, going
    /// round at the ends; `n` opens the form for a new goal and `e` the form
    /// for the selected one; `d` or delete deletes the selected goal; `r`
    /// loads goals and report again; escape leads back to the accounts and
    /// `?` shows the help. Only deleting changes the ledger.
    pub fn on_dashboard(&mut self, k: KeyEvent, now: DateTime)
        requires
            old(self).wf(),
        ensures
            final(self).wf(),
            App::dashboard_step(*old(self), k, now, *final(self)),
    {
        match k.code {
            KeyCode::Esc => {
                self.tab = Tab::Accounts;
            },
            KeyCode::Char('r') => {
                self.refresh_dashboard(now);
            },
            KeyCode::Char('?') => {
                self.tab = Tab::Help;
            },
            KeyCode::Down => {
                let len: usize = self.dashboard.goals.len();
                if len > 0 {
                    self.dashboard.selected_index = wrap_index(
                        self.dashboard.selected_index,
                        1,
                        len,
                    );
                }
            },
            KeyCode::Up => {
                let len: usize = self.dashboard.goals.len();
                if len > 0 {
                    if self.dashboard.selected_index == 0 {
                        self.dashboard.selected_index = len - 1;
                    } else {
                        self.dashboard.selected_index = self.dashboard.selected_index - 1;
                    }
                }
            },
            KeyCode::Char('n') => {
                self.dashboard.creating = true;
                self.dashboard.editing_id = None;
                self.dashboard.form = GoalForm::empty();
                self.dashboard.form.editing = Some(GoalField::Name);
            },
            KeyCode::Char('e') => {
                let at: usize = self.dashboard.selected_index;
                if at < self.dashboard.goals.len() {
                    let goal = &self.dashboard.goals[at];
                    if goal.target_amount.is_valid() && goal.current_amount.is_valid() {
                        let form = GoalForm {
                            name: goal.name.clone(),
                            target: goal.target_amount.format(),
                            current: goal.current_amount.format(),
                            deadline: match &goal.deadline {
                                Some(d) => first_chars(d.as_str(), 10),
                                None => String::new(),
                            },
                            error: None,
                            editing: Some(GoalField::Current),
                        };
                        let id: i64 = goal.id;
                        proof {
                            let due = if goal.deadline is Some {
                                goal.deadline->0@
                            } else {
                                Seq::<char>::empty()
                            };
                            assert(form.deadline@ =~= due.take(
                                if due.len() >= 10 {
                                    10
                                } else {
                                    due.len() as int
                                },
                            ));
                        }
                        self.dashboard.creating = true;
                        self.dashboard.editing_id = Some(id);
                        self.dashboard.form = form;
                    }
                }
            },
            KeyCode::Char('d') | KeyCode::Delete => {
                let at: usize = self.dashboard.selected_index;
                if at < self.dashboard.goals.len() {
                    let id: i64 = self.dashboard.goals[at].id;
                    let _ = self.api.delete_goal(id);
                    self.refresh_dashboard(now);
                    let len: usize = self.dashboard.goals.len();
                    if self.dashboard.selected_index >= len && len > 0 {
                        self.dashboard.selected_index = len - 1;
                    }
                }
            },
            _ => {},
        }
    }

    /// What a key does on the help page.
    pub open spec fn help_step(before: App, k: KeyEvent, after: App) -> bool {
        &&& after == (App {
                    tab: if k.code == KeyCode::Esc {
                        Tab::Accounts
                    } else {
                        before.tab
                    },
                    ..before
                })
    }

    /// What a key does while the question whether to delete an account is open.
    pub open spec fn delete_confirm_step(before: App, k: KeyEvent, after: App) -> bool {
        &&& after.tab == before.tab
        &&& after.quit == before.quit
        &&& after.txn == before.txn
        &&& after.dashboard == before.dashboard
        &&& after.add == before.add
        &&& after.accounts.creating == before.accounts.creating
        &&& after.accounts.form == before.accounts.form
        &&& after.accounts.editing_id == before.accounts.editing_id
        &&& (k.code == KeyCode::Char('n') || k.code == KeyCode::Esc) ==> {
                    &&& after.api == before.api
                    &&& after.accounts.list == before.accounts.list
                    &&& after.accounts.sel == before.accounts.sel
                    &&& !after.accounts.show_delete_confirm
                    &&& after.status@ == "Delete cancelled."@
                }
        &&& !(k.code == KeyCode::Char('n') || k.code == KeyCode::Esc || k.code == KeyCode::Char('y')
                    || k.code == KeyCode::Enter) ==> after == before
        &&& (k.code == KeyCode::Char('y') || k.code == KeyCode::Enter) ==> {
                    &&& !after.accounts.show_delete_confirm
                    &&& match before.current_account_id_spec() {
                        None => {
                            &&& after.api == before.api
                            &&& after.status == before.status
                            &&& after.accounts.list == before.accounts.list
                            &&& after.accounts.sel == before.accounts.sel
                        },
                        Some(id) => if crate::ledger::has_account(before.api.db.accounts@, id) {
                            &&& !crate::ledger::has_account(after.api.db.accounts@, id)
                            &&& after.api.db.transactions@ == crate::queries::rows_without(
                                before.api.db.transactions@,
                                id,
                            )
                            &&& after.api.db.accounts@ == before.api.db.accounts@.remove(
                                crate::ledger::account_index(before.api.db.accounts@, id),
                            )
                            &&& after.api.db.same_but_accounts(
                                crate::ledger::Ledger { transactions: after.api.db.transactions, ..before.api.db },
                            )
                            &&& after.status@ == "Account deleted."@
                            &&& after.accounts_shown()
                            &&& after.accounts.sel == if after.accounts.list@.len() > 0 {
                                Some((after.accounts.list@.len() - 1) as usize)
                            } else {
                                None
                            }
                        } else {
                            &&& after.api.db.same_as(before.api.db)
                            &&& after.status@ == "Delete failed: "@
                                + LedgerError::AccountNotFound.message_spec()
                            &&& after.accounts.list == before.accounts.list
                            &&& after.accounts.sel == before.accounts.sel
                        },
                    }
                }
    }

    /// What a key does on the page of accounts.
    pub open spec fn accounts_step(before: App, k: KeyEvent, now: DateTime, after: App) -> bool {
        &&& after.api == before.api
        &&& after.quit == before.quit
        &&& after.status == before.status
        &&& after.tab == match k.code {
                    KeyCode::Enter => Tab::Transactions,
                    KeyCode::Char(c) => if c == 'g' {
                        Tab::Dashboard
                    } else if c == '?' {
                        Tab::Help
                    } else {
                        before.tab
                    },
                    _ => before.tab,
                }
        &&& k.code == KeyCode::Up ==> after == (App {
                    accounts: AccountsPage { sel: after.accounts.sel, ..before.accounts },
                    ..before
                }) && after.accounts.sel == if before.accounts.list@.len() == 0 {
                    before.accounts.sel
                } else {
                    Some(
                        wrapped(
                            match before.accounts.sel {
                                Some(i) => i as int,
                                None => 0,
                            },
                            -1,
                            before.accounts.list@.len() as int,
                        ) as usize,
                    )
                }
        &&& k.code == KeyCode::Down ==> after == (App {
                    accounts: AccountsPage { sel: after.accounts.sel, ..before.accounts },
                    ..before
                }) && after.accounts.sel == if before.accounts.list@.len() == 0 {
                    before.accounts.sel
                } else {
                    Some(
                        wrapped(
                            match before.accounts.sel {
                                Some(i) => i as int,
                                None => 0,
                            },
                            1,
                            before.accounts.list@.len() as int,
                        ) as usize,
                    )
                }
        &&& k.code == KeyCode::Enter ==> after.txn.account_id == before.current_account_id_spec() && after.accounts == before.accounts
        &&& k.code == KeyCode::Char('n') ==> {
                    &&& after.accounts.creating
                    &&& after.accounts.editing_id is None
                    &&& after.accounts.form.name@.len() == 0
                    &&& after.accounts.form.currency@ == "CAD"@
                    &&& after.accounts.form.opening@ == "0"@
                    &&& after.accounts.form.kind == AccountType::Cash
                    &&& after.accounts.form.error is None
                    &&& after.accounts.form.editing == Some(AccField::Name)
                    &&& after.accounts.list == before.accounts.list
                    &&& after.accounts.sel == before.accounts.sel
                }
        &&& k.code == KeyCode::Char('e') ==> match before.accounts.sel {
                    Some(i) => if i < before.accounts.list@.len() && before.accounts.list@[i as int].opening_balance.wf() {
                        &&& after.accounts.creating
                        &&& after.accounts.editing_id == Some(before.accounts.list@[i as int].id)
                        &&& after.accounts.form.name@ == before.accounts.list@[i as int].name@
                        &&& after.accounts.form.currency@ == before.accounts.list@[i as int].currency@
                        &&& after.accounts.form.opening@ == before.accounts.list@[i as int].opening_balance.text()
                        &&& after.accounts.form.kind == before.accounts.list@[i as int].kind
                        &&& after.accounts.form.error is None
                        &&& after.accounts.form.editing == Some(AccField::Name)
                    } else {
                        after == before
                    },
                    None => after == before,
                }
        &&& (k.code == KeyCode::Char('d') || k.code == KeyCode::Delete) ==> after == (App {
                    accounts: AccountsPage {
                        show_delete_confirm: before.accounts.show_delete_confirm || before.accounts.sel is Some,
                        ..before.accounts
                    },
                    ..before
                })
        &&& k.code == KeyCode::Char('?') ==> after == (App { tab: Tab::Help, ..before })
        &&& match k.code {
                    KeyCode::Up | KeyCode::Down | KeyCode::Enter | KeyCode::Delete => true,
                    KeyCode::Char(c) => c == 'n' || c == 'e' || c == 'd' || c == 'g' || c == 'r' || c
                        == '?' || after == before,
                    _ => after == before,
                }
        &&& (k.code == KeyCode::Char('n') || k.code == KeyCode::Char('e')) ==> after == (App {
            accounts: AccountsPage {
                creating: after.accounts.creating,
                editing_id: after.accounts.editing_id,
                form: after.accounts.form,
                ..before.accounts
            },
            ..before
        })
        &&& k.code == KeyCode::Char('g') ==> App::dashboard_loaded(
            App { tab: Tab::Dashboard, ..before },
            now,
            after,
        )
        &&& k.code == KeyCode::Char('r') ==> App::accounts_loaded(before, after)
        &&& k.code == KeyCode::Enter ==> App::txns_loaded(
            App {
                tab: Tab::Transactions,
                txn: TxnPage { account_id: before.current_account_id_spec(), ..before.txn },
                ..before
            },
            after,
        )
    }

    /// What stays as it is whatever is done in the form for an account.
    pub open spec fn account_form_frame(before: App, after: App) -> bool {
        &&& after.tab == before.tab
        &&& after.quit == before.quit
        &&& after.txn == before.txn
        &&& after.dashboard == before.dashboard
        &&& after.add == before.add
        &&& after.accounts.show_delete_confirm == before.accounts.show_delete_confirm
    }

    /// What a key other than enter does in the form for an account.
    pub open spec fn account_form_edited(before: App, k: KeyEvent, after: App) -> bool {
        &&& after.api == before.api
        &&& after.status == before.status
        &&& after.accounts.list == before.accounts.list
        &&& after.accounts.sel == before.accounts.sel
        &&& after.accounts.form.error == if k.code == KeyCode::Esc {
            None
        } else {
            before.accounts.form.error
        }
        &&& after.accounts.creating == (before.accounts.creating && k.code
            != KeyCode::Esc)
        &&& after.accounts.editing_id == if k.code == KeyCode::Esc {
            None
        } else {
            before.accounts.editing_id
        }
        &&& after.accounts.form.editing == match k.code {
            KeyCode::Esc => None,
            KeyCode::Tab => Some(
                match before.accounts.form.editing {
                    Some(f) => f.next_spec(),
                    None => AccField::Name.next_spec(),
                },
            ),
            _ => before.accounts.form.editing,
        }
        &&& after.accounts.form.kind == if before.accounts.form.editing == Some(
            AccField::Type,
        ) && k.code == KeyCode::Up {
            before.accounts.form.kind.cycled(true)
        } else if before.accounts.form.editing == Some(AccField::Type) && k.code
            == KeyCode::Down {
            before.accounts.form.kind.cycled(false)
        } else {
            before.accounts.form.kind
        }
        &&& after.accounts.form.name@ == if before.accounts.form.editing == Some(
            AccField::Name,
        ) {
            AccountForm::retyped(before.accounts.form.name@, k.code)
        } else {
            before.accounts.form.name@
        }
        &&& after.accounts.form.currency@ == if before.accounts.form.editing
            == Some(AccField::Currency) {
            AccountForm::retyped(before.accounts.form.currency@, k.code)
        } else {
            before.accounts.form.currency@
        }
        &&& after.accounts.form.opening@ == if before.accounts.form.editing
            == Some(AccField::Opening) && before.accounts.editing_id is None {
            AccountForm::retyped(before.accounts.form.opening@, k.code)
        } else {
            before.accounts.form.opening@
        }
    }

    /// The form for an account with nothing changed but the error shown.
    pub open spec fn only_account_error(before: App, after: App) -> bool {
        after == (App {
            api: after.api,
            accounts: AccountsPage {
                form: AccountForm { error: after.accounts.form.error, ..before.accounts.form },
                ..before.accounts
            },
            ..before
        })
    }

    /// What sending the form for an account does. A blank name, and for a
    /// new account an opening balance that is no amount, is shown as a fault
    /// and nothing else changes. Otherwise the ledger is asked exactly once:
    /// to change the account that is being edited, or to open a new one. If
    /// it refuses, the form shows why and the ledger is as it was.
    pub open spec fn account_form_sent(before: App, now: DateTime, after: App) -> bool {
        let name = trimmed(before.accounts.form.name@);
        if name.len() == 0 {
            &&& App::only_account_error(before, after)
            &&& after.api == before.api
            &&& after.accounts.form.error matches Some(t) && t@ == "Name cannot be empty"@
        } else {
            match before.accounts.editing_id {
                Some(id) => if crate::ledger::has_account(before.api.db.accounts@, id) {
                    let at = crate::ledger::account_index(before.api.db.accounts@, id);
                    &&& after.api.db.same_but_accounts(before.api.db)
                    &&& after.status@ == "Account updated."@
                    &&& !after.accounts.creating
                    &&& after.accounts.editing_id is None
                    &&& after.accounts.form == before.accounts.form
                    &&& App::accounts_listed(before, after)
                    &&& after.api.db.accounts@.len() == before.api.db.accounts@.len()
                    &&& forall|i: int|
                        0 <= i < before.api.db.accounts@.len() && i != at ==> (
                        #[trigger] after.api.db.accounts@[i]) == before.api.db.accounts@[i]
                    &&& after.api.db.accounts@[at].account_id == id
                    &&& after.api.db.accounts@[at].account_name@ == name
                    &&& after.api.db.accounts@[at].account_type@ == before.accounts.form.kind.tag()
                    &&& after.api.db.accounts@[at].currency matches Some(c) && c@
                        == before.accounts.form.currency@
                    &&& after.api.db.accounts@[at].balance == before.api.db.accounts@[at].balance
                    &&& after.api.db.accounts@[at].account_created_at
                        == before.api.db.accounts@[at].account_created_at
                } else {
                    &&& App::only_account_error(before, after)
                    &&& after.api.db.same_as(before.api.db)
                    &&& after.accounts.form.error matches Some(t) && t@
                        == LedgerError::AccountNotFound.message_spec()
                },
                None => match before.accounts.form.fault() {
                    Some(text) => {
                        &&& App::only_account_error(before, after)
                        &&& after.api == before.api
                        &&& after.accounts.form.error matches Some(t) && t@ == text
                    },
                    None => match before.api.open_refusal(
                        name,
                        Money::parse_spec(trimmed(before.accounts.form.opening@))->0,
                        now,
                    ) {
                        Some(e) => {
                            &&& App::only_account_error(before, after)
                            &&& after.api.db.same_as(before.api.db)
                            &&& after.accounts.form.error matches Some(t) && t@
                                == "Create failed: "@ + e.message_spec()
                        },
                        None => App::account_opened(before, now, after),
                    },
                },
            }
        }
    }

    /// The list of accounts was loaded again from the ledger; a selection
    /// stays, and where there was none the first account is selected.
    pub open spec fn accounts_listed(before: App, after: App) -> bool {
        &&& after.accounts.list@.len() == after.api.db.accounts@.len()
        &&& forall|i: int|
            0 <= i < after.accounts.list@.len() ==> (#[trigger] after.accounts.list@[i]).shows(
                after.api.db.accounts@[i],
            )
        &&& after.accounts.sel == if before.accounts.sel is None && after.accounts.list@.len()
            > 0 {
            Some(0usize)
        } else {
            before.accounts.sel
        }
    }

    /// What opening an account does to transactions and categories. With
    /// an opening balance of zero, nothing. Else one transaction is booked
    /// for the new account under the category for opening balances, and
    /// that category is made first where the ledger has none.
    pub open spec fn opening_booked(before: App, opening: Money, now: DateTime, after: App) -> bool {
        let was = before.api.db;
        let db = after.api.db;
        if opening.mantissa == 0 {
            &&& db.transactions@ == was.transactions@
            &&& db.categories@ == was.categories@
            &&& db.next_transaction_id == was.next_transaction_id
            &&& db.next_category_id == was.next_category_id
        } else {
            &&& db.transactions@.len() == was.transactions@.len() + 1
            &&& db.transactions@.drop_last() == was.transactions@
            &&& crate::api::is_opening_row(
                db.transactions@.last(),
                was.next_transaction_id,
                was.next_account_id,
                before.api.opening_category_id(),
                opening,
                before.accounts.form.currency_asked(),
                now,
            )
            &&& db.next_transaction_id == was.next_transaction_id + 1
            &&& if crate::api::first_named(was.categories@, crate::api::opening_category_name())
                >= 0 {
                &&& db.categories@ == was.categories@
                &&& db.next_category_id == was.next_category_id
            } else {
                &&& db.categories@.len() == was.categories@.len() + 1
                &&& db.categories@.drop_last() == was.categories@
                &&& crate::api::is_opening_category(db.categories@.last(), was.next_category_id)
                &&& db.next_category_id == was.next_category_id + 1
            }
        }
    }

    /// What holds after the form opened a new account: the account is the
    /// last of the ledger, with the name, kind, currency and opening balance
    /// of the form; the opening balance is booked; the list is loaded again
    /// and the new account is selected in it.
    pub open spec fn account_opened(before: App, now: DateTime, after: App) -> bool {
        let opening = Money::parse_spec(trimmed(before.accounts.form.opening@))->0;
        let made = after.api.db.accounts@.last();
        &&& after.api.db.accounts@.len() == before.api.db.accounts@.len() + 1
        &&& after.api.db.accounts@.drop_last() == before.api.db.accounts@
        &&& made.account_id == before.api.db.next_account_id
        &&& made.account_name@ == trimmed(before.accounts.form.name@)
        &&& made.account_type@ == before.accounts.form.kind.tag()
        &&& made.currency matches Some(c) && c@ == before.accounts.form.currency_asked()
        &&& made.balance == if opening.mantissa == 0 {
            Money::zero_spec()
        } else {
            opening.round_spec(crate::ledger::BALANCE_PLACES)
        }
        &&& made.account_created_at == now
        &&& after.api.db.next_account_id == before.api.db.next_account_id + 1
        &&& App::opening_booked(before, opening, now, after)
        &&& after.api.db.same_side(before.api.db)
        &&& !after.accounts.creating
        &&& after.accounts.editing_id is None
        &&& after.accounts.form == (AccountForm {
            editing: None,
            error: None,
            ..before.accounts.form
        })
        &&& after.status@ == "Account created."@
        &&& after.accounts.list@.len() == after.api.db.accounts@.len()
        &&& forall|i: int|
            0 <= i < after.accounts.list@.len() ==> (#[trigger] after.accounts.list@[i]).shows(
                after.api.db.accounts@[i],
            )
        &&& after.accounts.sel == Some((after.accounts.list@.len() - 1) as usize)
    }

    /// What a key does in the form for an account.
    pub open spec fn account_form_step(before: App, k: KeyEvent, now: DateTime, after: App) -> bool {
        &&& App::account_form_frame(before, after)
        &&& if k.code == KeyCode::Enter {
            App::account_form_sent(before, now, after)
        } else {
            App::account_form_edited(before, k, after)
        }
    }

    /// What `a` does on the page of transactions: the form for a new
    /// transaction of the selected account is opened, empty, dated today,
    /// with the categories loaded and the first of them selected.
    pub open spec fn new_txn_form_opened(before: App, now: DateTime, after: App) -> bool {
        &&& after == (App { tab: Tab::AddTxn, add: after.add, ..before })
        &&& after.add.account_id == before.current_account_id_spec()
        &&& after.add.editing is None
        &&& after.add.editing_txn_id is None
        &&& !after.add.just_entered
        &&& after.add.amount@.len() == 0
        &&& after.add.memo@.len() == 0
        &&& after.add.payee@.len() == 0
        &&& after.add.date@ == now.date.text()
        &&& after.add.error == before.add.error
        &&& after.add.success == before.add.success
        &&& after.categories_shown()
        &&& after.add.cat_sel == if after.add.categories@.len() == 0 {
            None
        } else {
            Some(0usize)
        }
        &&& after.add.is_expense == if after.add.categories@.len() == 0 {
            false
        } else {
            after.add.categories@[0].kind == CategoryType::Expense
        }
    }

    /// Whether a transaction is selected that the form can show.
    pub open spec fn can_edit_txn(self) -> bool {
        &&& self.txn.tsel is Some
        &&& self.txn.tsel->0 < self.txn.table@.len()
        &&& self.txn.table@[self.txn.tsel->0 as int].amount.wf()
        &&& self.txn.table@[self.txn.tsel->0 as int].txn_date.wf()
    }

    /// What `e` does on the page of transactions: the form is opened with
    /// what the selected transaction holds. Without such a transaction
    /// nothing happens.
    pub open spec fn edit_txn_form_opened(before: App, after: App) -> bool {
        if before.can_edit_txn() {
            let t = before.txn.table@[before.txn.tsel->0 as int];
            &&& after == (App { tab: Tab::AddTxn, add: after.add, ..before })
            &&& after.add.account_id == Some(t.account_id)
            &&& after.add.editing_txn_id == Some(t.id)
            &&& after.add.date@ == t.txn_date.text()
            &&& after.add.memo@ == App::text_or_none(t.memo)
            &&& after.add.payee@ == App::text_or_none(t.payee)
            &&& after.add.amount@ == t.amount.abs_spec().text()
            &&& after.add.is_expense == (t.amount.mantissa < 0)
            &&& after.add.editing is None
            &&& !after.add.just_entered
            &&& after.add.error == before.add.error
            &&& after.add.success == before.add.success
            &&& after.categories_shown()
            &&& App::category_chosen(
                after.add.categories@,
                t.category_id,
                before.add.cat_sel,
                after.add.cat_sel,
            )
        } else {
            after == before
        }
    }

    /// What `d` or delete does on the page of transactions: the selected
    /// transaction is deleted and its account settled, and the lists are
    /// loaded again; if the ledger refuses, the status line says why and
    /// nothing else changes. Without a selected transaction nothing happens.
    pub open spec fn selected_txn_deleted(before: App, after: App) -> bool {
        match before.current_txn_id_spec() {
            None => after == before,
            Some(id) => match before.api.db.remove_refusal(id) {
                Some(e) => {
                    &&& after == (App { api: after.api, status: after.status, ..before })
                    &&& after.api.db.same_as(before.api.db)
                    &&& after.status@ == "Delete failed: "@ + e.message_spec()
                },
                None => {
                    &&& after.tab == before.tab
                    &&& after.quit == before.quit
                    &&& after.dashboard == before.dashboard
                    &&& after.api.db.transactions@ == before.api.db.transactions@.remove(
                        crate::ledger::transaction_index(before.api.db.transactions@, id),
                    )
                    &&& crate::ledger::same_but_balances(
                        before.api.db.accounts@,
                        after.api.db.accounts@,
                    )
                    &&& after.api.db.categories@ == before.api.db.categories@
                    &&& after.api.db.same_side(before.api.db)
                    &&& after.status@ == "Deleted."@
                    &&& after.accounts == (AccountsPage {
                        list: after.accounts.list,
                        sel: after.accounts.sel,
                        ..before.accounts
                    })
                    &&& after.accounts_shown()
                    &&& after.accounts.sel == App::kept_selection(
                        before.accounts.sel,
                        after.accounts.list@.len(),
                    )
                    &&& after.txn.account_id == before.txn.account_id
                    &&& match before.current_account_id_spec() {
                        Some(aid) => {
                            &&& after.txns_shown(aid)
                            &&& after.categories_shown()
                            &&& after.add == (AddTxnForm {
                                categories: after.add.categories,
                                ..before.add
                            })
                        },
                        None => after.txn.table == before.txn.table && after.add == before.add,
                    }
                    &&& after.txn.tsel == if after.txn.table@.len() == 0 {
                        None
                    } else if before.txn.tsel->0 < after.txn.table@.len() {
                        before.txn.tsel
                    } else {
                        Some((after.txn.table@.len() - 1) as usize)
                    }
                },
            },
        }
    }

    /// The selection after it was moved by `delta` rows in a list of `rows`
    /// rows, going round at the ends.
    pub open spec fn moved_selection(was: Option<usize>, delta: int, rows: nat) -> Option<usize> {
        if rows == 0 {
            None
        } else {
            Some(
                wrapped(
                    match was {
                        Some(i) => i as int,
                        None => 0,
                    },
                    delta,
                    rows as int,
                ) as usize,
            )
        }
    }

    /// What a key does on the page of transactions.
    pub open spec fn transactions_step(before: App, k: KeyEvent, now: DateTime, after: App) -> bool {
        match k.code {
            KeyCode::Up => after == (App {
                txn: TxnPage {
                    tsel: App::moved_selection(before.txn.tsel, -1, before.txn.table@.len()),
                    ..before.txn
                },
                ..before
            }),
            KeyCode::Down => after == (App {
                txn: TxnPage {
                    tsel: App::moved_selection(before.txn.tsel, 1, before.txn.table@.len()),
                    ..before.txn
                },
                ..before
            }),
            KeyCode::Esc => after == (App { tab: Tab::Accounts, ..before }),
            KeyCode::Delete => App::selected_txn_deleted(before, after),
            KeyCode::Char(c) => if c == 'a' {
                App::new_txn_form_opened(before, now, after)
            } else if c == 'e' {
                App::edit_txn_form_opened(before, after)
            } else if c == 'r' {
                App::txns_loaded(before, after)
            } else if c == 'd' {
                App::selected_txn_deleted(before, after)
            } else if c == '?' {
                after == (App { tab: Tab::Help, ..before })
            } else {
                after == before
            },
            _ => after == before,
        }
    }

    /// What a key does in the form for a transaction.
    pub open spec fn add_txn_step(before: App, k: KeyEvent, now: DateTime, after: App) -> bool {
        &&& after.quit == before.quit
        &&& after.dashboard == before.dashboard
        &&& !(k.control && k.code == KeyCode::Char('s')) ==> {
                    &&& after.api == before.api
                    &&& after.status == before.status
                    &&& after.accounts == before.accounts
                    &&& after.txn == before.txn
                    &&& after.add.account_id == before.add.account_id
                    &&& after.add.categories == before.add.categories
                    &&& after.add.editing_txn_id == before.add.editing_txn_id
                    &&& after.add.error == before.add.error
                    &&& after.add.success == before.add.success
                    &&& after.add.just_entered == before.add.just_entered
                    &&& after.tab == if k.code == KeyCode::Esc {
                        Tab::Transactions
                    } else {
                        before.tab
                    }
                    &&& after.add.editing == match k.code {
                        KeyCode::Esc => None,
                        KeyCode::Enter => if before.add.editing is Some {
                            None
                        } else {
                            Some(EditField::Date)
                        },
                        KeyCode::Tab => Some(EditField::after(before.add.editing)),
                        _ => before.add.editing,
                    }
                    &&& after.add.amount@ == if before.add.editing == Some(EditField::Amount) {
                        match k.code {
                            KeyCode::Char(c) => if c != 't' && is_amount_char(c) {
                                before.add.amount@.push(c)
                            } else {
                                before.add.amount@
                            },
                            KeyCode::Backspace => AccountForm::retyped(before.add.amount@, k.code),
                            _ => before.add.amount@,
                        }
                    } else {
                        before.add.amount@
                    }
                    &&& after.add.date@ == if before.add.editing == Some(EditField::Date) {
                        AccountForm::retyped(before.add.date@, k.code)
                    } else {
                        before.add.date@
                    }
                    &&& after.add.payee@ == if before.add.editing == Some(EditField::Payee) {
                        AccountForm::retyped(before.add.payee@, k.code)
                    } else {
                        before.add.payee@
                    }
                    &&& after.add.memo@ == if before.add.editing == Some(EditField::Memo) {
                        AccountForm::retyped(before.add.memo@, k.code)
                    } else {
                        before.add.memo@
                    }
                    &&& k.code == KeyCode::Char('t') && (before.add.editing is None || before.add.editing == Some(EditField::Amount)) ==> after.add.is_expense == !before.add.is_expense && after.add.cat_sel == before.add.cat_sel
                    &&& (k.code == KeyCode::Up || k.code == KeyCode::Down) ==> {
                        let step: int = if k.code == KeyCode::Up {
                            -1
                        } else {
                            1
                        };
                        if before.add.categories@.len() == 0 {
                            after.add.cat_sel is None && after.add.is_expense == before.add.is_expense
                        } else {
                            let to = wrapped(
                                match before.add.cat_sel {
                                    Some(i) => i as int,
                                    None => 0,
                                },
                                step,
                                before.add.categories@.len() as int,
                            );
                            after.add.cat_sel == Some(to as usize) && after.add.is_expense
                                == (before.add.categories@[to].kind == CategoryType::Expense)
                        }
                    }
                    &&& !(k.code == KeyCode::Up || k.code == KeyCode::Down || k.code == KeyCode::Char(
                        't',
                    )) ==> after.add.is_expense == before.add.is_expense && after.add.cat_sel == before.add.cat_sel
                }
        &&& k.control && k.code == KeyCode::Char('s') ==> App::txn_sent(before, now, after)
    }

    /// What a key does in the form for a savings goal.
    pub open spec fn goal_form_step(before: App, k: KeyEvent, after: App) -> bool {
        &&& after.tab == before.tab
        &&& after.quit == before.quit
        &&& after.accounts == before.accounts
        &&& after.txn == before.txn
        &&& after.add == before.add
        &&& k.code != KeyCode::Enter ==> {
                    &&& after.api == before.api
                    &&& after.status == before.status
                    &&& after.dashboard.goals == before.dashboard.goals
                    &&& after.dashboard.report == before.dashboard.report
                    &&& after.dashboard.loading == before.dashboard.loading
                    &&& after.dashboard.editing_id == before.dashboard.editing_id
                    &&& after.dashboard.selected_index == before.dashboard.selected_index
                    &&& after.dashboard.form.error == before.dashboard.form.error
                    &&& after.dashboard.creating == (before.dashboard.creating && k.code
                        != KeyCode::Esc)
                    &&& after.dashboard.form.editing == if k.code == KeyCode::Tab {
                        Some(
                            match before.dashboard.form.editing {
                                Some(f) => f.next_spec(),
                                None => GoalField::Name.next_spec(),
                            },
                        )
                    } else {
                        before.dashboard.form.editing
                    }
                    &&& after.dashboard.form.name@ == if before.dashboard.form.editing
                        == Some(GoalField::Name) {
                        AccountForm::retyped(before.dashboard.form.name@, k.code)
                    } else {
                        before.dashboard.form.name@
                    }
                    &&& after.dashboard.form.deadline@ == if before.dashboard.form.editing
                        == Some(GoalField::Deadline) {
                        AccountForm::retyped(before.dashboard.form.deadline@, k.code)
                    } else {
                        before.dashboard.form.deadline@
                    }
                    &&& after.dashboard.form.target@ == if before.dashboard.form.editing
                        == Some(GoalField::Target) {
                        match k.code {
                            KeyCode::Char(c) => if is_amount_char(c) {
                                before.dashboard.form.target@.push(c)
                            } else {
                                before.dashboard.form.target@
                            },
                            _ => AccountForm::retyped(before.dashboard.form.target@, k.code),
                        }
                    } else {
                        before.dashboard.form.target@
                    }
                    &&& after.dashboard.form.current@ == if before.dashboard.form.editing
                        == Some(GoalField::Current) {
                        match k.code {
                            KeyCode::Char(c) => if is_amount_char(c) {
                                before.dashboard.form.current@.push(c)
                            } else {
                                before.dashboard.form.current@
                            },
                            _ => AccountForm::retyped(before.dashboard.form.current@, k.code),
                        }
                    } else {
                        before.dashboard.form.current@
                    }
                }
        &&& k.code == KeyCode::Enter ==> App::goal_sent(before, after)
    }

    /// What a key does on the dashboard.
    pub open spec fn dashboard_step(before: App, k: KeyEvent, now: DateTime, after: App) -> bool {
        &&& after.quit == before.quit
        &&& after.status == before.status
        &&& after.accounts == before.accounts
        &&& after.txn == before.txn
        &&& after.add == before.add
        &&& !(k.code == KeyCode::Char('d') || k.code == KeyCode::Delete) ==> after.api == before.api
        &&& after.tab == match k.code {
                    KeyCode::Esc => Tab::Accounts,
                    KeyCode::Char(c) => if c == '?' {
                        Tab::Help
                    } else {
                        before.tab
                    },
                    _ => before.tab,
                }
        &&& (k.code == KeyCode::Esc || k.code == KeyCode::Char('?')) ==> after.dashboard
                    == before.dashboard
        &&& k.code == KeyCode::Down ==> after.dashboard == (DashboardPage {
                    selected_index: if before.dashboard.goals@.len() > 0 {
                        wrapped(
                            before.dashboard.selected_index as int,
                            1,
                            before.dashboard.goals@.len() as int,
                        ) as usize
                    } else {
                        before.dashboard.selected_index
                    },
                    ..before.dashboard
                })
        &&& k.code == KeyCode::Up ==> after.dashboard == (DashboardPage {
                    selected_index: if before.dashboard.goals@.len() == 0 {
                        before.dashboard.selected_index
                    } else if before.dashboard.selected_index == 0 {
                        (before.dashboard.goals@.len() - 1) as usize
                    } else {
                        (before.dashboard.selected_index - 1) as usize
                    },
                    ..before.dashboard
                })
        &&& k.code == KeyCode::Char('n') ==> {
                    &&& after.dashboard.creating
                    &&& after.dashboard.editing_id is None
                    &&& after.dashboard.form.name@.len() == 0
                    &&& after.dashboard.form.target@.len() == 0
                    &&& after.dashboard.form.current@.len() == 0
                    &&& after.dashboard.form.deadline@.len() == 0
                    &&& after.dashboard.form.error is None
                    &&& after.dashboard.form.editing == Some(GoalField::Name)
                    &&& after.dashboard.goals == before.dashboard.goals
                    &&& after.dashboard.selected_index == before.dashboard.selected_index
                }
        &&& k.code == KeyCode::Char('e') ==> if before.dashboard.selected_index < before.dashboard.goals@.len() && before.dashboard.goals@[before.dashboard.selected_index as int].target_amount.wf() && before.dashboard.goals@[before.dashboard.selected_index as int].current_amount.wf() {
                    let goal = before.dashboard.goals@[before.dashboard.selected_index as int];
                    let due = match goal.deadline {
                        Some(d) => d@,
                        None => Seq::<char>::empty(),
                    };
                    &&& after.dashboard.creating
                    &&& after.dashboard.editing_id == Some(goal.id)
                    &&& after.dashboard.form.name@ == goal.name@
                    &&& after.dashboard.form.target@ == goal.target_amount.text()
                    &&& after.dashboard.form.current@ == goal.current_amount.text()
                    &&& after.dashboard.form.deadline@ == due.take(
                        if due.len() >= 10 {
                            10
                        } else {
                            due.len() as int
                        },
                    )
                    &&& after.dashboard.form.error is None
                    &&& after.dashboard.form.editing == Some(GoalField::Current)
                } else {
                    after.dashboard == before.dashboard
                }
        &&& (k.code == KeyCode::Char('d') || k.code == KeyCode::Delete) ==> if before.dashboard.selected_index < before.dashboard.goals@.len() {
                    let id = before.dashboard.goals@[before.dashboard.selected_index as int].id;
                    &&& !crate::planning::has_goal(after.api.db.goals@, id)
                    &&& crate::planning::same_but_goals(after.api.db, before.api.db)
                    &&& after.dashboard.goals@.len() == after.api.db.goals@.len()
                    &&& after.dashboard.selected_index == if before.dashboard.selected_index
                        >= after.dashboard.goals@.len() && after.dashboard.goals@.len()
                        > 0 {
                        (after.dashboard.goals@.len() - 1) as usize
                    } else {
                        before.dashboard.selected_index
                    }
                } else {
                    after == before
                }
        &&& k.code == KeyCode::Char('r') ==> App::dashboard_loaded(before, now, after)
        &&& (k.code == KeyCode::Char('n') || k.code == KeyCode::Char('e')) ==> after.dashboard
            == (DashboardPage {
            creating: after.dashboard.creating,
            editing_id: after.dashboard.editing_id,
            form: after.dashboard.form,
            ..before.dashboard
        })
        &&& match k.code {
            KeyCode::Esc | KeyCode::Up | KeyCode::Down | KeyCode::Delete => true,
            KeyCode::Char(c) => c == 'n' || c == 'e' || c == 'd' || c == 'r' || c == '?' || after
                == before,
            _ => after == before,
        }
        &&& (k.code == KeyCode::Char('d') || k.code == KeyCode::Delete)
            && before.dashboard.selected_index < before.dashboard.goals@.len() ==> {
            let id = before.dashboard.goals@[before.dashboard.selected_index as int].id;
            &&& after.goals_shown()
            &&& after.report_shown(now)
            &&& !after.dashboard.loading
            &&& after.dashboard.creating == before.dashboard.creating
            &&& after.dashboard.editing_id == before.dashboard.editing_id
            &&& after.dashboard.form == before.dashboard.form
            &&& crate::planning::has_goal(before.api.db.goals@, id) ==> after.api.db.goals@
                == before.api.db.goals@.remove(
                crate::planning::goal_index(before.api.db.goals@, id),
            )
            &&& !crate::planning::has_goal(before.api.db.goals@, id) ==> after.api.db.same_as(
                before.api.db,
            )
        }
    }

    /// Whether keys are being typed into a form, so that `q` is a letter and
    /// not the wish to leave.
    pub open spec fn is_typing(self) -> bool {
        (self.tab == Tab::AddTxn && self.add.editing is Some) || (self.tab == Tab::Accounts
            && self.accounts.creating)
    }

    /// Takes one key. Only a key that went down counts. Outside a form `q`
    /// ends the front end; every other key goes to the page that is shown,
    /// and on the page of accounts to the open question or the open form
    /// first.
    pub fn handle_key(&mut self, k: KeyEvent, now: DateTime)
        requires
            old(self).wf(),
            now.wf(),
        ensures
            final(self).wf(),
            k.kind != KeyEventKind::Press ==> *final(self) == *old(self),
            !k.may_change_ledger_spec() ==> final(self).api == old(self).api,
            k.kind == KeyEventKind::Press ==> if !old(self).is_typing() && k.code == KeyCode::Char(
                'q',
            ) {
                *final(self) == (App { quit: true, ..*old(self) })
            } else {
                match old(self).tab {
                    Tab::Accounts => if old(self).accounts.show_delete_confirm {
                        App::delete_confirm_step(*old(self), k, *final(self))
                    } else if old(self).accounts.creating {
                        App::account_form_step(*old(self), k, now, *final(self))
                    } else {
                        App::accounts_step(*old(self), k, now, *final(self))
                    },
                    Tab::Transactions => App::transactions_step(*old(self), k, now, *final(self)),
                    Tab::AddTxn => App::add_txn_step(*old(self), k, now, *final(self)),
                    Tab::Dashboard => if old(self).dashboard.creating {
                        App::goal_form_step(*old(self), k, *final(self))
                    } else {
                        App::dashboard_step(*old(self), k, now, *final(self))
                    },
                    Tab::Help => App::help_step(*old(self), k, *final(self)),
                }
            },
    {
        match k.kind {
            KeyEventKind::Press => {},
            _ => {
                return ;
            },
        }
        let typing: bool = (match self.tab {
            Tab::AddTxn => self.add.editing.is_some(),
            _ => false,
        }) || (match self.tab {
            Tab::Accounts => self.accounts.creating,
            _ => false,
        });
        if !typing {
            if let KeyCode::Char('q') = k.code {
                self.quit = true;
                return ;
            }
        }
        match self.tab {
            Tab::Accounts => {
                if self.accounts.show_delete_confirm {
                    self.on_delete_confirm(k);
                } else if self.accounts.creating {
                    self.on_account_form(k, now);
                } else {
                    self.on_accounts(k, now);
                }
            },
            Tab::Transactions => {
                self.on_transactions(k, now);
            },
            Tab::AddTxn => {
                self.on_add_txn(k, now);
            },
            Tab::Dashboard => {
                if self.dashboard.creating {
                    self.on_goal_form(k);
                } else {
                    self.on_dashboard(k, now);
                }
            },
            Tab::Help => {
                self.on_help(k);
            },
        }
    }
}

} // verus!
