use personal_finance_tracker::api::Client;
use personal_finance_tracker::dates::{Date, DateTime};
use personal_finance_tracker::ledger::Ledger;
use personal_finance_tracker::money::Money;
use personal_finance_tracker::queries::create_category;
use personal_finance_tracker::report::monthly_summary;
use personal_finance_tracker::seed::seed_fixed_categories;
use personal_finance_tracker::state::{AccField, AccountType, EditField, GoalField, Tab};
use personal_finance_tracker::tui::{wrap_index, App, FormError, KeyCode, KeyEvent, KeyEventKind};

fn now() -> DateTime {
    DateTime::new(Date::new(2025, 11, 22).unwrap(), 10, 0, 0).unwrap()
}

fn press(code: KeyCode) -> KeyEvent {
    KeyEvent { code, control: false, kind: KeyEventKind::Press }
}

fn key(app: &mut App, code: KeyCode) {
    app.handle_key(press(code), now());
}

fn type_text(app: &mut App, text: &str) {
    for c in text.chars() {
        key(app, KeyCode::Char(c));
    }
}

fn fresh() -> App {
    let mut db = Ledger::new();
    seed_fixed_categories(&mut db).unwrap();
    let mut app = App::new(Client::new(db), now().date);
    app.refresh_accounts();
    app
}

fn with_cash_account() -> App {
    let mut app = fresh();
    key(&mut app, KeyCode::Char('n'));
    type_text(&mut app, "Cash");
    key(&mut app, KeyCode::Enter);
    app
}

#[test]
fn wrap_index_goes_round() {
    assert_eq!(wrap_index(0, -1, 5), 4);
    assert_eq!(wrap_index(4, 1, 5), 0);
    assert_eq!(wrap_index(2, 1, 5), 3);
    assert_eq!(wrap_index(2, -7, 5), 0);
    assert_eq!(wrap_index(0, -5, 5), 0);
    assert_eq!(wrap_index(9, 0, 4), 1);
}

#[test]
fn q_quits_only_outside_a_form() {
    let mut app = fresh();
    key(&mut app, KeyCode::Char('n'));
    key(&mut app, KeyCode::Char('q'));
    assert!(!app.quit);
    assert_eq!(app.accounts.form.name, "q");
    key(&mut app, KeyCode::Esc);
    assert!(!app.accounts.creating);
    key(&mut app, KeyCode::Char('q'));
    assert!(app.quit);
}

#[test]
fn released_keys_are_ignored() {
    let mut app = fresh();
    app.handle_key(KeyEvent { code: KeyCode::Char('q'), control: false, kind: KeyEventKind::Release }, now());
    assert!(!app.quit);
    app.handle_key(KeyEvent { code: KeyCode::Char('?'), control: false, kind: KeyEventKind::Repeat }, now());
    assert_eq!(app.tab, Tab::Accounts);
}

#[test]
fn account_form_creates_an_account() {
    let mut app = fresh();
    key(&mut app, KeyCode::Char('n'));
    assert_eq!(app.accounts.form.editing, Some(AccField::Name));
    assert_eq!(app.accounts.form.currency, "CAD");
    assert_eq!(app.accounts.form.opening, "0");
    type_text(&mut app, "Walet");
    key(&mut app, KeyCode::Backspace);
    key(&mut app, KeyCode::Backspace);
    type_text(&mut app, "let");
    key(&mut app, KeyCode::Tab);
    assert_eq!(app.accounts.form.editing, Some(AccField::Type));
    key(&mut app, KeyCode::Up);
    assert_eq!(app.accounts.form.kind, AccountType::Checking);
    key(&mut app, KeyCode::Down);
    key(&mut app, KeyCode::Down);
    assert_eq!(app.accounts.form.kind, AccountType::Other);
    key(&mut app, KeyCode::Tab);
    key(&mut app, KeyCode::Backspace);
    key(&mut app, KeyCode::Backspace);
    key(&mut app, KeyCode::Backspace);
    type_text(&mut app, "usd");
    key(&mut app, KeyCode::Tab);
    assert_eq!(app.accounts.form.editing, Some(AccField::Opening));
    key(&mut app, KeyCode::Backspace);
    type_text(&mut app, "12.50");
    key(&mut app, KeyCode::Enter);
    assert!(!app.accounts.creating);
    assert_eq!(app.status, "Account created.");
    assert_eq!(app.accounts.list.len(), 1);
    assert_eq!(app.accounts.list[0].name, "Wallet");
    assert_eq!(app.accounts.list[0].currency, "USD");
    assert_eq!(app.accounts.list[0].kind, AccountType::Other);
    assert_eq!(app.accounts.list[0].opening_balance.format(), "12.50");
    assert_eq!(app.accounts.sel, Some(0));
    assert_eq!(app.api.db.transactions.len(), 1);
}

#[test]
fn account_form_shows_its_faults() {
    let mut app = fresh();
    key(&mut app, KeyCode::Char('n'));
    key(&mut app, KeyCode::Enter);
    assert_eq!(app.accounts.form.error.as_deref(), Some("Name cannot be empty"));
    type_text(&mut app, "A");
    key(&mut app, KeyCode::Tab);
    key(&mut app, KeyCode::Tab);
    key(&mut app, KeyCode::Tab);
    type_text(&mut app, "x");
    key(&mut app, KeyCode::Enter);
    assert_eq!(app.accounts.form.error.as_deref(), Some("Invalid opening balance"));
    assert!(app.accounts.creating);
    assert!(app.api.db.accounts.is_empty());
}

#[test]
fn editing_an_account_keeps_its_balance() {
    let mut app = with_cash_account();
    key(&mut app, KeyCode::Char('e'));
    assert_eq!(app.accounts.editing_id, Some(1));
    assert_eq!(app.accounts.form.name, "Cash");
    type_text(&mut app, "box");
    key(&mut app, KeyCode::Tab);
    key(&mut app, KeyCode::Tab);
    key(&mut app, KeyCode::Tab);
    type_text(&mut app, "99");
    assert_eq!(app.accounts.form.opening, "0");
    key(&mut app, KeyCode::Enter);
    assert_eq!(app.status, "Account updated.");
    assert_eq!(app.accounts.list[0].name, "Cashbox");
    assert!(app.accounts.list[0].opening_balance.is_zero());
    assert_eq!(app.api.db.accounts[0].account_type, "CASH");
}

#[test]
fn deleting_an_account_asks_first() {
    let mut app = with_cash_account();
    key(&mut app, KeyCode::Char('d'));
    assert!(app.accounts.show_delete_confirm);
    key(&mut app, KeyCode::Char('n'));
    assert!(!app.accounts.show_delete_confirm);
    assert_eq!(app.status, "Delete cancelled.");
    assert_eq!(app.api.db.accounts.len(), 1);
    key(&mut app, KeyCode::Delete);
    key(&mut app, KeyCode::Char('x'));
    assert!(app.accounts.show_delete_confirm);
    key(&mut app, KeyCode::Char('y'));
    assert_eq!(app.status, "Account deleted.");
    assert!(app.api.db.accounts.is_empty());
    assert_eq!(app.accounts.sel, None);
}

#[test]
fn transaction_form_records_an_expense() {
    let mut app = with_cash_account();
    key(&mut app, KeyCode::Enter);
    assert_eq!(app.tab, Tab::Transactions);
    assert_eq!(app.txn.account_id, Some(1));
    key(&mut app, KeyCode::Char('a'));
    assert_eq!(app.tab, Tab::AddTxn);
    assert_eq!(app.add.date, "2025-11-22");
    assert_eq!(app.add.categories.len(), 12);
    assert_eq!(app.add.cat_sel, Some(0));
    assert_eq!(app.add.categories[0].name, "Bonus");
    assert!(!app.add.is_expense);
    key(&mut app, KeyCode::Down);
    key(&mut app, KeyCode::Down);
    key(&mut app, KeyCode::Down);
    assert_eq!(app.add.categories[3].name, "Food");
    assert!(app.add.is_expense);
    key(&mut app, KeyCode::Enter);
    assert_eq!(app.add.editing, Some(EditField::Date));
    key(&mut app, KeyCode::Backspace);
    type_text(&mut app, "1");
    key(&mut app, KeyCode::Tab);
    type_text(&mut app, "Shop");
    key(&mut app, KeyCode::Tab);
    type_text(&mut app, " apples ");
    key(&mut app, KeyCode::Tab);
    assert_eq!(app.add.editing, Some(EditField::Amount));
    type_text(&mut app, "4x5.4-5");
    assert_eq!(app.add.amount, "45.45");
    key(&mut app, KeyCode::Char('t'));
    key(&mut app, KeyCode::Char('t'));
    assert!(app.add.is_expense);
    app.handle_key(KeyEvent { code: KeyCode::Char('s'), control: true, kind: KeyEventKind::Press }, now());
    assert_eq!(app.tab, Tab::Transactions);
    assert_eq!(app.status, "Transaction saved.");
    assert_eq!(app.add.success.as_deref(), Some("Saved!"));
    assert_eq!(app.txn.table.len(), 1);
    assert_eq!(app.txn.table[0].amount.format(), "-45.45");
    assert_eq!(app.txn.table[0].txn_date, Date::new(2025, 11, 21).unwrap());
    assert_eq!(app.txn.table[0].memo.as_deref(), Some("apples"));
    assert_eq!(app.txn.table[0].payee.as_deref(), Some("Shop"));
    assert_eq!(app.accounts.list[0].opening_balance.format(), "-45.45");
    key(&mut app, KeyCode::Char('d'));
    assert_eq!(app.status, "Deleted.");
    assert!(app.txn.table.is_empty());
    assert_eq!(app.txn.tsel, None);
    assert!(app.accounts.list[0].opening_balance.is_zero());
}

#[test]
fn transaction_form_shows_its_faults() {
    let mut app = with_cash_account();
    key(&mut app, KeyCode::Enter);
    key(&mut app, KeyCode::Char('a'));
    assert_eq!(app.add.to_request("CAD", now().date).unwrap_err(), FormError::EmptyAmount);
    app.add.amount = "1..2".to_string();
    assert_eq!(app.add.to_request("CAD", now().date).unwrap_err(), FormError::InvalidAmount);
    app.add.amount = "12".to_string();
    app.add.date = "22.11.2025".to_string();
    assert_eq!(app.add.to_request("CAD", now().date).unwrap_err(), FormError::BadDate);
    app.add.date = " ".to_string();
    app.add.cat_sel = None;
    assert_eq!(app.add.to_request("CAD", now().date).unwrap_err(), FormError::NoCategory);
    app.add.cat_sel = Some(0);
    let req = app.add.to_request("EUR", now().date).unwrap();
    assert_eq!(req.transacted_at, now().date.at_midnight());
    assert_eq!(req.currency, "EUR");
    assert_eq!(req.amount, Money::parse("12").unwrap());
    assert_eq!(req.description, None);
    app.add.account_id = None;
    assert_eq!(app.add.to_request("CAD", now().date).unwrap_err(), FormError::NoAccount);
    app.submit_txn(now());
    assert_eq!(app.add.error.as_deref(), Some("Please choose account"));
    assert_eq!(app.tab, Tab::AddTxn);
}

#[test]
fn editing_a_transaction_changes_it_in_place() {
    let mut app = with_cash_account();
    key(&mut app, KeyCode::Enter);
    key(&mut app, KeyCode::Char('a'));
    key(&mut app, KeyCode::Tab);
    key(&mut app, KeyCode::Tab);
    key(&mut app, KeyCode::Tab);
    key(&mut app, KeyCode::Tab);
    type_text(&mut app, "10");
    app.handle_key(KeyEvent { code: KeyCode::Char('s'), control: true, kind: KeyEventKind::Press }, now());
    assert_eq!(app.txn.table.len(), 1);
    key(&mut app, KeyCode::Char('e'));
    assert_eq!(app.tab, Tab::AddTxn);
    assert_eq!(app.add.editing_txn_id, Some(1));
    assert_eq!(app.add.amount, "10");
    app.add.amount = "25.5".to_string();
    app.add.is_expense = true;
    app.handle_key(KeyEvent { code: KeyCode::Char('s'), control: true, kind: KeyEventKind::Press }, now());
    assert_eq!(app.api.db.transactions.len(), 1);
    assert_eq!(app.txn.table[0].id, 1);
    assert_eq!(app.txn.table[0].amount.format(), "-25.5");
    assert_eq!(app.accounts.list[0].opening_balance.format(), "-25.5");
    key(&mut app, KeyCode::Esc);
    assert_eq!(app.tab, Tab::Accounts);
}

#[test]
fn goals_are_kept_on_the_dashboard() {
    let mut app = with_cash_account();
    key(&mut app, KeyCode::Char('g'));
    assert_eq!(app.tab, Tab::Dashboard);
    key(&mut app, KeyCode::Char('n'));
    assert_eq!(app.dashboard.form.editing, Some(GoalField::Name));
    key(&mut app, KeyCode::Enter);
    assert_eq!(app.dashboard.form.error.as_deref(), Some("Name cannot be empty"));
    type_text(&mut app, "Bike");
    key(&mut app, KeyCode::Tab);
    type_text(&mut app, "9a00");
    key(&mut app, KeyCode::Tab);
    type_text(&mut app, "50");
    key(&mut app, KeyCode::Tab);
    type_text(&mut app, "2026-06-01");
    key(&mut app, KeyCode::Enter);
    assert!(!app.dashboard.creating);
    assert_eq!(app.status, "Goal saved.");
    assert_eq!(app.dashboard.goals.len(), 1);
    assert_eq!(app.dashboard.goals[0].target_amount.format(), "900");
    assert_eq!(app.dashboard.goals[0].deadline.as_deref(), Some("2026-06-01 00:00:00"));
    key(&mut app, KeyCode::Char('e'));
    assert_eq!(app.dashboard.form.deadline, "2026-06-01");
    assert_eq!(app.dashboard.form.editing, Some(GoalField::Current));
    key(&mut app, KeyCode::Backspace);
    key(&mut app, KeyCode::Backspace);
    type_text(&mut app, "75");
    key(&mut app, KeyCode::Enter);
    assert_eq!(app.dashboard.goals[0].current_amount.format(), "75");
    assert_eq!(app.api.db.goals.len(), 1);
    key(&mut app, KeyCode::Down);
    assert_eq!(app.dashboard.selected_index, 0);
    key(&mut app, KeyCode::Char('d'));
    assert!(app.dashboard.goals.is_empty());
    key(&mut app, KeyCode::Char('?'));
    assert_eq!(app.tab, Tab::Help);
    key(&mut app, KeyCode::Char('x'));
    assert_eq!(app.tab, Tab::Help);
    key(&mut app, KeyCode::Esc);
    assert_eq!(app.tab, Tab::Accounts);
}

#[test]
fn a_loaded_ledger_is_checked_before_use() {
    let mut app = with_cash_account();
    assert!(app.api.db.is_consistent());
    let food = create_category(&mut app.api.db, "Snacks", "Expense", "").unwrap();
    assert!(app.api.db.is_consistent());
    app.api.db.accounts[0].balance = Money::parse("1.00").unwrap();
    assert!(!app.api.db.is_consistent());
    app.api.db.accounts[0].balance = Money::zero();
    assert!(app.api.db.is_consistent());
    app.api.db.next_category_id = food;
    assert!(!app.api.db.is_consistent());
    app.api.db.next_category_id = food + 1;
    app.api.db.accounts[0].account_id = 0;
    assert!(!app.api.db.is_consistent());
}

#[test]
fn summary_adds_base_amounts_by_category() {
    let mut app = with_cash_account();
    let at = |day: u32| DateTime::new(Date::new(2025, 11, day).unwrap(), 0, 0, 0).unwrap();
    let mut add = |cat: i64, text: &str, made: DateTime| {
        personal_finance_tracker::queries::create_transaction(
            &mut app.api.db,
            1,
            cat,
            Money::parse(text).unwrap(),
            Money::parse(text).unwrap(),
            "CAD".to_string(),
            true,
            None,
            at(1),
            made,
        )
        .unwrap();
    };
    add(4, "1.50", at(2));
    add(5, "2", at(3));
    add(4, "0.25", at(4));
    add(4, "100", at(20));
    let rows = monthly_summary(&app.api.db, &at(1), &at(10)).unwrap();
    assert_eq!(rows, vec![(4, Money::parse("1.75").unwrap()), (5, Money::parse("2").unwrap())]);
}

fn control_s(app: &mut App) {
    app.handle_key(
        KeyEvent { code: KeyCode::Char('s'), control: true, kind: KeyEventKind::Press },
        now(),
    );
}

#[test]
fn a_form_in_order_sends_one_new_transaction() {
    let mut app = with_cash_account();
    key(&mut app, KeyCode::Enter);
    key(&mut app, KeyCode::Char('a'));
    app.add.amount = "45.45".to_string();
    app.add.is_expense = true;
    app.add.date = "2025-11-22".to_string();
    app.add.memo = "  ".to_string();
    app.add.payee = "Metro".to_string();
    app.add.cat_sel = Some(3);
    let category = app.add.categories[3].id;
    control_s(&mut app);
    assert_eq!(app.add.error, None);
    assert_eq!(app.api.db.transactions.len(), 1);
    let row = &app.api.db.transactions[0];
    assert_eq!(row.account_id, 1);
    assert_eq!(row.category_id, category);
    assert_eq!(row.amount, Money::parse("45.45").unwrap());
    assert_eq!(row.base_amount, Money::parse("45.45").unwrap());
    assert!(row.is_expense);
    assert_eq!(row.description, None);
    assert_eq!(row.payee.as_deref(), Some("Metro"));
    assert_eq!(row.currency, "CAD");
    assert_eq!(row.transacted_at, Date::new(2025, 11, 22).unwrap().at_midnight());
    assert_eq!(row.trans_create_at, now());
    assert_eq!(app.txn.table[0].amount.format(), "-45.45");
}

#[test]
fn a_refusal_of_the_ledger_is_shown_in_the_form() {
    let mut app = with_cash_account();
    key(&mut app, KeyCode::Enter);
    key(&mut app, KeyCode::Char('a'));
    app.add.amount = "1".to_string();
    app.api.db.next_transaction_id = i64::MAX;
    control_s(&mut app);
    assert_eq!(app.add.error.as_deref(), Some("Error: no ids are left"));
    assert_eq!(app.tab, Tab::AddTxn);
    assert_eq!(app.add.amount, "1");
    assert!(app.api.db.transactions.is_empty());
    app.api.db.next_transaction_id = 1;
    app.add.editing_txn_id = Some(77);
    control_s(&mut app);
    assert_eq!(app.add.error.as_deref(), Some("Error: no such transaction"));
    assert_eq!(app.add.editing_txn_id, Some(77));
}

#[test]
fn enter_on_a_blank_name_changes_nothing_but_the_error() {
    let mut app = with_cash_account();
    let status = app.status.clone();
    key(&mut app, KeyCode::Char('n'));
    type_text(&mut app, "   ");
    key(&mut app, KeyCode::Enter);
    assert_eq!(app.accounts.form.error.as_deref(), Some("Name cannot be empty"));
    assert!(app.accounts.creating);
    assert_eq!(app.accounts.form.name, "   ");
    assert_eq!(app.accounts.form.opening, "0");
    assert_eq!(app.accounts.form.editing, Some(AccField::Name));
    assert_eq!(app.accounts.list.len(), 1);
    assert_eq!(app.accounts.sel, Some(0));
    assert_eq!(app.status, status);
    assert_eq!(app.api.db.accounts.len(), 1);
}

#[test]
fn a_refused_account_is_shown_in_the_form() {
    let mut app = fresh();
    key(&mut app, KeyCode::Char('n'));
    type_text(&mut app, "Cash");
    app.api.db.next_account_id = i64::MAX;
    key(&mut app, KeyCode::Enter);
    assert_eq!(app.accounts.form.error.as_deref(), Some("Create failed: no ids are left"));
    assert!(app.accounts.creating);
    assert!(app.api.db.accounts.is_empty());
    assert!(app.accounts.list.is_empty());
}

#[test]
fn a_refused_goal_is_an_error_and_changes_nothing() {
    let mut app = with_cash_account();
    key(&mut app, KeyCode::Char('g'));
    key(&mut app, KeyCode::Char('n'));
    type_text(&mut app, "Bike");
    app.api.db.next_goal_id = i64::MAX;
    assert_eq!(app.submit_goal(), Err(personal_finance_tracker::error::LedgerError::IdsExhausted));
    assert!(app.dashboard.creating);
    assert!(app.api.db.goals.is_empty());
    app.api.db.next_goal_id = 1;
    app.dashboard.editing_id = Some(5);
    assert_eq!(app.submit_goal(), Err(personal_finance_tracker::error::LedgerError::GoalNotFound));
    app.dashboard.editing_id = None;
    assert_eq!(app.submit_goal(), Ok(()));
    assert_eq!(app.api.db.goals.len(), 1);
    assert_eq!(app.api.db.goals[0].goal_name, "Bike");
    assert_eq!(app.api.db.goals[0].account_id, 1);
    app.dashboard.form.name = " ".to_string();
    assert_eq!(app.submit_goal(), Ok(()));
    assert_eq!(app.dashboard.form.error.as_deref(), Some("Name cannot be empty"));
    assert_eq!(app.api.db.goals.len(), 1);
}

#[test]
fn only_five_keys_can_change_the_ledger() {
    assert!(press(KeyCode::Enter).may_change_ledger());
    assert!(press(KeyCode::Delete).may_change_ledger());
    assert!(press(KeyCode::Char('y')).may_change_ledger());
    assert!(press(KeyCode::Char('d')).may_change_ledger());
    assert!(press(KeyCode::Char('s')).may_change_ledger());
    assert!(!press(KeyCode::Char('n')).may_change_ledger());
    assert!(!press(KeyCode::Esc).may_change_ledger());
    assert!(!press(KeyCode::Up).may_change_ledger());
}

#[test]
fn the_form_books_the_opening_balance() {
    let mut app = fresh();
    let categories = app.api.db.categories.len();
    key(&mut app, KeyCode::Char('n'));
    type_text(&mut app, "Wallet");
    key(&mut app, KeyCode::Tab);
    key(&mut app, KeyCode::Tab);
    key(&mut app, KeyCode::Tab);
    key(&mut app, KeyCode::Backspace);
    type_text(&mut app, "12.50");
    key(&mut app, KeyCode::Enter);
    assert_eq!(app.api.db.accounts.len(), 1);
    assert_eq!(app.api.db.accounts[0].account_id, 1);
    assert_eq!(app.api.db.accounts[0].balance.format(), "12.50");
    assert_eq!(app.api.db.accounts[0].account_created_at, now());
    assert_eq!(app.api.db.next_account_id, 2);
    assert_eq!(app.api.db.transactions.len(), 1);
    let row = &app.api.db.transactions[0];
    assert_eq!(row.account_id, 1);
    assert_eq!(row.amount.format(), "12.50");
    assert!(!row.is_expense);
    assert_eq!(app.api.db.categories.len(), categories + 1);
    let made = app.api.db.categories.last().unwrap();
    assert_eq!(made.category_name, "Initial Balance");
    assert_eq!(row.category_id, made.category_id);

    key(&mut app, KeyCode::Char('n'));
    type_text(&mut app, "Bank");
    key(&mut app, KeyCode::Tab);
    key(&mut app, KeyCode::Tab);
    key(&mut app, KeyCode::Tab);
    key(&mut app, KeyCode::Backspace);
    type_text(&mut app, "3");
    key(&mut app, KeyCode::Enter);
    assert_eq!(app.api.db.accounts.len(), 2);
    assert_eq!(app.api.db.transactions.len(), 2);
    assert_eq!(app.api.db.categories.len(), categories + 1);
    assert_eq!(app.api.db.transactions[1].category_id, made_id(&app));
    assert_eq!(app.accounts.sel, Some(1));

    key(&mut app, KeyCode::Char('n'));
    type_text(&mut app, "Jar");
    key(&mut app, KeyCode::Enter);
    assert_eq!(app.api.db.accounts.len(), 3);
    assert_eq!(app.api.db.accounts[2].balance.format(), "0");
    assert_eq!(app.api.db.transactions.len(), 2);
}

fn made_id(app: &App) -> i64 {
    app.api.db.categories.iter().find(|c| c.category_name == "Initial Balance").unwrap().category_id
}

#[test]
fn closing_the_form_empties_it_and_loads_the_lists() {
    let mut app = with_cash_account();
    app.add.amount = "5".to_string();
    app.add.memo = "m".to_string();
    app.add.payee = "p".to_string();
    app.add.editing_txn_id = Some(3);
    app.add.error = Some("x".to_string());
    app.tab = Tab::AddTxn;
    let ledger_rows = app.api.db.transactions.len();
    app.close_txn_form();
    assert_eq!(app.tab, Tab::Transactions);
    assert_eq!(app.status, "Transaction saved.");
    assert_eq!(app.add.success.as_deref(), Some("Saved!"));
    assert_eq!(app.add.error, None);
    assert_eq!(app.add.amount, "");
    assert_eq!(app.add.memo, "");
    assert_eq!(app.add.payee, "");
    assert_eq!(app.add.editing_txn_id, None);
    assert_eq!(app.add.categories.len(), app.api.db.categories.len());
    assert_eq!(app.accounts.list.len(), 1);
    assert_eq!(app.api.db.transactions.len(), ledger_rows);
}

#[test]
fn the_page_of_transactions_opens_and_fills_the_form() {
    let mut app = with_cash_account();
    key(&mut app, KeyCode::Enter);
    app.open_edit_txn_form();
    assert_eq!(app.tab, Tab::Transactions);
    app.open_new_txn_form(now());
    assert_eq!(app.tab, Tab::AddTxn);
    assert_eq!(app.add.account_id, Some(1));
    assert_eq!(app.add.date, "2025-11-22");
    assert_eq!(app.add.amount, "");
    assert_eq!(app.add.cat_sel, Some(0));
    assert!(!app.add.just_entered);
    key(&mut app, KeyCode::Enter);
    key(&mut app, KeyCode::Tab);
    key(&mut app, KeyCode::Tab);
    key(&mut app, KeyCode::Tab);
    assert_eq!(app.add.editing, Some(EditField::Amount));
    type_text(&mut app, "7.25");
    control_s(&mut app);
    assert_eq!(app.tab, Tab::Transactions);
    assert_eq!(app.txn.table.len(), 1);
    app.open_edit_txn_form();
    assert_eq!(app.tab, Tab::AddTxn);
    assert_eq!(app.add.editing_txn_id, Some(app.txn.table[0].id));
    assert_eq!(app.add.amount, "7.25");
    assert_eq!(app.add.date, "2025-11-22");
    app.tab = Tab::Transactions;
    app.delete_selected_txn();
    assert_eq!(app.status, "Deleted.");
    assert!(app.api.db.transactions.is_empty());
    assert!(app.txn.table.is_empty());
    assert_eq!(app.txn.tsel, None);
    app.delete_selected_txn();
    assert_eq!(app.status, "Deleted.");
}

#[test]
fn other_keys_leave_the_dashboard_alone() {
    let mut app = with_cash_account();
    key(&mut app, KeyCode::Char('g'));
    assert_eq!(app.tab, Tab::Dashboard);
    let status = app.status.clone();
    key(&mut app, KeyCode::Char('x'));
    key(&mut app, KeyCode::Tab);
    key(&mut app, KeyCode::Backspace);
    assert_eq!(app.tab, Tab::Dashboard);
    assert!(!app.dashboard.creating);
    assert_eq!(app.dashboard.editing_id, None);
    assert_eq!(app.dashboard.selected_index, 0);
    assert_eq!(app.status, status);
    assert!(app.api.db.goals.is_empty());
}
