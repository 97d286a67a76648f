use personal_finance_tracker::api::{map_account_type, Client};
use personal_finance_tracker::dates::{Date, DateTime};
use personal_finance_tracker::error::{ErrorKind, LedgerError};
use personal_finance_tracker::ledger::Ledger;
use personal_finance_tracker::money::Money;
use personal_finance_tracker::audit::next_id;
use personal_finance_tracker::queries::{
    create_account, create_category, create_transaction, get_account_by_id, get_all_accounts,
    get_all_categories, get_rate, get_transactions_by_account, insert_rate,
};
use personal_finance_tracker::state::{AccountType, CategoryType, CreateAccountReq, CreateTxnReq};
use personal_finance_tracker::util::{read_amount, read_timestamp};

fn money(text: &str) -> Money {
    Money::parse(text).unwrap()
}

fn day(year: i32, month: u32, day: u32) -> DateTime {
    Date::new(year, month, day).unwrap().at_midnight()
}

fn now() -> DateTime {
    DateTime::new(Date::new(2025, 11, 23).unwrap(), 9, 30, 0).unwrap()
}

fn open_account(client: &mut Client, name: &str, opening: &str) -> i64 {
    let req = CreateAccountReq {
        name: name.to_string(),
        kind: AccountType::Cash,
        currency: "CAD".to_string(),
        opening_balance: money(opening),
    };
    client.create_account(&req, now()).unwrap().id
}

fn request(account_id: i64, category_id: i64, amount: &str, is_expense: bool, at: DateTime) -> CreateTxnReq {
    CreateTxnReq {
        account_id,
        category_id,
        amount: money(amount),
        base_amount: money(amount),
        is_expense,
        description: None,
        payee: None,
        currency: "CAD".to_string(),
        transacted_at: at,
    }
}

fn balance_of(client: &Client, account_id: i64) -> Money {
    get_account_by_id(&client.db, account_id).unwrap().balance
}

#[test]
fn expense_lowers_balance_and_delete_restores_it() {
    let mut client = Client::new(Ledger::new());
    let grocery = create_category(&mut client.db, "Grocery", "Expense", "").unwrap();
    let cash = open_account(&mut client, "Cash", "0.00");
    assert!(balance_of(&client, cash).equals(&money("0.00")));
    let txn = client
        .create_transaction(&request(cash, grocery, "-45.45", true, day(2025, 11, 22)), now())
        .unwrap();
    assert_eq!(txn.amount.format(), "-45.45");
    assert_eq!(balance_of(&client, cash).format(), "-45.45");
    client.delete_transaction(txn.id).unwrap();
    assert!(balance_of(&client, cash).equals(&money("0.00")));
    assert!(client.db.transactions.is_empty());
}

#[test]
fn opening_balance_books_one_initial_transaction() {
    let mut client = Client::new(Ledger::new());
    let id = open_account(&mut client, "Savings", "500.00");
    assert_eq!(client.db.transactions.len(), 1);
    let row = &client.db.transactions[0];
    assert_eq!(row.account_id, id);
    assert_eq!(row.amount, money("500.00"));
    assert!(!row.is_expense);
    assert_eq!(row.description.as_deref(), Some("Opening Balance"));
    let categories = get_all_categories(&client.db);
    assert_eq!(categories.len(), 1);
    assert_eq!(categories[0].category_name, "Initial Balance");
    assert_eq!(categories[0].category_type, "INCOME");
    assert_eq!(row.category_id, categories[0].category_id);
    assert_eq!(balance_of(&client, id).format(), "500.00");
}

#[test]
fn second_opening_balance_reuses_the_category() {
    let mut client = Client::new(Ledger::new());
    open_account(&mut client, "A", "10");
    open_account(&mut client, "B", "-2.5");
    assert_eq!(client.db.categories.len(), 1);
    assert_eq!(client.db.transactions.len(), 2);
    let second = &client.db.transactions[1];
    assert!(second.is_expense);
    assert_eq!(second.amount, money("2.5"));
    assert_eq!(balance_of(&client, 2).format(), "-2.5");
}

#[test]
fn balance_is_the_same_in_either_order() {
    let mut first = Client::new(Ledger::new());
    let c1 = create_category(&mut first.db, "Misc", "Expense", "").unwrap();
    let a1 = open_account(&mut first, "Cash", "0");
    first.create_transaction(&request(a1, c1, "100.00", false, day(2025, 1, 1)), now()).unwrap();
    first.create_transaction(&request(a1, c1, "30.00", true, day(2025, 1, 2)), now()).unwrap();

    let mut second = Client::new(Ledger::new());
    let c2 = create_category(&mut second.db, "Misc", "Expense", "").unwrap();
    let a2 = open_account(&mut second, "Cash", "0");
    second.create_transaction(&request(a2, c2, "30.00", true, day(2025, 1, 2)), now()).unwrap();
    second.create_transaction(&request(a2, c2, "100.00", false, day(2025, 1, 1)), now()).unwrap();

    assert_eq!(balance_of(&first, a1).format(), "70.00");
    assert_eq!(balance_of(&second, a2).format(), "70.00");
    assert_eq!(balance_of(&first, a1), balance_of(&second, a2));
}

#[test]
fn balance_is_rounded_to_two_places_ties_to_even() {
    let mut client = Client::new(Ledger::new());
    let c = create_category(&mut client.db, "Misc", "Expense", "").unwrap();
    let a = open_account(&mut client, "Cash", "0");
    client.create_transaction(&request(a, c, "0.125", false, day(2025, 1, 1)), now()).unwrap();
    assert_eq!(balance_of(&client, a).format(), "0.12");
    client.create_transaction(&request(a, c, "0.01", false, day(2025, 1, 1)), now()).unwrap();
    assert_eq!(balance_of(&client, a).format(), "0.14");
    client.create_transaction(&request(a, c, "0.001", false, day(2025, 1, 1)), now()).unwrap();
    assert_eq!(balance_of(&client, a).format(), "0.14");
}

#[test]
fn moving_a_transaction_settles_both_accounts() {
    let mut client = Client::new(Ledger::new());
    let c = create_category(&mut client.db, "Misc", "Expense", "").unwrap();
    let x = open_account(&mut client, "X", "0");
    let y = open_account(&mut client, "Y", "0");
    let t = client.create_transaction(&request(x, c, "12.50", true, day(2025, 3, 1)), now()).unwrap();
    client.create_transaction(&request(y, c, "4.00", false, day(2025, 3, 2)), now()).unwrap();
    assert_eq!(balance_of(&client, x).format(), "-12.50");
    client.update_transaction(t.id, &request(y, c, "12.50", true, day(2025, 3, 1))).unwrap();
    assert!(balance_of(&client, x).equals(&money("0")));
    assert_eq!(balance_of(&client, y).format(), "-8.50");
    let moved = get_transactions_by_account(&client.db, y);
    assert_eq!(moved.len(), 2);
    assert!(get_transactions_by_account(&client.db, x).is_empty());
}

#[test]
fn update_keeps_id_and_time_of_creation() {
    let mut client = Client::new(Ledger::new());
    let c = create_category(&mut client.db, "Misc", "Expense", "").unwrap();
    let a = open_account(&mut client, "A", "0");
    let t = client.create_transaction(&request(a, c, "1.00", true, day(2025, 3, 1)), now()).unwrap();
    client.update_transaction(t.id, &request(a, c, "2.00", false, day(2025, 4, 1))).unwrap();
    let row = &client.db.transactions[0];
    assert_eq!(row.transaction_id, t.id);
    assert_eq!(row.trans_create_at, now());
    assert_eq!(row.transacted_at, day(2025, 4, 1));
    assert!(!row.is_expense);
    assert_eq!(balance_of(&client, a).format(), "2.00");
}

#[test]
fn deleting_an_account_leaves_no_orphans() {
    let mut client = Client::new(Ledger::new());
    let c = create_category(&mut client.db, "Misc", "Expense", "").unwrap();
    let a = open_account(&mut client, "A", "5");
    let b = open_account(&mut client, "B", "7");
    client.create_transaction(&request(a, c, "1.00", true, day(2025, 3, 1)), now()).unwrap();
    client.create_transaction(&request(b, c, "2.00", true, day(2025, 3, 1)), now()).unwrap();
    client.delete_account(a).unwrap();
    let accounts = client.list_accounts();
    assert_eq!(accounts.len(), 1);
    assert_eq!(accounts[0].id, b);
    assert!(client.db.transactions.iter().all(|t| t.account_id == b));
    assert_eq!(client.db.transactions.len(), 2);
    assert_eq!(balance_of(&client, b).format(), "5.00");
    assert_eq!(client.delete_account(a), Err(LedgerError::AccountNotFound));
}

#[test]
fn listing_is_latest_first_with_ties_by_id() {
    let mut client = Client::new(Ledger::new());
    let c = create_category(&mut client.db, "Misc", "Expense", "").unwrap();
    let a = open_account(&mut client, "A", "0");
    let other = open_account(&mut client, "B", "0");
    let t1 = client.create_transaction(&request(a, c, "1", true, day(2025, 3, 2)), now()).unwrap().id;
    let t2 = client.create_transaction(&request(a, c, "2", true, day(2025, 3, 5)), now()).unwrap().id;
    client.create_transaction(&request(other, c, "9", true, day(2025, 3, 9)), now()).unwrap();
    let t4 = client.create_transaction(&request(a, c, "3", true, day(2025, 3, 2)), now()).unwrap().id;
    let t5 = client.create_transaction(&request(a, c, "4", true, day(2025, 1, 1)), now()).unwrap().id;
    let ids: Vec<i64> = client.list_transactions(a, None, None, None).unwrap().iter().map(|t| t.id).collect();
    assert_eq!(ids, vec![t2, t4, t1, t5]);
    let page: Vec<i64> = client.list_transactions(a, Some(2), Some(1), None).unwrap().iter().map(|t| t.id).collect();
    assert_eq!(page, vec![t4, t1]);
    let tail: Vec<i64> = client.list_transactions(a, Some(-1), Some(3), None).unwrap().iter().map(|t| t.id).collect();
    assert_eq!(tail, vec![t5]);
    assert!(client.list_transactions(a, Some(5), Some(10), None).unwrap().is_empty());
    assert!(client.list_transactions(a, Some(0), None, None).unwrap().is_empty());
    let shown = client.list_transactions(a, Some(1), Some(-4), None).unwrap();
    assert_eq!(shown[0].amount.format(), "-2");
    assert_eq!(shown[0].txn_date, Date::new(2025, 3, 5).unwrap());
    assert_eq!(shown[0].category_id, Some(c));
    let span = Some((day(2025, 3, 2), day(2025, 3, 5)));
    let within: Vec<i64> =
        client.list_transactions(a, None, None, span).unwrap().iter().map(|t| t.id).collect();
    assert_eq!(within, vec![t2, t4, t1]);
    let mut broken = day(2025, 3, 2);
    broken.date.day = 0;
    assert_eq!(
        client.list_transactions(a, None, None, Some((broken, day(2025, 3, 5)))).unwrap_err(),
        LedgerError::InvalidValue
    );
}

#[test]
fn default_page_has_two_hundred_rows() {
    let mut client = Client::new(Ledger::new());
    let c = create_category(&mut client.db, "Misc", "Expense", "").unwrap();
    let a = open_account(&mut client, "A", "0");
    for _ in 0..205 {
        client.create_transaction(&request(a, c, "1", false, day(2025, 3, 2)), now()).unwrap();
    }
    assert_eq!(client.list_transactions(a, None, None, None).unwrap().len(), 200);
    assert_eq!(client.list_transactions(a, None, Some(200), None).unwrap().len(), 5);
    assert_eq!(balance_of(&client, a).format(), "205");
}

#[test]
fn refusals_leave_the_ledger_alone() {
    let mut client = Client::new(Ledger::new());
    let c = create_category(&mut client.db, "Misc", "Expense", "").unwrap();
    let a = open_account(&mut client, "A", "1.00");
    let before = client.db.transactions.len();
    assert_eq!(
        client.create_transaction(&request(99, c, "1", true, day(2025, 1, 1)), now()).unwrap_err(),
        LedgerError::AccountNotFound
    );
    assert_eq!(
        client.create_transaction(&request(a, 99, "1", true, day(2025, 1, 1)), now()).unwrap_err(),
        LedgerError::CategoryNotFound
    );
    assert_eq!(
        client.create_transaction(&request(a, c, "-1", false, day(2025, 1, 1)), now()).unwrap_err(),
        LedgerError::AmbiguousAmount
    );
    let mut bad = request(a, c, "1", true, day(2025, 1, 1));
    bad.transacted_at.date.month = 13;
    assert_eq!(client.create_transaction(&bad, now()).unwrap_err(), LedgerError::InvalidValue);
    let mut wide = request(a, c, "1", true, day(2025, 1, 1));
    wide.amount.scale = 29;
    assert_eq!(client.create_transaction(&wide, now()).unwrap_err(), LedgerError::InvalidValue);
    assert_eq!(client.delete_transaction(42), Err(LedgerError::TransactionNotFound));
    assert_eq!(
        client.update_transaction(42, &request(a, c, "1", true, day(2025, 1, 1))),
        Err(LedgerError::TransactionNotFound)
    );
    assert_eq!(client.db.transactions.len(), before);
    assert_eq!(balance_of(&client, a).format(), "1.00");
}

#[test]
fn overflowing_balance_rolls_the_row_back() {
    let mut client = Client::new(Ledger::new());
    let c = create_category(&mut client.db, "Misc", "Expense", "").unwrap();
    let a = open_account(&mut client, "A", "0");
    let huge = "79228162514264337593543950335";
    client.create_transaction(&request(a, c, huge, false, day(2025, 1, 1)), now()).unwrap();
    let refused = client.create_transaction(&request(a, c, "1", false, day(2025, 1, 1)), now());
    assert_eq!(refused.unwrap_err(), LedgerError::Overflow);
    assert_eq!(LedgerError::Overflow.kind(), ErrorKind::Storage);
    assert_eq!(client.db.transactions.len(), 1);
    assert_eq!(client.db.next_transaction_id, 2);
    assert_eq!(balance_of(&client, a).format(), huge);
    client.create_transaction(&request(a, c, "1", true, day(2025, 1, 1)), now()).unwrap();
    assert_eq!(balance_of(&client, a).format(), "79228162514264337593543950334");
}

#[test]
fn empty_name_is_a_validation_error() {
    let mut client = Client::new(Ledger::new());
    let req = CreateAccountReq {
        name: "   ".to_string(),
        kind: AccountType::Cash,
        currency: "CAD".to_string(),
        opening_balance: money("5"),
    };
    let refused = client.create_account(&req, now()).unwrap_err();
    assert_eq!(refused, LedgerError::EmptyName);
    assert_eq!(refused.kind(), ErrorKind::Validation);
    assert!(client.db.accounts.is_empty());
    assert!(client.db.categories.is_empty());
    assert_eq!(LedgerError::AccountNotFound.kind(), ErrorKind::NotFound);
    assert_eq!(LedgerError::Unreadable.kind(), ErrorKind::Decode);
}

#[test]
fn account_listing_shows_balance_kind_and_creation() {
    let mut client = Client::new(Ledger::new());
    let req = CreateAccountReq {
        name: "Joint".to_string(),
        kind: AccountType::Checking,
        currency: "USD".to_string(),
        opening_balance: money("12.345"),
    };
    let made = client.create_account(&req, now()).unwrap();
    assert_eq!(made.id, 1);
    assert_eq!(made.opening_balance, money("12.345"));
    assert_eq!(made.created_at, "2025-11-23T09:30:00");
    let listed = client.list_accounts();
    assert_eq!(listed.len(), 1);
    assert_eq!(listed[0].name, "Joint");
    assert_eq!(listed[0].kind, AccountType::Checking);
    assert_eq!(listed[0].currency, "USD");
    assert_eq!(listed[0].opening_balance.format(), "12.34");
    assert_eq!(listed[0].created_at, "2025-11-23T09:30:00");
    let rows = get_all_accounts(&client.db);
    assert_eq!(rows[0].account_type, "CHECKING");
}

#[test]
fn update_account_changes_metadata_only() {
    let mut client = Client::new(Ledger::new());
    let a = open_account(&mut client, "A", "3.00");
    client.update_account(a, "Renamed", "savings", "EUR").unwrap();
    let row = get_account_by_id(&client.db, a).unwrap();
    assert_eq!(row.account_name, "Renamed");
    assert_eq!(row.currency.as_deref(), Some("EUR"));
    assert_eq!(row.balance.format(), "3.00");
    assert_eq!(client.list_accounts()[0].kind, AccountType::Savings);
    assert_eq!(client.update_account(77, "x", "cash", "CAD"), Err(LedgerError::AccountNotFound));
}

#[test]
fn account_kinds_are_read_without_regard_to_case() {
    assert_eq!(map_account_type("CHECKING"), AccountType::Checking);
    assert_eq!(map_account_type("Credit"), AccountType::Credit);
    assert_eq!(map_account_type("savings"), AccountType::Savings);
    assert_eq!(map_account_type("cAsH"), AccountType::Cash);
    assert_eq!(map_account_type("debit"), AccountType::Other);
    assert_eq!(AccountType::Savings.as_str(), "SAVINGS");
    assert_eq!(AccountType::default(), AccountType::Cash);
}

#[test]
fn categories_are_listed_by_name() {
    let mut client = Client::new(Ledger::new());
    create_category(&mut client.db, "Rent", "Expense", "r").unwrap();
    create_category(&mut client.db, "Bonus", "income", "b").unwrap();
    create_category(&mut client.db, "Food", "Expense", "f").unwrap();
    create_category(&mut client.db, "Bon", "Expense", "x").unwrap();
    let names: Vec<String> = client.list_categories().iter().map(|c| c.name.clone()).collect();
    assert_eq!(names, vec!["Bon", "Bonus", "Food", "Rent"]);
    let listed = client.list_categories();
    assert_eq!(listed[1].kind, CategoryType::Income);
    assert_eq!(listed[0].kind, CategoryType::Expense);
    assert_eq!(listed[1].id, 2);
}

#[test]
fn base_amount_uses_the_rate_of_the_currency() {
    let mut client = Client::new(Ledger::new());
    let c = create_category(&mut client.db, "Misc", "Expense", "").unwrap();
    let a = open_account(&mut client, "A", "0");
    insert_rate(&mut client.db, "USD", money("1.5")).unwrap();
    let mut req = request(a, c, "-45.45", true, day(2025, 1, 1));
    req.currency = "USD".to_string();
    client.create_transaction(&req, now()).unwrap();
    assert_eq!(client.db.transactions[0].base_amount.format(), "68.175");
    assert_eq!(client.db.transactions[0].amount.format(), "45.45");
    client.create_transaction(&request(a, c, "2.00", true, day(2025, 1, 1)), now()).unwrap();
    assert_eq!(client.db.transactions[1].base_amount.format(), "2.00");
    insert_rate(&mut client.db, "USD", money("2")).unwrap();
    assert_eq!(get_rate(&client.db, "USD"), Ok(money("2")));
    assert_eq!(client.db.rates.len(), 1);
    assert_eq!(client.db.transactions[0].base_amount.format(), "68.175");
    assert_eq!(get_rate(&client.db, "JPY"), Err(LedgerError::RateNotFound));
}

#[test]
fn a_table_that_has_handed_out_its_last_id_takes_no_more() {
    let mut client = Client::new(Ledger::new());
    let c = create_category(&mut client.db, "Misc", "Expense", "").unwrap();
    let a = open_account(&mut client, "A", "0");
    client.db.next_transaction_id = i64::MAX;
    let refused = client.create_transaction(&request(a, c, "1", true, day(2025, 1, 1)), now());
    assert_eq!(refused.unwrap_err(), LedgerError::IdsExhausted);
    assert_eq!(LedgerError::IdsExhausted.kind(), ErrorKind::Storage);
    client.db.next_account_id = i64::MAX;
    let req = CreateAccountReq {
        name: "B".to_string(),
        kind: AccountType::Cash,
        currency: "CAD".to_string(),
        opening_balance: money("0"),
    };
    assert_eq!(client.create_account(&req, now()).unwrap_err(), LedgerError::IdsExhausted);
    assert_eq!(client.db.accounts.len(), 1);
}

#[test]
fn stored_values_that_cannot_be_read_are_errors() {
    assert_eq!(read_amount(" 12.50 "), Ok(money("12.50")));
    assert_eq!(read_amount("12,50"), Err(LedgerError::Unreadable));
    assert_eq!(read_amount(""), Err(LedgerError::Unreadable));
    assert_eq!(read_timestamp("2025-11-22 10:00:00"), Ok(DateTime::new(Date::new(2025, 11, 22).unwrap(), 10, 0, 0).unwrap()));
    assert_eq!(read_timestamp("yesterday"), Err(LedgerError::Unreadable));
    assert_eq!(LedgerError::Unreadable.kind(), ErrorKind::Decode);
    assert_eq!(LedgerError::Unreadable.message(), "a stored value could not be read");
}

#[test]
fn an_empty_ledger_hands_out_one_first() {
    let mut db = Ledger::new();
    assert_eq!(db.next_account_id, 1);
    assert_eq!(db.next_category_id, 1);
    assert_eq!(db.next_transaction_id, 1);
    assert_eq!(db.next_recurring_id, 1);
    assert_eq!(db.next_budget_id, 1);
    assert_eq!(db.next_goal_id, 1);
    assert_eq!(create_account(&mut db, "Cash", "CASH", "CAD", now()), Ok(1));
    assert_eq!(create_category(&mut db, "Grocery", "Expense", ""), Ok(1));
}

#[test]
fn a_signed_expense_is_stored_as_a_magnitude() {
    let mut db = Ledger::new();
    let a = create_account(&mut db, "Cash", "CASH", "CAD", now()).unwrap();
    let g = create_category(&mut db, "Grocery", "Expense", "").unwrap();
    let at = DateTime::new(Date::new(2025, 11, 22).unwrap(), 10, 0, 0).unwrap();
    let id = create_transaction(
        &mut db,
        a,
        g,
        money("-45.45"),
        money("-45.45"),
        "CAD".to_string(),
        true,
        Some("Metro purchasing".to_string()),
        at,
        now(),
    )
    .unwrap();
    assert!(id > 0);
    assert_eq!(db.transactions[0].amount, money("45.45"));
    assert_eq!(db.transactions[0].base_amount, money("45.45"));
    assert!(db.transactions[0].is_expense);
    assert_eq!(get_account_by_id(&db, a).unwrap().balance.format(), "-45.45");
    let same = create_transaction(
        &mut db, a, g, money("4.55"), money("4.55"), "CAD".to_string(), true, None, at, now(),
    );
    assert_eq!(same, Ok(2));
    assert_eq!(get_account_by_id(&db, a).unwrap().balance.format(), "-50.00");
    let refused = create_transaction(
        &mut db, a, g, money("-1"), money("-1"), "CAD".to_string(), false, None, at, now(),
    );
    assert_eq!(refused, Err(LedgerError::AmbiguousAmount));
    assert_eq!(db.transactions.len(), 2);
}

#[test]
fn the_counter_of_a_table_follows_its_largest_id() {
    assert_eq!(next_id(&vec![]), 1);
    assert_eq!(next_id(&vec![3, 9, 4]), 10);
    assert_eq!(next_id(&vec![-5, 0]), 1);
    assert_eq!(next_id(&vec![1, i64::MAX]), i64::MAX);
}
