use personal_finance_tracker::api::{Client, CreateGoalReq};
use personal_finance_tracker::dates::{Date, DateError, DateTime};
use personal_finance_tracker::error::LedgerError;
use personal_finance_tracker::ledger::Ledger;
use personal_finance_tracker::models::{Budget, SavingsGoal};
use personal_finance_tracker::money::{Money, MoneyError};
use personal_finance_tracker::planning::{
    create_budget, create_recurring, create_saving_goal, get_all_saving_goals, get_due,
    list_by_account, update_goal_amount, update_next_date,
};
use personal_finance_tracker::queries::{create_account, create_category, create_transaction};
use personal_finance_tracker::report::{get_category_spending_report, net_savings};
use personal_finance_tracker::seed::seed_fixed_categories;
use personal_finance_tracker::sync::{sync_handler, CreateTransaction, SyncRequest};
use personal_finance_tracker::util::{fmt_money, iso, parse_date_any, parse_money};

fn amount(text: &str) -> Money {
    Money::parse(text).unwrap()
}

fn at(year: i32, month: u32, day: u32, hour: u32) -> DateTime {
    DateTime::new(Date::new(year, month, day).unwrap(), hour, 0, 0).unwrap()
}

fn ledger_with_account() -> (Ledger, i64) {
    let mut db = Ledger::new();
    let id = create_account(&mut db, "Main", "CASH", "CAD", at(2025, 1, 1, 0)).unwrap();
    (db, id)
}

#[test]
fn due_items_are_exactly_those_not_later_than_the_date() {
    let (mut db, acc) = ledger_with_account();
    let early = create_recurring(&mut db, acc, amount("10"), "CAD", None, None, "monthly".to_string(), at(2025, 3, 1, 0)).unwrap();
    let late = create_recurring(&mut db, acc, amount("20"), "CAD", Some(4), Some("rent".to_string()), "monthly".to_string(), at(2025, 3, 20, 0)).unwrap();
    let edge = create_recurring(&mut db, acc, amount("30"), "CAD", None, None, "weekly".to_string(), at(2025, 3, 10, 12)).unwrap();
    let due: Vec<i64> = get_due(&db, at(2025, 3, 10, 12)).unwrap().iter().map(|r| r.recurring_id).collect();
    assert_eq!(due, vec![early, edge]);
    assert!(get_due(&db, at(2025, 2, 1, 0)).unwrap().is_empty());
    let all: Vec<i64> = get_due(&db, at(2026, 1, 1, 0)).unwrap().iter().map(|r| r.recurring_id).collect();
    assert_eq!(all, vec![early, late, edge]);
}

#[test]
fn advancing_an_item_records_no_transaction() {
    let (mut db, acc) = ledger_with_account();
    let id = create_recurring(&mut db, acc, amount("10"), "CAD", None, None, "monthly".to_string(), at(2025, 3, 1, 0)).unwrap();
    update_next_date(&mut db, id, at(2025, 4, 1, 0)).unwrap();
    assert!(db.transactions.is_empty());
    assert!(get_due(&db, at(2025, 3, 15, 0)).unwrap().is_empty());
    assert_eq!(get_due(&db, at(2025, 4, 1, 0)).unwrap().len(), 1);
    assert_eq!(update_next_date(&mut db, 9, at(2025, 4, 1, 0)), Err(LedgerError::RecurringNotFound));
    assert_eq!(
        create_recurring(&mut db, 77, amount("1"), "CAD", None, None, "x".to_string(), at(2025, 1, 1, 0)),
        Err(LedgerError::AccountNotFound)
    );
    let mut invalid = at(2025, 1, 1, 0);
    invalid.hour = 24;
    assert_eq!(get_due(&db, invalid).unwrap_err(), LedgerError::InvalidValue);
}

#[test]
fn budgets_are_listed_by_account() {
    let (mut db, acc) = ledger_with_account();
    let other = create_account(&mut db, "Other", "CASH", "CAD", at(2025, 1, 1, 0)).unwrap();
    let mut b = Budget {
        budget_id: 0,
        account_id: acc,
        category_id: Some(4),
        period: "monthly".to_string(),
        amount: amount("300"),
        currency: "CAD".to_string(),
        start_date: at(2025, 1, 1, 0),
    };
    assert_eq!(create_budget(&mut db, &b), Ok(1));
    b.account_id = other;
    assert_eq!(create_budget(&mut db, &b), Ok(2));
    b.account_id = acc;
    b.period = "weekly".to_string();
    assert_eq!(create_budget(&mut db, &b), Ok(3));
    let mine: Vec<i64> = list_by_account(&db, acc).iter().map(|b| b.budget_id).collect();
    assert_eq!(mine, vec![1, 3]);
    b.account_id = 99;
    assert_eq!(create_budget(&mut db, &b), Err(LedgerError::AccountNotFound));
}

#[test]
fn goal_progress_is_replaced_not_added() {
    let (mut db, acc) = ledger_with_account();
    let goal = SavingsGoal {
        goal_id: 0,
        account_id: acc,
        goal_name: "Bike".to_string(),
        target_amount: amount("900"),
        current_amount: amount("100"),
        deadline: Some(at(2026, 6, 1, 0)),
    };
    let id = create_saving_goal(&mut db, &goal).unwrap();
    update_goal_amount(&mut db, id, amount("250")).unwrap();
    let goals = get_all_saving_goals(&db);
    assert_eq!(goals[0].current_amount, amount("250"));
    assert_eq!(goals[0].target_amount, amount("900"));
    assert_eq!(update_goal_amount(&mut db, 5, amount("1")), Err(LedgerError::GoalNotFound));
}

#[test]
fn goals_are_listed_by_deadline() {
    let mut client = Client::new(Ledger::new());
    let mut req = CreateGoalReq {
        account_id: 1,
        name: "Late".to_string(),
        target_amount: amount("10"),
        current_amount: amount("1"),
        deadline: Some(at(2027, 1, 1, 0)),
    };
    client.create_goal(&req).unwrap();
    req.name = "Soon".to_string();
    req.deadline = Some(at(2026, 1, 1, 8));
    client.create_goal(&req).unwrap();
    req.name = "Open".to_string();
    req.deadline = None;
    client.create_goal(&req).unwrap();
    let names: Vec<String> = client.list_goals().iter().map(|g| g.name.clone()).collect();
    assert_eq!(names, vec!["Open", "Soon", "Late"]);
    assert_eq!(client.list_goals()[1].deadline.as_deref(), Some("2026-01-01 08:00:00"));
    req.name = "Sooner".to_string();
    req.deadline = Some(at(2025, 12, 1, 0));
    req.current_amount = amount("5");
    client.update_goal(1, &req).unwrap();
    let names: Vec<String> = client.list_goals().iter().map(|g| g.name.clone()).collect();
    assert_eq!(names, vec!["Open", "Sooner", "Soon"]);
    client.delete_goal(2).unwrap();
    assert_eq!(client.list_goals().len(), 2);
    assert_eq!(client.delete_goal(2), Err(LedgerError::GoalNotFound));
    assert_eq!(client.update_goal(2, &req), Err(LedgerError::GoalNotFound));
}

#[test]
fn spending_report_groups_expenses_by_category_name() {
    let (mut db, acc) = ledger_with_account();
    let food = create_category(&mut db, "Food", "Expense", "").unwrap();
    let rent = create_category(&mut db, "Rent", "Expense", "").unwrap();
    let pay = create_category(&mut db, "Salary", "Income", "").unwrap();
    let now = at(2025, 3, 31, 0);
    let mut add = |cat: i64, text: &str, expense: bool, when: DateTime| {
        create_transaction(&mut db, acc, cat, amount(text), amount(text), "CAD".to_string(), expense, None, when, now).unwrap();
    };
    add(food, "12.50", true, at(2025, 3, 2, 0));
    add(rent, "800", true, at(2025, 3, 1, 0));
    add(food, "7.25", true, at(2025, 3, 9, 0));
    add(pay, "2000", false, at(2025, 3, 15, 0));
    add(food, "100", true, at(2025, 4, 1, 0));
    add(rent, "1", true, at(2025, 2, 28, 23));
    let report = get_category_spending_report(&db, at(2025, 3, 1, 0), at(2025, 3, 31, 23)).unwrap();
    assert_eq!(report.len(), 2);
    assert_eq!(report[0].category, "Rent");
    assert_eq!(report[0].total_amount.format(), "800");
    assert_eq!(report[1].category, "Food");
    assert_eq!(report[1].total_amount.format(), "19.75");
    assert_eq!(net_savings(&db).unwrap().format(), "1079.25");
    let client = Client::new(db);
    let monthly = client.get_monthly_report(at(2025, 3, 5, 0)).unwrap();
    assert_eq!(monthly.len(), 2);
    assert_eq!(monthly[0].category, "Rent");
    assert_eq!(monthly[1].total_amount.format(), "12.50");
}

#[test]
fn seeding_twice_is_seeding_once() {
    let mut db = Ledger::new();
    let own = create_category(&mut db, "Mine", "Expense", "").unwrap();
    assert_eq!(own, 1);
    seed_fixed_categories(&mut db).unwrap();
    assert_eq!(db.categories.len(), 12);
    assert_eq!(db.categories[0].category_name, "Mine");
    assert_eq!(db.categories[1].category_id, 2);
    assert_eq!(db.categories[1].category_name, "Bonus");
    assert_eq!(db.categories[1].category_type, "Income");
    assert_eq!(db.categories[11].category_name, "Travel");
    assert_eq!(db.categories[11].category_type, "Expense");
    assert_eq!(db.next_category_id, 13);
    seed_fixed_categories(&mut db).unwrap();
    assert_eq!(db.categories.len(), 12);
    assert_eq!(create_category(&mut db, "Next", "Expense", ""), Ok(13));
}

#[test]
fn sync_counts_what_was_recorded() {
    let (mut db, acc) = ledger_with_account();
    let cat = create_category(&mut db, "Food", "Expense", "").unwrap();
    let item = |account_id: i64, text: &str| CreateTransaction {
        account_id,
        category_id: cat,
        amount: amount(text),
        base_amount: amount(text),
        is_expense: true,
        description: Some("synced".to_string()),
        currency: "CAD".to_string(),
        transacted_at: at(2025, 5, 1, 0),
    };
    let mut income_with_sign = item(acc, "-7");
    income_with_sign.is_expense = false;
    let payload = SyncRequest {
        last_synced_at: None,
        transactions: vec![
            item(acc, "1.25"),
            item(404, "9"),
            item(acc, "-2.50"),
            income_with_sign,
        ],
    };
    assert_eq!(sync_handler(&mut db, &payload, at(2025, 5, 2, 0)), 2);
    assert_eq!(db.transactions.len(), 2);
    assert_eq!(db.transactions[1].transaction_id, 2);
    assert_eq!(db.transactions[1].amount, amount("2.50"));
    assert!(db.transactions[1].is_expense);
    assert_eq!(db.accounts[0].balance.format(), "-3.75");
}

#[test]
fn dates_are_read_in_four_stored_forms() {
    let midnight = at(2025, 11, 22, 0);
    assert_eq!(DateTime::parse("2025-11-22"), Ok(midnight));
    assert_eq!(DateTime::parse("2025-11-22T07:08:09"), Ok(DateTime::new(Date::new(2025, 11, 22).unwrap(), 7, 8, 9).unwrap()));
    assert_eq!(DateTime::parse("2025-11-22T07:08:09Z"), Ok(DateTime::new(Date::new(2025, 11, 22).unwrap(), 7, 8, 9).unwrap()));
    assert_eq!(DateTime::parse("2025-11-22 23:59:59"), Ok(DateTime::new(Date::new(2025, 11, 22).unwrap(), 23, 59, 59).unwrap()));
    assert_eq!(DateTime::parse("22/11/2025"), Err(DateError::Unrecognized));
    assert_eq!(DateTime::parse("2025-02-30"), Err(DateError::Unrecognized));
    assert_eq!(midnight.format(), "2025-11-22T00:00:00");
    assert_eq!(Date::parse("2024-02-29"), Ok(Date::new(2024, 2, 29).unwrap()));
    assert_eq!(Date::parse("2023-02-29"), Err(DateError::Unrecognized));
    assert_eq!(Date::new(2023, 2, 29), None);
    assert_eq!(Date::new(1900, 2, 29), None);
    assert!(Date::new(2000, 2, 29).is_some());
    assert_eq!(Date::new(2025, 4, 31), None);
    assert_eq!(DateTime::new(Date::new(2025, 1, 1).unwrap(), 24, 0, 0), None);
    assert!(at(2025, 1, 1, 1).before(&at(2025, 1, 1, 2)));
    assert!(!at(2025, 1, 1, 2).before(&at(2025, 1, 1, 2)));
    assert!(at(2024, 12, 31, 23).before(&at(2025, 1, 1, 0)));
    assert!(Date::new(2025, 1, 31).unwrap().before(&Date::new(2025, 2, 1).unwrap()));
}

#[test]
fn helpers_show_and_read_values() {
    assert_eq!(fmt_money(&amount("3.14159")), "3.14");
    assert_eq!(fmt_money(&amount("2.5")), "2.5");
    assert_eq!(fmt_money(&amount("-0.005")), "0.00");
    assert_eq!(fmt_money(&amount("0.015")), "0.02");
    assert_eq!(parse_money("  12.30 "), Some(amount("12.30")));
    assert_eq!(parse_money("twelve"), None);
    let today = Date::new(2025, 6, 1).unwrap();
    let day = Date::new(2025, 11, 22).unwrap();
    assert_eq!(parse_date_any("2025-11-22"), Ok(day));
    assert_eq!(parse_date_any("2025-11-22T10:00:00"), Ok(day));
    assert_eq!(parse_date_any("2025-11-22T10:00:00Z"), Ok(day));
    assert_eq!(parse_date_any("2025-11-22 10:00:00"), Ok(day));
    assert_eq!(parse_date_any("2025/11/22"), Ok(day));
    assert_eq!(parse_date_any("not-a-date"), Err(DateError::Unrecognized));
    assert_eq!(parse_date_any(""), Err(DateError::Unrecognized));
    assert_eq!(iso(&today), "2025-06-01");
}

#[test]
fn money_arithmetic_is_exact() {
    let a = amount("0.1");
    let b = amount("0.20");
    assert_eq!(a.checked_add(&b), Some(amount("0.30")));
    assert_eq!(a.checked_sub(&b), Some(amount("-0.10")));
    assert_eq!(amount("1.005").round(2).format(), "1.00");
    assert_eq!(amount("1.015").round(2).format(), "1.02");
    assert_eq!(amount("-1.015").round(2).format(), "-1.02");
    assert_eq!(amount("1.0151").round(2).format(), "1.02");
    assert_eq!(amount("7.5").round(0).format(), "8");
    assert_eq!(amount("6.5").round(0).format(), "6");
    assert_eq!(amount("5").round(2), amount("5"));
    assert_eq!(amount("-3.2").abs(), amount("3.2"));
    assert_eq!(amount("3.2").negate(), amount("-3.2"));
    assert!(amount("-3.2").is_negative());
    assert!(amount("0.00").is_zero());
    assert!(amount("1.50").equals(&amount("1.5")));
    assert!(amount("1.49").less_than(&amount("1.5")));
    assert!(!amount("1.5").less_than(&amount("1.50")));
    assert!(amount("-79228162514264337593543950335").less_than(&amount("0.0000000000000000000000000001")));
    let max = amount("79228162514264337593543950335");
    assert_eq!(max.checked_add(&amount("1")), None);
    assert_eq!(max.checked_add(&amount("0.1")), None);
    assert_eq!(max.checked_sub(&max), Some(Money::zero()));
    assert_eq!(Money::new(1, 29), None);
    assert_eq!(Money::zero().format(), "0");
    assert_eq!(amount("2").checked_mul(&amount("1.25")), Some(amount("2.50")));
    assert_eq!(max.checked_mul(&amount("2")), None);
    assert_eq!(Money::normalize("+007.50"), Ok("7.50".to_string()));
    assert_eq!(Money::normalize("1e3"), Err(MoneyError::Malformed));
    assert_eq!(Money::parse("0.00000000000000000000000000001"), Err(MoneyError::Malformed));
}

#[test]
fn parse_then_format_gives_the_same_number() {
    for text in ["0", "-0.10", "45.45", "1_000.5", "79228162514264337593543950335", "0.0000000000000000000000000001", "-7.9228162514264337593543950335"] {
        let m = Money::parse(text).unwrap();
        let again = Money::parse(&m.format()).unwrap();
        assert_eq!(m, again);
    }
}
