//! Recurring items, budgets and savings goals.
//!
//! None of these touches a transaction or a balance. A recurring item only
//! remembers when it is due next: whoever finds it due records the
//! transaction and then sets the next date.

use crate::dates::DateTime;
use crate::error::LedgerError;
use crate::ledger::{has_account, Ledger};
use crate::models::{Budget, RecurringTransaction, SavingsGoal};
use crate::money::Money;
use crate::sorting::{listed, listing, Row};
use vstd::prelude::*;

verus! {

/// Whether some recurring item has the id.
pub open spec fn has_recurring(items: Seq<RecurringTransaction>, id: i64) -> bool {
    exists|i: int| 0 <= i < items.len() && (#[trigger] items[i]).recurring_id == id
}

/// The place of the recurring item with the id.
pub open spec fn recurring_index(items: Seq<RecurringTransaction>, id: i64) -> int {
    choose|i: int| 0 <= i < items.len() && (#[trigger] items[i]).recurring_id == id
}

/// Whether some goal has the id.
pub open spec fn has_goal(goals: Seq<SavingsGoal>, id: i64) -> bool {
    exists|i: int| 0 <= i < goals.len() && (#[trigger] goals[i]).goal_id == id
}

/// The place of the goal with the id.
pub open spec fn goal_index(goals: Seq<SavingsGoal>, id: i64) -> int {
    choose|i: int| 0 <= i < goals.len() && (#[trigger] goals[i]).goal_id == id
}

/// Whether an item is due at a time: its next run is not later.
pub open spec fn is_due(item: RecurringTransaction, as_of: DateTime) -> bool {
    item.next_run_date.stamp() <= as_of.stamp()
}

/// The items that are due, in the order of the table, which is that of
/// their ids.
pub open spec fn due_rows(items: Seq<RecurringTransaction>, as_of: DateTime) -> Seq<
    RecurringTransaction,
>
    decreases items.len(),
{
    if items.len() == 0 {
        Seq::empty()
    } else {
        let rest = due_rows(items.drop_last(), as_of);
        if is_due(items.last(), as_of) {
            rest.push(items.last())
        } else {
            rest
        }
    }
}

/// The budgets of one account, in the order of the table.
pub open spec fn budgets_of(budgets: Seq<Budget>, account_id: i64) -> Seq<Budget>
    decreases budgets.len(),
{
    if budgets.len() == 0 {
        Seq::empty()
    } else {
        let rest = budgets_of(budgets.drop_last(), account_id);
        if budgets.last().account_id == account_id {
            rest.push(budgets.last())
        } else {
            rest
        }
    }
}

/// The due items are exactly the items of the table whose next run is not
/// later than the given time; they stand in the order of the table.
pub proof fn lemma_due_rows(items: Seq<RecurringTransaction>, as_of: DateTime)
    ensures
        due_rows(items, as_of).len() <= items.len(),
        forall|k: int|
            0 <= k < due_rows(items, as_of).len() ==> {
                &&& is_due(#[trigger] due_rows(items, as_of)[k], as_of)
                &&& exists|j: int| k <= j < items.len() && items[j] == due_rows(items, as_of)[k]
            },
        forall|j: int|
            0 <= j < items.len() && is_due(#[trigger] items[j], as_of) ==> due_rows(
                items,
                as_of,
            ).contains(items[j]),
        forall|row: RecurringTransaction|
            due_rows(items, as_of).contains(row) <==> items.contains(row) && is_due(row, as_of),
    decreases items.len(),
{
    let due = due_rows(items, as_of);
    if items.len() > 0 {
        let shorter = items.drop_last();
        let rest = due_rows(shorter, as_of);
        lemma_due_rows(shorter, as_of);
        assert forall|k: int| 0 <= k < due.len() implies {
            &&& is_due(#[trigger] due[k], as_of)
            &&& exists|j: int| k <= j < items.len() && items[j] == due[k]
        } by {
            if k < rest.len() {
                assert(due[k] == rest[k]);
                let j = choose|j: int| k <= j < shorter.len() && shorter[j] == rest[k];
                assert(items[j] == due[k]);
            } else {
                assert(items[items.len() - 1] == due[k]);
            }
        }
        assert forall|j: int| 0 <= j < items.len() && is_due(#[trigger] items[j], as_of) implies due.contains(
            items[j],
        ) by {
            if j < shorter.len() {
                assert(shorter[j] == items[j]);
                assert(rest.contains(shorter[j]));
                let k = choose|k: int| 0 <= k < rest.len() && rest[k] == shorter[j];
                assert(due[k] == items[j]);
            } else {
                assert(due[due.len() - 1] == items[j]);
            }
        }
    }
    assert forall|row: RecurringTransaction|
        due.contains(row) <==> items.contains(row) && is_due(row, as_of) by {
        if due.contains(row) {
            let k = choose|k: int| 0 <= k < due.len() && due[k] == row;
            assert(is_due(due[k], as_of));
            let j = choose|j: int| k <= j < items.len() && items[j] == due[k];
            assert(items[j] == row);
        }
        if items.contains(row) && is_due(row, as_of) {
            let j = choose|j: int| 0 <= j < items.len() && items[j] == row;
            assert(is_due(items[j], as_of));
        }
    }
}

/// The place of the recurring item with the id, if there is one.
pub fn find_recurring(db: &Ledger, id: i64) -> (r: Option<usize>)
    requires
        db.wf(),
    ensures
        r is Some <==> has_recurring(db.recurring@, id),
        r matches Some(i) ==> i < db.recurring@.len() && i == recurring_index(db.recurring@, id),
{
    let mut i: usize = 0;
    while i < db.recurring.len()
        invariant
            i <= db.recurring.len(),
            db.wf(),
            forall|k: int| 0 <= k < i ==> (#[trigger] db.recurring@[k]).recurring_id != id,
        decreases db.recurring.len() - i,
    {
        if db.recurring[i].recurring_id == id {
            proof {
                let c = recurring_index(db.recurring@, id);
                if c < i {
                    assert(db.recurring@[c].recurring_id < db.recurring@[i as int].recurring_id);
                }
                if i < c {
                    assert(db.recurring@[i as int].recurring_id < db.recurring@[c].recurring_id);
                }
            }
            return Some(i);
        }
        i = i + 1;
    }
    None
}

/// The place of the goal with the id, if there is one.
pub fn find_goal(db: &Ledger, id: i64) -> (r: Option<usize>)
    requires
        db.wf(),
    ensures
        r is Some <==> has_goal(db.goals@, id),
        r matches Some(i) ==> i < db.goals@.len() && i == goal_index(db.goals@, id),
{
    let mut i: usize = 0;
    while i < db.goals.len()
        invariant
            i <= db.goals.len(),
            db.wf(),
            forall|k: int| 0 <= k < i ==> (#[trigger] db.goals@[k]).goal_id != id,
        decreases db.goals.len() - i,
    {
        if db.goals[i].goal_id == id {
            proof {
                let c = goal_index(db.goals@, id);
                if c < i {
                    assert(db.goals@[c].goal_id != db.goals@[i as int].goal_id);
                }
                if i < c {
                    assert(db.goals@[i as int].goal_id != db.goals@[c].goal_id);
                }
            }
            return Some(i);
        }
        i = i + 1;
    }
    None
}

/// Why a recurring item is not created, if it is not.
pub open spec fn create_recurring_refusal(
    db: Ledger,
    account_id: i64,
    amount: Money,
    next_run_date: DateTime,
) -> Option<LedgerError> {
    if !amount.wf() || !next_run_date.wf() {
        Some(LedgerError::InvalidValue)
    } else if !has_account(db.accounts@, account_id) {
        Some(LedgerError::AccountNotFound)
    } else if db.next_recurring_id == i64::MAX {
        Some(LedgerError::IdsExhausted)
    } else {
        None
    }
}

/// Only the recurring items of the two ledgers differ.
pub open spec fn same_but_recurring(a: Ledger, b: Ledger) -> bool {
    &&& a.accounts@ == b.accounts@
    &&& a.same_but_accounts(
        Ledger { recurring: a.recurring, next_recurring_id: a.next_recurring_id, ..b },
    )
}

/// Only the budgets of the two ledgers differ.
pub open spec fn same_but_budgets(a: Ledger, b: Ledger) -> bool {
    &&& a.accounts@ == b.accounts@
    &&& a.same_but_accounts(Ledger { budgets: a.budgets, next_budget_id: a.next_budget_id, ..b })
}

/// Only the goals of the two ledgers differ.
pub open spec fn same_but_goals(a: Ledger, b: Ledger) -> bool {
    &&& a.accounts@ == b.accounts@
    &&& a.same_but_accounts(Ledger { goals: a.goals, next_goal_id: a.next_goal_id, ..b })
}

/// Sets up a movement that comes back on a schedule, and gives its id. No
/// transaction is recorded.
pub fn create_recurring(
    db: &mut Ledger,
    account_id: i64,
    amount: Money,
    currency: &str,
    category_id: Option<i64>,
    description: Option<String>,
    recurrence_rule: String,
    next_run_date: DateTime,
) -> (r: Result<i64, LedgerError>)
    requires
        old(db).wf(),
    ensures
        final(db).wf(),
        r == match create_recurring_refusal(*old(db), account_id, amount, next_run_date) {
            Some(e) => Err::<i64, LedgerError>(e),
            None => Ok(old(db).next_recurring_id),
        },
        r is Err ==> final(db).same_as(*old(db)),
        same_but_recurring(*final(db), *old(db)),
        r is Ok ==> {
            &&& final(db).next_recurring_id == old(db).next_recurring_id + 1
            &&& final(db).recurring@.len() == old(db).recurring@.len() + 1
            &&& final(db).recurring@.drop_last() == old(db).recurring@
            &&& final(db).recurring@.last().currency@ == currency@
            &&& final(db).recurring@.last() == (RecurringTransaction {
                recurring_id: old(db).next_recurring_id,
                account_id,
                amount,
                currency: final(db).recurring@.last().currency,
                category_id,
                description,
                recurrence_rule,
                next_run_date,
            })
        },
{
    if !amount.is_valid() || !next_run_date.is_valid() {
        return Err(LedgerError::InvalidValue);
    }
    if db.find_account(account_id).is_none() {
        return Err(LedgerError::AccountNotFound);
    }
    if db.next_recurring_id == i64::MAX {
        return Err(LedgerError::IdsExhausted);
    }
    let id: i64 = db.next_recurring_id;
    db.recurring.push(
        RecurringTransaction {
            recurring_id: id,
            account_id,
            amount,
            currency: currency.to_owned(),
            category_id,
            description,
            recurrence_rule,
            next_run_date,
        },
    );
    db.next_recurring_id = id + 1;
    proof {
        let was = old(db).recurring@;
        let now = db.recurring@;
        assert(now.drop_last() =~= was);
        assert forall|i: int| 0 <= i < was.len() implies #[trigger] now[i] == was[i] by {}
        assert forall|i: int, j: int| 0 <= i < j < now.len() implies (#[trigger] now[i]).recurring_id
            < (#[trigger] now[j]).recurring_id by {
            if j < was.len() {
                assert(was[i].recurring_id < was[j].recurring_id);
            } else {
                assert(was[i].recurring_id < id);
            }
        }
    }
    Ok(id)
}

/// The recurring items that are due at a time: exactly those whose next run
/// is not later, in the order of their ids.
pub fn get_due(db: &Ledger, as_of: DateTime) -> (r: Result<Vec<RecurringTransaction>, LedgerError>)
    requires
        db.wf(),
    ensures
        r is Ok <==> as_of.wf(),
        r matches Ok(rows) ==> rows@ == due_rows(db.recurring@, as_of),
        r matches Err(e) ==> e == LedgerError::InvalidValue,
{
    if !as_of.is_valid() {
        return Err(LedgerError::InvalidValue);
    }
    let mut due: Vec<RecurringTransaction> = Vec::new();
    let mut i: usize = 0;
    while i < db.recurring.len()
        invariant
            i <= db.recurring.len(),
            db.wf(),
            as_of.wf(),
            due@ == due_rows(db.recurring@.take(i as int), as_of),
        decreases db.recurring.len() - i,
    {
        proof {
            assert(db.recurring@.take(i + 1).drop_last() =~= db.recurring@.take(i as int));
        }
        if !as_of.before(&db.recurring[i].next_run_date) {
            due.push(db.recurring[i].duplicate());
        }
        i = i + 1;
    }
    proof {
        assert(db.recurring@.take(i as int) =~= db.recurring@);
    }
    Ok(due)
}

/// Why the next run of an item is not set, if it is not.
pub open spec fn update_next_date_refusal(db: Ledger, recurring_id: i64, new_date: DateTime)
    -> Option<LedgerError> {
    if !new_date.wf() {
        Some(LedgerError::InvalidValue)
    } else if !has_recurring(db.recurring@, recurring_id) {
        Some(LedgerError::RecurringNotFound)
    } else {
        None
    }
}

/// Sets the date at which a recurring item is due next. Nothing else
/// changes; in particular no transaction is recorded.
pub fn update_next_date(db: &mut Ledger, recurring_id: i64, new_date: DateTime) -> (r: Result<
    (),
    LedgerError,
>)
    requires
        old(db).wf(),
    ensures
        final(db).wf(),
        r == match update_next_date_refusal(*old(db), recurring_id, new_date) {
            Some(e) => Err::<(), LedgerError>(e),
            None => Ok(()),
        },
        r is Err ==> final(db).same_as(*old(db)),
        same_but_recurring(*final(db), *old(db)),
        final(db).next_recurring_id == old(db).next_recurring_id,
        r is Ok ==> final(db).recurring@ == old(db).recurring@.update(
            recurring_index(old(db).recurring@, recurring_id),
            RecurringTransaction {
                next_run_date: new_date,
                ..old(db).recurring@[recurring_index(old(db).recurring@, recurring_id)]
            },
        ),
{
    if !new_date.is_valid() {
        return Err(LedgerError::InvalidValue);
    }
    let i: usize = match find_recurring(db, recurring_id) {
        Some(i) => i,
        None => {
            return Err(LedgerError::RecurringNotFound);
        },
    };
    let mut item = db.recurring.remove(i);
    item.next_run_date = new_date;
    db.recurring.insert(i, item);
    proof {
        let was = old(db).recurring@;
        let now = db.recurring@;
        assert(now =~= was.update(
            i as int,
            RecurringTransaction { next_run_date: new_date, ..was[i as int] },
        ));
        assert forall|a: int, b: int| 0 <= a < b < now.len() implies (#[trigger] now[a]).recurring_id
            < (#[trigger] now[b]).recurring_id by {
            assert(was[a].recurring_id < was[b].recurring_id);
        }
        assert forall|k: int| 0 <= k < now.len() implies {
            &&& 1 <= (#[trigger] now[k]).recurring_id < db.next_recurring_id
            &&& now[k].amount.wf()
            &&& now[k].next_run_date.wf()
        } by {
            assert(1 <= was[k].recurring_id < db.next_recurring_id);
        }
    }
    Ok(())
}

/// Why a budget is not created, if it is not.
pub open spec fn create_budget_refusal(db: Ledger, b: Budget) -> Option<LedgerError> {
    if !b.amount.wf() || !b.start_date.wf() {
        Some(LedgerError::InvalidValue)
    } else if !has_account(db.accounts@, b.account_id) {
        Some(LedgerError::AccountNotFound)
    } else if db.next_budget_id == i64::MAX {
        Some(LedgerError::IdsExhausted)
    } else {
        None
    }
}

/// Stores a budget under the next id, which is the answer; the id that the
/// budget carries is not looked at.
pub fn create_budget(db: &mut Ledger, b: &Budget) -> (r: Result<i64, LedgerError>)
    requires
        old(db).wf(),
    ensures
        final(db).wf(),
        r == match create_budget_refusal(*old(db), *b) {
            Some(e) => Err::<i64, LedgerError>(e),
            None => Ok(old(db).next_budget_id),
        },
        r is Err ==> final(db).same_as(*old(db)),
        same_but_budgets(*final(db), *old(db)),
        r is Ok ==> {
            &&& final(db).next_budget_id == old(db).next_budget_id + 1
            &&& final(db).budgets@ == old(db).budgets@.push(
                Budget { budget_id: old(db).next_budget_id, ..*b },
            )
        },
{
    if !b.amount.is_valid() || !b.start_date.is_valid() {
        return Err(LedgerError::InvalidValue);
    }
    if db.find_account(b.account_id).is_none() {
        return Err(LedgerError::AccountNotFound);
    }
    if db.next_budget_id == i64::MAX {
        return Err(LedgerError::IdsExhausted);
    }
    let id: i64 = db.next_budget_id;
    let mut row = b.duplicate();
    row.budget_id = id;
    db.budgets.push(row);
    db.next_budget_id = id + 1;
    proof {
        let was = old(db).budgets@;
        let now = db.budgets@;
        assert forall|i: int| 0 <= i < was.len() implies #[trigger] now[i] == was[i] by {}
    }
    Ok(id)
}

/// The budgets of one account, in the order in which they were made.
pub fn list_by_account(db: &Ledger, acc_id: i64) -> (r: Vec<Budget>)
    requires
        db.wf(),
    ensures
        r@ == budgets_of(db.budgets@, acc_id),
{
    let mut out: Vec<Budget> = Vec::new();
    let mut i: usize = 0;
    while i < db.budgets.len()
        invariant
            i <= db.budgets.len(),
            out@ == budgets_of(db.budgets@.take(i as int), acc_id),
        decreases db.budgets.len() - i,
    {
        proof {
            assert(db.budgets@.take(i + 1).drop_last() =~= db.budgets@.take(i as int));
        }
        if db.budgets[i].account_id == acc_id {
            out.push(db.budgets[i].duplicate());
        }
        i = i + 1;
    }
    proof {
        assert(db.budgets@.take(i as int) =~= db.budgets@);
    }
    out
}

/// Whether the amounts and the deadline of a goal are within bounds.
pub open spec fn goal_valid(g: SavingsGoal) -> bool {
    &&& g.target_amount.wf()
    &&& g.current_amount.wf()
    &&& g.deadline matches Some(d) ==> d.wf()
}

/// Checks the amounts and the deadline of a goal.
pub fn goal_is_valid(g: &SavingsGoal) -> (r: bool)
    ensures
        r == goal_valid(*g),
{
    g.target_amount.is_valid() && g.current_amount.is_valid() && match g.deadline {
        Some(d) => d.is_valid(),
        None => true,
    }
}

/// Why a goal is not created, if it is not.
pub open spec fn create_goal_refusal(db: Ledger, g: SavingsGoal) -> Option<LedgerError> {
    if !goal_valid(g) {
        Some(LedgerError::InvalidValue)
    } else if db.next_goal_id == i64::MAX {
        Some(LedgerError::IdsExhausted)
    } else {
        None
    }
}

/// Stores a savings goal under the next id, which is the answer; the id
/// that the goal carries is not looked at.
pub fn create_saving_goal(db: &mut Ledger, g: &SavingsGoal) -> (r: Result<i64, LedgerError>)
    requires
        old(db).wf(),
    ensures
        final(db).wf(),
        r == match create_goal_refusal(*old(db), *g) {
            Some(e) => Err::<i64, LedgerError>(e),
            None => Ok(old(db).next_goal_id),
        },
        r is Err ==> final(db).same_as(*old(db)),
        same_but_goals(*final(db), *old(db)),
        r is Ok ==> {
            &&& final(db).next_goal_id == old(db).next_goal_id + 1
            &&& final(db).goals@ == old(db).goals@.push(
                SavingsGoal { goal_id: old(db).next_goal_id, ..*g },
            )
        },
{
    if !goal_is_valid(g) {
        return Err(LedgerError::InvalidValue);
    }
    if db.next_goal_id == i64::MAX {
        return Err(LedgerError::IdsExhausted);
    }
    let id: i64 = db.next_goal_id;
    let mut row = g.duplicate();
    row.goal_id = id;
    db.goals.push(row);
    db.next_goal_id = id + 1;
    proof {
        let was = old(db).goals@;
        let now = db.goals@;
        assert forall|i: int| 0 <= i < was.len() implies #[trigger] now[i] == was[i] by {}
        assert forall|i: int, j: int| 0 <= i < j < now.len() implies (#[trigger] now[i]).goal_id
            != (#[trigger] now[j]).goal_id by {
            if j < was.len() {
                assert(was[i].goal_id != was[j].goal_id);
            } else {
                assert(was[i].goal_id < id);
            }
        }
    }
    Ok(id)
}

/// A ledger in which one goal was replaced by a valid goal of the same id,
/// and nothing else was changed, keeps the invariant.
pub proof fn lemma_goal_replaced(before: Ledger, after: Ledger, i: int, goal: SavingsGoal)
    requires
        before.wf(),
        0 <= i < before.goals@.len(),
        after.goals@ == before.goals@.update(i, goal),
        goal.goal_id == before.goals@[i].goal_id,
        goal_valid(goal),
        same_but_goals(after, before),
        after.next_goal_id == before.next_goal_id,
    ensures
        after.wf(),
{
    let was = before.goals@;
    let now = after.goals@;
    assert forall|a: int, b: int| 0 <= a < b < now.len() implies (#[trigger] now[a]).goal_id != (
    #[trigger] now[b]).goal_id by {
        assert(was[a].goal_id != was[b].goal_id);
    }
    assert forall|k: int| 0 <= k < now.len() implies {
        &&& 1 <= (#[trigger] now[k]).goal_id < after.next_goal_id
        &&& now[k].target_amount.wf()
        &&& now[k].current_amount.wf()
        &&& now[k].deadline matches Some(d) ==> d.wf()
    } by {
        assert(1 <= was[k].goal_id < before.next_goal_id);
    }
}

/// Why the progress of a goal is not set, if it is not.
pub open spec fn update_goal_amount_refusal(db: Ledger, goal_id: i64, new_amount: Money)
    -> Option<LedgerError> {
    if !new_amount.wf() {
        Some(LedgerError::InvalidValue)
    } else if !has_goal(db.goals@, goal_id) {
        Some(LedgerError::GoalNotFound)
    } else {
        None
    }
}

/// Sets how far a goal has come. The new amount takes the place of the old
/// one; it is not added to it.
pub fn update_goal_amount(db: &mut Ledger, goal_id: i64, new_amount: Money) -> (r: Result<
    (),
    LedgerError,
>)
    requires
        old(db).wf(),
    ensures
        final(db).wf(),
        r == match update_goal_amount_refusal(*old(db), goal_id, new_amount) {
            Some(e) => Err::<(), LedgerError>(e),
            None => Ok(()),
        },
        r is Err ==> final(db).same_as(*old(db)),
        same_but_goals(*final(db), *old(db)),
        final(db).next_goal_id == old(db).next_goal_id,
        r is Ok ==> final(db).goals@ == old(db).goals@.update(
            goal_index(old(db).goals@, goal_id),
            SavingsGoal {
                current_amount: new_amount,
                ..old(db).goals@[goal_index(old(db).goals@, goal_id)]
            },
        ),
{
    if !new_amount.is_valid() {
        return Err(LedgerError::InvalidValue);
    }
    let i: usize = match find_goal(db, goal_id) {
        Some(i) => i,
        None => {
            return Err(LedgerError::GoalNotFound);
        },
    };
    let mut goal = db.goals.remove(i);
    goal.current_amount = new_amount;
    let ghost kept = goal;
    db.goals.insert(i, goal);
    proof {
        assert(db.goals@ =~= old(db).goals@.update(i as int, kept));
        lemma_goal_replaced(*old(db), *db, i as int, kept);
    }
    Ok(())
}

/// All savings goals, the one that is due soonest first; goals without a
/// deadline come before all others, and goals that are due together stand
/// in the order of the table.
pub fn get_all_saving_goals(db: &Ledger) -> (r: Vec<SavingsGoal>)
    requires
        db.wf(),
    ensures
        r@ == listing(db.goals@),
{
    listed(&db.goals)
}

} // verus!
