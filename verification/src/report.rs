//! Figures drawn from the transactions.
//!
//! The reports read the ledger and change nothing. Their sums are exact; a
//! report whose sum does not fit an amount is refused rather than rounded.
//! They are views on the transactions, never a source for a balance.

use crate::dates::DateTime;
use crate::error::LedgerError;
use crate::ledger::{has_category, Ledger, BALANCE_PLACES};
use crate::models::{Category, CategorySpending, Transaction};
use crate::money::Money;
use crate::sorting::{listed, listing};
use crate::text::same_text;
use vstd::prelude::*;

verus! {

/// Whether a time lies in a span, both ends counted.
pub open spec fn in_span(t: DateTime, start: DateTime, end: DateTime) -> bool {
    start.stamp() <= t.stamp() <= end.stamp()
}

/// The place of the category with the id.
pub open spec fn category_index(categories: Seq<Category>, id: i64) -> int {
    choose|i: int| 0 <= i < categories.len() && (#[trigger] categories[i]).category_id == id
}

/// Where no two categories share an id, the place where an id was found is
/// its place.
pub proof fn lemma_category_found(categories: Seq<Category>, id: i64, i: int)
    requires
        crate::ledger::distinct_category_ids(categories),
        0 <= i < categories.len(),
        categories[i].category_id == id,
    ensures
        category_index(categories, id) == i,
{
    let c = category_index(categories, id);
    if c < i {
        assert(categories[c].category_id != categories[i].category_id);
    }
    if i < c {
        assert(categories[i].category_id != categories[c].category_id);
    }
}

/// The place of the first total for a category name, or -1.
pub open spec fn total_named(totals: Seq<CategorySpending>, name: Seq<char>) -> int
    decreases totals.len(),
{
    if totals.len() == 0 {
        -1
    } else {
        let earlier = total_named(totals.drop_last(), name);
        if earlier >= 0 {
            earlier
        } else if totals.last().category@ == name {
            totals.len() - 1
        } else {
            -1
        }
    }
}

/// What the place of the first total of a name is.
pub proof fn lemma_total_named(totals: Seq<CategorySpending>, name: Seq<char>)
    ensures
        -1 <= total_named(totals, name) < totals.len(),
        total_named(totals, name) >= 0 ==> totals[total_named(totals, name)].category@ == name,
        forall|i: int|
            0 <= i < totals.len() && (total_named(totals, name) < 0 || i < total_named(
                totals,
                name,
            )) ==> (#[trigger] totals[i]).category@ != name,
    decreases totals.len(),
{
    if totals.len() > 0 {
        let shorter = totals.drop_last();
        lemma_total_named(shorter, name);
        assert forall|i: int|
            0 <= i < totals.len() && (total_named(totals, name) < 0 || i < total_named(
                totals,
                name,
            )) implies (#[trigger] totals[i]).category@ != name by {
            if i < shorter.len() {
                assert(shorter[i] == totals[i]);
            }
        }
    }
}

/// The totals after one more amount for a category: added to the total of
/// that name, or a new total at the end.
pub open spec fn with_spending(totals: Seq<CategorySpending>, name: String, amount: Money)
    -> Option<Seq<CategorySpending>> {
    let at = total_named(totals, name@);
    if at < 0 {
        Some(totals.push(CategorySpending { category: name, total_amount: amount }))
    } else {
        match totals[at].total_amount.add_spec(amount) {
            Some(sum) => Some(
                totals.update(
                    at,
                    CategorySpending { category: totals[at].category, total_amount: sum },
                ),
            ),
            None => None,
        }
    }
}

/// Whether a transaction counts as spending in a span.
pub open spec fn is_spending(t: Transaction, start: DateTime, end: DateTime) -> bool {
    t.is_expense && in_span(t.transacted_at, start, end)
}

/// The amounts of the expenses in a span, added up by the name of their
/// category, in the order in which the names first occur.
pub open spec fn spending_totals(
    transactions: Seq<Transaction>,
    categories: Seq<Category>,
    start: DateTime,
    end: DateTime,
) -> Option<Seq<CategorySpending>>
    decreases transactions.len(),
{
    if transactions.len() == 0 {
        Some(Seq::empty())
    } else {
        let last = transactions.last();
        match spending_totals(transactions.drop_last(), categories, start, end) {
            None => None,
            Some(totals) => if is_spending(last, start, end) {
                with_spending(
                    totals,
                    categories[category_index(categories, last.category_id)].category_name,
                    last.amount,
                )
            } else {
                Some(totals)
            },
        }
    }
}

/// Adds an amount to the totals.
fn add_spending(totals: &mut Vec<CategorySpending>, name: &String, amount: Money) -> (fits: bool)
    requires
        amount.wf(),
        forall|i: int| 0 <= i < old(totals)@.len() ==> (#[trigger] old(totals)@[i]).total_amount.wf(),
    ensures
        fits == (with_spending(old(totals)@, *name, amount) is Some),
        fits ==> Some(final(totals)@) == with_spending(old(totals)@, *name, amount),
        !fits ==> final(totals)@ == old(totals)@,
        forall|i: int| 0 <= i < final(totals)@.len() ==> (#[trigger] final(totals)@[i]).total_amount.wf(),
{
    let mut i: usize = 0;
    while i < totals.len() && !same_text(totals[i].category.as_str(), name.as_str())
        invariant
            i <= totals.len(),
            *totals == *old(totals),
            forall|k: int| 0 <= k < i ==> (#[trigger] totals@[k]).category@ != name@,
        decreases totals.len() - i,
    {
        i = i + 1;
    }
    proof {
        lemma_total_named(totals@, name@);
        let at = total_named(totals@, name@);
        if i < totals@.len() {
            if at < 0 || i < at {
                assert(totals@[i as int].category@ != name@);
            }
            if 0 <= at < i {
                assert(totals@[at].category@ != name@);
            }
        } else if at >= 0 {
            assert(totals@[at].category@ != name@);
        }
    }
    if i < totals.len() {
        match totals[i].total_amount.checked_add(&amount) {
            Some(sum) => {
                let mut entry = totals.remove(i);
                entry.total_amount = sum;
                totals.insert(i, entry);
                proof {
                    assert(totals@ =~= old(totals)@.update(
                        i as int,
                        CategorySpending {
                            category: old(totals)@[i as int].category,
                            total_amount: sum,
                        },
                    ));
                }
                true
            },
            None => false,
        }
    } else {
        totals.push(CategorySpending { category: name.clone(), total_amount: amount });
        true
    }
}

/// Why the spending report is refused, if it is.
pub open spec fn spending_report_refusal(db: Ledger, start: DateTime, end: DateTime) -> Option<
    LedgerError,
> {
    if !start.wf() || !end.wf() {
        Some(LedgerError::InvalidValue)
    } else if spending_totals(db.transactions@, db.categories@, start, end) is None {
        Some(LedgerError::Overflow)
    } else {
        None
    }
}

/// What was spent in each category between two times, both counted: the
/// amounts of the expenses, added up by the name of their category, the
/// largest total first.
pub fn get_category_spending_report(db: &Ledger, start_date: DateTime, end_date: DateTime) -> (r:
    Result<Vec<CategorySpending>, LedgerError>)
    requires
        db.wf(),
    ensures
        r is Err <==> spending_report_refusal(*db, start_date, end_date) is Some,
        r matches Err(e) ==> spending_report_refusal(*db, start_date, end_date) == Some(e),
        r matches Ok(rows) ==> rows@ == listing(
            spending_totals(db.transactions@, db.categories@, start_date, end_date)->0,
        ),
{
    if !start_date.is_valid() || !end_date.is_valid() {
        return Err(LedgerError::InvalidValue);
    }
    let mut totals: Vec<CategorySpending> = Vec::new();
    let mut i: usize = 0;
    while i < db.transactions.len()
        invariant
            i <= db.transactions.len(),
            db.wf(),
            start_date.wf(),
            end_date.wf(),
            spending_totals(db.transactions@.take(i as int), db.categories@, start_date, end_date)
                == Some(totals@),
            forall|k: int| 0 <= k < totals@.len() ==> (#[trigger] totals@[k]).total_amount.wf(),
        decreases db.transactions.len() - i,
    {
        proof {
            assert(db.transactions@.take(i + 1).drop_last() =~= db.transactions@.take(i as int));
            assert(db.transactions@[i as int].wf());
            assert(has_category(db.categories@, db.transactions@[i as int].category_id));
        }
        let row = &db.transactions[i];
        if row.is_expense && !row.transacted_at.before(&start_date) && !end_date.before(
            &row.transacted_at,
        ) {
            let at: usize = db.find_category(row.category_id).unwrap();
            proof {
                lemma_category_found(db.categories@, row.category_id, at as int);
            }
            let fits = add_spending(&mut totals, &db.categories[at].category_name, row.amount);
            if !fits {
                proof {
                    lemma_totals_none_stays(
                        db.transactions@,
                        (i + 1) as int,
                        db.categories@,
                        start_date,
                        end_date,
                    );
                }
                return Err(LedgerError::Overflow);
            }
        }
        i = i + 1;
    }
    proof {
        assert(db.transactions@.take(i as int) =~= db.transactions@);
    }
    Ok(listed(&totals))
}

/// Once the totals of a part of the table do not fit, those of the whole do
/// not.
pub proof fn lemma_totals_none_stays(
    transactions: Seq<Transaction>,
    n: int,
    categories: Seq<Category>,
    start: DateTime,
    end: DateTime,
)
    requires
        0 <= n <= transactions.len(),
        spending_totals(transactions.take(n), categories, start, end) is None,
    ensures
        spending_totals(transactions, categories, start, end) is None,
    decreases transactions.len() - n,
{
    if n < transactions.len() {
        assert(transactions.take(n + 1).drop_last() =~= transactions.take(n));
        lemma_totals_none_stays(transactions, n + 1, categories, start, end);
    } else {
        assert(transactions.take(n) =~= transactions);
    }
}

/// The sum of the base amounts of all transactions, expenses counted
/// negative, added up in the order of the rows; `None` where a partial sum
/// does not fit.
pub open spec fn base_total(transactions: Seq<Transaction>) -> Option<Money>
    decreases transactions.len(),
{
    if transactions.len() == 0 {
        Some(Money::zero_spec())
    } else {
        let last = transactions.last();
        match base_total(transactions.drop_last()) {
            None => None,
            Some(so_far) => so_far.add_spec(
                if last.is_expense {
                    last.base_amount.negate_spec()
                } else {
                    last.base_amount
                },
            ),
        }
    }
}

/// Once a partial sum of base amounts does not fit, no longer one does.
pub proof fn lemma_base_total_none_stays(transactions: Seq<Transaction>, n: int)
    requires
        0 <= n <= transactions.len(),
        base_total(transactions.take(n)) is None,
    ensures
        base_total(transactions) is None,
    decreases transactions.len() - n,
{
    if n < transactions.len() {
        assert(transactions.take(n + 1).drop_last() =~= transactions.take(n));
        lemma_base_total_none_stays(transactions, n + 1);
    } else {
        assert(transactions.take(n) =~= transactions);
    }
}

/// What all accounts together have gained: the base amounts of all
/// transactions, income counted for and expenses against, rounded to two
/// places.
pub fn net_savings(db: &Ledger) -> (r: Result<Money, LedgerError>)
    requires
        db.wf(),
    ensures
        r == match base_total(db.transactions@) {
            Some(total) => Ok::<Money, LedgerError>(total.round_spec(BALANCE_PLACES)),
            None => Err(LedgerError::Overflow),
        },
        r matches Ok(m) ==> m.wf(),
{
    let mut total = Money::zero();
    let mut i: usize = 0;
    while i < db.transactions.len()
        invariant
            i <= db.transactions.len(),
            db.wf(),
            total.wf(),
            base_total(db.transactions@.take(i as int)) == Some(total),
        decreases db.transactions.len() - i,
    {
        proof {
            assert(db.transactions@.take(i + 1).drop_last() =~= db.transactions@.take(i as int));
            assert(db.transactions@[i as int].wf());
        }
        let row = &db.transactions[i];
        let signed = if row.is_expense {
            row.base_amount.negate()
        } else {
            row.base_amount
        };
        match total.checked_add(&signed) {
            Some(t) => {
                total = t;
            },
            None => {
                proof {
                    lemma_base_total_none_stays(db.transactions@, (i + 1) as int);
                }
                return Err(LedgerError::Overflow);
            },
        }
        i = i + 1;
    }
    proof {
        assert(db.transactions@.take(i as int) =~= db.transactions@);
    }
    Ok(total.round(BALANCE_PLACES))
}

/// The place of the first total for a category id, or -1.
pub open spec fn total_for(totals: Seq<(i64, Money)>, category_id: i64) -> int
    decreases totals.len(),
{
    if totals.len() == 0 {
        -1
    } else {
        let earlier = total_for(totals.drop_last(), category_id);
        if earlier >= 0 {
            earlier
        } else if totals.last().0 == category_id {
            totals.len() - 1
        } else {
            -1
        }
    }
}

/// What the place of the first total of a category is.
pub proof fn lemma_total_for(totals: Seq<(i64, Money)>, category_id: i64)
    ensures
        -1 <= total_for(totals, category_id) < totals.len(),
        total_for(totals, category_id) >= 0 ==> totals[total_for(totals, category_id)].0
            == category_id,
        forall|i: int|
            0 <= i < totals.len() && (total_for(totals, category_id) < 0 || i < total_for(
                totals,
                category_id,
            )) ==> (#[trigger] totals[i]).0 != category_id,
    decreases totals.len(),
{
    if totals.len() > 0 {
        let shorter = totals.drop_last();
        lemma_total_for(shorter, category_id);
        assert forall|i: int|
            0 <= i < totals.len() && (total_for(totals, category_id) < 0 || i < total_for(
                totals,
                category_id,
            )) implies (#[trigger] totals[i]).0 != category_id by {
            if i < shorter.len() {
                assert(shorter[i] == totals[i]);
            }
        }
    }
}

/// The totals after one more amount for a category id.
pub open spec fn with_amount(totals: Seq<(i64, Money)>, category_id: i64, amount: Money) -> Option<
    Seq<(i64, Money)>,
> {
    let at = total_for(totals, category_id);
    if at < 0 {
        Some(totals.push((category_id, amount)))
    } else {
        match totals[at].1.add_spec(amount) {
            Some(sum) => Some(totals.update(at, (category_id, sum))),
            None => None,
        }
    }
}

/// The base amounts of the transactions that were recorded in a span, added
/// up by category, in the order in which the categories first occur.
pub open spec fn summary_totals(transactions: Seq<Transaction>, start: DateTime, end: DateTime)
    -> Option<Seq<(i64, Money)>>
    decreases transactions.len(),
{
    if transactions.len() == 0 {
        Some(Seq::empty())
    } else {
        let last = transactions.last();
        match summary_totals(transactions.drop_last(), start, end) {
            None => None,
            Some(totals) => if in_span(last.trans_create_at, start, end) {
                with_amount(totals, last.category_id, last.base_amount)
            } else {
                Some(totals)
            },
        }
    }
}

/// Once the totals of a part of the table do not fit, those of the whole do
/// not.
pub proof fn lemma_summary_none_stays(
    transactions: Seq<Transaction>,
    n: int,
    start: DateTime,
    end: DateTime,
)
    requires
        0 <= n <= transactions.len(),
        summary_totals(transactions.take(n), start, end) is None,
    ensures
        summary_totals(transactions, start, end) is None,
    decreases transactions.len() - n,
{
    if n < transactions.len() {
        assert(transactions.take(n + 1).drop_last() =~= transactions.take(n));
        lemma_summary_none_stays(transactions, n + 1, start, end);
    } else {
        assert(transactions.take(n) =~= transactions);
    }
}

/// Why the summary is refused, if it is.
pub open spec fn summary_refusal(db: Ledger, start: DateTime, end: DateTime) -> Option<
    LedgerError,
> {
    if !start.wf() || !end.wf() {
        Some(LedgerError::InvalidValue)
    } else if summary_totals(db.transactions@, start, end) is None {
        Some(LedgerError::Overflow)
    } else {
        None
    }
}

/// The base amounts of the transactions that were recorded between two
/// times, both counted, added up for each category.
pub fn monthly_summary(db: &Ledger, start: &DateTime, end: &DateTime) -> (r: Result<
    Vec<(i64, Money)>,
    LedgerError,
>)
    requires
        db.wf(),
    ensures
        r is Err <==> summary_refusal(*db, *start, *end) is Some,
        r matches Err(e) ==> summary_refusal(*db, *start, *end) == Some(e),
        r matches Ok(rows) ==> Some(rows@) == summary_totals(db.transactions@, *start, *end),
{
    if !start.is_valid() || !end.is_valid() {
        return Err(LedgerError::InvalidValue);
    }
    let mut totals: Vec<(i64, Money)> = Vec::new();
    let mut i: usize = 0;
    while i < db.transactions.len()
        invariant
            i <= db.transactions.len(),
            db.wf(),
            start.wf(),
            end.wf(),
            summary_totals(db.transactions@.take(i as int), *start, *end) == Some(totals@),
            forall|k: int| 0 <= k < totals@.len() ==> (#[trigger] totals@[k]).1.wf(),
        decreases db.transactions.len() - i,
    {
        proof {
            assert(db.transactions@.take(i + 1).drop_last() =~= db.transactions@.take(i as int));
            assert(db.transactions@[i as int].wf());
        }
        let row = &db.transactions[i];
        if !row.trans_create_at.before(start) && !end.before(&row.trans_create_at) {
            let id: i64 = row.category_id;
            let mut at: usize = 0;
            while at < totals.len() && totals[at].0 != id
                invariant
                    at <= totals.len(),
                    forall|k: int| 0 <= k < at ==> (#[trigger] totals@[k]).0 != id,
                decreases totals.len() - at,
            {
                at = at + 1;
            }
            proof {
                lemma_total_for(totals@, id);
                let first = total_for(totals@, id);
                if at < totals@.len() {
                    if first < 0 || at < first {
                        assert(totals@[at as int].0 != id);
                    }
                    if 0 <= first < at {
                        assert(totals@[first].0 != id);
                    }
                } else if first >= 0 {
                    assert(totals@[first].0 != id);
                }
            }
            if at < totals.len() {
                match totals[at].1.checked_add(&row.base_amount) {
                    Some(sum) => {
                        let ghost before = totals@;
                        totals.remove(at);
                        totals.insert(at, (id, sum));
                        proof {
                            assert(totals@ =~= before.update(at as int, (id, sum)));
                        }
                    },
                    None => {
                        proof {
                            lemma_summary_none_stays(
                                db.transactions@,
                                (i + 1) as int,
                                *start,
                                *end,
                            );
                        }
                        return Err(LedgerError::Overflow);
                    },
                }
            } else {
                totals.push((id, row.base_amount));
            }
        }
        i = i + 1;
    }
    proof {
        assert(db.transactions@.take(i as int) =~= db.transactions@);
    }
    Ok(totals)
}

} // verus!
