//! The categories that every ledger starts with.

use crate::error::LedgerError;
use crate::ledger::{has_category, Ledger};
use crate::models::Category;
use crate::queries::lemma_more_categories;
use vstd::prelude::*;

verus! {

/// The number of fixed categories; their ids run from 1 to this.
pub const FIXED_CATEGORIES: i64 = 12;

/// The name of the fixed category with the id.
pub open spec fn fixed_name(id: int) -> Seq<char> {
    if id == 1 {
        "Salary"@
    } else if id == 2 {
        "Bonus"@
    } else if id == 3 {
        "Investment"@
    } else if id == 4 {
        "Food"@
    } else if id == 5 {
        "Transport"@
    } else if id == 6 {
        "Rent"@
    } else if id == 7 {
        "Shopping"@
    } else if id == 8 {
        "Utilities"@
    } else if id == 9 {
        "Entertainment"@
    } else if id == 10 {
        "Health"@
    } else if id == 11 {
        "Education"@
    } else {
        "Travel"@
    }
}

/// The kind of the fixed category with the id: the first three are income.
pub open spec fn fixed_kind(id: int) -> Seq<char> {
    if id <= 3 {
        "Income"@
    } else {
        "Expense"@
    }
}

/// Whether a category is the fixed one of its id.
pub open spec fn is_fixed(category: Category) -> bool {
    &&& 1 <= category.category_id <= FIXED_CATEGORIES
    &&& category.category_name@ == fixed_name(category.category_id as int)
    &&& category.category_type@ == fixed_kind(category.category_id as int)
    &&& category.icon@.len() == 0
}

/// The fixed category with the id.
pub fn fixed_category(id: i64) -> (r: Category)
    requires
        1 <= id <= FIXED_CATEGORIES,
    ensures
        r.category_id == id,
        is_fixed(r),
{
    let name: &str = if id == 1 {
        "Salary"
    } else if id == 2 {
        "Bonus"
    } else if id == 3 {
        "Investment"
    } else if id == 4 {
        "Food"
    } else if id == 5 {
        "Transport"
    } else if id == 6 {
        "Rent"
    } else if id == 7 {
        "Shopping"
    } else if id == 8 {
        "Utilities"
    } else if id == 9 {
        "Entertainment"
    } else if id == 10 {
        "Health"
    } else if id == 11 {
        "Education"
    } else {
        "Travel"
    };
    let kind: &str = if id <= 3 {
        "Income"
    } else {
        "Expense"
    };
    Category {
        category_id: id,
        category_name: name.to_owned(),
        category_type: kind.to_owned(),
        icon: String::new(),
    }
}

/// Makes sure that the twelve fixed categories are there. A category is
/// added only where none has its id, so doing this again changes nothing.
pub fn seed_fixed_categories(db: &mut Ledger) -> (r: Result<(), LedgerError>)
    requires
        old(db).wf(),
    ensures
        final(db).wf(),
        r is Ok,
        forall|id: i64| 1 <= id <= FIXED_CATEGORIES ==> has_category(final(db).categories@, id),
        old(db).categories@.len() <= final(db).categories@.len(),
        final(db).categories@.take(old(db).categories@.len() as int) == old(db).categories@,
        forall|i: int|
            old(db).categories@.len() <= i < final(db).categories@.len() ==> is_fixed(
                #[trigger] final(db).categories@[i],
            ) && !has_category(old(db).categories@, final(db).categories@[i].category_id),
        (forall|id: i64| 1 <= id <= FIXED_CATEGORIES ==> has_category(old(db).categories@, id))
            ==> final(db).same_as(*old(db)),
        final(db).next_category_id == if old(db).next_category_id > FIXED_CATEGORIES {
            old(db).next_category_id
        } else {
            (FIXED_CATEGORIES + 1) as i64
        },
        final(db).accounts@ == old(db).accounts@,
        final(db).transactions@ == old(db).transactions@,
        final(db).same_side(*old(db)),
        final(db).next_account_id == old(db).next_account_id,
        final(db).next_transaction_id == old(db).next_transaction_id,
{
    let ghost was = db.categories@;
    let mut id: i64 = 1;
    while id <= FIXED_CATEGORIES
        invariant
            1 <= id <= FIXED_CATEGORIES + 1,
            old(db).wf(),
            was == old(db).categories@,
            db.accounts@ == old(db).accounts@,
            db.transactions@ == old(db).transactions@,
            db.same_side(*old(db)),
            db.next_account_id == old(db).next_account_id,
            db.next_transaction_id == old(db).next_transaction_id,
            db.next_category_id == old(db).next_category_id,
            was.len() <= db.categories@.len(),
            db.categories@.take(was.len() as int) == was,
            crate::ledger::distinct_category_ids(db.categories@),
            forall|i: int|
                was.len() <= i < db.categories@.len() ==> is_fixed(#[trigger] db.categories@[i])
                    && !has_category(was, db.categories@[i].category_id)
                    && db.categories@[i].category_id < id,
            forall|k: i64| 1 <= k < id ==> has_category(db.categories@, k),
            (forall|k: i64| 1 <= k < id ==> has_category(was, k)) ==> db.categories@ == was,
        decreases FIXED_CATEGORIES + 1 - id,
    {
        let ghost before = db.categories@;
        if db.find_category(id).is_none() {
            db.categories.push(fixed_category(id));
            proof {
                let now = db.categories@;
                assert forall|i: int| 0 <= i < before.len() implies #[trigger] now[i]
                    == before[i] by {}
                assert(now.take(was.len() as int) =~= before.take(was.len() as int));
                assert forall|a: int, b: int| 0 <= a < b < now.len() implies (
                #[trigger] now[a]).category_id != (#[trigger] now[b]).category_id by {
                    if b < before.len() {
                        assert(before[a].category_id != before[b].category_id);
                    } else {
                        assert(before[a].category_id != id);
                    }
                }
                assert(!has_category(was, id)) by {
                    if has_category(was, id) {
                        let x = choose|x: int|
                            0 <= x < was.len() && (#[trigger] was[x]).category_id == id;
                        assert(before.take(was.len() as int)[x] == before[x]);
                        assert(before[x].category_id == id);
                    }
                }
                assert(now[before.len() as int].category_id == id);
                assert forall|k: i64| 1 <= k < id + 1 implies has_category(now, k) by {
                    if k < id {
                        assert(has_category(before, k));
                        let x = choose|x: int|
                            0 <= x < before.len() && (#[trigger] before[x]).category_id == k;
                        assert(now[x].category_id == k);
                    }
                }
            }
        }
        id = id + 1;
    }
    if db.next_category_id <= FIXED_CATEGORIES {
        db.next_category_id = FIXED_CATEGORIES + 1;
    }
    proof {
        let now = db.categories@;
        assert forall|i: int| 0 <= i < now.len() implies 1 <= (#[trigger] now[i]).category_id
            < db.next_category_id by {
            if i < was.len() {
                assert(now.take(was.len() as int)[i] == now[i]);
                assert(1 <= was[i].category_id < old(db).next_category_id);
            }
        }
        lemma_more_categories(*old(db), *db);
        if forall|k: i64| 1 <= k <= FIXED_CATEGORIES ==> has_category(was, k) {
            assert(has_category(was, FIXED_CATEGORIES));
            let x = choose|x: int|
                0 <= x < was.len() && (#[trigger] was[x]).category_id == FIXED_CATEGORIES;
            assert(was[x].category_id < old(db).next_category_id);
        }
    }
    Ok(())
}

} // verus!
