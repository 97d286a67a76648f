//! The operations on the tables, row by row.
//!
//! Each takes the ledger where a database handle would stand. Those that
//! change something keep the ledger's invariant, and leave the ledger alone
//! when they refuse.

use crate::dates::DateTime;
use crate::error::LedgerError;
use crate::ledger::{
    account_index, balance_for, has_account, has_category, lemma_sum_without_rows, sum_for,
    Ledger,
};
use crate::models::{Account, Category, CurrencyRate, Transaction};
use crate::money::Money;
use crate::sorting::{listed, listing, Row};
use crate::text::{same_text, trim, trimmed};
use vstd::prelude::*;

verus! {

/// The rows that are left when an account's transactions are taken away, in
/// their old order.
pub open spec fn rows_without(transactions: Seq<Transaction>, account_id: i64) -> Seq<
    Transaction,
>
    decreases transactions.len(),
{
    if transactions.len() == 0 {
        Seq::empty()
    } else {
        let rest = rows_without(transactions.drop_last(), account_id);
        if transactions.last().account_id == account_id {
            rest
        } else {
            rest.push(transactions.last())
        }
    }
}

/// The rows of one account, in their old order.
pub open spec fn rows_of(transactions: Seq<Transaction>, account_id: i64) -> Seq<Transaction>
    decreases transactions.len(),
{
    if transactions.len() == 0 {
        Seq::empty()
    } else {
        let rest = rows_of(transactions.drop_last(), account_id);
        if transactions.last().account_id == account_id {
            rest.push(transactions.last())
        } else {
            rest
        }
    }
}

/// What is left of a table after a selection is a part of the table: every
/// row that is left was there, belongs to another account, and stands after
/// the rows that stood before it.
pub proof fn lemma_rows_without(transactions: Seq<Transaction>, account_id: i64)
    ensures
        rows_without(transactions, account_id).len() <= transactions.len(),
        forall|k: int|
            0 <= k < rows_without(transactions, account_id).len() ==> {
                &&& (#[trigger] rows_without(transactions, account_id)[k]).account_id
                    != account_id
                &&& exists|j: int|
                    k <= j < transactions.len() && transactions[j] == rows_without(
                        transactions,
                        account_id,
                    )[k]
            },
        crate::ledger::ascending_transaction_ids(transactions)
            ==> crate::ledger::ascending_transaction_ids(rows_without(transactions, account_id)),
        forall|j: int|
            0 <= j < transactions.len() && (#[trigger] transactions[j]).account_id != account_id
                ==> rows_without(transactions, account_id).contains(transactions[j]),
    decreases transactions.len(),
{
    let left = rows_without(transactions, account_id);
    if transactions.len() > 0 {
        let shorter = transactions.drop_last();
        let rest = rows_without(shorter, account_id);
        lemma_rows_without(shorter, account_id);
        assert forall|k: int| 0 <= k < left.len() implies {
            &&& (#[trigger] left[k]).account_id != account_id
            &&& exists|j: int| k <= j < transactions.len() && transactions[j] == left[k]
        } by {
            if k < rest.len() {
                assert(left[k] == rest[k]);
                let j = choose|j: int| k <= j < shorter.len() && shorter[j] == rest[k];
                assert(transactions[j] == left[k]);
            } else {
                assert(transactions[transactions.len() - 1] == left[k]);
            }
        }
        if crate::ledger::ascending_transaction_ids(transactions) {
            assert(crate::ledger::ascending_transaction_ids(shorter)) by {
                assert forall|i: int, j: int| 0 <= i < j < shorter.len() implies (
                #[trigger] shorter[i]).transaction_id < (#[trigger] shorter[j]).transaction_id by {
                    assert(transactions[i].transaction_id < transactions[j].transaction_id);
                }
            }
            assert forall|a: int, b: int| 0 <= a < b < left.len() implies (
            #[trigger] left[a]).transaction_id < (#[trigger] left[b]).transaction_id by {
                if b < rest.len() {
                    assert(rest[a].transaction_id < rest[b].transaction_id);
                } else {
                    let j = choose|j: int| a <= j < shorter.len() && shorter[j] == rest[a];
                    assert(transactions[j].transaction_id < transactions[transactions.len()
                        - 1].transaction_id);
                }
            }
        }
        assert forall|j: int|
            0 <= j < transactions.len() && (#[trigger] transactions[j]).account_id
                != account_id implies left.contains(transactions[j]) by {
            if j < shorter.len() {
                assert(shorter[j] == transactions[j]);
                assert(rest.contains(shorter[j]));
                let k = choose|k: int| 0 <= k < rest.len() && rest[k] == shorter[j];
                assert(left[k] == transactions[j]);
            } else {
                assert(left[left.len() - 1] == transactions[j]);
            }
        }
    }
}

/// Taking one account's rows away leaves the sums of all other accounts as
/// they were.
pub proof fn lemma_sum_rows_without(transactions: Seq<Transaction>, gone: i64, other: i64)
    requires
        gone != other,
    ensures
        sum_for(rows_without(transactions, gone), other) == sum_for(transactions, other),
    decreases transactions.len(),
{
    if transactions.len() > 0 {
        let shorter = transactions.drop_last();
        lemma_sum_rows_without(shorter, gone, other);
        if transactions.last().account_id != gone {
            crate::ledger::lemma_sum_push(
                rows_without(shorter, gone),
                transactions.last(),
                other,
            );
        }
    }
}

/// Why an account is not created, if it is not.
pub open spec fn create_account_refusal(db: Ledger, account_name: Seq<char>, now: DateTime)
    -> Option<LedgerError> {
    if trimmed(account_name).len() == 0 {
        Some(LedgerError::EmptyName)
    } else if !now.wf() {
        Some(LedgerError::InvalidValue)
    } else if db.next_account_id == i64::MAX {
        Some(LedgerError::IdsExhausted)
    } else {
        None
    }
}

/// Opens an account with a balance of zero and no transactions, and gives
/// its id. A name that is empty or all white space is refused.
pub fn create_account(
    db: &mut Ledger,
    account_name: &str,
    account_type: &str,
    currency: &str,
    now: DateTime,
) -> (r: Result<i64, LedgerError>)
    requires
        old(db).wf(),
    ensures
        final(db).wf(),
        r == match create_account_refusal(*old(db), account_name@, now) {
            Some(e) => Err::<i64, LedgerError>(e),
            None => Ok(old(db).next_account_id),
        },
        r is Err ==> final(db).same_as(*old(db)),
        r is Ok ==> {
            &&& final(db).same_but_accounts(
                Ledger { next_account_id: final(db).next_account_id, ..*old(db) },
            )
            &&& final(db).next_account_id == old(db).next_account_id + 1
            &&& final(db).accounts@.len() == old(db).accounts@.len() + 1
            &&& final(db).accounts@.drop_last() == old(db).accounts@
            &&& final(db).accounts@.last().account_id == old(db).next_account_id
            &&& final(db).accounts@.last().account_name@ == account_name@
            &&& final(db).accounts@.last().account_type@ == account_type@
            &&& final(db).accounts@.last().balance == Money::zero_spec()
            &&& final(db).accounts@.last().currency matches Some(c) && c@ == currency@
            &&& final(db).accounts@.last().account_created_at == now
            &&& forall|k: int|
                0 <= k < final(db).transactions@.len() ==> (
                #[trigger] final(db).transactions@[k]).account_id != old(db).next_account_id
        },
{
    if trim(account_name).is_empty() {
        return Err(LedgerError::EmptyName);
    }
    if !now.is_valid() {
        return Err(LedgerError::InvalidValue);
    }
    if db.next_account_id == i64::MAX {
        return Err(LedgerError::IdsExhausted);
    }
    let id: i64 = db.next_account_id;
    let account = Account {
        account_id: id,
        account_name: account_name.to_owned(),
        account_type: account_type.to_owned(),
        balance: Money::zero(),
        currency: Some(currency.to_owned()),
        account_created_at: now,
    };
    db.accounts.push(account);
    db.next_account_id = id + 1;
    proof {
        let before = old(db).accounts@;
        let after = db.accounts@;
        let rows = db.transactions@;
        assert(after.drop_last() =~= before);
        assert forall|k: int| 0 <= k < rows.len() implies {
            &&& (#[trigger] rows[k]).wf()
            &&& has_account(after, rows[k].account_id)
            &&& has_category(db.categories@, rows[k].category_id)
            &&& rows[k].account_id != id
        } by {
            assert(has_account(before, rows[k].account_id));
            let i = choose|i: int|
                0 <= i < before.len() && (#[trigger] before[i]).account_id == rows[k].account_id;
            assert(after[i] == before[i]);
        }
        lemma_sum_without_rows(rows, id);
        assert forall|i: int| 0 <= i < after.len() implies balance_for(
            rows,
            (#[trigger] after[i]).account_id,
        ) == Some(after[i].balance) by {
            if i < before.len() {
                assert(after[i] == before[i]);
            }
        }
    }
    Ok(id)
}

/// The account with the id.
pub fn get_account_by_id(db: &Ledger, account_id: i64) -> (r: Result<Account, LedgerError>)
    requires
        db.wf(),
    ensures
        r is Ok <==> has_account(db.accounts@, account_id),
        r matches Ok(a) ==> a == db.accounts@[account_index(db.accounts@, account_id)]
            && a.account_id == account_id,
        r matches Err(e) ==> e == LedgerError::AccountNotFound,
{
    match db.find_account(account_id) {
        Some(i) => {
            proof {
                let c = account_index(db.accounts@, account_id);
                if c < i {
                    assert(db.accounts@[c].account_id < db.accounts@[i as int].account_id);
                }
                if i < c {
                    assert(db.accounts@[i as int].account_id < db.accounts@[c].account_id);
                }
            }
            Ok(db.accounts[i].duplicate())
        },
        None => Err(LedgerError::AccountNotFound),
    }
}

/// All accounts, in the order of their ids.
pub fn get_all_accounts(db: &Ledger) -> (r: Vec<Account>)
    requires
        db.wf(),
    ensures
        r@ == db.accounts@,
        crate::ledger::ascending_account_ids(r@),
{
    let mut out: Vec<Account> = Vec::new();
    let mut i: usize = 0;
    while i < db.accounts.len()
        invariant
            i <= db.accounts.len(),
            out@ == db.accounts@.take(i as int),
        decreases db.accounts.len() - i,
    {
        out.push(db.accounts[i].duplicate());
        proof {
            assert(db.accounts@.take(i + 1) =~= db.accounts@.take(i as int).push(
                db.accounts@[i as int],
            ));
        }
        i = i + 1;
    }
    proof {
        assert(db.accounts@.take(i as int) =~= db.accounts@);
    }
    out
}

/// Deletes an account together with all its transactions. The answer says
/// whether there was such an account. No other account is touched, and no
/// transaction of the deleted account is left behind.
pub fn delete_account(db: &mut Ledger, account_id: i64) -> (r: Result<bool, LedgerError>)
    requires
        old(db).wf(),
    ensures
        final(db).wf(),
        r == Ok::<bool, LedgerError>(has_account(old(db).accounts@, account_id)),
        final(db).same_but_accounts(
            Ledger { transactions: final(db).transactions, ..*old(db) },
        ),
        !has_account(old(db).accounts@, account_id) ==> final(db).same_as(*old(db)),
        has_account(old(db).accounts@, account_id) ==> {
            &&& final(db).transactions@ == rows_without(old(db).transactions@, account_id)
            &&& final(db).accounts@ == old(db).accounts@.remove(
                account_index(old(db).accounts@, account_id),
            )
        },
        !has_account(final(db).accounts@, account_id),
        forall|k: int|
            0 <= k < final(db).transactions@.len() ==> (
            #[trigger] final(db).transactions@[k]).account_id != account_id,
{
    let j: usize = match db.find_account(account_id) {
        Some(j) => j,
        None => {
            proof {
                assert forall|k: int| 0 <= k < db.transactions@.len() implies (
                #[trigger] db.transactions@[k]).account_id != account_id by {
                    assert(has_account(db.accounts@, db.transactions@[k].account_id));
                }
            }
            return Ok(false);
        },
    };
    proof {
        let c = account_index(db.accounts@, account_id);
        if c < j {
            assert(db.accounts@[c].account_id < db.accounts@[j as int].account_id);
        }
        if j < c {
            assert(db.accounts@[j as int].account_id < db.accounts@[c].account_id);
        }
    }
    let mut kept: Vec<Transaction> = Vec::new();
    let mut i: usize = 0;
    while i < db.transactions.len()
        invariant
            i <= db.transactions.len(),
            kept@ == rows_without(db.transactions@.take(i as int), account_id),
        decreases db.transactions.len() - i,
    {
        proof {
            assert(db.transactions@.take(i + 1).drop_last() =~= db.transactions@.take(i as int));
        }
        if db.transactions[i].account_id != account_id {
            kept.push(db.transactions[i].duplicate());
        }
        i = i + 1;
    }
    proof {
        assert(db.transactions@.take(i as int) =~= db.transactions@);
    }
    db.transactions = kept;
    db.accounts.remove(j);
    proof {
        lemma_account_deleted(*old(db), *db, j as int);
    }
    Ok(true)
}

/// A ledger from which one account and all its rows were taken keeps the
/// invariant, and holds nothing of that account any more.
pub proof fn lemma_account_deleted(before: Ledger, after: Ledger, j: int)
    requires
        before.wf(),
        0 <= j < before.accounts@.len(),
        after.accounts@ == before.accounts@.remove(j),
        after.transactions@ == rows_without(
            before.transactions@,
            before.accounts@[j].account_id,
        ),
        after.same_but_accounts(Ledger { transactions: after.transactions, ..before }),
    ensures
        after.wf(),
        !has_account(after.accounts@, before.accounts@[j].account_id),
        forall|k: int|
            0 <= k < after.transactions@.len() ==> (#[trigger] after.transactions@[k]).account_id
                != before.accounts@[j].account_id,
{
    let account_id = before.accounts@[j].account_id;
    let was = before.transactions@;
    let rows = after.transactions@;
    let a = before.accounts@;
    let b = after.accounts@;
    lemma_rows_without(was, account_id);
    assert forall|i: int| 0 <= i < b.len() implies #[trigger] b[i] == a[if i < j {
        i
    } else {
        i + 1
    }] by {}
    assert forall|x: int, y: int| 0 <= x < y < b.len() implies (#[trigger] b[x]).account_id < (
    #[trigger] b[y]).account_id by {
        let p = if x < j { x } else { x + 1 };
        let q = if y < j { y } else { y + 1 };
        assert(a[p].account_id < a[q].account_id);
    }
    assert forall|i: int| 0 <= i < b.len() implies {
        &&& 1 <= (#[trigger] b[i]).account_id < after.next_account_id
        &&& b[i].account_created_at.wf()
        &&& b[i].account_id != account_id
        &&& balance_for(rows, b[i].account_id) == Some(b[i].balance)
    } by {
        let x = if i < j { i } else { i + 1 };
        assert(1 <= a[x].account_id < before.next_account_id);
        if x < j {
            assert(a[x].account_id < a[j].account_id);
        } else {
            assert(a[j].account_id < a[x].account_id);
        }
        lemma_sum_rows_without(was, account_id, b[i].account_id);
        assert(balance_for(was, a[x].account_id) == Some(a[x].balance));
    }
    assert forall|k: int| 0 <= k < rows.len() implies {
        &&& (#[trigger] rows[k]).wf()
        &&& has_account(b, rows[k].account_id)
        &&& has_category(after.categories@, rows[k].category_id)
        &&& 1 <= rows[k].transaction_id < after.next_transaction_id
    } by {
        let m = choose|m: int| k <= m < was.len() && was[m] == rows[k];
        assert(was[m].wf());
        assert(has_account(a, was[m].account_id));
        let x = choose|x: int| 0 <= x < a.len() && (#[trigger] a[x]).account_id == was[m].account_id;
        assert(x != j);
        let y = if x < j { x } else { x - 1 };
        assert(b[y] == a[x]);
    }
    assert(!has_account(b, account_id));
}

/// Changes the name and the kind of an account; the balance is not touched.
/// The answer says whether there was such an account.
pub fn update_account(
    db: &mut Ledger,
    account_id: i64,
    account_name: String,
    account_type: String,
) -> (r: Result<bool, LedgerError>)
    requires
        old(db).wf(),
    ensures
        final(db).wf(),
        r == Ok::<bool, LedgerError>(has_account(old(db).accounts@, account_id)),
        final(db).same_but_accounts(*old(db)),
        !has_account(old(db).accounts@, account_id) ==> final(db).same_as(*old(db)),
        has_account(old(db).accounts@, account_id) ==> final(db).accounts@ == old(db).accounts@.update(
            account_index(old(db).accounts@, account_id),
            Account {
                account_name,
                account_type,
                ..old(db).accounts@[account_index(old(db).accounts@, account_id)]
            },
        ),
{
    let j: usize = match db.find_account(account_id) {
        Some(j) => j,
        None => {
            return Ok(false);
        },
    };
    proof {
        let c = account_index(db.accounts@, account_id);
        if c < j {
            assert(db.accounts@[c].account_id < db.accounts@[j as int].account_id);
        }
        if j < c {
            assert(db.accounts@[j as int].account_id < db.accounts@[c].account_id);
        }
    }
    let mut account = db.accounts.remove(j);
    account.account_name = account_name;
    account.account_type = account_type;
    db.accounts.insert(j, account);
    proof {
        let before = old(db).accounts@;
        let after = db.accounts@;
        assert(after =~= before.update(
            j as int,
            Account { account_name, account_type, ..before[j as int] },
        ));
        lemma_renamed_accounts(*old(db), *db);
    }
    Ok(true)
}

/// A ledger whose accounts were changed in nothing but names, kinds and
/// currencies still keeps the invariant.
pub proof fn lemma_renamed_accounts(before: Ledger, after: Ledger)
    requires
        before.wf(),
        after.same_but_accounts(before),
        after.accounts@.len() == before.accounts@.len(),
        forall|i: int|
            0 <= i < before.accounts@.len() ==> {
                &&& (#[trigger] after.accounts@[i]).account_id == before.accounts@[i].account_id
                &&& after.accounts@[i].balance == before.accounts@[i].balance
                &&& after.accounts@[i].account_created_at
                    == before.accounts@[i].account_created_at
            },
    ensures
        after.wf(),
{
    let a = before.accounts@;
    let b = after.accounts@;
    assert forall|i: int, j: int| 0 <= i < j < b.len() implies (#[trigger] b[i]).account_id < (
    #[trigger] b[j]).account_id by {
        assert(a[i].account_id < a[j].account_id);
    }
    assert forall|i: int| 0 <= i < b.len() implies {
        &&& 1 <= (#[trigger] b[i]).account_id < after.next_account_id
        &&& b[i].account_created_at.wf()
        &&& balance_for(after.transactions@, b[i].account_id) == Some(b[i].balance)
    } by {
        assert(1 <= a[i].account_id < before.next_account_id);
        assert(balance_for(before.transactions@, a[i].account_id) == Some(a[i].balance));
    }
    assert forall|k: int| 0 <= k < after.transactions@.len() implies {
        &&& (#[trigger] after.transactions@[k]).wf()
        &&& has_account(b, after.transactions@[k].account_id)
        &&& has_category(after.categories@, after.transactions@[k].category_id)
    } by {
        let t = before.transactions@[k];
        assert(t.wf());
        assert(has_account(a, t.account_id));
        let x = choose|x: int| 0 <= x < a.len() && (#[trigger] a[x]).account_id == t.account_id;
        assert(b[x].account_id == t.account_id);
    }
}

/// Adds a category and gives its id.
pub fn create_category(db: &mut Ledger, category_name: &str, category_type: &str, icon: &str) -> (r:
    Result<i64, LedgerError>)
    requires
        old(db).wf(),
    ensures
        final(db).wf(),
        r == if old(db).next_category_id == i64::MAX {
            Err::<i64, LedgerError>(LedgerError::IdsExhausted)
        } else {
            Ok(old(db).next_category_id)
        },
        r is Err ==> final(db).same_as(*old(db)),
        r is Ok ==> {
            &&& final(db).accounts@ == old(db).accounts@
            &&& final(db).transactions@ == old(db).transactions@
            &&& final(db).same_side(*old(db))
            &&& final(db).next_account_id == old(db).next_account_id
            &&& final(db).next_transaction_id == old(db).next_transaction_id
            &&& final(db).next_category_id == old(db).next_category_id + 1
            &&& final(db).categories@.len() == old(db).categories@.len() + 1
            &&& final(db).categories@.drop_last() == old(db).categories@
            &&& final(db).categories@.last().category_id == old(db).next_category_id
            &&& final(db).categories@.last().category_name@ == category_name@
            &&& final(db).categories@.last().category_type@ == category_type@
            &&& final(db).categories@.last().icon@ == icon@
        },
{
    if db.next_category_id == i64::MAX {
        return Err(LedgerError::IdsExhausted);
    }
    let id: i64 = db.next_category_id;
    db.categories.push(
        Category {
            category_id: id,
            category_name: category_name.to_owned(),
            category_type: category_type.to_owned(),
            icon: icon.to_owned(),
        },
    );
    db.next_category_id = id + 1;
    proof {
        assert(db.categories@.take(old(db).categories@.len() as int) =~= old(db).categories@);
        assert(db.categories@.drop_last() =~= old(db).categories@);
        lemma_more_categories(*old(db), *db);
    }
    Ok(id)
}

/// A ledger that gained categories with ids it did not have, and changed in
/// nothing else but the counter of category ids, still keeps the invariant.
pub proof fn lemma_more_categories(before: Ledger, after: Ledger)
    requires
        before.wf(),
        after.accounts@ == before.accounts@,
        after.transactions@ == before.transactions@,
        after.same_side(before),
        after.next_account_id == before.next_account_id,
        after.next_transaction_id == before.next_transaction_id,
        before.categories@.len() <= after.categories@.len(),
        after.categories@.take(before.categories@.len() as int) == before.categories@,
        crate::ledger::distinct_category_ids(after.categories@),
        forall|i: int|
            0 <= i < after.categories@.len() ==> 1 <= (#[trigger] after.categories@[i]).category_id
                < after.next_category_id,
        1 <= after.next_category_id,
    ensures
        after.wf(),
{
    let a = before.categories@;
    let b = after.categories@;
    assert forall|k: int| 0 <= k < after.transactions@.len() implies {
        &&& (#[trigger] after.transactions@[k]).wf()
        &&& has_account(after.accounts@, after.transactions@[k].account_id)
        &&& has_category(b, after.transactions@[k].category_id)
    } by {
        let t = before.transactions@[k];
        assert(t.wf());
        assert(has_category(a, t.category_id));
        let x = choose|x: int| 0 <= x < a.len() && (#[trigger] a[x]).category_id == t.category_id;
        assert(b.take(a.len() as int)[x] == b[x]);
    }
}

/// All categories, in the order of their names; categories of one name in
/// the order of the table.
pub fn get_all_categories(db: &Ledger) -> (r: Vec<Category>)
    requires
        db.wf(),
    ensures
        r@ == listing(db.categories@),
{
    listed(&db.categories)
}

/// The row that `create_transaction` asks to be stored: amount and base
/// amount as magnitudes, whatever sign they came with.
pub open spec fn transaction_row(
    account_id: i64,
    category_id: i64,
    amount: Money,
    base_amount: Money,
    currency: String,
    is_expense: bool,
    description: Option<String>,
    transacted_at: DateTime,
    now: DateTime,
) -> Transaction {
    Transaction {
        transaction_id: 0,
        account_id,
        category_id,
        amount: amount.abs_spec(),
        base_amount: base_amount.abs_spec(),
        is_expense,
        description,
        payee: None,
        currency,
        transacted_at,
        trans_create_at: now,
    }
}

/// Why the amounts of a transaction are not taken, if they are not: one of
/// them is out of bounds, or the amount is negative although the
/// transaction is no expense, so that sign and flag say different things.
pub open spec fn amount_refusal(amount: Money, base_amount: Money, is_expense: bool) -> Option<
    LedgerError,
> {
    if !amount.wf() || !base_amount.wf() {
        Some(LedgerError::InvalidValue)
    } else if amount.mantissa < 0 && !is_expense {
        Some(LedgerError::AmbiguousAmount)
    } else {
        None
    }
}

/// Why a transaction is not recorded, if it is not.
pub open spec fn create_transaction_refusal(
    db: Ledger,
    amount: Money,
    base_amount: Money,
    is_expense: bool,
    row: Transaction,
) -> Option<LedgerError> {
    match amount_refusal(amount, base_amount, is_expense) {
        Some(e) => Some(e),
        None => db.insert_refusal(row),
    }
}

/// Records a transaction and brings the balance of its account up to date,
/// both or neither. The amount may come with a sign: `is_expense` alone
/// says whether it counts against the balance, and what is stored is the
/// magnitude. Only a negative amount that is no expense is refused. The
/// answer is the id of the new row.
pub fn create_transaction(
    db: &mut Ledger,
    account_id: i64,
    category_id: i64,
    amount: Money,
    base_amount: Money,
    currency: String,
    is_expense: bool,
    description: Option<String>,
    transacted_at: DateTime,
    now: DateTime,
) -> (r: Result<i64, LedgerError>)
    requires
        old(db).wf(),
    ensures
        final(db).wf(),
        r == match create_transaction_refusal(
            *old(db),
            amount,
            base_amount,
            is_expense,
            transaction_row(
                account_id,
                category_id,
                amount,
                base_amount,
                currency,
                is_expense,
                description,
                transacted_at,
                now,
            ),
        ) {
            Some(e) => Err::<i64, LedgerError>(e),
            None => Ok(old(db).next_transaction_id),
        },
        r is Err ==> final(db).same_as(*old(db)),
        r is Ok ==> {
            &&& final(db).transactions@ == old(db).transactions@.push(
                old(db).row_to_insert(
                    transaction_row(
                        account_id,
                        category_id,
                        amount,
                        base_amount,
                        currency,
                        is_expense,
                        description,
                        transacted_at,
                        now,
                    ),
                ),
            )
            &&& final(db).next_transaction_id == old(db).next_transaction_id + 1
            &&& final(db).next_account_id == old(db).next_account_id
            &&& final(db).next_category_id == old(db).next_category_id
            &&& final(db).categories@ == old(db).categories@
            &&& crate::ledger::same_but_balances(old(db).accounts@, final(db).accounts@)
            &&& final(db).same_side(*old(db))
        },
{
    if !amount.is_valid() || !base_amount.is_valid() {
        return Err(LedgerError::InvalidValue);
    }
    if amount.is_negative() && !is_expense {
        return Err(LedgerError::AmbiguousAmount);
    }
    let row = Transaction {
        transaction_id: 0,
        account_id,
        category_id,
        amount: amount.abs(),
        base_amount: base_amount.abs(),
        is_expense,
        description,
        payee: None,
        currency,
        transacted_at,
        trans_create_at: now,
    };
    db.insert_transaction(row)
}

/// Copies the rows of one account, in the order of the table.
pub fn account_rows(db: &Ledger, account_id: i64) -> (r: Vec<Transaction>)
    ensures
        r@ == rows_of(db.transactions@, account_id),
{
    let mut mine: Vec<Transaction> = Vec::new();
    let mut i: usize = 0;
    while i < db.transactions.len()
        invariant
            i <= db.transactions.len(),
            mine@ == rows_of(db.transactions@.take(i as int), account_id),
        decreases db.transactions.len() - i,
    {
        proof {
            assert(db.transactions@.take(i + 1).drop_last() =~= db.transactions@.take(i as int));
        }
        if db.transactions[i].account_id == account_id {
            mine.push(db.transactions[i].duplicate());
        }
        i = i + 1;
    }
    proof {
        assert(db.transactions@.take(i as int) =~= db.transactions@);
    }
    mine
}

/// The rows of one account are rows of the table, and all of them.
pub proof fn lemma_rows_of(transactions: Seq<Transaction>, account_id: i64)
    ensures
        rows_of(transactions, account_id).len() <= transactions.len(),
        forall|k: int|
            0 <= k < rows_of(transactions, account_id).len() ==> {
                &&& (#[trigger] rows_of(transactions, account_id)[k]).account_id == account_id
                &&& transactions.contains(rows_of(transactions, account_id)[k])
            },
        forall|j: int|
            0 <= j < transactions.len() && (#[trigger] transactions[j]).account_id == account_id
                ==> rows_of(transactions, account_id).contains(transactions[j]),
        crate::ledger::ascending_transaction_ids(transactions)
            ==> crate::ledger::ascending_transaction_ids(rows_of(transactions, account_id)),
    decreases transactions.len(),
{
    let mine = rows_of(transactions, account_id);
    if transactions.len() > 0 {
        let shorter = transactions.drop_last();
        let rest = rows_of(shorter, account_id);
        lemma_rows_of(shorter, account_id);
        if crate::ledger::ascending_transaction_ids(transactions) {
            assert(crate::ledger::ascending_transaction_ids(shorter)) by {
                assert forall|i: int, j: int| 0 <= i < j < shorter.len() implies (
                #[trigger] shorter[i]).transaction_id < (#[trigger] shorter[j]).transaction_id by {
                    assert(transactions[i].transaction_id < transactions[j].transaction_id);
                }
            }
            assert forall|a: int, b: int| 0 <= a < b < mine.len() implies (
            #[trigger] mine[a]).transaction_id < (#[trigger] mine[b]).transaction_id by {
                if b < rest.len() {
                    assert(rest[a].transaction_id < rest[b].transaction_id);
                } else {
                    assert(shorter.contains(rest[a]));
                    let j = choose|j: int| 0 <= j < shorter.len() && shorter[j] == rest[a];
                    assert(transactions[j].transaction_id < transactions[transactions.len()
                        - 1].transaction_id);
                }
            }
        }
        assert forall|k: int| 0 <= k < mine.len() implies {
            &&& (#[trigger] mine[k]).account_id == account_id
            &&& transactions.contains(mine[k])
        } by {
            if k < rest.len() {
                assert(mine[k] == rest[k]);
                assert(shorter.contains(rest[k]));
                let j = choose|j: int| 0 <= j < shorter.len() && shorter[j] == rest[k];
                assert(transactions[j] == mine[k]);
            } else {
                assert(transactions[transactions.len() - 1] == mine[k]);
            }
        }
        assert forall|j: int|
            0 <= j < transactions.len() && (#[trigger] transactions[j]).account_id
                == account_id implies mine.contains(transactions[j]) by {
            if j < shorter.len() {
                assert(shorter[j] == transactions[j]);
                assert(rest.contains(shorter[j]));
                let k = choose|k: int| 0 <= k < rest.len() && rest[k] == shorter[j];
                assert(mine[k] == transactions[j]);
            } else {
                assert(mine[mine.len() - 1] == transactions[j]);
            }
        }
    }
}

/// The rows that fall into a span of time, both ends counted, in their old
/// order.
pub open spec fn rows_within(rows: Seq<Transaction>, start: DateTime, end: DateTime) -> Seq<
    Transaction,
>
    decreases rows.len(),
{
    if rows.len() == 0 {
        Seq::empty()
    } else {
        let rest = rows_within(rows.drop_last(), start, end);
        if start.stamp() <= rows.last().transacted_at.stamp() <= end.stamp() {
            rest.push(rows.last())
        } else {
            rest
        }
    }
}

/// The rows of a span are rows of the list, and all of those that fall into
/// the span.
pub proof fn lemma_rows_within(rows: Seq<Transaction>, start: DateTime, end: DateTime)
    ensures
        rows_within(rows, start, end).len() <= rows.len(),
        forall|k: int|
            0 <= k < rows_within(rows, start, end).len() ==> {
                &&& start.stamp() <= (#[trigger] rows_within(
                    rows,
                    start,
                    end,
                )[k]).transacted_at.stamp() <= end.stamp()
                &&& rows.contains(rows_within(rows, start, end)[k])
            },
        forall|j: int|
            0 <= j < rows.len() && start.stamp() <= (#[trigger] rows[j]).transacted_at.stamp()
                <= end.stamp() ==> rows_within(rows, start, end).contains(rows[j]),
        crate::ledger::ascending_transaction_ids(rows) ==> crate::ledger::ascending_transaction_ids(
            rows_within(rows, start, end),
        ),
    decreases rows.len(),
{
    let mine = rows_within(rows, start, end);
    if rows.len() > 0 {
        let shorter = rows.drop_last();
        let rest = rows_within(shorter, start, end);
        lemma_rows_within(shorter, start, end);
        if crate::ledger::ascending_transaction_ids(rows) {
            assert(crate::ledger::ascending_transaction_ids(shorter)) by {
                assert forall|i: int, j: int| 0 <= i < j < shorter.len() implies (
                #[trigger] shorter[i]).transaction_id < (#[trigger] shorter[j]).transaction_id by {
                    assert(rows[i].transaction_id < rows[j].transaction_id);
                }
            }
            assert forall|a: int, b: int| 0 <= a < b < mine.len() implies (
            #[trigger] mine[a]).transaction_id < (#[trigger] mine[b]).transaction_id by {
                if b < rest.len() {
                    assert(rest[a].transaction_id < rest[b].transaction_id);
                } else {
                    assert(shorter.contains(rest[a]));
                    let j = choose|j: int| 0 <= j < shorter.len() && shorter[j] == rest[a];
                    assert(rows[j].transaction_id < rows[rows.len() - 1].transaction_id);
                }
            }
        }
        assert forall|k: int| 0 <= k < mine.len() implies {
            &&& start.stamp() <= (#[trigger] mine[k]).transacted_at.stamp() <= end.stamp()
            &&& rows.contains(mine[k])
        } by {
            if k < rest.len() {
                assert(mine[k] == rest[k]);
                assert(shorter.contains(rest[k]));
                let j = choose|j: int| 0 <= j < shorter.len() && shorter[j] == rest[k];
                assert(rows[j] == mine[k]);
            } else {
                assert(rows[rows.len() - 1] == mine[k]);
            }
        }
        assert forall|j: int|
            0 <= j < rows.len() && start.stamp() <= (#[trigger] rows[j]).transacted_at.stamp()
                <= end.stamp() implies mine.contains(rows[j]) by {
            if j < shorter.len() {
                assert(shorter[j] == rows[j]);
                assert(rest.contains(shorter[j]));
                let k = choose|k: int| 0 <= k < rest.len() && rest[k] == shorter[j];
                assert(mine[k] == rows[j]);
            } else {
                assert(mine[mine.len() - 1] == rows[j]);
            }
        }
    }
}

/// The rows of one account that a listing is drawn from: all of them, or
/// those that fall into a span of time.
pub open spec fn rows_selected(
    transactions: Seq<Transaction>,
    account_id: i64,
    date_range: Option<(DateTime, DateTime)>,
) -> Seq<Transaction> {
    match date_range {
        None => rows_of(transactions, account_id),
        Some((start, end)) => rows_within(rows_of(transactions, account_id), start, end),
    }
}

/// The rows that a listing is drawn from are rows of the account, within
/// the span if one is given, and all of those.
pub proof fn lemma_rows_selected(
    transactions: Seq<Transaction>,
    account_id: i64,
    date_range: Option<(DateTime, DateTime)>,
)
    ensures
        rows_selected(transactions, account_id, date_range).len() <= transactions.len(),
        forall|k: int|
            0 <= k < rows_selected(transactions, account_id, date_range).len() ==> {
                &&& (#[trigger] rows_selected(transactions, account_id, date_range)[k]).account_id
                    == account_id
                &&& transactions.contains(rows_selected(transactions, account_id, date_range)[k])
                &&& date_range matches Some((start, end)) ==> start.stamp() <= rows_selected(
                    transactions,
                    account_id,
                    date_range,
                )[k].transacted_at.stamp() <= end.stamp()
            },
        forall|j: int|
            0 <= j < transactions.len() && (#[trigger] transactions[j]).account_id == account_id
                && (date_range matches Some((start, end)) ==> start.stamp()
                <= transactions[j].transacted_at.stamp() <= end.stamp()) ==> rows_selected(
                transactions,
                account_id,
                date_range,
            ).contains(transactions[j]),
        crate::ledger::ascending_transaction_ids(transactions)
            ==> crate::ledger::ascending_transaction_ids(
            rows_selected(transactions, account_id, date_range),
        ),
{
    let mine = rows_of(transactions, account_id);
    let chosen = rows_selected(transactions, account_id, date_range);
    lemma_rows_of(transactions, account_id);
    match date_range {
        None => {},
        Some((start, end)) => {
            lemma_rows_within(mine, start, end);
            assert forall|k: int| 0 <= k < chosen.len() implies {
                &&& (#[trigger] chosen[k]).account_id == account_id
                &&& transactions.contains(chosen[k])
            } by {
                assert(mine.contains(chosen[k]));
                let m = choose|m: int| 0 <= m < mine.len() && mine[m] == chosen[k];
                assert(mine[m].account_id == account_id);
            }
            assert forall|j: int|
                0 <= j < transactions.len() && (#[trigger] transactions[j]).account_id
                    == account_id && start.stamp() <= transactions[j].transacted_at.stamp()
                    <= end.stamp() implies chosen.contains(transactions[j]) by {
                assert(mine.contains(transactions[j]));
                let m = choose|m: int| 0 <= m < mine.len() && mine[m] == transactions[j];
                assert(mine[m] == transactions[j]);
            }
        },
    }
}

/// Copies the rows of a list that fall into a span of time.
pub fn rows_in_span(rows: &Vec<Transaction>, start: &DateTime, end: &DateTime) -> (r: Vec<
    Transaction,
>)
    requires
        start.wf(),
        end.wf(),
        forall|k: int| 0 <= k < rows@.len() ==> (#[trigger] rows@[k]).transacted_at.wf(),
    ensures
        r@ == rows_within(rows@, *start, *end),
{
    let mut out: Vec<Transaction> = Vec::new();
    let mut i: usize = 0;
    while i < rows.len()
        invariant
            i <= rows.len(),
            start.wf(),
            end.wf(),
            forall|k: int| 0 <= k < rows@.len() ==> (#[trigger] rows@[k]).transacted_at.wf(),
            out@ == rows_within(rows@.take(i as int), *start, *end),
        decreases rows.len() - i,
    {
        proof {
            assert(rows@.take(i + 1).drop_last() =~= rows@.take(i as int));
        }
        if !rows[i].transacted_at.before(start) && !end.before(&rows[i].transacted_at) {
            out.push(rows[i].duplicate());
        }
        i = i + 1;
    }
    proof {
        assert(rows@.take(i as int) =~= rows@);
    }
    out
}

/// The transactions of one account, the latest first; of two at the same
/// time, the one with the larger id first.
pub fn get_transactions_by_account(db: &Ledger, account_id: i64) -> (r: Vec<Transaction>)
    requires
        db.wf(),
    ensures
        r@ == listing(rows_of(db.transactions@, account_id)),
{
    let mine = account_rows(db, account_id);
    proof {
        lemma_rows_of(db.transactions@, account_id);
        assert forall|i: int| 0 <= i < mine@.len() implies (#[trigger] mine@[i]).transacted_at.wf() by {
            assert(db.transactions@.contains(mine@[i]));
            let j = choose|j: int|
                0 <= j < db.transactions@.len() && db.transactions@[j] == mine@[i];
            assert(db.transactions@[j].wf());
        }
    }
    listed(&mine)
}

/// Whether there is a rate for the currency.
pub open spec fn has_rate(rates: Seq<CurrencyRate>, currency: Seq<char>) -> bool {
    exists|i: int| 0 <= i < rates.len() && (#[trigger] rates[i]).currency@ == currency
}

/// The place of the rate for the currency.
pub open spec fn rate_index(rates: Seq<CurrencyRate>, currency: Seq<char>) -> int {
    choose|i: int| 0 <= i < rates.len() && (#[trigger] rates[i]).currency@ == currency
}

/// The rate for the currency.
pub open spec fn rate_of(rates: Seq<CurrencyRate>, currency: Seq<char>) -> Money {
    rates[rate_index(rates, currency)].rate_to_base
}

/// The place of the rate for a currency, if there is one.
pub fn find_rate(db: &Ledger, currency: &str) -> (r: Option<usize>)
    requires
        db.wf(),
    ensures
        r is Some <==> has_rate(db.rates@, currency@),
        r matches Some(i) ==> i == rate_index(db.rates@, currency@) && i < db.rates@.len(),
{
    let mut i: usize = 0;
    while i < db.rates.len()
        invariant
            i <= db.rates.len(),
            db.wf(),
            forall|k: int| 0 <= k < i ==> (#[trigger] db.rates@[k]).currency@ != currency@,
        decreases db.rates.len() - i,
    {
        if same_text(db.rates[i].currency.as_str(), currency) {
            proof {
                let c = rate_index(db.rates@, currency@);
                if c < i {
                    assert(db.rates@[c].currency@ != db.rates@[i as int].currency@);
                }
                if i < c {
                    assert(db.rates@[i as int].currency@ != db.rates@[c].currency@);
                }
            }
            return Some(i);
        }
        i = i + 1;
    }
    None
}

/// What one unit of the currency is worth in the base currency.
pub fn get_rate(db: &Ledger, currency: &str) -> (r: Result<Money, LedgerError>)
    requires
        db.wf(),
    ensures
        r == if has_rate(db.rates@, currency@) {
            Ok::<Money, LedgerError>(rate_of(db.rates@, currency@))
        } else {
            Err(LedgerError::RateNotFound)
        },
        r matches Ok(m) ==> m.wf(),
{
    match find_rate(db, currency) {
        Some(i) => Ok(db.rates[i].rate_to_base),
        None => Err(LedgerError::RateNotFound),
    }
}

/// Sets the rate of a currency: a new rate takes the place of an old one.
/// Transactions that were recorded under the old rate keep their base
/// amounts.
pub fn insert_rate(db: &mut Ledger, currency: &str, rate: Money) -> (r: Result<(), LedgerError>)
    requires
        old(db).wf(),
    ensures
        final(db).wf(),
        r == if rate.wf() {
            Ok::<(), LedgerError>(())
        } else {
            Err(LedgerError::InvalidValue)
        },
        r is Err ==> final(db).same_as(*old(db)),
        final(db).accounts@ == old(db).accounts@,
        final(db).same_but_accounts(Ledger { rates: final(db).rates, ..*old(db) }),
        r is Ok ==> {
            &&& has_rate(final(db).rates@, currency@)
            &&& rate_of(final(db).rates@, currency@) == rate
            &&& forall|other: Seq<char>|
                other != currency@ ==> has_rate(final(db).rates@, other) == has_rate(
                    old(db).rates@,
                    other,
                )
            &&& forall|other: Seq<char>|
                other != currency@ && has_rate(old(db).rates@, other) ==> #[trigger] rate_of(
                    final(db).rates@,
                    other,
                ) == rate_of(old(db).rates@, other)
        },
{
    if !rate.is_valid() {
        return Err(LedgerError::InvalidValue);
    }
    let ghost was = db.rates@;
    match find_rate(db, currency) {
        Some(i) => {
            let mut row = db.rates.remove(i);
            row.rate_to_base = rate;
            db.rates.insert(i, row);
            proof {
                let now = db.rates@;
                assert(now.len() == was.len());
                assert forall|k: int| 0 <= k < now.len() implies (#[trigger] now[k]).currency@
                    == was[k].currency@ && now[k].rate_to_base == if k == i {
                    rate
                } else {
                    was[k].rate_to_base
                } by {}
                lemma_rates_same_names(was, now);
                assert forall|a: int, b: int| 0 <= a < b < now.len() implies (
                #[trigger] now[a]).currency@ != (#[trigger] now[b]).currency@ by {
                    assert(was[a].currency@ != was[b].currency@);
                }
                assert(now[i as int].currency@ == currency@);
                lemma_rate_found(now, currency@, i as int);
                assert forall|other: Seq<char>|
                    other != currency@ && has_rate(was, other) implies #[trigger] rate_of(
                    now,
                    other,
                ) == rate_of(was, other) by {
                    let c = rate_index(was, other);
                    assert(now[c].currency@ == other);
                    lemma_rate_found(now, other, c);
                }
            }
        },
        None => {
            db.rates.push(CurrencyRate { currency: currency.to_owned(), rate_to_base: rate });
            proof {
                let now = db.rates@;
                assert forall|k: int| 0 <= k < was.len() implies #[trigger] now[k] == was[k] by {}
                assert forall|a: int, b: int| 0 <= a < b < now.len() implies (
                #[trigger] now[a]).currency@ != (#[trigger] now[b]).currency@ by {
                    if b < was.len() {
                        assert(was[a].currency@ != was[b].currency@);
                    } else {
                        assert(was[a].currency@ != currency@);
                    }
                }
                assert(now[was.len() as int].currency@ == currency@);
                lemma_rate_found(now, currency@, was.len() as int);
                assert forall|other: Seq<char>| other != currency@ implies has_rate(now, other)
                    == has_rate(was, other) by {
                    if has_rate(was, other) {
                        let c = rate_index(was, other);
                        assert(now[c].currency@ == other);
                    }
                    if has_rate(now, other) {
                        let c = rate_index(now, other);
                        assert(was[c].currency@ == other);
                    }
                }
                assert forall|other: Seq<char>|
                    other != currency@ && has_rate(was, other) implies #[trigger] rate_of(
                    now,
                    other,
                ) == rate_of(was, other) by {
                    let c = rate_index(was, other);
                    assert(now[c].currency@ == other);
                    lemma_rate_found(now, other, c);
                }
            }
        },
    }
    Ok(())
}

/// Two lists of rates with the same currencies at the same places have
/// rates for the same currencies.
pub proof fn lemma_rates_same_names(a: Seq<CurrencyRate>, b: Seq<CurrencyRate>)
    requires
        a.len() == b.len(),
        forall|k: int| 0 <= k < a.len() ==> (#[trigger] b[k]).currency@ == a[k].currency@,
    ensures
        forall|name: Seq<char>| has_rate(a, name) == has_rate(b, name),
{
    assert forall|name: Seq<char>| has_rate(a, name) == has_rate(b, name) by {
        if has_rate(a, name) {
            let c = rate_index(a, name);
            assert(b[c].currency@ == name);
        }
        if has_rate(b, name) {
            let c = rate_index(b, name);
            assert(a[c].currency@ == b[c].currency@);
        }
    }
}

/// Where no two rates are for one currency, the place where a currency was
/// found is its place.
pub proof fn lemma_rate_found(rates: Seq<CurrencyRate>, currency: Seq<char>, i: int)
    requires
        0 <= i < rates.len(),
        rates[i].currency@ == currency,
        forall|a: int, b: int|
            0 <= a < b < rates.len() ==> (#[trigger] rates[a]).currency@ != (
            #[trigger] rates[b]).currency@,
    ensures
        has_rate(rates, currency),
        rate_index(rates, currency) == i,
        rate_of(rates, currency) == rates[i].rate_to_base,
{
    let c = rate_index(rates, currency);
    if c < i {
        assert(rates[c].currency@ != rates[i].currency@);
    }
    if i < c {
        assert(rates[i].currency@ != rates[c].currency@);
    }
}

} // verus!
