//! Taking in a batch of transactions that were recorded elsewhere.

use crate::dates::DateTime;
use crate::ledger::{same_but_balances, Ledger};
use crate::models::Transaction;
use crate::money::Money;
use crate::protocol::{lemma_accounts_keep_ids, lemma_same_but_balances_twice, row_refusal};
use crate::queries::{amount_refusal, create_transaction, transaction_row};
use crate::text::copy_optional_text;
use vstd::prelude::*;

verus! {

/// One transaction of a batch.
#[derive(Debug)]
pub struct CreateTransaction {
    pub account_id: i64,
    pub category_id: i64,
    pub amount: Money,
    pub base_amount: Money,
    pub is_expense: bool,
    pub description: Option<String>,
    pub currency: String,
    pub transacted_at: DateTime,
}

/// A batch of transactions. The time of the last synchronisation is carried
/// along and not used to select among them.
#[derive(Debug)]
pub struct SyncRequest {
    pub last_synced_at: Option<String>,
    pub transactions: Vec<CreateTransaction>,
}

impl CreateTransaction {
    /// The row that the item asks to be stored.
    pub open spec fn row(self, now: DateTime) -> Transaction {
        transaction_row(
            self.account_id,
            self.category_id,
            self.amount,
            self.base_amount,
            self.currency,
            self.is_expense,
            self.description,
            self.transacted_at,
            now,
        )
    }
}

/// The id that the next row gets when the table has grown from `before` to
/// `now` rows.
pub open spec fn id_after(db: Ledger, rows: Seq<Transaction>) -> i64 {
    (db.next_transaction_id + (rows.len() - db.transactions@.len())) as i64
}

/// The table of transactions after a batch: every item in turn is added
/// under the next id, its amounts as magnitudes, unless it is refused; a
/// refused item is passed over.
pub open spec fn synced_rows(db: Ledger, items: Seq<CreateTransaction>, now: DateTime) -> Seq<
    Transaction,
>
    decreases items.len(),
{
    if items.len() == 0 {
        db.transactions@
    } else {
        let before = synced_rows(db, items.drop_last(), now);
        let item = items.last();
        let row = item.row(now);
        if amount_refusal(item.amount, item.base_amount, item.is_expense) is None && row_refusal(
            db.accounts@,
            db.categories@,
            before,
            id_after(db, before),
            row,
        ) is None {
            before.push(Transaction { transaction_id: id_after(db, before), ..row })
        } else {
            before
        }
    }
}

/// Records the transactions of a batch, each through the same path as a
/// transaction that is entered by hand. An item that is refused does not
/// stop the batch. The answer is the number of transactions recorded.
pub fn sync_handler(db: &mut Ledger, payload: &SyncRequest, now: DateTime) -> (success_count: usize)
    requires
        old(db).wf(),
    ensures
        final(db).wf(),
        final(db).transactions@ == synced_rows(*old(db), payload.transactions@, now),
        success_count == final(db).transactions@.len() - old(db).transactions@.len(),
        success_count <= payload.transactions@.len(),
        final(db).next_transaction_id == old(db).next_transaction_id + success_count,
        same_but_balances(old(db).accounts@, final(db).accounts@),
        final(db).categories@ == old(db).categories@,
        final(db).next_account_id == old(db).next_account_id,
        final(db).next_category_id == old(db).next_category_id,
        final(db).same_side(*old(db)),
{
    let mut success_count: usize = 0;
    let mut i: usize = 0;
    while i < payload.transactions.len()
        invariant
            i <= payload.transactions.len(),
            old(db).wf(),
            db.wf(),
            db.transactions@ == synced_rows(*old(db), payload.transactions@.take(i as int), now),
            success_count == db.transactions@.len() - old(db).transactions@.len(),
            success_count <= i,
            db.next_transaction_id == old(db).next_transaction_id + success_count,
            same_but_balances(old(db).accounts@, db.accounts@),
            db.categories@ == old(db).categories@,
            db.next_account_id == old(db).next_account_id,
            db.next_category_id == old(db).next_category_id,
            db.same_side(*old(db)),
        decreases payload.transactions.len() - i,
    {
        let item = &payload.transactions[i];
        let ghost before = *db;
        proof {
            assert(payload.transactions@.take(i + 1).drop_last() =~= payload.transactions@.take(
                i as int,
            ));
            lemma_accounts_keep_ids(old(db).accounts@, db.accounts@);
        }
        let outcome = create_transaction(
            db,
            item.account_id,
            item.category_id,
            item.amount,
            item.base_amount,
            item.currency.clone(),
            item.is_expense,
            copy_optional_text(&item.description),
            item.transacted_at,
            now,
        );
        proof {
            lemma_same_but_balances_twice(old(db).accounts@, before.accounts@, db.accounts@);
        }
        if outcome.is_ok() {
            success_count = success_count + 1;
        }
        i = i + 1;
    }
    proof {
        assert(payload.transactions@.take(i as int) =~= payload.transactions@);
    }
    success_count
}

} // verus!
