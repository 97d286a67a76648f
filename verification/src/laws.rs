//! What holds of every ledger that keeps its invariant.

use crate::ledger::{
    balance_for, has_account, lemma_sum_push, lemma_sum_value, sum_for, total_units,
    widest_scale, Ledger, BALANCE_PLACES,
};
use crate::models::Transaction;
use crate::money::{lemma_pow10_positive, lemma_scaled_order, pow10, Money, MAX_SCALE};
use crate::queries::{lemma_rows_selected, rows_selected};
use crate::sorting::{arranged, lemma_listing, listing, Ranked};
use vstd::prelude::*;

verus! {

/// The balance of every account is the plain total of the signed amounts of
/// its transactions, rounded to two places.
pub proof fn lemma_balance_is_rounded_total(db: Ledger, i: int)
    requires
        db.wf(),
        0 <= i < db.accounts@.len(),
    ensures
        sum_for(db.transactions@, db.accounts@[i].account_id) is Some,
        db.accounts@[i].balance == sum_for(
            db.transactions@,
            db.accounts@[i].account_id,
        )->0.round_spec(BALANCE_PLACES),
        sum_for(db.transactions@, db.accounts@[i].account_id)->0.units() == total_units(
            db.transactions@,
            db.accounts@[i].account_id,
        ),
        db.accounts@[i].balance.wf(),
{
    let id = db.accounts@[i].account_id;
    assert(balance_for(db.transactions@, id) == Some(db.accounts@[i].balance));
    assert forall|k: int| 0 <= k < db.transactions@.len() implies (
    #[trigger] db.transactions@[k]).wf() by {}
    lemma_sum_value(db.transactions@, id);
    lemma_round_in_bounds(sum_for(db.transactions@, id)->0, BALANCE_PLACES);
}

/// Rounding keeps an amount within bounds.
pub proof fn lemma_round_in_bounds(m: Money, places: u32)
    requires
        m.wf(),
        places <= MAX_SCALE,
    ensures
        m.round_spec(places).wf(),
{
    if m.scale > places {
        let k = (m.scale - places) as nat;
        lemma_pow10_positive((k - 1) as nat);
        assert(pow10(k) == 10 * pow10((k - 1) as nat));
        let p = pow10(k);
        let a = crate::money::magnitude(m.mantissa as int);
        vstd::arithmetic::div_mod::lemma_fundamental_div_mod(a, p);
        vstd::arithmetic::div_mod::lemma_mod_bound(a, p);
        assert(0 <= a / p) by (nonlinear_arith)
            requires
                a >= 0,
                p >= 10,
        ;
        assert(10 * (a / p) <= a) by (nonlinear_arith)
            requires
                a == p * (a / p) + a % p,
                0 <= a % p,
                p >= 10,
                0 <= a / p,
        ;
    }
}

/// Two tables in which an account has the same plain total, at the same
/// largest scale, give it the same balance, whatever the order of their
/// rows, provided both sums fit.
pub proof fn lemma_balance_depends_on_total(
    a: Seq<Transaction>,
    b: Seq<Transaction>,
    account_id: i64,
)
    requires
        forall|k: int| 0 <= k < a.len() ==> (#[trigger] a[k]).wf(),
        forall|k: int| 0 <= k < b.len() ==> (#[trigger] b[k]).wf(),
        sum_for(a, account_id) is Some,
        sum_for(b, account_id) is Some,
        total_units(a, account_id) == total_units(b, account_id),
        widest_scale(a, account_id) == widest_scale(b, account_id),
    ensures
        balance_for(a, account_id) == balance_for(b, account_id),
{
    lemma_sum_value(a, account_id);
    lemma_sum_value(b, account_id);
    let x = sum_for(a, account_id)->0;
    let y = sum_for(b, account_id)->0;
    let t = pow10((MAX_SCALE - x.scale) as nat);
    lemma_pow10_positive((MAX_SCALE - x.scale) as nat);
    lemma_scaled_order(x.mantissa as int, y.mantissa as int, t);
    assert(x == y);
}

/// Adding is the same either way round.
pub proof fn lemma_add_commutes(a: Money, b: Money)
    ensures
        a.add_spec(b) == b.add_spec(a),
{
}

/// Two transactions give an account the same balance in whichever order
/// they were recorded.
pub proof fn lemma_two_rows_either_order(first: Transaction, second: Transaction, account_id: i64)
    requires
        first.wf(),
        second.wf(),
    ensures
        balance_for(seq![first, second], account_id) == balance_for(
            seq![second, first],
            account_id,
        ),
{
    let zero = Money::zero_spec();
    let none = Seq::<Transaction>::empty();
    assert(seq![first, second] =~= none.push(first).push(second));
    assert(seq![second, first] =~= none.push(second).push(first));
    lemma_sum_push(none, first, account_id);
    lemma_sum_push(none, second, account_id);
    lemma_sum_push(none.push(first), second, account_id);
    lemma_sum_push(none.push(second), first, account_id);
    let a = first.signed_amount_spec();
    let b = second.signed_amount_spec();
    if first.account_id == account_id && second.account_id == account_id {
        crate::api::lemma_add_to_zero(a);
        crate::api::lemma_add_to_zero(b);
        lemma_add_commutes(a, b);
    }
}

/// What a row counts for in the plain total of an account.
pub open spec fn counts_for(t: Transaction, account_id: i64) -> int {
    if t.account_id == account_id {
        t.signed_amount_spec().units()
    } else {
        0
    }
}

/// Replacing a row changes the plain total of an account by what the new
/// row counts for it, less what the old row counted.
pub proof fn lemma_total_after_replace(
    transactions: Seq<Transaction>,
    k: int,
    row: Transaction,
    account_id: i64,
)
    requires
        0 <= k < transactions.len(),
    ensures
        total_units(transactions.update(k, row), account_id) == total_units(
            transactions,
            account_id,
        ) - counts_for(transactions[k], account_id) + counts_for(row, account_id),
    decreases transactions.len(),
{
    let changed = transactions.update(k, row);
    if k == transactions.len() - 1 {
        assert(changed.drop_last() =~= transactions.drop_last());
    } else {
        assert(changed.drop_last() =~= transactions.drop_last().update(k, row));
        assert(changed.last() == transactions.last());
        lemma_total_after_replace(transactions.drop_last(), k, row, account_id);
    }
}

/// When a transaction is moved from one account to another, both accounts
/// end with the balance that their rows add up to: the account it left
/// counts it no more, the account it joined counts the new row.
pub proof fn lemma_move_settles_both(before: Ledger, after: Ledger, k: int, row: Transaction)
    requires
        before.wf(),
        after.wf(),
        0 <= k < before.transactions@.len(),
        after.transactions@ == before.transactions@.update(k, row),
        crate::ledger::same_but_balances(before.accounts@, after.accounts@),
        before.transactions@[k].account_id != row.account_id,
    ensures
        forall|i: int|
            0 <= i < after.accounts@.len() ==> balance_for(
                after.transactions@,
                (#[trigger] after.accounts@[i]).account_id,
            ) == Some(after.accounts@[i].balance),
        total_units(after.transactions@, before.transactions@[k].account_id) == total_units(
            before.transactions@,
            before.transactions@[k].account_id,
        ) - before.transactions@[k].signed_amount_spec().units(),
        total_units(after.transactions@, row.account_id) == total_units(
            before.transactions@,
            row.account_id,
        ) + row.signed_amount_spec().units(),
{
    lemma_total_after_replace(
        before.transactions@,
        k,
        row,
        before.transactions@[k].account_id,
    );
    lemma_total_after_replace(before.transactions@, k, row, row.account_id);
}

/// Every transaction belongs to an account of the ledger: there are no
/// orphans.
pub proof fn lemma_no_orphans(db: Ledger, k: int)
    requires
        db.wf(),
        0 <= k < db.transactions@.len(),
    ensures
        has_account(db.accounts@, db.transactions@[k].account_id),
{
    assert(db.transactions@[k].wf());
}

/// The listing of an account's transactions, with or without a span of
/// time, holds exactly the rows of the account that fall into the span, each
/// once, and of any two of them the later one stands first; of two at the
/// same time, the one with the larger id. So the order of a listing is fully
/// determined.
pub proof fn lemma_transactions_listed_in_order(
    db: Ledger,
    account_id: i64,
    date_range: Option<(crate::dates::DateTime, crate::dates::DateTime)>,
)
    requires
        db.wf(),
    ensures
        ({
            let shown = listing(rows_selected(db.transactions@, account_id, date_range));
            &&& shown.len() == rows_selected(db.transactions@, account_id, date_range).len()
            &&& forall|k: int|
                0 <= k < shown.len() ==> {
                    &&& (#[trigger] shown[k]).account_id == account_id
                    &&& db.transactions@.contains(shown[k])
                    &&& date_range matches Some((start, end)) ==> start.stamp()
                        <= shown[k].transacted_at.stamp() <= end.stamp()
                }
            &&& forall|j: int|
                0 <= j < db.transactions@.len() && (#[trigger] db.transactions@[j]).account_id
                    == account_id && (date_range matches Some((start, end)) ==> start.stamp()
                    <= db.transactions@[j].transacted_at.stamp() <= end.stamp())
                    ==> shown.contains(db.transactions@[j])
            &&& forall|a: int, b: int|
                #![trigger shown[a], shown[b]]
                0 <= a < b < shown.len() ==> shown[a].transacted_at.stamp()
                    > shown[b].transacted_at.stamp() || (shown[a].transacted_at.stamp()
                    == shown[b].transacted_at.stamp() && shown[a].transaction_id
                    > shown[b].transaction_id)
        }),
{
    let mine = rows_selected(db.transactions@, account_id, date_range);
    let shown = listing(mine);
    let order = arranged(mine);
    lemma_rows_selected(db.transactions@, account_id, date_range);
    assert forall|i: int| 0 <= i < mine.len() implies (#[trigger] mine[i]).rankable() by {
        assert(db.transactions@.contains(mine[i]));
        let j = choose|j: int| 0 <= j < db.transactions@.len() && db.transactions@[j] == mine[i];
        assert(db.transactions@[j].wf());
    }
    assert(db.transactions@.len() == db.transactions.len());
    lemma_listing(mine);
    lemma_arrangement_covers(order, mine.len());
    assert forall|k: int| 0 <= k < shown.len() implies {
        &&& (#[trigger] shown[k]).account_id == account_id
        &&& db.transactions@.contains(shown[k])
        &&& date_range matches Some((start, end)) ==> start.stamp()
            <= shown[k].transacted_at.stamp() <= end.stamp()
    } by {
        assert(shown[k] == mine[order[k] as int]);
    }
    assert forall|j: int|
        0 <= j < db.transactions@.len() && (#[trigger] db.transactions@[j]).account_id
            == account_id && (date_range matches Some((start, end)) ==> start.stamp()
            <= db.transactions@[j].transacted_at.stamp() <= end.stamp()) implies shown.contains(
        db.transactions@[j],
    ) by {
        assert(mine.contains(db.transactions@[j]));
        let m = choose|m: int| 0 <= m < mine.len() && mine[m] == db.transactions@[j];
        assert(occurs(order, m));
        let k = choose|k: int| 0 <= k < order.len() && #[trigger] order[k] == m;
        assert(shown[k] == mine[m]);
    }
    assert forall|a: int, b: int|
        #![trigger shown[a], shown[b]]
        0 <= a < b < shown.len() implies shown[a].transacted_at.stamp()
        > shown[b].transacted_at.stamp() || (shown[a].transacted_at.stamp()
        == shown[b].transacted_at.stamp() && shown[a].transaction_id
        > shown[b].transaction_id) by {
        let x = shown[a];
        let y = shown[b];
        assert(!y.ahead_of(&x));
        let p = order[a] as int;
        let q = order[b] as int;
        assert(p != q);
        assert(x == mine[p] && y == mine[q]);
        if p < q {
            assert(mine[p].transaction_id < mine[q].transaction_id);
        } else {
            assert(mine[q].transaction_id < mine[p].transaction_id);
        }
    }
}

/// Whether a place occurs in an arrangement.
pub open spec fn occurs(order: Seq<usize>, m: int) -> bool {
    exists|k: int| 0 <= k < order.len() && #[trigger] order[k] == m
}

/// An arrangement of `n` places names every one of them.
pub proof fn lemma_arrangement_covers(order: Seq<usize>, n: nat)
    requires
        crate::sorting::is_arrangement(order, n),
    ensures
        forall|m: int| 0 <= m < n ==> #[trigger] occurs(order, m),
    decreases n,
{
    if n > 0 {
        // Take the largest place out; what is left arranges the places below it.
        let last = (n - 1) as int;
        if occurs(order, last) {
            let at = choose|k: int| 0 <= k < order.len() && #[trigger] order[k] == last;
            let rest = order.remove(at);
            assert forall|i: int| 0 <= i < rest.len() implies (#[trigger] rest[i]) < n - 1 by {
                let j = if i < at { i } else { i + 1 };
                assert(rest[i] == order[j]);
                assert(order[j] < n);
                if j < at {
                    assert(order[j] != order[at]);
                } else {
                    assert(order[at] != order[j]);
                }
            }
            assert forall|i: int, j: int|
                #![trigger rest[i], rest[j]]
                0 <= i < j < rest.len() implies rest[i] != rest[j] by {
                let x = if i < at { i } else { i + 1 };
                let y = if j < at { j } else { j + 1 };
                assert(rest[i] == order[x] && rest[j] == order[y]);
                assert(order[x] != order[y]);
            }
            lemma_arrangement_covers(rest, (n - 1) as nat);
            assert forall|m: int| 0 <= m < n implies #[trigger] occurs(order, m) by {
                if m < n - 1 {
                    assert(occurs(rest, m));
                    let k = choose|k: int| 0 <= k < rest.len() && #[trigger] rest[k] == m;
                    let j = if k < at { k } else { k + 1 };
                    assert(order[j] == m);
                } else {
                    assert(order[at] == m);
                }
            }
        } else {
            // Without the largest place, n entries would have to fit into
            // n - 1 places without a repeat.
            let shorter = order.drop_last();
            assert forall|i: int| 0 <= i < shorter.len() implies (#[trigger] shorter[i]) < n - 1 by {
                assert(shorter[i] == order[i]);
                assert(order[i] < n);
            }
            assert forall|i: int, j: int|
                #![trigger shorter[i], shorter[j]]
                0 <= i < j < shorter.len() implies shorter[i] != shorter[j] by {
                assert(shorter[i] == order[i] && shorter[j] == order[j]);
                assert(order[i] != order[j]);
            }
            lemma_arrangement_covers(shorter, (n - 1) as nat);
            let stray = order[n - 1] as int;
            assert(order[n - 1] < n);
            assert(stray < n - 1);
            assert(occurs(shorter, stray));
            let k = choose|k: int| 0 <= k < shorter.len() && #[trigger] shorter[k] == stray;
            assert(shorter[k] == order[k]);
            assert(order[k] == order[n - 1]);
            assert(order[k] != order[n - 1]);
        }
    }
}

} // verus!
