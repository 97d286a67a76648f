//! The order in which each kind of row is listed.

use crate::models::{Category, CategorySpending, SavingsGoal, Transaction};
use crate::money::Money;
use crate::sorting::Ranked;
use crate::text::{comes_before, text_before};
use vstd::prelude::*;

verus! {

/// A text never comes before one that comes before it.
pub proof fn lemma_text_one_way(a: Seq<char>, b: Seq<char>)
    requires
        text_before(a, b),
    ensures
        !text_before(b, a),
    decreases a.len(),
{
    if a.len() > 0 && b.len() > 0 && a[0] == b[0] {
        lemma_text_one_way(a.drop_first(), b.drop_first());
    }
}

/// A text that comes before another comes before any third text that the
/// other does not come after.
pub proof fn lemma_text_between(a: Seq<char>, b: Seq<char>, c: Seq<char>)
    requires
        text_before(a, b),
    ensures
        text_before(a, c) || text_before(c, b),
    decreases a.len(),
{
    if a.len() == 0 {
        if c.len() == 0 {
            assert(text_before(c, b));
        } else {
            assert(text_before(a, c));
        }
    } else if c.len() == 0 {
        assert(text_before(c, b));
    } else if a[0] == b[0] && a[0] == c[0] {
        lemma_text_between(a.drop_first(), b.drop_first(), c.drop_first());
    } else if a[0] != c[0] && (a[0] as int) < (c[0] as int) {
        assert(text_before(a, c));
    } else {
        assert(c[0] != b[0]);
        assert(text_before(c, b));
    }
}

impl Ranked for Transaction {
    open spec fn rankable(&self) -> bool {
        self.transacted_at.wf()
    }

    /// The later transaction first; of two at the same time, the one with
    /// the larger id.
    open spec fn ahead_of(&self, other: &Self) -> bool {
        self.transacted_at.stamp() > other.transacted_at.stamp() || (self.transacted_at.stamp()
            == other.transacted_at.stamp() && self.transaction_id > other.transaction_id)
    }

    fn is_ahead_of(&self, other: &Self) -> (r: bool) {
        let mine: i64 = self.transacted_at.stamp_value();
        let theirs: i64 = other.transacted_at.stamp_value();
        mine > theirs || (mine == theirs && self.transaction_id > other.transaction_id)
    }

    proof fn lemma_one_way(a: &Self, b: &Self) {
    }

    proof fn lemma_between(a: &Self, b: &Self, c: &Self) {
    }
}

impl Ranked for Category {
    open spec fn rankable(&self) -> bool {
        true
    }

    /// By name.
    open spec fn ahead_of(&self, other: &Self) -> bool {
        text_before(self.category_name@, other.category_name@)
    }

    fn is_ahead_of(&self, other: &Self) -> (r: bool) {
        comes_before(self.category_name.as_str(), other.category_name.as_str())
    }

    proof fn lemma_one_way(a: &Self, b: &Self) {
        lemma_text_one_way(a.category_name@, b.category_name@);
    }

    proof fn lemma_between(a: &Self, b: &Self, c: &Self) {
        lemma_text_between(a.category_name@, b.category_name@, c.category_name@);
    }
}

impl SavingsGoal {
    /// When the goal is due, as a number; a goal without a deadline counts
    /// as due before all others.
    pub open spec fn due(self) -> int {
        match self.deadline {
            Some(d) => d.stamp(),
            None => i64::MIN as int,
        }
    }
}

impl Ranked for SavingsGoal {
    open spec fn rankable(&self) -> bool {
        self.deadline matches Some(d) ==> d.wf()
    }

    /// The goal that is due sooner first.
    open spec fn ahead_of(&self, other: &Self) -> bool {
        self.due() < other.due()
    }

    fn is_ahead_of(&self, other: &Self) -> (r: bool) {
        let mine: i64 = match self.deadline {
            Some(d) => d.stamp_value(),
            None => i64::MIN,
        };
        let theirs: i64 = match other.deadline {
            Some(d) => d.stamp_value(),
            None => i64::MIN,
        };
        mine < theirs
    }

    proof fn lemma_one_way(a: &Self, b: &Self) {
    }

    proof fn lemma_between(a: &Self, b: &Self, c: &Self) {
    }
}

impl Ranked for CategorySpending {
    open spec fn rankable(&self) -> bool {
        self.total_amount.wf()
    }

    /// The larger total first.
    open spec fn ahead_of(&self, other: &Self) -> bool {
        other.total_amount.units() < self.total_amount.units()
    }

    fn is_ahead_of(&self, other: &Self) -> (r: bool) {
        other.total_amount.less_than(&self.total_amount)
    }

    proof fn lemma_one_way(a: &Self, b: &Self) {
    }

    proof fn lemma_between(a: &Self, b: &Self, c: &Self) {
    }
}

} // verus!
