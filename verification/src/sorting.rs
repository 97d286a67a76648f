//! Putting rows in order.
//!
//! A listing is described by an arrangement: the places of the rows in the
//! order in which they are to be shown. Rows that rank alike keep the order
//! they had, so the arrangement of a list is fully determined.

use vstd::prelude::*;

verus! {

/// Rows that can be copied.
pub trait Row: Sized {
    /// A copy of the row, equal to it in every field.
    fn duplicate(&self) -> (r: Self)
        ensures
            r == *self,
    ;
}

/// Rows that can be ranked against each other. `ahead_of` is a strict weak
/// order on valid rows: it never holds both ways, and a row that is ahead of
/// another is ahead of any third row that the other is not ahead of.
pub trait Ranked: Row {
    /// The row can be ranked.
    spec fn rankable(&self) -> bool;

    /// The row is shown before the other.
    spec fn ahead_of(&self, other: &Self) -> bool;

    fn is_ahead_of(&self, other: &Self) -> (r: bool)
        requires
            self.rankable(),
            other.rankable(),
        ensures
            r == self.ahead_of(other),
    ;

    proof fn lemma_one_way(a: &Self, b: &Self)
        requires
            a.rankable(),
            b.rankable(),
            a.ahead_of(b),
        ensures
            !b.ahead_of(a),
    ;

    proof fn lemma_between(a: &Self, b: &Self, c: &Self)
        requires
            a.rankable(),
            b.rankable(),
            c.rankable(),
            a.ahead_of(b),
        ensures
            a.ahead_of(c) || c.ahead_of(b),
    ;
}

/// Where a row goes among rows that are already placed: before the first
/// one that it is ahead of, or at the end.
pub open spec fn slot<K: Ranked>(keys: Seq<K>, placed: Seq<usize>, k: K) -> int
    decreases placed.len(),
{
    if placed.len() == 0 {
        0
    } else {
        let p = slot(keys, placed.drop_last(), k);
        if p < placed.len() - 1 {
            p
        } else if k.ahead_of(&keys[placed.last() as int]) {
            placed.len() - 1
        } else {
            placed.len() as int
        }
    }
}

/// The arrangement of the first `n` rows: each row in turn is put into its
/// slot among those before it.
pub open spec fn arrange<K: Ranked>(keys: Seq<K>, n: nat) -> Seq<usize>
    decreases n,
{
    if n == 0 {
        Seq::empty()
    } else {
        let before = arrange(keys, (n - 1) as nat);
        before.insert(slot(keys, before, keys[n - 1]), (n - 1) as usize)
    }
}

/// The arrangement of all the rows.
pub open spec fn arranged<K: Ranked>(keys: Seq<K>) -> Seq<usize> {
    arrange(keys, keys.len())
}

/// Each of the first `n` places occurs, and none twice.
pub open spec fn is_arrangement(order: Seq<usize>, n: nat) -> bool {
    &&& order.len() == n
    &&& forall|i: int| 0 <= i < order.len() ==> (#[trigger] order[i]) < n
    &&& forall|i: int, j: int|
        #![trigger order[i], order[j]]
        0 <= i < j < order.len() ==> order[i] != order[j]
}

/// No row stands before one that is ahead of it, and rows that rank alike
/// stand as they stood.
pub open spec fn in_order<K: Ranked>(keys: Seq<K>, order: Seq<usize>) -> bool {
    forall|a: int, b: int|
        #![trigger order[a], order[b]]
        0 <= a < b < order.len() ==> {
            &&& !keys[order[b] as int].ahead_of(&keys[order[a] as int])
            &&& !keys[order[a] as int].ahead_of(&keys[order[b] as int]) ==> order[a] < order[b]
        }
}

/// What the slot of a row is: nothing before it is behind the row, and the
/// row at the slot, if there is one, is.
pub proof fn lemma_slot<K: Ranked>(keys: Seq<K>, placed: Seq<usize>, k: K)
    ensures
        0 <= slot(keys, placed, k) <= placed.len(),
        forall|a: int|
            0 <= a < slot(keys, placed, k) ==> !k.ahead_of(&keys[(#[trigger] placed[a]) as int]),
        slot(keys, placed, k) < placed.len() ==> k.ahead_of(
            &keys[placed[slot(keys, placed, k)] as int],
        ),
    decreases placed.len(),
{
    if placed.len() > 0 {
        let shorter = placed.drop_last();
        lemma_slot(keys, shorter, k);
        let p = slot(keys, shorter, k);
        assert forall|a: int| 0 <= a < slot(keys, placed, k) implies !k.ahead_of(
            &keys[(#[trigger] placed[a]) as int],
        ) by {
            if a < shorter.len() {
                assert(placed[a] == shorter[a]);
            }
        }
        if p < placed.len() - 1 {
            assert(placed[p] == shorter[p]);
        }
    }
}

/// A place with the two properties of a slot is the slot.
pub proof fn lemma_slot_is<K: Ranked>(keys: Seq<K>, placed: Seq<usize>, k: K, p: int)
    requires
        0 <= p <= placed.len(),
        forall|a: int| 0 <= a < p ==> !k.ahead_of(&keys[(#[trigger] placed[a]) as int]),
        p < placed.len() ==> k.ahead_of(&keys[placed[p] as int]),
    ensures
        slot(keys, placed, k) == p,
{
    lemma_slot(keys, placed, k);
    let q = slot(keys, placed, k);
    if q < p {
        assert(!k.ahead_of(&keys[placed[q] as int]));
    }
    if p < q {
        assert(!k.ahead_of(&keys[placed[p] as int]));
    }
}

/// The arrangement is one, and it is in order.
pub proof fn lemma_arrange<K: Ranked>(keys: Seq<K>, n: nat)
    requires
        n <= keys.len(),
        n <= usize::MAX,
        forall|i: int| 0 <= i < keys.len() ==> (#[trigger] keys[i]).rankable(),
    ensures
        is_arrangement(arrange(keys, n), n),
        in_order(keys, arrange(keys, n)),
    decreases n,
{
    if n > 0 {
        let before = arrange(keys, (n - 1) as nat);
        lemma_arrange(keys, (n - 1) as nat);
        let k = keys[n - 1];
        let p = slot(keys, before, k);
        lemma_slot(keys, before, k);
        let after = arrange(keys, n);
        let fresh = (n - 1) as usize;
        assert(after == before.insert(p, fresh));
        assert forall|x: int| 0 <= x < after.len() implies #[trigger] after[x] == if x < p {
            before[x]
        } else if x == p {
            fresh
        } else {
            before[x - 1]
        } by {}
        assert forall|i: int| 0 <= i < after.len() implies (#[trigger] after[i]) < n by {
            if i < p {
                assert(before[i] < n - 1);
            } else if i > p {
                assert(before[i - 1] < n - 1);
            }
        }
        assert forall|i: int, j: int|
            #![trigger after[i], after[j]]
            0 <= i < j < after.len() implies after[i] != after[j] by {
            let a = if i < p { i } else { i - 1 };
            let b = if j < p { j } else { j - 1 };
            if i != p {
                assert(before[a] < n - 1);
            }
            if j != p {
                assert(before[b] < n - 1);
            }
        }
        assert forall|a: int, b: int|
            #![trigger after[a], after[b]]
            0 <= a < b < after.len() implies {
            &&& !keys[after[b] as int].ahead_of(&keys[after[a] as int])
            &&& !keys[after[a] as int].ahead_of(&keys[after[b] as int]) ==> after[a] < after[b]
        } by {
            if b == p {
                // the new row stands behind rows it is not ahead of
                assert(after[a] == before[a]);
                assert(!k.ahead_of(&keys[before[a] as int]));
                assert(before[a] < n - 1);
            } else if a == p {
                // the new row stands before rows that are behind it
                let y = before[b - 1];
                assert(after[b] == y);
                assert(before[b - 1] < n - 1);
                let x = before[p];
                assert(before[p] < n - 1);
                assert(k.ahead_of(&keys[x as int]));
                if b - 1 > p {
                    assert(!keys[before[b - 1] as int].ahead_of(&keys[before[p] as int]));
                }
                K::lemma_between(&k, &keys[x as int], &keys[y as int]);
                assert(k.ahead_of(&keys[y as int]));
                K::lemma_one_way(&k, &keys[y as int]);
            } else {
                let x = if a < p { a } else { a - 1 };
                let y = if b < p { b } else { b - 1 };
                assert(after[a] == before[x]);
                assert(after[b] == before[y]);
                assert(!keys[before[y] as int].ahead_of(&keys[before[x] as int]));
            }
        }
    }
}

/// The rows in the order that an arrangement gives.
pub open spec fn in_arrangement<K>(rows: Seq<K>, order: Seq<usize>) -> Seq<K> {
    Seq::new(order.len(), |k: int| rows[order[k] as int])
}

/// The rows in order of rank, rows of equal rank as they stood.
pub open spec fn listing<K: Ranked>(rows: Seq<K>) -> Seq<K> {
    in_arrangement(rows, arranged(rows))
}

/// A listing holds each row of the list once, and no row of it stands
/// before one that is ahead of it.
pub proof fn lemma_listing<K: Ranked>(rows: Seq<K>)
    requires
        rows.len() <= usize::MAX,
        forall|i: int| 0 <= i < rows.len() ==> (#[trigger] rows[i]).rankable(),
    ensures
        listing(rows).len() == rows.len(),
        is_arrangement(arranged(rows), rows.len()),
        forall|k: int|
            0 <= k < rows.len() ==> (#[trigger] listing(rows)[k]) == rows[arranged(rows)[k] as int],
        forall|a: int, b: int|
            #![trigger listing(rows)[a], listing(rows)[b]]
            0 <= a < b < rows.len() ==> !listing(rows)[b].ahead_of(&listing(rows)[a]),
{
    lemma_arrange(rows, rows.len());
    let order = arranged(rows);
    assert forall|a: int, b: int|
        #![trigger listing(rows)[a], listing(rows)[b]]
        0 <= a < b < rows.len() implies !listing(rows)[b].ahead_of(&listing(rows)[a]) by {
        let x = order[a];
        let y = order[b];
        assert(!rows[y as int].ahead_of(&rows[x as int]));
    }
}

/// Copies the rows of a list into their listing.
pub fn listed<K: Ranked>(rows: &Vec<K>) -> (r: Vec<K>)
    requires
        forall|i: int| 0 <= i < rows.len() ==> (#[trigger] rows[i]).rankable(),
    ensures
        r@ == listing(rows@),
{
    let order = sorted_order(rows);
    let mut out: Vec<K> = Vec::new();
    let mut k: usize = 0;
    while k < order.len()
        invariant
            k <= order.len(),
            is_arrangement(order@, rows@.len()),
            order@ == arranged(rows@),
            out@ == listing(rows@).take(k as int),
        decreases order.len() - k,
    {
        let at: usize = order[k];
        out.push(rows[at].duplicate());
        proof {
            assert(listing(rows@).take(k + 1) =~= listing(rows@).take(k as int).push(
                rows@[at as int],
            ));
        }
        k = k + 1;
    }
    proof {
        assert(listing(rows@).take(k as int) =~= listing(rows@));
    }
    out
}

/// Works out the arrangement of a list of rows.
pub fn sorted_order<K: Ranked>(keys: &Vec<K>) -> (order: Vec<usize>)
    requires
        forall|i: int| 0 <= i < keys.len() ==> (#[trigger] keys[i]).rankable(),
    ensures
        order@ == arranged(keys@),
        is_arrangement(order@, keys@.len()),
        in_order(keys@, order@),
{
    let mut order: Vec<usize> = Vec::new();
    let mut i: usize = 0;
    while i < keys.len()
        invariant
            i <= keys.len(),
            order@ == arrange(keys@, i as nat),
            forall|x: int| 0 <= x < keys.len() ==> (#[trigger] keys[x]).rankable(),
        decreases keys.len() - i,
    {
        proof {
            lemma_arrange(keys@, i as nat);
        }
        let mut p: usize = 0;
        while p < order.len() && !keys[i].is_ahead_of(&keys[order[p]])
            invariant
                p <= order.len(),
                i < keys.len(),
                is_arrangement(order@, i as nat),
                forall|x: int| 0 <= x < keys.len() ==> (#[trigger] keys[x]).rankable(),
                forall|a: int|
                    0 <= a < p ==> !keys[i as int].ahead_of(&keys[(#[trigger] order[a]) as int]),
            decreases order.len() - p,
        {
            p = p + 1;
        }
        proof {
            lemma_slot_is(keys@, order@, keys[i as int], p as int);
        }
        order.insert(p, i);
        i = i + 1;
    }
    proof {
        lemma_arrange(keys@, keys@.len());
    }
    order
}

} // verus!
