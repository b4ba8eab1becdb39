//! The table of per-user item quantities, keyed by `(user_id, item_id)`.
//!
//! Rows are kept in ascending key order, so that a user's rows lie together
//! and come out by ascending item id. The table's view is the map from key to
//! quantity; every operation is specified over that map.

use vstd::prelude::*;

verus! {

/// One row: how many units of an item a user holds.
#[derive(Clone, Copy, Debug, PartialEq, Eq, Structural)]
pub struct Holding {
    pub user_id: i64,
    pub item_id: i64,
    pub quantity: i64,
}

/// Lexicographic order on keys.
pub open spec fn key_lt(a: (i64, i64), b: (i64, i64)) -> bool {
    a.0 < b.0 || (a.0 == b.0 && a.1 < b.1)
}

/// The key of a row.
pub open spec fn key_of(h: Holding) -> (i64, i64) {
    (h.user_id, h.item_id)
}

/// Rows in strictly ascending key order; in particular no key occurs twice.
pub open spec fn sorted(rows: Seq<Holding>) -> bool {
    forall|i: int, j: int|
        0 <= i < j < rows.len() ==> key_lt(key_of(#[trigger] rows[i]), key_of(#[trigger] rows[j]))
}

/// Whether some row has the key.
pub open spec fn has_key(rows: Seq<Holding>, k: (i64, i64)) -> bool {
    exists|i: int| 0 <= i < rows.len() && key_of(#[trigger] rows[i]) == k
}

/// The index of a row with the key, where there is one.
pub open spec fn index_of_key(rows: Seq<Holding>, k: (i64, i64)) -> int {
    choose|i: int| 0 <= i < rows.len() && key_of(#[trigger] rows[i]) == k
}

/// The map that a sequence of rows stands for.
pub open spec fn table_of(rows: Seq<Holding>) -> Map<(i64, i64), i64> {
    Map::new(|k: (i64, i64)| has_key(rows, k), |k: (i64, i64)| rows[index_of_key(rows, k)].quantity)
}

/// In sorted rows, the row at index `i` is the one that the map has under its key.
pub proof fn lemma_row_in_table(rows: Seq<Holding>, i: int)
    requires
        sorted(rows),
        0 <= i < rows.len(),
    ensures
        has_key(rows, key_of(rows[i])),
        index_of_key(rows, key_of(rows[i])) == i,
        table_of(rows).dom().contains(key_of(rows[i])),
        table_of(rows)[key_of(rows[i])] == rows[i].quantity,
{
    let k = key_of(rows[i]);
    assert(has_key(rows, k));
    let j = index_of_key(rows, k);
    assert(0 <= j < rows.len() && key_of(rows[j]) == k);
    if j < i {
        assert(key_lt(key_of(rows[j]), key_of(rows[i])));
    } else if i < j {
        assert(key_lt(key_of(rows[i]), key_of(rows[j])));
    }
}

/// Replacing the quantity of the row at `p` is an insert under its key.
pub proof fn lemma_update_row(rows: Seq<Holding>, p: int, q: i64)
    requires
        sorted(rows),
        0 <= p < rows.len(),
    ensures
        sorted(rows.update(p, Holding { quantity: q, ..rows[p] })),
        table_of(rows.update(p, Holding { quantity: q, ..rows[p] })) == table_of(rows).insert(
            key_of(rows[p]),
            q,
        ),
{
    let k = key_of(rows[p]);
    let after = rows.update(p, Holding { quantity: q, ..rows[p] });
    assert forall|i: int, j: int| 0 <= i < j < after.len() implies key_lt(
        key_of(#[trigger] after[i]),
        key_of(#[trigger] after[j]),
    ) by {
        assert(key_of(after[i]) == key_of(rows[i]));
        assert(key_of(after[j]) == key_of(rows[j]));
    }
    let lhs = table_of(after);
    let rhs = table_of(rows).insert(k, q);
    assert forall|k2: (i64, i64)| lhs.dom().contains(k2) <==> rhs.dom().contains(k2) by {
        if has_key(after, k2) {
            let i = index_of_key(after, k2);
            assert(key_of(rows[i]) == k2);
        }
        if has_key(rows, k2) {
            let i = index_of_key(rows, k2);
            assert(key_of(after[i]) == k2);
        }
        if k2 == k {
            assert(key_of(after[p]) == k2);
        }
    }
    assert forall|k2: (i64, i64)| lhs.dom().contains(k2) implies lhs[k2] == rhs[k2] by {
        let i = index_of_key(after, k2);
        assert(key_of(after[i]) == k2);
        assert(key_of(rows[i]) == k2);
        lemma_row_in_table(after, i);
        lemma_row_in_table(rows, i);
    }
    assert(lhs =~= rhs);
}

/// Putting a new row at its place in the order is an insert under its key.
pub proof fn lemma_insert_row(rows: Seq<Holding>, p: int, h: Holding)
    requires
        sorted(rows),
        0 <= p <= rows.len(),
        forall|i: int| 0 <= i < p ==> key_lt(key_of(#[trigger] rows[i]), key_of(h)),
        forall|i: int| p <= i < rows.len() ==> key_lt(key_of(h), key_of(#[trigger] rows[i])),
    ensures
        sorted(rows.insert(p, h)),
        table_of(rows.insert(p, h)) == table_of(rows).insert(key_of(h), h.quantity),
{
    let k = key_of(h);
    let after = rows.insert(p, h);
    assert forall|i: int, j: int| 0 <= i < j < after.len() implies key_lt(
        key_of(#[trigger] after[i]),
        key_of(#[trigger] after[j]),
    ) by {
        let a = if i < p { i } else { i - 1 };
        let b = if j < p { j } else { j - 1 };
        if i != p {
            assert(after[i] == rows[a]);
        }
        if j != p {
            assert(after[j] == rows[b]);
        }
    }
    let lhs = table_of(after);
    let rhs = table_of(rows).insert(k, h.quantity);
    assert forall|k2: (i64, i64)| lhs.dom().contains(k2) <==> rhs.dom().contains(k2) by {
        if has_key(after, k2) {
            let i = index_of_key(after, k2);
            if i < p {
                assert(key_of(rows[i]) == k2);
            } else if i > p {
                assert(after[i] == rows[i - 1]);
                assert(key_of(rows[i - 1]) == k2);
            }
        }
        if has_key(rows, k2) {
            let i = index_of_key(rows, k2);
            if i < p {
                assert(after[i] == rows[i]);
                assert(key_of(after[i]) == k2);
            } else {
                assert(after[i + 1] == rows[i]);
                assert(key_of(after[i + 1]) == k2);
            }
        }
        if k2 == k {
            assert(key_of(after[p]) == k2);
        }
    }
    assert forall|k2: (i64, i64)| lhs.dom().contains(k2) implies lhs[k2] == rhs[k2] by {
        let i = index_of_key(after, k2);
        assert(key_of(after[i]) == k2);
        lemma_row_in_table(after, i);
        if i < p {
            assert(after[i] == rows[i]);
            lemma_row_in_table(rows, i);
        } else if i > p {
            assert(after[i] == rows[i - 1]);
            lemma_row_in_table(rows, i - 1);
        }
    }
    assert(lhs =~= rhs);
}

/// Taking the row at `p` out removes its key.
pub proof fn lemma_remove_row(rows: Seq<Holding>, p: int)
    requires
        sorted(rows),
        0 <= p < rows.len(),
    ensures
        sorted(rows.remove(p)),
        table_of(rows.remove(p)) == table_of(rows).remove(key_of(rows[p])),
{
    let k = key_of(rows[p]);
    let after = rows.remove(p);
    assert forall|i: int, j: int| 0 <= i < j < after.len() implies key_lt(
        key_of(#[trigger] after[i]),
        key_of(#[trigger] after[j]),
    ) by {
        let a = if i < p { i } else { i + 1 };
        let b = if j < p { j } else { j + 1 };
        assert(after[i] == rows[a]);
        assert(after[j] == rows[b]);
    }
    let lhs = table_of(after);
    let rhs = table_of(rows).remove(k);
    assert forall|k2: (i64, i64)| lhs.dom().contains(k2) <==> rhs.dom().contains(k2) by {
        if has_key(after, k2) {
            let i = index_of_key(after, k2);
            let a = if i < p { i } else { i + 1 };
            assert(after[i] == rows[a]);
            assert(key_of(rows[a]) == k2);
            lemma_row_in_table(rows, a);
            lemma_row_in_table(rows, p);
        }
        if has_key(rows, k2) && k2 != k {
            let i = index_of_key(rows, k2);
            if i < p {
                assert(after[i] == rows[i]);
                assert(key_of(after[i]) == k2);
            } else {
                assert(after[i - 1] == rows[i]);
                assert(key_of(after[i - 1]) == k2);
            }
        }
    }
    assert forall|k2: (i64, i64)| lhs.dom().contains(k2) implies lhs[k2] == rhs[k2] by {
        let i = index_of_key(after, k2);
        assert(key_of(after[i]) == k2);
        lemma_row_in_table(after, i);
        let a = if i < p { i } else { i + 1 };
        assert(after[i] == rows[a]);
        lemma_row_in_table(rows, a);
    }
    assert(lhs =~= rhs);
}

/// The holdings table.
pub struct Holdings {
    rows: Vec<Holding>,
}

impl View for Holdings {
    type V = Map<(i64, i64), i64>;

    closed spec fn view(&self) -> Map<(i64, i64), i64> {
        table_of(self.rows@)
    }
}

impl Holdings {
    /// The rows, in key order.
    pub closed spec fn rows(&self) -> Seq<Holding> {
        self.rows@
    }

    /// The table keeps its rows in strictly ascending key order.
    pub closed spec fn wf(&self) -> bool {
        sorted(self.rows@)
    }

    /// What the view is, over the rows.
    pub proof fn lemma_view(&self)
        ensures
            self@ == table_of(self.rows()),
            self.wf() == sorted(self.rows()),
    {
    }

    /// An empty table.
    pub fn new() -> (r: Holdings)
        ensures
            r.wf(),
            r@ == Map::<(i64, i64), i64>::empty(),
            r.rows() == Seq::<Holding>::empty(),
    {
        let r = Holdings { rows: Vec::new() };
        assert(r@ =~= Map::<(i64, i64), i64>::empty());
        r
    }

    /// The table of rows that are in strictly ascending key order.
    pub(crate) fn from_sorted(rows: Vec<Holding>) -> (r: Holdings)
        requires
            sorted(rows@),
        ensures
            r.wf(),
            r.rows() == rows@,
            r@ == table_of(rows@),
    {
        Holdings { rows }
    }

    /// The number of rows.
    pub fn len(&self) -> (n: usize)
        ensures
            n == self.rows().len(),
    {
        self.rows.len()
    }

    /// The row at an index, in key order.
    pub fn row(&self, i: usize) -> (h: Holding)
        requires
            i < self.rows().len(),
        ensures
            h == self.rows()[i as int],
    {
        self.rows[i]
    }

    /// The index of the first row whose key is not below `(user_id, item_id)`,
    /// and whether that row has exactly this key.
    fn position(&self, user_id: i64, item_id: i64) -> (r: (usize, bool))
        requires
            self.wf(),
        ensures
            r.0 <= self.rows@.len(),
            forall|i: int| 0 <= i < r.0 ==> key_lt(key_of(#[trigger] self.rows@[i]), (user_id, item_id)),
            forall|i: int|
                r.0 <= i < self.rows@.len() ==> !key_lt(
                    key_of(#[trigger] self.rows@[i]),
                    (user_id, item_id),
                ),
            r.1 == (r.0 < self.rows@.len() && key_of(self.rows@[r.0 as int]) == (user_id, item_id)),
            r.1 == self@.dom().contains((user_id, item_id)),
    {
        let mut lo: usize = 0;
        let mut hi: usize = self.rows.len();
        while lo < hi
            invariant
                self.wf(),
                lo <= hi <= self.rows@.len(),
                forall|i: int| 0 <= i < lo ==> key_lt(key_of(#[trigger] self.rows@[i]), (user_id, item_id)),
                forall|i: int|
                    hi <= i < self.rows@.len() ==> !key_lt(
                        key_of(#[trigger] self.rows@[i]),
                        (user_id, item_id),
                    ),
            decreases hi - lo,
        {
            let mid: usize = lo + (hi - lo) / 2;
            let h = self.rows[mid];
            if h.user_id < user_id || (h.user_id == user_id && h.item_id < item_id) {
                assert forall|i: int| 0 <= i < mid + 1 implies key_lt(
                    key_of(#[trigger] self.rows@[i]),
                    (user_id, item_id),
                ) by {
                    if i < mid {
                        assert(key_lt(key_of(self.rows@[i]), key_of(self.rows@[mid as int])));
                    }
                }
                lo = mid + 1;
            } else {
                assert forall|i: int| mid <= i < self.rows@.len() implies !key_lt(
                    key_of(#[trigger] self.rows@[i]),
                    (user_id, item_id),
                ) by {
                    if mid < i {
                        assert(key_lt(key_of(self.rows@[mid as int]), key_of(self.rows@[i])));
                    }
                }
                hi = mid;
            }
        }
        let found = lo < self.rows.len() && self.rows[lo].user_id == user_id && self.rows[lo].item_id
            == item_id;
        proof {
            let k = (user_id, item_id);
            if found {
                lemma_row_in_table(self.rows@, lo as int);
            }
            if has_key(self.rows@, k) {
                let i = index_of_key(self.rows@, k);
                assert(key_of(self.rows@[i]) == k);
                if i < lo {
                    assert(key_lt(key_of(self.rows@[i]), k));
                } else if i > lo {
                    assert(key_lt(key_of(self.rows@[lo as int]), key_of(self.rows@[i])));
                    assert(!key_lt(key_of(self.rows@[lo as int]), k));
                }
            }
        }
        (lo, found)
    }

    /// The index of a user's first row, or of the row that would follow them.
    pub fn start_of(&self, user_id: i64) -> (p: usize)
        requires
            self.wf(),
        ensures
            p <= self.rows().len(),
            forall|i: int| 0 <= i < p ==> (#[trigger] self.rows()[i]).user_id < user_id,
            forall|i: int| p <= i < self.rows().len() ==> (#[trigger] self.rows()[i]).user_id >= user_id,
    {
        let (p, _) = self.position(user_id, i64::MIN);
        assert forall|i: int| 0 <= i < p implies (#[trigger] self.rows@[i]).user_id < user_id by {
            assert(key_lt(key_of(self.rows@[i]), (user_id, i64::MIN)));
        }
        assert forall|i: int| p <= i < self.rows@.len() implies (#[trigger] self.rows@[i]).user_id
            >= user_id by {
            assert(!key_lt(key_of(self.rows@[i]), (user_id, i64::MIN)));
        }
        p
    }

    /// The quantity under a key, or `None` where the table has no such row.
    pub fn get(&self, user_id: i64, item_id: i64) -> (r: Option<i64>)
        requires
            self.wf(),
        ensures
            r is Some == self@.dom().contains((user_id, item_id)),
            r is Some ==> r->0 == self@[(user_id, item_id)],
    {
        let (p, found) = self.position(user_id, item_id);
        if found {
            proof {
                lemma_row_in_table(self.rows@, p as int);
            }
            Some(self.rows[p].quantity)
        } else {
            None
        }
    }

    /// Writes the quantity under a key, adding the row where there is none.
    pub fn put(&mut self, user_id: i64, item_id: i64, quantity: i64)
        requires
            old(self).wf(),
        ensures
            final(self).wf(),
            final(self)@ == old(self)@.insert((user_id, item_id), quantity),
    {
        let (p, found) = self.position(user_id, item_id);
        let h = Holding { user_id, item_id, quantity };
        if found {
            proof {
                lemma_update_row(self.rows@, p as int, quantity);
                assert(Holding { quantity, ..self.rows@[p as int] } == h);
            }
            self.rows.set(p, h);
        } else {
            proof {
                assert forall|i: int| p <= i < self.rows@.len() implies key_lt(
                    key_of(h),
                    key_of(#[trigger] self.rows@[i]),
                ) by {
                    if i > p {
                        assert(key_lt(key_of(self.rows@[p as int]), key_of(self.rows@[i])));
                    }
                }
                lemma_insert_row(self.rows@, p as int, h);
            }
            self.rows.insert(p, h);
        }
    }

    /// Deletes the row under a key, if there is one.
    pub fn delete(&mut self, user_id: i64, item_id: i64)
        requires
            old(self).wf(),
        ensures
            final(self).wf(),
            final(self)@ == old(self)@.remove((user_id, item_id)),
    {
        let (p, found) = self.position(user_id, item_id);
        if found {
            proof {
                lemma_remove_row(self.rows@, p as int);
            }
            self.rows.remove(p);
        } else {
            assert(self@.remove((user_id, item_id)) =~= self@);
        }
    }

    /// A copy of the rows, in key order.
    pub fn to_rows(&self) -> (r: Vec<Holding>)
        ensures
            r@ == self.rows(),
    {
        self.snapshot().rows
    }

    /// A copy of the table.
    pub fn snapshot(&self) -> (r: Holdings)
        ensures
            r.rows() == self.rows(),
            r@ == self@,
            r.wf() == self.wf(),
    {
        let mut rows: Vec<Holding> = Vec::new();
        let mut i: usize = 0;
        while i < self.rows.len()
            invariant
                i <= self.rows@.len(),
                rows@ == self.rows@.subrange(0, i as int),
            decreases self.rows@.len() - i,
        {
            rows.push(self.rows[i]);
            assert(rows@ =~= self.rows@.subrange(0, i + 1));
            i += 1;
        }
        assert(rows@ =~= self.rows@);
        Holdings { rows }
    }
}

} // verus!
