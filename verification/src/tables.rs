//! The stored tables of the auction house, as a persistent store keeps them,
//! and the check that they form a valid state.

use crate::holdings::{
    has_key, index_of_key, key_lt, key_of, lemma_row_in_table, sorted, table_of, Holding, Holdings,
};
use crate::ledger::{funds_name, Ledger, FUNDS_ITEM_ID};
use crate::names::{distinct, is_id, NameTable};
use crate::types::{same_text, SellOrderRow};
use vstd::prelude::*;
use vstd::string::*;

verus! {

/// A stored user or item: its id and its name.
#[derive(Debug, PartialEq, Eq)]
pub struct NameRow {
    pub id: i64,
    pub name: String,
}

/// The names of stored rows, in their order.
pub open spec fn names_of(rows: Seq<NameRow>) -> Seq<Seq<char>> {
    Seq::new(rows.len(), |i: int| rows[i].name@)
}

/// Whether stored rows carry the ids 1, 2, 3 and so on, in their order.
pub open spec fn numbered_from_one(rows: Seq<NameRow>) -> bool {
    forall|i: int| 0 <= i < rows.len() ==> (#[trigger] rows[i]).id == i + 1
}

/// Whether stored rows can be the rows of a table of names: numbered from
/// one, with distinct names of which none is empty.
pub open spec fn names_valid(rows: Seq<NameRow>) -> bool {
    &&& numbered_from_one(rows)
    &&& rows.len() <= i64::MAX
    &&& distinct(names_of(rows))
    &&& forall|i: int| 0 <= i < rows.len() ==> (#[trigger] names_of(rows)[i]).len() > 0
}

/// The state that stored tables stand for.
pub open spec fn tables_ledger(
    users: Seq<NameRow>,
    items: Seq<NameRow>,
    holdings: Seq<Holding>,
    orders: Seq<SellOrderRow>,
    last_order_id: i64,
) -> Ledger {
    Ledger {
        users: names_of(users),
        items: names_of(items),
        holdings: table_of(holdings),
        orders,
        last_order_id,
    }
}

/// Whether stored tables stand for a valid state: users and items are
/// numbered from one, the holdings come in ascending key order, and the state
/// satisfies the invariant of the auction house.
pub open spec fn tables_valid(
    users: Seq<NameRow>,
    items: Seq<NameRow>,
    holdings: Seq<Holding>,
    orders: Seq<SellOrderRow>,
    last_order_id: i64,
) -> bool {
    &&& numbered_from_one(users)
    &&& numbered_from_one(items)
    &&& sorted(holdings)
    &&& tables_ledger(users, items, holdings, orders, last_order_id).valid()
}

/// Builds a table of names from stored rows, if they can be its rows.
#[verifier::loop_isolation(false)]
pub fn load_names(rows: &Vec<NameRow>) -> (r: Option<NameTable>)
    ensures
        r is Some == names_valid(rows@),
        r matches Some(table) ==> table.wf() && table@ == names_of(rows@),
{
    let mut table = NameTable::new();
    let ghost all = names_of(rows@);
    let mut i: usize = 0;
    assert(all.subrange(0, 0) =~= Seq::<Seq<char>>::empty());
    while i < rows.len()
        invariant
            i <= rows@.len(),
            all == names_of(rows@),
            table.wf(),
            table@ == all.subrange(0, i as int),
            forall|j: int| 0 <= j < i ==> (#[trigger] rows@[j]).id == j + 1,
            forall|j: int| 0 <= j < i ==> (#[trigger] all[j]).len() > 0,
        decreases rows@.len() - i,
    {
        proof {
            table.lemma_wf();
        }
        let row = &rows[i];
        assert(all[i as int] == row.name@);
        if !table.has_room() {
            return None;
        }
        if row.id != table.count() + 1 {
            return None;
        }
        if row.name.as_str().is_empty() {
            return None;
        }
        if table.find(row.name.as_str()).is_some() {
            proof {
                let before = all.subrange(0, i as int);
                let j = choose|j: int| 0 <= j < before.len() && before[j] == row.name@;
                assert(before.contains(row.name@));
                assert(all[j] == all[i as int]);
            }
            return None;
        }
        table.add(row.name.as_str());
        assert(table@ =~= all.subrange(0, i + 1));
        i += 1;
    }
    proof {
        assert(all.subrange(0, rows@.len() as int) =~= all);
        table.lemma_wf();
    }
    Some(table)
}

/// The stored rows of a table of names, by ascending id.
#[verifier::loop_isolation(false)]
pub fn name_rows(table: &NameTable) -> (r: Vec<NameRow>)
    requires
        table.wf(),
    ensures
        numbered_from_one(r@),
        names_of(r@) == table@,
{
    let names = table.names();
    let mut r: Vec<NameRow> = Vec::new();
    let mut id: i64 = 1;
    proof {
        table.lemma_wf();
    }
    while id <= table.count()
        invariant
            table.wf(),
            names.deep_view() == table@,
            table@.len() <= i64::MAX,
            1 <= id <= table@.len() + 1,
            r@.len() == id - 1,
            forall|j: int| 0 <= j < r@.len() ==> (#[trigger] r@[j]).id == j + 1,
            forall|j: int| 0 <= j < r@.len() ==> (#[trigger] r@[j]).name@ == table@[j],
        decreases table@.len() + 1 - id,
    {
        r.push(NameRow { id, name: table.name(id).clone() });
        if id == i64::MAX {
            break ;
        }
        id += 1;
    }
    assert(names_of(r@) =~= table@);
    r
}

/// What a stored holding must satisfy by itself.
pub open spec fn holding_ok(h: Holding, users: nat, items: nat) -> bool {
    &&& is_id(users, h.user_id)
    &&& is_id(items, h.item_id)
    &&& h.quantity >= 0
    &&& (h.item_id != FUNDS_ITEM_ID ==> h.quantity > 0)
}

/// Whether stored holdings can be the holdings of an auction house with the
/// given numbers of users and items: in ascending key order, each well
/// formed, with a row of the currency for every user.
pub open spec fn holdings_valid(rows: Seq<Holding>, users: nat, items: nat) -> bool {
    &&& sorted(rows)
    &&& forall|i: int| 0 <= i < rows.len() ==> holding_ok(#[trigger] rows[i], users, items)
    &&& forall|u: i64| is_id(users, u) ==> #[trigger] has_key(rows, (u, FUNDS_ITEM_ID))
}

/// Builds the holdings table from stored rows, if they can be its rows.
#[verifier::loop_isolation(false)]
pub fn load_holdings(rows: Vec<Holding>, users: i64, items: i64) -> (r: Option<Holdings>)
    requires
        0 <= users,
        0 <= items,
    ensures
        r is Some == holdings_valid(rows@, users as nat, items as nat),
        r matches Some(table) ==> table.wf() && table@ == table_of(rows@),
{
    let mut i: usize = 0;
    while i < rows.len()
        invariant
            i <= rows@.len(),
            sorted(rows@.subrange(0, i as int)),
            forall|j: int|
                0 <= j < i ==> holding_ok(#[trigger] rows@[j], users as nat, items as nat),
        decreases rows@.len() - i,
    {
        let h = rows[i];
        if h.user_id < 1 || h.user_id > users || h.item_id < 1 || h.item_id > items || h.quantity
            < 0 || (h.item_id != FUNDS_ITEM_ID && h.quantity == 0) {
            assert(!holding_ok(rows@[i as int], users as nat, items as nat));
            return None;
        }
        if i > 0 {
            let before = rows[i - 1];
            if !(before.user_id < h.user_id || (before.user_id == h.user_id && before.item_id
                < h.item_id)) {
                assert(!key_lt(key_of(rows@[i - 1]), key_of(rows@[i as int])));
                return None;
            }
        }
        proof {
            let longer = rows@.subrange(0, i + 1);
            assert forall|a: int, b: int| 0 <= a < b < longer.len() implies key_lt(
                key_of(#[trigger] longer[a]),
                key_of(#[trigger] longer[b]),
            ) by {
                let shorter = rows@.subrange(0, i as int);
                if b < i {
                    assert(key_lt(key_of(shorter[a]), key_of(shorter[b])));
                } else if a < i - 1 {
                    assert(key_lt(key_of(shorter[a]), key_of(shorter[i - 1])));
                }
            }
        }
        i += 1;
    }
    assert(rows@.subrange(0, rows@.len() as int) =~= rows@);
    let ghost stored = rows@;
    let table = Holdings::from_sorted(rows);
    let mut u: i64 = 1;
    while u <= users
        invariant
            1 <= u <= users + 1,
            table.wf(),
            table@ == table_of(stored),
            forall|v: i64| 1 <= v < u ==> #[trigger] has_key(stored, (v, FUNDS_ITEM_ID)),
        decreases users - u + 1,
    {
        if table.get(u, FUNDS_ITEM_ID).is_none() {
            assert(!has_key(stored, (u, FUNDS_ITEM_ID)));
            return None;
        }
        if u == users {
            break ;
        }
        u += 1;
    }
    Some(table)
}

/// What a stored order must satisfy by itself.
pub open spec fn stored_order_ok(o: SellOrderRow, users: nat, items: nat, last: i64) -> bool {
    &&& o.quantity > 0
    &&& o.price > 0
    &&& 1 <= o.id <= last
    &&& is_id(users, o.seller_id)
    &&& is_id(items, o.item_id)
    &&& o.item_id != FUNDS_ITEM_ID
    &&& o.buyer_id matches Some(b) ==> is_id(users, b)
}

/// Whether stored orders can be the live orders of an auction house: each
/// well formed, by strictly ascending id.
pub open spec fn orders_valid(orders: Seq<SellOrderRow>, users: nat, items: nat, last: i64) -> bool {
    &&& 0 <= last
    &&& forall|i: int|
        0 <= i < orders.len() ==> stored_order_ok(#[trigger] orders[i], users, items, last)
    &&& forall|i: int, j: int|
        0 <= i < j < orders.len() ==> (#[trigger] orders[i]).id < (#[trigger] orders[j]).id
}

/// Checks that stored orders can be the live orders of an auction house.
#[verifier::loop_isolation(false)]
pub fn check_orders(orders: &Vec<SellOrderRow>, users: i64, items: i64, last: i64) -> (r: bool)
    requires
        0 <= users,
        0 <= items,
    ensures
        r == orders_valid(orders@, users as nat, items as nat, last),
{
    if last < 0 {
        return false;
    }
    let mut i: usize = 0;
    while i < orders.len()
        invariant
            i <= orders@.len(),
            0 <= last,
            forall|j: int|
                0 <= j < i ==> stored_order_ok(
                    #[trigger] orders@[j],
                    users as nat,
                    items as nat,
                    last,
                ),
            forall|a: int, b: int|
                0 <= a < b < i ==> (#[trigger] orders@[a]).id < (#[trigger] orders@[b]).id,
        decreases orders@.len() - i,
    {
        let o = orders[i];
        let buyer_known = match o.buyer_id {
            Some(b) => 1 <= b && b <= users,
            None => true,
        };
        if o.quantity <= 0 || o.price <= 0 || o.id < 1 || o.id > last || o.seller_id < 1
            || o.seller_id > users || o.item_id < 1 || o.item_id > items || o.item_id
            == FUNDS_ITEM_ID || !buyer_known {
            assert(!stored_order_ok(orders@[i as int], users as nat, items as nat, last));
            return false;
        }
        if i > 0 && orders[i - 1].id >= o.id {
            assert(!(orders@[i - 1].id < orders@[i as int].id));
            return false;
        }
        proof {
            assert forall|a: int, b: int| 0 <= a < b < i + 1 implies (#[trigger] orders@[a]).id < (
            #[trigger] orders@[b]).id by {
                if b == i && a < i - 1 {
                    assert(orders@[a].id < orders@[i - 1].id);
                }
            }
        }
        i += 1;
    }
    true
}

/// Stored tables stand for a valid state exactly when each of them is valid
/// by itself and the first item is the currency.
pub proof fn lemma_tables_valid(
    users: Seq<NameRow>,
    items: Seq<NameRow>,
    holdings: Seq<Holding>,
    orders: Seq<SellOrderRow>,
    last_order_id: i64,
)
    ensures
        tables_valid(users, items, holdings, orders, last_order_id) == (names_valid(users)
            && names_valid(items) && items.len() >= 1 && names_of(items)[0] == funds_name()
            && holdings_valid(holdings, users.len(), items.len()) && orders_valid(
            orders,
            users.len(),
            items.len(),
            last_order_id,
        )),
{
    let s = tables_ledger(users, items, holdings, orders, last_order_id);
    let parts = names_valid(users) && names_valid(items) && items.len() >= 1 && names_of(items)[0]
        == funds_name() && holdings_valid(holdings, users.len(), items.len()) && orders_valid(
        orders,
        users.len(),
        items.len(),
        last_order_id,
    );
    if tables_valid(users, items, holdings, orders, last_order_id) {
        assert forall|i: int| 0 <= i < holdings.len() implies holding_ok(
            #[trigger] holdings[i],
            users.len(),
            items.len(),
        ) by {
            lemma_row_in_table(holdings, i);
            assert(s.holdings.dom().contains(key_of(holdings[i])));
        }
        assert forall|u: i64| is_id(users.len(), u) implies #[trigger] has_key(
            holdings,
            (u, FUNDS_ITEM_ID),
        ) by {
            assert(s.holdings.dom().contains((u, FUNDS_ITEM_ID)));
        }
        assert forall|i: int| 0 <= i < orders.len() implies stored_order_ok(
            #[trigger] orders[i],
            users.len(),
            items.len(),
            last_order_id,
        ) by {
            assert(s.order_ok(s.orders[i]));
        }
        assert forall|i: int| 0 <= i < users.len() implies (#[trigger] names_of(users)[i]).len()
            > 0 by {
            assert(s.users[i].len() > 0);
        }
        assert forall|i: int| 0 <= i < items.len() implies (#[trigger] names_of(items)[i]).len()
            > 0 by {
            assert(s.items[i].len() > 0);
        }
        assert(parts);
    }
    if parts {
        assert forall|k: (i64, i64)| #[trigger] s.holdings.dom().contains(k) implies {
            &&& s.has_user(k.0)
            &&& s.has_item(k.1)
            &&& s.holdings[k] >= 0
            &&& (k.1 != FUNDS_ITEM_ID ==> s.holdings[k] > 0)
        } by {
            let i = index_of_key(holdings, k);
            assert(key_of(holdings[i]) == k);
            assert(holding_ok(holdings[i], users.len(), items.len()));
            lemma_row_in_table(holdings, i);
        }
        assert forall|u: i64| s.has_user(u) implies #[trigger] s.holdings.dom().contains(
            (u, FUNDS_ITEM_ID),
        ) by {
            assert(has_key(holdings, (u, FUNDS_ITEM_ID)));
        }
        assert forall|i: int| 0 <= i < s.orders.len() implies s.order_ok(#[trigger] s.orders[i]) by {
            assert(stored_order_ok(orders[i], users.len(), items.len(), last_order_id));
        }
        assert forall|i: int| 0 <= i < s.users.len() implies (#[trigger] s.users[i]).len() > 0 by {
            assert(names_of(users)[i].len() > 0);
        }
        assert forall|i: int| 0 <= i < s.items.len() implies (#[trigger] s.items[i]).len() > 0 by {
            assert(names_of(items)[i].len() > 0);
        }
        assert(s.valid());
    }
}

/// Whether the journal mode that a store reports is accepted: write-ahead
/// logging is required of every store but one in memory, which is the one
/// opened under the path `:memory:`.
pub open spec fn journal_mode_accepted_spec(journal_mode: Seq<char>, path: Seq<char>) -> bool {
    journal_mode == "wal"@ || path == ":memory:"@
}

/// Whether the journal mode that a store reports is accepted.
pub fn journal_mode_accepted(journal_mode: &str, path: &str) -> (r: bool)
    ensures
        r == journal_mode_accepted_spec(journal_mode@, path@),
{
    same_text(journal_mode, "wal") || same_text(path, ":memory:")
}

} // verus!
