//! Every operation of the auction house takes a valid state to a valid state.

use crate::ledger::{fee_spec, funds_name, Ledger, FUNDS_ITEM_ID};
use crate::names::{id_of, is_id, lemma_id_after_push, lemma_id_at};
use crate::types::{SellOrderRow, SellOrderType};
use vstd::prelude::*;

verus! {

/// The currency's name has five characters.
pub proof fn lemma_funds_name()
    ensures
        funds_name().len() == 5,
        funds_name() == seq!['f', 'u', 'n', 'd', 's'],
{
    reveal_strlit("funds");
    assert(funds_name() =~= seq!['f', 'u', 'n', 'd', 's']);
}

/// In a valid state the currency is the item with id 1, and no other item has
/// its name.
pub proof fn lemma_funds_id(s: Ledger)
    requires
        s.valid(),
    ensures
        id_of(s.items, funds_name()) == Some(FUNDS_ITEM_ID),
        s.has_item(FUNDS_ITEM_ID),
        forall|name: Seq<char>|
            name != funds_name() ==> #[trigger] id_of(s.items, name) != Some(FUNDS_ITEM_ID),
{
    lemma_id_at(s.items, 0);
    assert forall|name: Seq<char>| name != funds_name() implies #[trigger] id_of(s.items, name)
        != Some(FUNDS_ITEM_ID) by {
        if s.items.contains(name) {
            let i = s.items.index_of(name);
            assert(s.items[i] == name);
        }
    }
}

/// An id that a name has is the id of a row, and that row holds the name.
pub proof fn lemma_id_of_is_id(names: Seq<Seq<char>>, name: Seq<char>)
    requires
        names.len() <= i64::MAX,
    ensures
        id_of(names, name) matches Some(id) ==> is_id(names.len(), id) && names[id - 1] == name,
        id_of(names, name) is None ==> !names.contains(name),
{
    if names.contains(name) {
        let i = names.index_of(name);
        assert(0 <= i < names.len() && names[i] == name);
    }
}

/// The state of a freshly created store is valid.
pub proof fn lemma_fresh_valid()
    ensures
        Ledger::fresh().valid(),
{
    lemma_funds_name();
    let s = Ledger::fresh();
    assert(s.items[0] == funds_name());
}

/// In a valid state, the order at an index is the one found under its id.
pub proof fn lemma_order_at(s: Ledger, i: int)
    requires
        s.valid(),
        0 <= i < s.orders.len(),
    ensures
        s.has_order(s.orders[i].id),
        s.order_index(s.orders[i].id) == i,
{
    let id = s.orders[i].id;
    assert(s.has_order(id));
    let j = s.order_index(id);
    assert(0 <= j < s.orders.len() && s.orders[j].id == id);
    if j < i {
        assert(s.orders[j].id < s.orders[i].id);
    } else if i < j {
        assert(s.orders[i].id < s.orders[j].id);
    }
}

/// In a valid state, a holding that covers a positive amount has a row of an
/// existing user and item.
pub proof fn lemma_covered(s: Ledger, user_id: i64, item_id: i64, amount: int)
    requires
        s.valid(),
        amount > 0,
        s.quantity(user_id, item_id) >= amount,
    ensures
        s.holdings.dom().contains((user_id, item_id)),
        s.has_user(user_id),
        s.has_item(item_id),
{
}

/// In a valid state every quantity is a natural number that a row can store.
pub proof fn lemma_quantity_bounds(s: Ledger, user_id: i64, item_id: i64)
    requires
        s.valid(),
    ensures
        0 <= s.quantity(user_id, item_id) <= i64::MAX,
        !s.has_user(user_id) ==> s.quantity(user_id, item_id) == 0,
        !s.has_item(item_id) ==> s.quantity(user_id, item_id) == 0,
{
    if s.holdings.dom().contains((user_id, item_id)) {
    }
}

/// Adding a positive amount to the holding of an existing user and item keeps
/// the state valid.
pub proof fn lemma_credited_valid(s: Ledger, user_id: i64, item_id: i64, amount: int)
    requires
        s.valid(),
        s.has_user(user_id),
        s.has_item(item_id),
        amount > 0,
        s.quantity(user_id, item_id) + amount <= i64::MAX,
    ensures
        s.credited(user_id, item_id, amount).valid(),
        s.credited(user_id, item_id, amount).quantity(user_id, item_id) == s.quantity(
            user_id,
            item_id,
        ) + amount,
        forall|u: i64, i: i64|
            (u, i) != (user_id, item_id) ==> #[trigger] s.credited(
                user_id,
                item_id,
                amount,
            ).quantity(u, i) == s.quantity(u, i),
{
    let t = s.credited(user_id, item_id, amount);
    lemma_quantity_bounds(s, user_id, item_id);
    assert forall|k: (i64, i64)| #[trigger] t.holdings.dom().contains(k) implies {
        &&& t.has_user(k.0)
        &&& t.has_item(k.1)
        &&& t.holdings[k] >= 0
        &&& (k.1 != FUNDS_ITEM_ID ==> t.holdings[k] > 0)
    } by {
        if k != (user_id, item_id) {
            assert(s.holdings.dom().contains(k));
        }
    }
    assert forall|u: i64| t.has_user(u) implies #[trigger] t.holdings.dom().contains(
        (u, FUNDS_ITEM_ID),
    ) by {
        assert(s.holdings.dom().contains((u, FUNDS_ITEM_ID)));
    }
    assert forall|i: int| 0 <= i < t.orders.len() implies t.order_ok(#[trigger] t.orders[i]) by {
        assert(s.order_ok(s.orders[i]));
    }
}

/// Taking a positive amount that a holding covers keeps the state valid.
pub proof fn lemma_debited_valid(s: Ledger, user_id: i64, item_id: i64, amount: int)
    requires
        s.valid(),
        amount > 0,
        s.quantity(user_id, item_id) >= amount,
    ensures
        s.debited(user_id, item_id, amount).valid(),
        s.debited(user_id, item_id, amount).quantity(user_id, item_id) == s.quantity(
            user_id,
            item_id,
        ) - amount,
        forall|u: i64, i: i64|
            (u, i) != (user_id, item_id) ==> #[trigger] s.debited(user_id, item_id, amount).quantity(
                u,
                i,
            ) == s.quantity(u, i),
{
    let t = s.debited(user_id, item_id, amount);
    lemma_quantity_bounds(s, user_id, item_id);
    lemma_covered(s, user_id, item_id, amount);
    assert forall|k: (i64, i64)| #[trigger] t.holdings.dom().contains(k) implies {
        &&& t.has_user(k.0)
        &&& t.has_item(k.1)
        &&& t.holdings[k] >= 0
        &&& (k.1 != FUNDS_ITEM_ID ==> t.holdings[k] > 0)
    } by {
        if k != (user_id, item_id) {
            assert(s.holdings.dom().contains(k));
        }
    }
    assert forall|u: i64| t.has_user(u) implies #[trigger] t.holdings.dom().contains(
        (u, FUNDS_ITEM_ID),
    ) by {
        assert(s.holdings.dom().contains((u, FUNDS_ITEM_ID)));
    }
    assert forall|i: int| 0 <= i < t.orders.len() implies t.order_ok(#[trigger] t.orders[i]) by {
        assert(s.order_ok(s.orders[i]));
    }
}

/// Adding an item under a new, non-empty name keeps the state valid and
/// changes no quantity.
pub proof fn lemma_item_added_valid(s: Ledger, item_name: Seq<char>)
    requires
        s.valid(),
        item_name.len() > 0,
        id_of(s.items, item_name) is None,
        s.items.len() < i64::MAX,
    ensures
        (Ledger { items: s.items.push(item_name), ..s }).valid(),
        (Ledger { items: s.items.push(item_name), ..s }).has_item((s.items.len() + 1) as i64),
        id_of(s.items.push(item_name), item_name) == Some((s.items.len() + 1) as i64),
{
    let t = Ledger { items: s.items.push(item_name), ..s };
    lemma_id_of_is_id(s.items, item_name);
    lemma_id_after_push(s.items, item_name, item_name);
    assert forall|i: int| 0 <= i < t.items.len() implies (#[trigger] t.items[i]).len() > 0 by {
        if i < s.items.len() {
            assert(t.items[i] == s.items[i]);
        }
    }
    assert(t.items[0] == s.items[0]);
    assert forall|k: (i64, i64)| #[trigger] t.holdings.dom().contains(k) implies {
        &&& t.has_user(k.0)
        &&& t.has_item(k.1)
        &&& t.holdings[k] >= 0
        &&& (k.1 != FUNDS_ITEM_ID ==> t.holdings[k] > 0)
    } by {
        assert(s.holdings.dom().contains(k));
    }
    assert forall|i: int| 0 <= i < t.orders.len() implies t.order_ok(#[trigger] t.orders[i]) by {
        assert(s.order_ok(s.orders[i]));
    }
}

/// Logging in keeps the state valid; the id returned is that of a user who
/// has the name.
pub proof fn lemma_login_valid(s: Ledger, username: Seq<char>)
    requires
        s.valid(),
        s.login(username) is Ok,
    ensures
        s.login(username)->Ok_0.0.valid(),
        s.login(username)->Ok_0.0.has_user(s.login(username)->Ok_0.1),
        s.login(username)->Ok_0.0.users[s.login(username)->Ok_0.1 - 1] == username,
        id_of(s.login(username)->Ok_0.0.users, username) == Some(s.login(username)->Ok_0.1),
{
    let (t, id) = s.login(username)->Ok_0;
    lemma_id_of_is_id(s.users, username);
    if id_of(s.users, username) is None {
        lemma_id_after_push(s.users, username, username);
        assert forall|i: int| 0 <= i < t.users.len() implies (#[trigger] t.users[i]).len() > 0 by {
            if i < s.users.len() {
                assert(t.users[i] == s.users[i]);
            }
        }
        assert forall|k: (i64, i64)| #[trigger] t.holdings.dom().contains(k) implies {
            &&& t.has_user(k.0)
            &&& t.has_item(k.1)
            &&& t.holdings[k] >= 0
            &&& (k.1 != FUNDS_ITEM_ID ==> t.holdings[k] > 0)
        } by {
            if k != (id, FUNDS_ITEM_ID) {
                assert(s.holdings.dom().contains(k));
            }
        }
        assert forall|u: i64| t.has_user(u) implies #[trigger] t.holdings.dom().contains(
            (u, FUNDS_ITEM_ID),
        ) by {
            if u != id {
                assert(s.holdings.dom().contains((u, FUNDS_ITEM_ID)));
            }
        }
        assert forall|i: int| 0 <= i < t.orders.len() implies t.order_ok(#[trigger] t.orders[i]) by {
            assert(s.order_ok(s.orders[i]));
        }
    }
}

/// Depositing keeps the state valid.
pub proof fn lemma_deposit_valid(s: Ledger, user_id: i64, item_name: Seq<char>, quantity: i64)
    requires
        s.valid(),
        s.deposit(user_id, item_name, quantity) is Ok,
    ensures
        s.deposit(user_id, item_name, quantity)->Ok_0.valid(),
{
    lemma_id_of_is_id(s.items, item_name);
    match id_of(s.items, item_name) {
        Some(item_id) => {
            lemma_credited_valid(s, user_id, item_id, quantity as int);
        },
        None => {
            lemma_item_added_valid(s, item_name);
            let t = Ledger { items: s.items.push(item_name), ..s };
            let item_id = (s.items.len() + 1) as i64;
            lemma_quantity_bounds(s, user_id, item_id);
            assert(t.quantity(user_id, item_id) == s.quantity(user_id, item_id));
            lemma_credited_valid(t, user_id, item_id, quantity as int);
        },
    }
}

/// Withdrawing keeps the state valid.
pub proof fn lemma_withdraw_valid(s: Ledger, user_id: i64, item_name: Seq<char>, quantity: i64)
    requires
        s.valid(),
        s.withdraw(user_id, item_name, quantity) is Ok,
    ensures
        s.withdraw(user_id, item_name, quantity)->Ok_0.valid(),
{
    lemma_debited_valid(s, user_id, id_of(s.items, item_name)->0, quantity as int);
}

/// Putting a well-formed order under the next id keeps the state valid.
pub proof fn lemma_order_pushed_valid(s: Ledger, o: SellOrderRow)
    requires
        s.valid(),
        s.last_order_id < i64::MAX,
        o.id == s.last_order_id + 1,
        o.quantity > 0,
        o.price > 0,
        s.has_user(o.seller_id),
        s.has_item(o.item_id),
        o.item_id != FUNDS_ITEM_ID,
        o.buyer_id matches Some(b) ==> s.has_user(b),
    ensures
        (Ledger { orders: s.orders.push(o), last_order_id: o.id, ..s }).valid(),
{
    let t = Ledger { orders: s.orders.push(o), last_order_id: o.id, ..s };
    assert forall|i: int| 0 <= i < t.orders.len() implies t.order_ok(#[trigger] t.orders[i]) by {
        if i < s.orders.len() {
            assert(s.order_ok(s.orders[i]));
        }
    }
    assert forall|i: int, j: int| 0 <= i < j < t.orders.len() implies (#[trigger] t.orders[i]).id < (
    #[trigger] t.orders[j]).id by {
        assert(s.order_ok(s.orders[i]));
        if j < s.orders.len() {
            assert(s.orders[i].id < s.orders[j].id);
        }
    }
    assert forall|k: (i64, i64)| #[trigger] t.holdings.dom().contains(k) implies {
        &&& t.has_user(k.0)
        &&& t.has_item(k.1)
        &&& t.holdings[k] >= 0
        &&& (k.1 != FUNDS_ITEM_ID ==> t.holdings[k] > 0)
    } by {
        assert(s.holdings.dom().contains(k));
    }
}

/// Taking an order out keeps the state valid.
pub proof fn lemma_order_removed_valid(s: Ledger, i: int)
    requires
        s.valid(),
        0 <= i < s.orders.len(),
    ensures
        (Ledger { orders: s.orders.remove(i), ..s }).valid(),
{
    let t = Ledger { orders: s.orders.remove(i), ..s };
    assert forall|a: int| 0 <= a < t.orders.len() implies t.order_ok(#[trigger] t.orders[a]) by {
        let b = if a < i { a } else { a + 1 };
        assert(t.orders[a] == s.orders[b]);
        assert(s.order_ok(s.orders[b]));
    }
    assert forall|a: int, b: int| 0 <= a < b < t.orders.len() implies (#[trigger] t.orders[a]).id < (
    #[trigger] t.orders[b]).id by {
        let a2 = if a < i { a } else { a + 1 };
        let b2 = if b < i { b } else { b + 1 };
        assert(t.orders[a] == s.orders[a2]);
        assert(t.orders[b] == s.orders[b2]);
        assert(s.orders[a2].id < s.orders[b2].id);
    }
    assert forall|k: (i64, i64)| #[trigger] t.holdings.dom().contains(k) implies {
        &&& t.has_user(k.0)
        &&& t.has_item(k.1)
        &&& t.holdings[k] >= 0
        &&& (k.1 != FUNDS_ITEM_ID ==> t.holdings[k] > 0)
    } by {
        assert(s.holdings.dom().contains(k));
    }
}

/// Raising an order's price and naming an existing user as its buyer keeps
/// the state valid.
pub proof fn lemma_order_rebid_valid(s: Ledger, i: int, buyer_id: i64, bid: i64)
    requires
        s.valid(),
        0 <= i < s.orders.len(),
        s.has_user(buyer_id),
        bid > 0,
    ensures
        (Ledger {
            orders: s.orders.update(
                i,
                SellOrderRow { price: bid, buyer_id: Some(buyer_id), ..s.orders[i] },
            ),
            ..s
        }).valid(),
{
    let t = Ledger {
        orders: s.orders.update(
            i,
            SellOrderRow { price: bid, buyer_id: Some(buyer_id), ..s.orders[i] },
        ),
        ..s
    };
    assert forall|a: int| 0 <= a < t.orders.len() implies t.order_ok(#[trigger] t.orders[a]) by {
        assert(s.order_ok(s.orders[a]));
    }
    assert forall|a: int, b: int| 0 <= a < b < t.orders.len() implies (#[trigger] t.orders[a]).id < (
    #[trigger] t.orders[b]).id by {
        assert(s.orders[a].id < s.orders[b].id);
    }
    assert forall|k: (i64, i64)| #[trigger] t.holdings.dom().contains(k) implies {
        &&& t.has_user(k.0)
        &&& t.has_item(k.1)
        &&& t.holdings[k] >= 0
        &&& (k.1 != FUNDS_ITEM_ID ==> t.holdings[k] > 0)
    } by {
        assert(s.holdings.dom().contains(k));
    }
}

/// Placing a sell order keeps the state valid.
pub proof fn lemma_place_sell_order_valid(
    s: Ledger,
    order_type: SellOrderType,
    seller_id: i64,
    item_name: Seq<char>,
    quantity: i64,
    price: i64,
    expiration_time: i64,
)
    requires
        s.valid(),
        s.place_sell_order(order_type, seller_id, item_name, quantity, price, expiration_time) is Ok,
    ensures
        s.place_sell_order(
            order_type,
            seller_id,
            item_name,
            quantity,
            price,
            expiration_time,
        )->Ok_0.valid(),
{
    lemma_id_of_is_id(s.items, item_name);
    lemma_funds_id(s);
    let item_id = id_of(s.items, item_name)->0;
    let fee = fee_spec(price as int);
    lemma_covered(s, seller_id, item_id, quantity as int);
    lemma_debited_valid(s, seller_id, item_id, quantity as int);
    let a = s.debited(seller_id, item_id, quantity as int);
    assert(a.quantity(seller_id, FUNDS_ITEM_ID) == s.quantity(seller_id, FUNDS_ITEM_ID));
    lemma_debited_valid(a, seller_id, FUNDS_ITEM_ID, fee);
    let b = a.debited(seller_id, FUNDS_ITEM_ID, fee);
    let o = s.new_order(order_type, seller_id, item_id, quantity, price, expiration_time);
    lemma_order_pushed_valid(b, o);
}

/// Executing an immediate order keeps the state valid.
pub proof fn lemma_execute_valid(s: Ledger, buyer_id: i64, order_id: i64)
    requires
        s.valid(),
        s.execute_immediate_sell_order(buyer_id, order_id) is Ok,
    ensures
        s.execute_immediate_sell_order(buyer_id, order_id)->Ok_0.valid(),
{
    let i = s.order_index(order_id);
    let o = s.orders[i];
    assert(s.order_ok(o));
    lemma_covered(s, buyer_id, FUNDS_ITEM_ID, o.price as int);
    lemma_debited_valid(s, buyer_id, FUNDS_ITEM_ID, o.price as int);
    let a = s.debited(buyer_id, FUNDS_ITEM_ID, o.price as int);
    assert(a.quantity(o.seller_id, FUNDS_ITEM_ID) == s.quantity(o.seller_id, FUNDS_ITEM_ID));
    lemma_credited_valid(a, o.seller_id, FUNDS_ITEM_ID, o.price as int);
    let b = a.credited(o.seller_id, FUNDS_ITEM_ID, o.price as int);
    assert(a.quantity(buyer_id, o.item_id) == s.quantity(buyer_id, o.item_id));
    assert(b.quantity(buyer_id, o.item_id) == a.quantity(buyer_id, o.item_id));
    lemma_credited_valid(b, buyer_id, o.item_id, o.quantity as int);
    let c = b.credited(buyer_id, o.item_id, o.quantity as int);
    lemma_order_removed_valid(c, i);
}

/// Bidding keeps the state valid.
pub proof fn lemma_bid_valid(s: Ledger, buyer_id: i64, order_id: i64, bid: i64)
    requires
        s.valid(),
        s.place_bid_on_auction_sell_order(buyer_id, order_id, bid) is Ok,
    ensures
        s.place_bid_on_auction_sell_order(buyer_id, order_id, bid)->Ok_0.valid(),
{
    let i = s.order_index(order_id);
    let o = s.orders[i];
    assert(s.order_ok(o));
    let refunded = match o.buyer_id {
        Some(previous) => s.credited(previous, FUNDS_ITEM_ID, o.price as int),
        None => s,
    };
    lemma_funds_id(s);
    if o.buyer_id is Some {
        lemma_credited_valid(s, o.buyer_id->0, FUNDS_ITEM_ID, o.price as int);
    }
    lemma_covered(refunded, buyer_id, FUNDS_ITEM_ID, bid as int);
    lemma_debited_valid(refunded, buyer_id, FUNDS_ITEM_ID, bid as int);
    let paid = refunded.debited(buyer_id, FUNDS_ITEM_ID, bid as int);
    lemma_order_rebid_valid(paid, i, buyer_id, bid);
}

/// Item ids under which a user has no row add nothing to the user's holdings.
pub proof fn lemma_items_gap(s: Ledger, user_id: i64, a: nat, b: nat)
    requires
        a <= b <= i64::MAX,
        forall|x: i64| a < x <= b ==> !s.holdings.dom().contains((user_id, x)),
    ensures
        s.items_upto(user_id, b) == s.items_upto(user_id, a),
    decreases b - a,
{
    if a < b {
        lemma_items_gap(s, user_id, a, (b - 1) as nat);
        assert(!s.holdings.dom().contains((user_id, b as i64)));
    }
}

} // verus!
