//! Conservation: no operation creates or destroys units of an item, but for
//! deposits, withdrawals and the listing fee.

use crate::ledger::{fee_spec, Ledger, FUNDS_ITEM_ID};
use crate::names::id_of;
use crate::settlement::{all_ok, lemma_owed_push, lemma_unexpired_push};
use crate::types::{SellOrderRow, SellOrderType};
use crate::validity::{
    lemma_covered, lemma_credited_valid, lemma_debited_valid, lemma_funds_id, lemma_id_of_is_id,
    lemma_item_added_valid, lemma_quantity_bounds,
};
use vstd::prelude::*;

verus! {

/// Users who hold the same in two states hold the same together.
pub proof fn lemma_held_same(s: Ledger, t: Ledger, item_id: i64, n: nat)
    requires
        n <= i64::MAX,
        forall|u: i64| 1 <= u <= n ==> #[trigger] t.quantity(u, item_id) == s.quantity(u, item_id),
    ensures
        t.held_upto(item_id, n) == s.held_upto(item_id, n),
    decreases n,
{
    if n > 0 {
        lemma_held_same(s, t, item_id, (n - 1) as nat);
        assert(t.quantity(n as i64, item_id) == s.quantity(n as i64, item_id));
    }
}

/// Where one user's holding changes by an amount and the others' do not, the
/// users hold that amount more together.
pub proof fn lemma_held_shift(s: Ledger, t: Ledger, item_id: i64, n: nat, user_id: i64, delta: int)
    requires
        1 <= user_id <= n <= i64::MAX,
        t.quantity(user_id, item_id) == s.quantity(user_id, item_id) + delta,
        forall|u: i64|
            1 <= u <= n && u != user_id ==> #[trigger] t.quantity(u, item_id) == s.quantity(
                u,
                item_id,
            ),
    ensures
        t.held_upto(item_id, n) == s.held_upto(item_id, n) + delta,
    decreases n,
{
    if n == user_id {
        lemma_held_same(s, t, item_id, (n - 1) as nat);
    } else {
        lemma_held_shift(s, t, item_id, (n - 1) as nat, user_id, delta);
        assert(t.quantity(n as i64, item_id) == s.quantity(n as i64, item_id));
    }
}

/// One more order binds what the others bind and what it binds itself.
pub proof fn lemma_bound_push(orders: Seq<SellOrderRow>, o: SellOrderRow, item_id: i64)
    ensures
        Ledger::bound_in(orders.push(o), item_id) == Ledger::bound_in(orders, item_id)
            + Ledger::bound_by(o, item_id),
{
    assert(orders.push(o).drop_last() =~= orders);
}

/// Without one order, the orders bind what that order bound less.
pub proof fn lemma_bound_remove(orders: Seq<SellOrderRow>, i: int, item_id: i64)
    requires
        0 <= i < orders.len(),
    ensures
        Ledger::bound_in(orders.remove(i), item_id) == Ledger::bound_in(orders, item_id)
            - Ledger::bound_by(orders[i], item_id),
    decreases orders.len(),
{
    if i == orders.len() - 1 {
        assert(orders.remove(i) =~= orders.drop_last());
    } else {
        lemma_bound_remove(orders.drop_last(), i, item_id);
        assert(orders.remove(i).drop_last() =~= orders.drop_last().remove(i));
        assert(orders.remove(i).last() == orders.last());
    }
}

/// With one order replaced, the orders bind what the new order binds in
/// place of what the old one bound.
pub proof fn lemma_bound_update(orders: Seq<SellOrderRow>, i: int, o: SellOrderRow, item_id: i64)
    requires
        0 <= i < orders.len(),
    ensures
        Ledger::bound_in(orders.update(i, o), item_id) == Ledger::bound_in(orders, item_id)
            - Ledger::bound_by(orders[i], item_id) + Ledger::bound_by(o, item_id),
    decreases orders.len(),
{
    if i == orders.len() - 1 {
        assert(orders.update(i, o).drop_last() =~= orders.drop_last());
    } else {
        lemma_bound_update(orders.drop_last(), i, o, item_id);
        assert(orders.update(i, o).drop_last() =~= orders.drop_last().update(i, o));
        assert(orders.update(i, o).last() == orders.last());
    }
}

/// Adding to a holding adds as much to the units of that item and nothing to
/// those of any other.
pub proof fn lemma_credited_units(s: Ledger, user_id: i64, item_id: i64, amount: int, x: i64)
    requires
        s.valid(),
        s.has_user(user_id),
        s.has_item(item_id),
        amount > 0,
        s.quantity(user_id, item_id) + amount <= i64::MAX,
    ensures
        s.credited(user_id, item_id, amount).units(x) == s.units(x) + if x == item_id {
            amount
        } else {
            0
        },
{
    let t = s.credited(user_id, item_id, amount);
    lemma_credited_valid(s, user_id, item_id, amount);
    if x == item_id {
        lemma_held_shift(s, t, x, s.users.len(), user_id, amount);
    } else {
        lemma_held_same(s, t, x, s.users.len());
    }
}

/// Taking from a holding takes as much from the units of that item and
/// nothing from those of any other.
pub proof fn lemma_debited_units(s: Ledger, user_id: i64, item_id: i64, amount: int, x: i64)
    requires
        s.valid(),
        amount > 0,
        s.quantity(user_id, item_id) >= amount,
    ensures
        s.debited(user_id, item_id, amount).units(x) == s.units(x) - if x == item_id {
            amount
        } else {
            0
        },
{
    let t = s.debited(user_id, item_id, amount);
    lemma_debited_valid(s, user_id, item_id, amount);
    lemma_covered(s, user_id, item_id, amount);
    if x == item_id {
        lemma_held_shift(s, t, x, s.users.len(), user_id, -amount);
    } else {
        lemma_held_same(s, t, x, s.users.len());
    }
}

/// Logging in creates and destroys nothing.
pub proof fn law_login_conserves(s: Ledger, username: Seq<char>, x: i64)
    requires
        s.valid(),
        s.login(username) is Ok,
    ensures
        s.login(username)->Ok_0.0.units(x) == s.units(x),
{
    let (t, id) = s.login(username)->Ok_0;
    lemma_id_of_is_id(s.users, username);
    if id_of(s.users, username) is None {
        assert forall|u: i64| 1 <= u <= s.users.len() implies #[trigger] t.quantity(u, x)
            == s.quantity(u, x) by {}
        lemma_held_same(s, t, x, s.users.len());
        assert(t.quantity(id, x) == 0) by {
            if s.holdings.dom().contains((id, x)) {
                assert(s.has_user(id));
            }
        }
    }
}

/// A deposit adds its quantity to the units of the deposited item, and
/// nothing else.
pub proof fn law_deposit_adds(
    s: Ledger,
    user_id: i64,
    item_name: Seq<char>,
    quantity: i64,
    x: i64,
)
    requires
        s.valid(),
        s.deposit(user_id, item_name, quantity) is Ok,
    ensures
        s.deposit(user_id, item_name, quantity)->Ok_0.units(x) == s.units(x) + if id_of(
            s.deposit(user_id, item_name, quantity)->Ok_0.items,
            item_name,
        ) == Some(x) {
            quantity as int
        } else {
            0
        },
{
    lemma_id_of_is_id(s.items, item_name);
    match id_of(s.items, item_name) {
        Some(item_id) => {
            lemma_credited_units(s, user_id, item_id, quantity as int, x);
        },
        None => {
            lemma_item_added_valid(s, item_name);
            let grown = Ledger { items: s.items.push(item_name), ..s };
            let item_id = (s.items.len() + 1) as i64;
            lemma_quantity_bounds(s, user_id, item_id);
            assert(grown.quantity(user_id, item_id) == s.quantity(user_id, item_id));
            lemma_credited_units(grown, user_id, item_id, quantity as int, x);
            lemma_held_same(s, grown, x, s.users.len());
        },
    }
}

/// A withdrawal takes its quantity from the units of the withdrawn item, and
/// nothing else.
pub proof fn law_withdraw_takes(
    s: Ledger,
    user_id: i64,
    item_name: Seq<char>,
    quantity: i64,
    x: i64,
)
    requires
        s.valid(),
        s.withdraw(user_id, item_name, quantity) is Ok,
    ensures
        s.withdraw(user_id, item_name, quantity)->Ok_0.units(x) == s.units(x) - if id_of(
            s.items,
            item_name,
        ) == Some(x) {
            quantity as int
        } else {
            0
        },
{
    lemma_debited_units(s, user_id, id_of(s.items, item_name)->0, quantity as int, x);
}

/// Placing a sell order moves the sold items from the seller's holding into
/// the order and destroys the listing fee; it creates nothing.
pub proof fn law_place_sell_order_burns_fee(
    s: Ledger,
    order_type: SellOrderType,
    seller_id: i64,
    item_name: Seq<char>,
    quantity: i64,
    price: i64,
    expiration_time: i64,
    x: i64,
)
    requires
        s.valid(),
        s.place_sell_order(order_type, seller_id, item_name, quantity, price, expiration_time) is Ok,
    ensures
        s.place_sell_order(
            order_type,
            seller_id,
            item_name,
            quantity,
            price,
            expiration_time,
        )->Ok_0.units(x) == s.units(x) - if x == FUNDS_ITEM_ID {
            fee_spec(price as int)
        } else {
            0
        },
{
    lemma_id_of_is_id(s.items, item_name);
    lemma_funds_id(s);
    let item_id = id_of(s.items, item_name)->0;
    let fee = fee_spec(price as int);
    lemma_debited_valid(s, seller_id, item_id, quantity as int);
    lemma_debited_units(s, seller_id, item_id, quantity as int, x);
    let a = s.debited(seller_id, item_id, quantity as int);
    lemma_debited_units(a, seller_id, FUNDS_ITEM_ID, fee, x);
    let b = a.debited(seller_id, FUNDS_ITEM_ID, fee);
    let o = s.new_order(order_type, seller_id, item_id, quantity, price, expiration_time);
    lemma_bound_push(s.orders, o, x);
    let t = s.place_sell_order(
        order_type,
        seller_id,
        item_name,
        quantity,
        price,
        expiration_time,
    )->Ok_0;
    assert(t.held(x) == b.held(x)) by {
        lemma_held_same(b, t, x, s.users.len());
    }
}

/// Executing an immediate order creates and destroys nothing.
pub proof fn law_execute_conserves(s: Ledger, buyer_id: i64, order_id: i64, x: i64)
    requires
        s.valid(),
        s.execute_immediate_sell_order(buyer_id, order_id) is Ok,
    ensures
        s.execute_immediate_sell_order(buyer_id, order_id)->Ok_0.units(x) == s.units(x),
{
    let i = s.order_index(order_id);
    let o = s.orders[i];
    assert(s.order_ok(o));
    lemma_covered(s, buyer_id, FUNDS_ITEM_ID, o.price as int);
    lemma_debited_valid(s, buyer_id, FUNDS_ITEM_ID, o.price as int);
    lemma_debited_units(s, buyer_id, FUNDS_ITEM_ID, o.price as int, x);
    let a = s.debited(buyer_id, FUNDS_ITEM_ID, o.price as int);
    lemma_credited_valid(a, o.seller_id, FUNDS_ITEM_ID, o.price as int);
    lemma_credited_units(a, o.seller_id, FUNDS_ITEM_ID, o.price as int, x);
    let b = a.credited(o.seller_id, FUNDS_ITEM_ID, o.price as int);
    lemma_credited_units(b, buyer_id, o.item_id, o.quantity as int, x);
    let c = b.credited(buyer_id, o.item_id, o.quantity as int);
    lemma_bound_remove(s.orders, i, x);
    let t = s.execute_immediate_sell_order(buyer_id, order_id)->Ok_0;
    assert(t.held(x) == c.held(x)) by {
        lemma_held_same(c, t, x, s.users.len());
    }
}

/// Bidding creates and destroys nothing: what the new bidder pays goes into
/// escrow, and what was in escrow goes back to the previous bidder.
pub proof fn law_bid_conserves(s: Ledger, buyer_id: i64, order_id: i64, bid: i64, x: i64)
    requires
        s.valid(),
        s.place_bid_on_auction_sell_order(buyer_id, order_id, bid) is Ok,
    ensures
        s.place_bid_on_auction_sell_order(buyer_id, order_id, bid)->Ok_0.units(x) == s.units(x),
{
    let i = s.order_index(order_id);
    let o = s.orders[i];
    assert(s.order_ok(o));
    lemma_funds_id(s);
    let refunded = match o.buyer_id {
        Some(previous) => s.credited(previous, FUNDS_ITEM_ID, o.price as int),
        None => s,
    };
    if o.buyer_id is Some {
        lemma_credited_valid(s, o.buyer_id->0, FUNDS_ITEM_ID, o.price as int);
        lemma_credited_units(s, o.buyer_id->0, FUNDS_ITEM_ID, o.price as int, x);
    }
    lemma_covered(refunded, buyer_id, FUNDS_ITEM_ID, bid as int);
    lemma_debited_units(refunded, buyer_id, FUNDS_ITEM_ID, bid as int, x);
    let paid = refunded.debited(buyer_id, FUNDS_ITEM_ID, bid as int);
    let o2 = SellOrderRow { price: bid, buyer_id: Some(buyer_id), ..o };
    lemma_bound_update(s.orders, i, o2, x);
    let t = s.place_bid_on_auction_sell_order(buyer_id, order_id, bid)->Ok_0;
    assert(t.held(x) == paid.held(x)) by {
        lemma_held_same(paid, t, x, s.users.len());
    }
}

/// What the expired orders among `orders` owe to the first `n` users
/// together.
pub open spec fn owed_upto(orders: Seq<SellOrderRow>, now: i64, item_id: i64, n: nat) -> int
    decreases n,
{
    if n == 0 {
        0
    } else {
        owed_upto(orders, now, item_id, (n - 1) as nat) + Ledger::owed(
            orders,
            now,
            n as i64,
            item_id,
        )
    }
}

/// What one order owes to the first `n` users together.
pub open spec fn owed_by_upto(o: SellOrderRow, now: i64, item_id: i64, n: nat) -> int
    decreases n,
{
    if n == 0 {
        0
    } else {
        owed_by_upto(o, now, item_id, (n - 1) as nat) + Ledger::owed_by(o, now, n as i64, item_id)
    }
}

/// What an order owes to the first `n` users.
pub proof fn lemma_owed_by_upto(o: SellOrderRow, now: i64, item_id: i64, n: nat)
    requires
        n <= i64::MAX,
    ensures
        owed_by_upto(o, now, item_id, n) == if o.expired(now) {
            (if 1 <= o.recipient() <= n && o.item_id == item_id {
                o.quantity as int
            } else {
                0
            }) + (if o.has_bid() && 1 <= o.seller_id <= n && item_id == FUNDS_ITEM_ID {
                o.price as int
            } else {
                0
            })
        } else {
            0
        },
    decreases n,
{
    if n > 0 {
        lemma_owed_by_upto(o, now, item_id, (n - 1) as nat);
    }
}

/// One more order owes to the first `n` users what the others owe them and
/// what it owes them itself.
pub proof fn lemma_owed_upto_push(
    orders: Seq<SellOrderRow>,
    o: SellOrderRow,
    now: i64,
    item_id: i64,
    n: nat,
)
    ensures
        owed_upto(orders.push(o), now, item_id, n) == owed_upto(orders, now, item_id, n)
            + owed_by_upto(o, now, item_id, n),
    decreases n,
{
    if n > 0 {
        lemma_owed_upto_push(orders, o, now, item_id, (n - 1) as nat);
        lemma_owed_push(orders, o, now, n as i64, item_id);
    }
}

/// What the expired orders owe to all users together, and what the orders
/// that stay bind, is what all the orders bound.
pub proof fn lemma_owed_total(s: Ledger, orders: Seq<SellOrderRow>, now: i64, item_id: i64)
    requires
        s.valid(),
        all_ok(s, orders),
    ensures
        owed_upto(orders, now, item_id, s.users.len()) + Ledger::bound_in(
            Ledger::unexpired(orders, now),
            item_id,
        ) == Ledger::bound_in(orders, item_id),
    decreases orders.len(),
{
    let n = s.users.len();
    if orders.len() == 0 {
        assert(orders =~= Seq::<SellOrderRow>::empty());
        lemma_owed_upto_none(now, item_id, n);
    } else {
        let rest = orders.drop_last();
        let o = orders.last();
        assert(rest.push(o) =~= orders);
        assert forall|i: int| 0 <= i < rest.len() implies s.order_ok(#[trigger] rest[i]) by {
            assert(rest[i] == orders[i]);
        }
        assert(s.order_ok(orders[orders.len() - 1]));
        lemma_owed_total(s, rest, now, item_id);
        lemma_owed_upto_push(rest, o, now, item_id, n);
        lemma_owed_by_upto(o, now, item_id, n);
        lemma_unexpired_push(rest, o, now);
        if !o.expired(now) {
            lemma_bound_push(Ledger::unexpired(rest, now), o, item_id);
        }
    }
}

/// No orders owe nothing.
pub proof fn lemma_owed_upto_none(now: i64, item_id: i64, n: nat)
    ensures
        owed_upto(Seq::<SellOrderRow>::empty(), now, item_id, n) == 0,
    decreases n,
{
    if n > 0 {
        lemma_owed_upto_none(now, item_id, (n - 1) as nat);
    }
}

/// After the expired orders are settled, the first `n` users hold what they
/// held and what those orders owed them.
pub proof fn lemma_settled_held(s: Ledger, now: i64, item_id: i64, n: nat)
    requires
        s.valid(),
        s.process_expired_sell_orders(now) is Ok,
        n <= i64::MAX,
    ensures
        s.process_expired_sell_orders(now)->Ok_0.held_upto(item_id, n) == s.held_upto(item_id, n)
            + owed_upto(s.orders, now, item_id, n),
    decreases n,
{
    if n > 0 {
        lemma_settled_held(s, now, item_id, (n - 1) as nat);
        let t = s.process_expired_sell_orders(now)->Ok_0;
        let u = n as i64;
        lemma_quantity_bounds(s, u, item_id);
        crate::settlement::lemma_owed_nonnegative(s, s.orders, now, u, item_id);
        assert(s.quantity(u, item_id) + Ledger::owed(s.orders, now, u, item_id) <= i64::MAX);
        assert(t.quantity(u, item_id) == s.quantity(u, item_id) + Ledger::owed(
            s.orders,
            now,
            u,
            item_id,
        ));
    }
}

/// Settling the expired orders creates and destroys nothing: what the orders
/// bound goes to the holdings that they owed it to.
pub proof fn law_sweep_conserves(s: Ledger, now: i64, x: i64)
    requires
        s.valid(),
        s.process_expired_sell_orders(now) is Ok,
    ensures
        s.process_expired_sell_orders(now)->Ok_0.units(x) == s.units(x),
{
    lemma_settled_held(s, now, x, s.users.len());
    lemma_owed_total(s, s.orders, now, x);
}

} // verus!
