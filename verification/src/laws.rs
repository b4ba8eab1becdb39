//! Laws of the auction house that relate one operation to another.

use crate::errors::StorageErrorView;
use crate::ledger::{fee_spec, Ledger, FUNDS_ITEM_ID};
use crate::names::id_of;
use crate::settlement::{lemma_sweep_nothing, lemma_sweep_valid, lemma_unexpired};
use crate::types::SellOrderType;
use crate::validity::{
    lemma_bid_valid, lemma_covered, lemma_credited_valid, lemma_debited_valid, lemma_funds_id,
    lemma_id_of_is_id, lemma_item_added_valid, lemma_login_valid, lemma_order_at,
    lemma_place_sell_order_valid, lemma_quantity_bounds,
};
use vstd::prelude::*;

verus! {

/// Logging in is idempotent: once a name has logged in, logging in again
/// returns the same id and changes nothing.
pub proof fn law_login_idempotent(s: Ledger, username: Seq<char>)
    requires
        s.valid(),
        s.login(username) is Ok,
    ensures
        s.login(username)->Ok_0.0.login(username) == Ok::<(Ledger, i64), StorageErrorView>(
            s.login(username)->Ok_0,
        ),
{
    lemma_login_valid(s, username);
}

/// A deposit followed by a withdrawal of the same quantity of the same item
/// by the same user succeeds and leaves every holding as it was: the
/// currency's row stays, and a row of another item that the deposit created is
/// deleted again. Users and orders are untouched.
pub proof fn law_deposit_then_withdraw(s: Ledger, user_id: i64, item_name: Seq<char>, quantity: i64)
    requires
        s.valid(),
        s.deposit(user_id, item_name, quantity) is Ok,
    ensures
        s.deposit(user_id, item_name, quantity)->Ok_0.withdraw(user_id, item_name, quantity) is Ok,
        s.deposit(user_id, item_name, quantity)->Ok_0.withdraw(
            user_id,
            item_name,
            quantity,
        )->Ok_0.holdings == s.holdings,
        s.deposit(user_id, item_name, quantity)->Ok_0.withdraw(
            user_id,
            item_name,
            quantity,
        )->Ok_0.users == s.users,
        s.deposit(user_id, item_name, quantity)->Ok_0.withdraw(
            user_id,
            item_name,
            quantity,
        )->Ok_0.orders == s.orders,
{
    let t = s.deposit(user_id, item_name, quantity)->Ok_0;
    lemma_id_of_is_id(s.items, item_name);
    match id_of(s.items, item_name) {
        Some(item_id) => {
            lemma_quantity_bounds(s, user_id, item_id);
            lemma_credited_valid(s, user_id, item_id, quantity as int);
            let w = t.withdraw(user_id, item_name, quantity)->Ok_0;
            assert(w.holdings =~= s.holdings);
        },
        None => {
            lemma_item_added_valid(s, item_name);
            let item_id = (s.items.len() + 1) as i64;
            let grown = Ledger { items: s.items.push(item_name), ..s };
            lemma_quantity_bounds(s, user_id, item_id);
            assert(grown.quantity(user_id, item_id) == s.quantity(user_id, item_id));
            lemma_credited_valid(grown, user_id, item_id, quantity as int);
            let w = t.withdraw(user_id, item_name, quantity)->Ok_0;
            assert(w.holdings =~= s.holdings);
        },
    }
}

/// An immediate sell order that is placed and then executed by another user
/// moves exactly the quantity of the item from the seller to the buyer and
/// exactly the price in currency from the buyer to the seller. The seller has
/// also paid the listing fee, which nobody receives. No order is left of it.
pub proof fn law_sell_then_execute(
    s: Ledger,
    seller_id: i64,
    buyer_id: i64,
    item_name: Seq<char>,
    quantity: i64,
    price: i64,
    expiration_time: i64,
)
    requires
        s.valid(),
        s.place_sell_order(
            SellOrderType::Immediate,
            seller_id,
            item_name,
            quantity,
            price,
            expiration_time,
        ) is Ok,
        s.place_sell_order(
            SellOrderType::Immediate,
            seller_id,
            item_name,
            quantity,
            price,
            expiration_time,
        )->Ok_0.execute_immediate_sell_order(buyer_id, (s.last_order_id + 1) as i64) is Ok,
    ensures
        ({
            let item_id = id_of(s.items, item_name)->0;
            let after = s.place_sell_order(
                SellOrderType::Immediate,
                seller_id,
                item_name,
                quantity,
                price,
                expiration_time,
            )->Ok_0.execute_immediate_sell_order(buyer_id, (s.last_order_id + 1) as i64)->Ok_0;
            &&& buyer_id != seller_id
            &&& after.quantity(buyer_id, item_id) == s.quantity(buyer_id, item_id) + quantity
            &&& after.quantity(seller_id, item_id) == s.quantity(seller_id, item_id) - quantity
            &&& after.quantity(buyer_id, FUNDS_ITEM_ID) == s.quantity(buyer_id, FUNDS_ITEM_ID)
                - price
            &&& after.quantity(seller_id, FUNDS_ITEM_ID) == s.quantity(seller_id, FUNDS_ITEM_ID)
                - fee_spec(price as int) + price
            &&& after.orders == s.orders
        }),
{
    let item_id = id_of(s.items, item_name)->0;
    let fee = fee_spec(price as int);
    let order_id = (s.last_order_id + 1) as i64;
    let t = s.place_sell_order(
        SellOrderType::Immediate,
        seller_id,
        item_name,
        quantity,
        price,
        expiration_time,
    )->Ok_0;
    lemma_id_of_is_id(s.items, item_name);
    lemma_funds_id(s);
    lemma_place_sell_order_valid(
        s,
        SellOrderType::Immediate,
        seller_id,
        item_name,
        quantity,
        price,
        expiration_time,
    );
    lemma_debited_valid(s, seller_id, item_id, quantity as int);
    let a = s.debited(seller_id, item_id, quantity as int);
    lemma_debited_valid(a, seller_id, FUNDS_ITEM_ID, fee);
    let b = a.debited(seller_id, FUNDS_ITEM_ID, fee);
    assert(t.holdings == b.holdings);
    let i = s.orders.len() as int;
    assert(t.orders[i].id == order_id);
    lemma_order_at(t, i);
    let o = t.orders[i];
    lemma_covered(t, buyer_id, FUNDS_ITEM_ID, price as int);
    lemma_debited_valid(t, buyer_id, FUNDS_ITEM_ID, price as int);
    let c = t.debited(buyer_id, FUNDS_ITEM_ID, price as int);
    lemma_credited_valid(c, seller_id, FUNDS_ITEM_ID, price as int);
    let d = c.credited(seller_id, FUNDS_ITEM_ID, price as int);
    lemma_credited_valid(d, buyer_id, item_id, quantity as int);
    let after = t.execute_immediate_sell_order(buyer_id, order_id)->Ok_0;
    assert(after.orders =~= s.orders);
    assert(t.quantity(buyer_id, item_id) == s.quantity(buyer_id, item_id));
    assert(t.quantity(buyer_id, FUNDS_ITEM_ID) == s.quantity(buyer_id, FUNDS_ITEM_ID));
}

/// A bid that is followed by a higher bid of another user is refunded in
/// full: the first bidder gets back exactly what the bid took, and where the
/// first bidder was not already the order's highest bidder, holds as much
/// currency as before bidding.
pub proof fn law_outbid_refunds(
    s: Ledger,
    order_id: i64,
    first_bidder: i64,
    first_bid: i64,
    second_bidder: i64,
    second_bid: i64,
)
    requires
        s.valid(),
        first_bidder != second_bidder,
        s.place_bid_on_auction_sell_order(first_bidder, order_id, first_bid) is Ok,
        s.place_bid_on_auction_sell_order(
            first_bidder,
            order_id,
            first_bid,
        )->Ok_0.place_bid_on_auction_sell_order(second_bidder, order_id, second_bid) is Ok,
    ensures
        ({
            let between = s.place_bid_on_auction_sell_order(first_bidder, order_id, first_bid)->Ok_0;
            let after = between.place_bid_on_auction_sell_order(
                second_bidder,
                order_id,
                second_bid,
            )->Ok_0;
            let o = s.orders[s.order_index(order_id)];
            &&& second_bid > first_bid
            &&& after.quantity(first_bidder, FUNDS_ITEM_ID) == between.quantity(
                first_bidder,
                FUNDS_ITEM_ID,
            ) + first_bid
            &&& o.buyer_id != Some(first_bidder) ==> after.quantity(first_bidder, FUNDS_ITEM_ID)
                == s.quantity(first_bidder, FUNDS_ITEM_ID)
            &&& after.orders[s.order_index(order_id)].buyer_id == Some(second_bidder)
            &&& after.orders[s.order_index(order_id)].price == second_bid
        }),
{
    let i = s.order_index(order_id);
    let o = s.orders[i];
    assert(s.order_ok(o));
    lemma_funds_id(s);
    let between = s.place_bid_on_auction_sell_order(first_bidder, order_id, first_bid)->Ok_0;
    lemma_bid_valid(s, first_bidder, order_id, first_bid);
    let refunded = match o.buyer_id {
        Some(previous) => s.credited(previous, FUNDS_ITEM_ID, o.price as int),
        None => s,
    };
    if o.buyer_id is Some {
        lemma_credited_valid(s, o.buyer_id->0, FUNDS_ITEM_ID, o.price as int);
    }
    lemma_covered(refunded, first_bidder, FUNDS_ITEM_ID, first_bid as int);
    lemma_debited_valid(refunded, first_bidder, FUNDS_ITEM_ID, first_bid as int);
    assert(between.orders[i].id == order_id);
    lemma_order_at(between, i);
    let o2 = between.orders[i];
    assert(between.order_ok(o2));
    lemma_credited_valid(between, first_bidder, FUNDS_ITEM_ID, first_bid as int);
    let refunded2 = between.credited(first_bidder, FUNDS_ITEM_ID, first_bid as int);
    lemma_covered(refunded2, second_bidder, FUNDS_ITEM_ID, second_bid as int);
    lemma_debited_valid(refunded2, second_bidder, FUNDS_ITEM_ID, second_bid as int);
}

/// Settling the expired orders is idempotent: settling again at the same
/// second succeeds and changes nothing.
pub proof fn law_sweep_idempotent(s: Ledger, now: i64)
    requires
        s.valid(),
        s.process_expired_sell_orders(now) is Ok,
    ensures
        s.process_expired_sell_orders(now)->Ok_0.process_expired_sell_orders(now) == Ok::<
            Ledger,
            StorageErrorView,
        >(s.process_expired_sell_orders(now)->Ok_0),
{
    let t = s.process_expired_sell_orders(now)->Ok_0;
    lemma_sweep_valid(s, now);
    lemma_unexpired(s.orders, now);
    lemma_sweep_nothing(t, now);
}

} // verus!
