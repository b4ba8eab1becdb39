//! The auction house over its whole history: whatever operations are asked
//! of a fresh store, in whatever order, the state stays valid and nothing is
//! created or destroyed but by deposits, withdrawals and listing fees.

use crate::conservation::{
    law_bid_conserves, law_deposit_adds, law_execute_conserves, law_login_conserves,
    law_place_sell_order_burns_fee, law_sweep_conserves, law_withdraw_takes,
};
use crate::ledger::{fee_spec, Ledger, FUNDS_ITEM_ID};
use crate::names::id_of;
use crate::settlement::lemma_sweep_valid;
use crate::types::SellOrderType;
use crate::validity::{
    lemma_bid_valid, lemma_deposit_valid, lemma_execute_valid, lemma_fresh_valid,
    lemma_login_valid, lemma_place_sell_order_valid, lemma_quantity_bounds, lemma_withdraw_valid,
};
use vstd::prelude::*;

verus! {

/// A request to change the state.
pub enum Operation {
    Login { username: Seq<char> },
    Deposit { user_id: i64, item_name: Seq<char>, quantity: i64 },
    Withdraw { user_id: i64, item_name: Seq<char>, quantity: i64 },
    PlaceSellOrder {
        order_type: SellOrderType,
        seller_id: i64,
        item_name: Seq<char>,
        quantity: i64,
        price: i64,
        expiration_time: i64,
    },
    ExecuteImmediateSellOrder { buyer_id: i64, order_id: i64 },
    PlaceBid { buyer_id: i64, order_id: i64, bid: i64 },
    ProcessExpiredSellOrders { now: i64 },
}

impl Operation {
    /// The state after the operation, where it succeeds.
    pub open spec fn outcome(self, s: Ledger) -> Option<Ledger> {
        match self {
            Operation::Login { username } => match s.login(username) {
                Ok(r) => Some(r.0),
                Err(_) => None,
            },
            Operation::Deposit { user_id, item_name, quantity } => match s.deposit(
                user_id,
                item_name,
                quantity,
            ) {
                Ok(t) => Some(t),
                Err(_) => None,
            },
            Operation::Withdraw { user_id, item_name, quantity } => match s.withdraw(
                user_id,
                item_name,
                quantity,
            ) {
                Ok(t) => Some(t),
                Err(_) => None,
            },
            Operation::PlaceSellOrder {
                order_type,
                seller_id,
                item_name,
                quantity,
                price,
                expiration_time,
            } => match s.place_sell_order(
                order_type,
                seller_id,
                item_name,
                quantity,
                price,
                expiration_time,
            ) {
                Ok(t) => Some(t),
                Err(_) => None,
            },
            Operation::ExecuteImmediateSellOrder {
                buyer_id,
                order_id,
            } => match s.execute_immediate_sell_order(buyer_id, order_id) {
                Ok(t) => Some(t),
                Err(_) => None,
            },
            Operation::PlaceBid { buyer_id, order_id, bid } => match s.place_bid_on_auction_sell_order(
                buyer_id,
                order_id,
                bid,
            ) {
                Ok(t) => Some(t),
                Err(_) => None,
            },
            Operation::ProcessExpiredSellOrders { now } => match s.process_expired_sell_orders(now) {
                Ok(t) => Some(t),
                Err(_) => None,
            },
        }
    }

    /// The state after the operation: a refused operation changes nothing.
    pub open spec fn apply(self, s: Ledger) -> Ledger {
        match self.outcome(s) {
            Some(t) => t,
            None => s,
        }
    }

    /// The units of an item that the operation deposits.
    pub open spec fn deposited(self, s: Ledger, item_id: i64) -> int {
        match self {
            Operation::Deposit { user_id, item_name, quantity } => if self.outcome(s) is Some
                && id_of(self.apply(s).items, item_name) == Some(item_id) {
                quantity as int
            } else {
                0
            },
            _ => 0,
        }
    }

    /// The units of an item that the operation withdraws.
    pub open spec fn withdrawn(self, s: Ledger, item_id: i64) -> int {
        match self {
            Operation::Withdraw { user_id, item_name, quantity } => if self.outcome(s) is Some
                && id_of(s.items, item_name) == Some(item_id) {
                quantity as int
            } else {
                0
            },
            _ => 0,
        }
    }

    /// The listing fee that the operation pays.
    pub open spec fn fee_paid(self, s: Ledger) -> int {
        match self {
            Operation::PlaceSellOrder { price, .. } => if self.outcome(s) is Some {
                fee_spec(price as int)
            } else {
                0
            },
            _ => 0,
        }
    }
}

/// The state of a store that started fresh and was asked the operations in
/// turn.
pub open spec fn replay(ops: Seq<Operation>) -> Ledger
    decreases ops.len(),
{
    if ops.len() == 0 {
        Ledger::fresh()
    } else {
        ops.last().apply(replay(ops.drop_last()))
    }
}

/// All units of an item that were ever deposited.
pub open spec fn deposited(ops: Seq<Operation>, item_id: i64) -> int
    decreases ops.len(),
{
    if ops.len() == 0 {
        0
    } else {
        deposited(ops.drop_last(), item_id) + ops.last().deposited(
            replay(ops.drop_last()),
            item_id,
        )
    }
}

/// All units of an item that were ever withdrawn.
pub open spec fn withdrawn(ops: Seq<Operation>, item_id: i64) -> int
    decreases ops.len(),
{
    if ops.len() == 0 {
        0
    } else {
        withdrawn(ops.drop_last(), item_id) + ops.last().withdrawn(
            replay(ops.drop_last()),
            item_id,
        )
    }
}

/// All listing fees that were ever paid.
pub open spec fn fees_paid(ops: Seq<Operation>) -> int
    decreases ops.len(),
{
    if ops.len() == 0 {
        0
    } else {
        fees_paid(ops.drop_last()) + ops.last().fee_paid(replay(ops.drop_last()))
    }
}

/// An operation takes a valid state to a valid state.
pub proof fn law_step_valid(s: Ledger, op: Operation)
    requires
        s.valid(),
    ensures
        op.apply(s).valid(),
{
    if op.outcome(s) is Some {
        match op {
            Operation::Login { username } => {
                lemma_login_valid(s, username);
            },
            Operation::Deposit { user_id, item_name, quantity } => {
                lemma_deposit_valid(s, user_id, item_name, quantity);
            },
            Operation::Withdraw { user_id, item_name, quantity } => {
                lemma_withdraw_valid(s, user_id, item_name, quantity);
            },
            Operation::PlaceSellOrder {
                order_type,
                seller_id,
                item_name,
                quantity,
                price,
                expiration_time,
            } => {
                lemma_place_sell_order_valid(
                    s,
                    order_type,
                    seller_id,
                    item_name,
                    quantity,
                    price,
                    expiration_time,
                );
            },
            Operation::ExecuteImmediateSellOrder { buyer_id, order_id } => {
                lemma_execute_valid(s, buyer_id, order_id);
            },
            Operation::PlaceBid { buyer_id, order_id, bid } => {
                lemma_bid_valid(s, buyer_id, order_id, bid);
            },
            Operation::ProcessExpiredSellOrders { now } => {
                lemma_sweep_valid(s, now);
            },
        }
    }
}

/// An operation changes the units of an item by what it deposits, less what
/// it withdraws, less, in currency, the listing fee that it pays.
pub proof fn law_step_units(s: Ledger, op: Operation, item_id: i64)
    requires
        s.valid(),
    ensures
        op.apply(s).units(item_id) == s.units(item_id) + op.deposited(s, item_id) - op.withdrawn(
            s,
            item_id,
        ) - if item_id == FUNDS_ITEM_ID {
            op.fee_paid(s)
        } else {
            0
        },
{
    if op.outcome(s) is Some {
        match op {
            Operation::Login { username } => {
                law_login_conserves(s, username, item_id);
            },
            Operation::Deposit { user_id, item_name, quantity } => {
                law_deposit_adds(s, user_id, item_name, quantity, item_id);
            },
            Operation::Withdraw { user_id, item_name, quantity } => {
                law_withdraw_takes(s, user_id, item_name, quantity, item_id);
            },
            Operation::PlaceSellOrder {
                order_type,
                seller_id,
                item_name,
                quantity,
                price,
                expiration_time,
            } => {
                law_place_sell_order_burns_fee(
                    s,
                    order_type,
                    seller_id,
                    item_name,
                    quantity,
                    price,
                    expiration_time,
                    item_id,
                );
            },
            Operation::ExecuteImmediateSellOrder { buyer_id, order_id } => {
                law_execute_conserves(s, buyer_id, order_id, item_id);
            },
            Operation::PlaceBid { buyer_id, order_id, bid } => {
                law_bid_conserves(s, buyer_id, order_id, bid, item_id);
            },
            Operation::ProcessExpiredSellOrders { now } => {
                law_sweep_conserves(s, now, item_id);
            },
        }
    }
}

/// Every state that a fresh store can reach is valid.
pub proof fn law_reachable_valid(ops: Seq<Operation>)
    ensures
        replay(ops).valid(),
    decreases ops.len(),
{
    if ops.len() == 0 {
        lemma_fresh_valid();
    } else {
        law_reachable_valid(ops.drop_last());
        law_step_valid(replay(ops.drop_last()), ops.last());
    }
}

/// In every reachable state, no holding is negative.
pub proof fn law_holdings_nonnegative(ops: Seq<Operation>, user_id: i64, item_id: i64)
    ensures
        replay(ops).quantity(user_id, item_id) >= 0,
{
    law_reachable_valid(ops);
    lemma_quantity_bounds(replay(ops), user_id, item_id);
}

/// In every reachable state, every user has a holding of the currency, be it
/// of nothing.
pub proof fn law_funds_row_exists(ops: Seq<Operation>, user_id: i64)
    requires
        replay(ops).has_user(user_id),
    ensures
        replay(ops).holdings.dom().contains((user_id, FUNDS_ITEM_ID)),
{
    law_reachable_valid(ops);
}

/// In every reachable state, no row of an item other than the currency holds
/// nothing.
pub proof fn law_no_empty_rows(ops: Seq<Operation>, user_id: i64, item_id: i64)
    requires
        item_id != FUNDS_ITEM_ID,
        replay(ops).holdings.dom().contains((user_id, item_id)),
    ensures
        replay(ops).holdings[(user_id, item_id)] > 0,
{
    law_reachable_valid(ops);
}

/// In every reachable state, every live order sells a positive quantity at a
/// positive price.
pub proof fn law_orders_positive(ops: Seq<Operation>, i: int)
    requires
        0 <= i < replay(ops).orders.len(),
    ensures
        replay(ops).orders[i].quantity > 0,
        replay(ops).orders[i].price > 0,
{
    law_reachable_valid(ops);
    assert(replay(ops).order_ok(replay(ops).orders[i]));
}

/// Conservation over the whole history. The units of an item that exist, in
/// holdings, in live orders and, for the currency, in escrow, are exactly
/// those that were deposited, less those that were withdrawn, less, for the
/// currency, the listing fees that were paid.
pub proof fn law_conservation(ops: Seq<Operation>, item_id: i64)
    ensures
        replay(ops).units(item_id) == deposited(ops, item_id) - withdrawn(ops, item_id)
            - if item_id == FUNDS_ITEM_ID {
            fees_paid(ops)
        } else {
            0
        },
    decreases ops.len(),
{
    if ops.len() == 0 {
        assert(Ledger::fresh().units(item_id) == 0);
    } else {
        law_conservation(ops.drop_last(), item_id);
        law_reachable_valid(ops.drop_last());
        law_step_units(replay(ops.drop_last()), ops.last(), item_id);
    }
}

} // verus!
