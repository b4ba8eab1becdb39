//! The storage engine: the one owner of the auction house's state.
//!
//! Every operation either succeeds, and the state becomes what the matching
//! function of [`Ledger`] says, or is refused, and the state is unchanged.

use crate::calendar::timestamp;
use crate::errors::{StorageError, StorageErrorView};
use crate::holdings::{
    has_key, index_of_key, key_lt, key_of, lemma_row_in_table, sorted, table_of, Holding, Holdings,
};
use crate::ledger::{fee_spec, Ledger, FUNDS_ITEM_ID};
use crate::names::{id_of, NameTable};
use crate::settlement::{
    lemma_owed_nonnegative, lemma_owed_prefix, lemma_owed_push, lemma_settle_step,
    lemma_sweep_nothing, lemma_sweep_valid, lemma_unexpired_push,
};
use crate::tables::{
    check_orders, lemma_tables_valid, load_holdings, load_names, name_rows, names_of,
    numbered_from_one, tables_ledger, tables_valid, NameRow,
};
use crate::types::{
    same_text, SellOrder, SellOrderEntry, SellOrderRow, SellOrderType, SellOrderView, User, UserId,
};
use crate::validity::{
    lemma_bid_valid, lemma_covered, lemma_credited_valid, lemma_debited_valid,
    lemma_execute_valid, lemma_fresh_valid, lemma_funds_id, lemma_item_added_valid,
    lemma_items_gap, lemma_login_valid, lemma_order_at, lemma_order_rebid_valid,
    lemma_order_removed_valid, lemma_place_sell_order_valid, lemma_quantity_bounds,
};
use vstd::prelude::*;
use vstd::string::*;

verus! {

/// The storage engine.
pub struct Storage {
    users: NameTable,
    items: NameTable,
    holdings: Holdings,
    orders: Vec<SellOrderRow>,
    last_order_id: i64,
}

impl View for Storage {
    type V = Ledger;

    closed spec fn view(&self) -> Ledger {
        Ledger {
            users: self.users@,
            items: self.items@,
            holdings: self.holdings@,
            orders: self.orders@,
            last_order_id: self.last_order_id,
        }
    }
}

impl Storage {
    /// The tables are in the shape that their operations rely on.
    pub closed spec fn inv(&self) -> bool {
        self.users.wf() && self.items.wf() && self.holdings.wf()
    }

    /// The engine is well formed: its tables are in shape and its state is a
    /// valid state of the auction house.
    pub open spec fn wf(&self) -> bool {
        self.inv() && self@.valid()
    }

    /// A fresh store: no users, the currency as the only item, no orders.
    pub fn new() -> (r: Storage)
        ensures
            r.wf(),
            r@ == Ledger::fresh(),
    {
        let mut items = NameTable::new();
        items.add("funds");
        let r = Storage {
            users: NameTable::new(),
            items,
            holdings: Holdings::new(),
            orders: Vec::new(),
            last_order_id: 0,
        };
        proof {
            lemma_fresh_valid();
            assert(r@.items =~= Ledger::fresh().items);
            assert(r@.orders =~= Ledger::fresh().orders);
        }
        r
    }

    /// Whether a user with this id exists.
    pub fn has_user(&self, user_id: UserId) -> (r: bool)
        requires
            self.wf(),
        ensures
            r == self@.has_user(user_id.0),
    {
        1 <= user_id.0 && user_id.0 <= self.users.count()
    }

    /// Logs a user in by name. A new name creates the user, with an empty
    /// holding of the currency; a known name returns the user it belongs to.
    pub fn login(&mut self, username: &str) -> (r: Result<User, StorageError>)
        requires
            old(self).wf(),
        ensures
            final(self).wf(),
            match r {
                Ok(user) => old(self)@.login(username@) == Ok::<(Ledger, i64), StorageErrorView>(
                    (final(self)@, user.id.0),
                ) && user.username@ == username@,
                Err(e) => old(self)@.login(username@) == Err::<(Ledger, i64), StorageErrorView>(e@)
                    && final(self)@ == old(self)@,
            },
    {
        if username.is_empty() {
            return Err(StorageError::EmptyUsername);
        }
        match self.users.find(username) {
            Some(id) => Ok(User { id: UserId(id), username: username.to_owned() }),
            None => {
                if !self.users.has_room() {
                    return Err(StorageError::Full);
                }
                let id = self.users.add(username);
                self.holdings.put(id, FUNDS_ITEM_ID, 0);
                proof {
                    lemma_login_valid(old(self)@, username@);
                    let expected = old(self)@.login(username@)->Ok_0.0;
                    assert(self@.users =~= expected.users);
                    assert(self@.holdings =~= expected.holdings);
                }
                Ok(User { id: UserId(id), username: username.to_owned() })
            },
        }
    }

    /// The id of the item with this name, if there is one.
    pub fn get_item_id(&self, item_name: &str) -> (r: Option<i64>)
        requires
            self.wf(),
        ensures
            r == id_of(self@.items, item_name@),
            r matches Some(id) ==> self@.has_item(id),
    {
        self.items.find(item_name)
    }

    /// How much of an item a user holds; nothing where there is no row.
    pub fn get_user_item_quantity(&self, user_id: UserId, item_id: i64) -> (r: i64)
        requires
            self.wf(),
        ensures
            r == self@.quantity(user_id.0, item_id),
            r >= 0,
    {
        proof {
            lemma_quantity_bounds(self@, user_id.0, item_id);
        }
        match self.holdings.get(user_id.0, item_id) {
            Some(quantity) => quantity,
            None => 0,
        }
    }

    /// Adds a positive amount to a holding, creating the row where there is
    /// none.
    fn deposit_inner(&mut self, user_id: UserId, item_id: i64, quantity: i64)
        requires
            old(self).wf(),
            old(self)@.has_user(user_id.0),
            old(self)@.has_item(item_id),
            quantity > 0,
            old(self)@.quantity(user_id.0, item_id) + quantity <= i64::MAX,
        ensures
            final(self).wf(),
            final(self)@ == old(self)@.credited(user_id.0, item_id, quantity as int),
    {
        let current = self.get_user_item_quantity(user_id, item_id);
        self.holdings.put(user_id.0, item_id, current + quantity);
        proof {
            lemma_credited_valid(old(self)@, user_id.0, item_id, quantity as int);
        }
    }

    /// Takes a positive amount that a holding covers. A row that reaches zero
    /// is deleted, unless it is the currency's.
    fn withdraw_inner(&mut self, user_id: UserId, item_id: i64, quantity: i64)
        requires
            old(self).wf(),
            quantity > 0,
            old(self)@.quantity(user_id.0, item_id) >= quantity,
        ensures
            final(self).wf(),
            final(self)@ == old(self)@.debited(user_id.0, item_id, quantity as int),
    {
        let current = self.get_user_item_quantity(user_id, item_id);
        if current > quantity || item_id == FUNDS_ITEM_ID {
            self.holdings.put(user_id.0, item_id, current - quantity);
        } else {
            self.holdings.delete(user_id.0, item_id);
        }
        proof {
            lemma_debited_valid(old(self)@, user_id.0, item_id, quantity as int);
        }
    }

    /// Deposits a positive quantity of an item into a user's holding. An item
    /// with a new name is created.
    pub fn deposit(&mut self, user_id: UserId, item_name: &str, quantity: i64) -> (r: Result<
        (),
        StorageError,
    >)
        requires
            old(self).wf(),
        ensures
            final(self).wf(),
            match r {
                Ok(()) => old(self)@.deposit(user_id.0, item_name@, quantity) == Ok::<
                    Ledger,
                    StorageErrorView,
                >(final(self)@),
                Err(e) => old(self)@.deposit(user_id.0, item_name@, quantity) == Err::<
                    Ledger,
                    StorageErrorView,
                >(e@) && final(self)@ == old(self)@,
            },
    {
        if item_name.is_empty() {
            return Err(StorageError::EmptyItemName);
        }
        if quantity <= 0 {
            return Err(StorageError::NonPositiveQuantity);
        }
        if !self.has_user(user_id) {
            return Err(StorageError::UnknownUser);
        }
        match self.get_item_id(item_name) {
            Some(item_id) => {
                let current = self.get_user_item_quantity(user_id, item_id);
                if current > i64::MAX - quantity {
                    return Err(StorageError::Overflow);
                }
                self.deposit_inner(user_id, item_id, quantity);
                Ok(())
            },
            None => {
                if !self.items.has_room() {
                    return Err(StorageError::Full);
                }
                proof {
                    lemma_item_added_valid(self@, item_name@);
                    lemma_quantity_bounds(self@, user_id.0, (self@.items.len() + 1) as i64);
                }
                let item_id = self.items.add(item_name);
                assert(self@ == Ledger { items: old(self)@.items.push(item_name@), ..old(self)@ });
                self.deposit_inner(user_id, item_id, quantity);
                Ok(())
            },
        }
    }

    /// Withdraws a positive quantity of an item from a user's holding.
    pub fn withdraw(&mut self, user_id: UserId, item_name: &str, quantity: i64) -> (r: Result<
        (),
        StorageError,
    >)
        requires
            old(self).wf(),
        ensures
            final(self).wf(),
            match r {
                Ok(()) => old(self)@.withdraw(user_id.0, item_name@, quantity) == Ok::<
                    Ledger,
                    StorageErrorView,
                >(final(self)@),
                Err(e) => old(self)@.withdraw(user_id.0, item_name@, quantity) == Err::<
                    Ledger,
                    StorageErrorView,
                >(e@) && final(self)@ == old(self)@,
            },
    {
        if item_name.is_empty() || quantity <= 0 {
            return Err(StorageError::NotEnoughToWithdraw { item_name: item_name.to_owned() });
        }
        match self.get_item_id(item_name) {
            Some(item_id) => {
                if self.get_user_item_quantity(user_id, item_id) < quantity {
                    return Err(StorageError::NotEnoughToWithdraw { item_name: item_name.to_owned() });
                }
                self.withdraw_inner(user_id, item_id, quantity);
                Ok(())
            },
            None => Err(StorageError::NotEnoughToWithdraw { item_name: item_name.to_owned() }),
        }
    }
    /// The index of the live order with this id, if there is one.
    fn order_position(&self, order_id: i64) -> (r: Option<usize>)
        requires
            self.wf(),
        ensures
            r is Some == self@.has_order(order_id),
            r matches Some(i) ==> i < self@.orders.len() && self@.orders[i as int].id == order_id
                && self@.order_index(order_id) == i,
    {
        let mut lo: usize = 0;
        let mut hi: usize = self.orders.len();
        while lo < hi
            invariant
                self.wf(),
                lo <= hi <= self.orders@.len(),
                forall|i: int| 0 <= i < lo ==> (#[trigger] self.orders@[i]).id < order_id,
                forall|i: int| hi <= i < self.orders@.len() ==> (#[trigger] self.orders@[i]).id > order_id,
            decreases hi - lo,
        {
            let mid: usize = lo + (hi - lo) / 2;
            let id = self.orders[mid].id;
            if id == order_id {
                proof {
                    lemma_order_at(self@, mid as int);
                }
                return Some(mid);
            } else if id < order_id {
                assert forall|i: int| 0 <= i < mid + 1 implies (#[trigger] self.orders@[i]).id
                    < order_id by {
                    if i < mid {
                        assert(self@.orders[i].id < self@.orders[mid as int].id);
                    }
                }
                lo = mid + 1;
            } else {
                assert forall|i: int| mid <= i < self.orders@.len() implies (
                #[trigger] self.orders@[i]).id > order_id by {
                    if mid < i {
                        assert(self@.orders[mid as int].id < self@.orders[i].id);
                    }
                }
                hi = mid;
            }
        }
        proof {
            if self@.has_order(order_id) {
                let i = self@.order_index(order_id);
                assert(self.orders@[i].id == order_id);
            }
        }
        None
    }

    /// The fields of the live order with this id that settlement reads.
    pub fn get_sell_oder_entry(&self, order_id: i64) -> (r: Option<SellOrderEntry>)
        requires
            self.wf(),
        ensures
            r is Some == self@.has_order(order_id),
            r matches Some(entry) ==> entry == self@.orders[self@.order_index(
                order_id,
            )].entry_spec(),
    {
        match self.order_position(order_id) {
            Some(i) => Some(self.orders[i].entry()),
            None => None,
        }
    }

    /// Deletes the live order with this id.
    fn delete_order(&mut self, order_id: i64)
        requires
            old(self).wf(),
            old(self)@.has_order(order_id),
        ensures
            final(self).wf(),
            final(self)@ == (Ledger {
                orders: old(self)@.orders.remove(old(self)@.order_index(order_id)),
                ..old(self)@
            }),
    {
        match self.order_position(order_id) {
            Some(i) => {
                proof {
                    lemma_order_removed_valid(self@, i as int);
                }
                self.orders.remove(i);
            },
            None => {},
        }
    }

    /// Records a new highest bid on the live order with this id.
    fn update_order(&mut self, order_id: i64, bid: i64, buyer_id: UserId)
        requires
            old(self).wf(),
            old(self)@.has_order(order_id),
            old(self)@.has_user(buyer_id.0),
            bid > 0,
        ensures
            final(self).wf(),
            final(self)@ == (Ledger {
                orders: old(self)@.orders.update(
                    old(self)@.order_index(order_id),
                    SellOrderRow {
                        price: bid,
                        buyer_id: Some(buyer_id.0),
                        ..old(self)@.orders[old(self)@.order_index(order_id)]
                    },
                ),
                ..old(self)@
            }),
    {
        match self.order_position(order_id) {
            Some(i) => {
                proof {
                    lemma_order_rebid_valid(self@, i as int, buyer_id.0, bid);
                }
                let o = self.orders[i];
                self.orders.set(i, SellOrderRow { price: bid, buyer_id: Some(buyer_id.0), ..o });
            },
            None => {},
        }
    }

    /// Places a sell order. The seller gives up the items and pays the listing
    /// fee, a twentieth of the price rounded down plus one; the order goes
    /// live under the next id.
    pub fn place_sell_order(
        &mut self,
        order_type: SellOrderType,
        seller_id: UserId,
        item_name: &str,
        quantity: i64,
        price: i64,
        unix_expiration_time: i64,
    ) -> (r: Result<(), StorageError>)
        requires
            old(self).wf(),
        ensures
            final(self).wf(),
            match r {
                Ok(()) => old(self)@.place_sell_order(
                    order_type,
                    seller_id.0,
                    item_name@,
                    quantity,
                    price,
                    unix_expiration_time,
                ) == Ok::<Ledger, StorageErrorView>(final(self)@),
                Err(e) => old(self)@.place_sell_order(
                    order_type,
                    seller_id.0,
                    item_name@,
                    quantity,
                    price,
                    unix_expiration_time,
                ) == Err::<Ledger, StorageErrorView>(e@) && final(self)@ == old(self)@,
            },
    {
        if quantity < 0 {
            return Err(StorageError::NegativeQuantity);
        }
        if price < 0 {
            return Err(StorageError::NegativePrice);
        }
        if same_text(item_name, "funds") {
            return Err(StorageError::SellingFunds);
        }
        let item_id = match self.get_item_id(item_name) {
            Some(item_id) => item_id,
            None => {
                return Err(StorageError::NotEnoughToSell { item_name: item_name.to_owned() });
            },
        };
        if self.get_user_item_quantity(seller_id, item_id) < quantity {
            return Err(StorageError::NotEnoughToSell { item_name: item_name.to_owned() });
        }
        let fee: i64 = price / 20 + 1;
        assert(fee == fee_spec(price as int));
        if self.get_user_item_quantity(seller_id, FUNDS_ITEM_ID) < fee {
            return Err(StorageError::CannotPayFee { fee });
        }
        if quantity == 0 {
            return Err(StorageError::ZeroQuantity);
        }
        if price == 0 {
            return Err(StorageError::ZeroPrice);
        }
        if self.last_order_id == i64::MAX {
            return Err(StorageError::Full);
        }
        proof {
            lemma_funds_id(self@);
            lemma_place_sell_order_valid(
                self@,
                order_type,
                seller_id.0,
                item_name@,
                quantity,
                price,
                unix_expiration_time,
            );
            lemma_debited_valid(self@, seller_id.0, item_id, quantity as int);
        }
        self.withdraw_inner(seller_id, item_id, quantity);
        self.withdraw_inner(seller_id, FUNDS_ITEM_ID, fee);
        let id: i64 = self.last_order_id + 1;
        self.orders.push(
            SellOrderRow {
                id,
                seller_id: seller_id.0,
                item_id,
                quantity,
                price,
                expiration_time: unix_expiration_time,
                buyer_id: match order_type {
                    SellOrderType::Immediate => Some(seller_id.0),
                    SellOrderType::Auction => None,
                },
            },
        );
        self.last_order_id = id;
        Ok(())
    }

    /// Executes an immediate sell order for a buyer: the buyer pays the price
    /// to the seller and receives the items, and the order is gone.
    pub fn execute_immediate_sell_order(&mut self, buyer_id: UserId, order_id: i64) -> (r: Result<
        (),
        StorageError,
    >)
        requires
            old(self).wf(),
        ensures
            final(self).wf(),
            match r {
                Ok(()) => old(self)@.execute_immediate_sell_order(buyer_id.0, order_id) == Ok::<
                    Ledger,
                    StorageErrorView,
                >(final(self)@),
                Err(e) => old(self)@.execute_immediate_sell_order(buyer_id.0, order_id) == Err::<
                    Ledger,
                    StorageErrorView,
                >(e@) && final(self)@ == old(self)@,
            },
    {
        let order = match self.get_sell_oder_entry(order_id) {
            Some(order) => order,
            None => {
                return Err(StorageError::NoSuchImmediateOrder { order_id });
            },
        };
        if order.order_type() != SellOrderType::Immediate {
            return Err(StorageError::NotImmediate { order_id });
        }
        if buyer_id.0 == order.seller_id.0 {
            return Err(StorageError::OwnOrder);
        }
        if self.get_user_item_quantity(buyer_id, FUNDS_ITEM_ID) < order.price {
            return Err(StorageError::NotEnoughFunds);
        }
        if self.get_user_item_quantity(order.seller_id, FUNDS_ITEM_ID) > i64::MAX - order.price {
            return Err(StorageError::Overflow);
        }
        if self.get_user_item_quantity(buyer_id, order.item_id) > i64::MAX - order.quantity {
            return Err(StorageError::Overflow);
        }
        proof {
            let i = self@.order_index(order_id);
            assert(self@.order_ok(self@.orders[i]));
            lemma_execute_valid(self@, buyer_id.0, order_id);
            lemma_covered(self@, buyer_id.0, FUNDS_ITEM_ID, order.price as int);
            lemma_debited_valid(self@, buyer_id.0, FUNDS_ITEM_ID, order.price as int);
            let a = self@.debited(buyer_id.0, FUNDS_ITEM_ID, order.price as int);
            lemma_credited_valid(a, order.seller_id.0, FUNDS_ITEM_ID, order.price as int);
        }
        self.withdraw_inner(buyer_id, FUNDS_ITEM_ID, order.price);
        self.deposit_inner(order.seller_id, FUNDS_ITEM_ID, order.price);
        self.deposit_inner(buyer_id, order.item_id, order.quantity);
        self.delete_order(order_id);
        Ok(())
    }

    /// Places a bid on an auction sell order. The previous bidder, if any,
    /// gets the previous bid back; the new bidder pays the new bid into
    /// escrow and becomes the order's buyer.
    pub fn place_bid_on_auction_sell_order(
        &mut self,
        buyer_id: UserId,
        sell_order_id: i64,
        bid: i64,
    ) -> (r: Result<(), StorageError>)
        requires
            old(self).wf(),
        ensures
            final(self).wf(),
            match r {
                Ok(()) => old(self)@.place_bid_on_auction_sell_order(buyer_id.0, sell_order_id, bid)
                    == Ok::<Ledger, StorageErrorView>(final(self)@),
                Err(e) => old(self)@.place_bid_on_auction_sell_order(buyer_id.0, sell_order_id, bid)
                    == Err::<Ledger, StorageErrorView>(e@) && final(self)@ == old(self)@,
            },
    {
        let order = match self.get_sell_oder_entry(sell_order_id) {
            Some(order) => order,
            None => {
                return Err(StorageError::NoSuchAuctionOrder { order_id: sell_order_id });
            },
        };
        if order.order_type() != SellOrderType::Auction {
            return Err(StorageError::NotAuction { order_id: sell_order_id });
        }
        if buyer_id.0 == order.seller_id.0 {
            return Err(StorageError::OwnOrder);
        }
        if bid <= order.price {
            return Err(StorageError::BidTooLow);
        }
        proof {
            let i = self@.order_index(sell_order_id);
            assert(self@.order_ok(self@.orders[i]));
            lemma_funds_id(self@);
        }
        let mut available: i64 = self.get_user_item_quantity(buyer_id, FUNDS_ITEM_ID);
        match order.buyer_id {
            Some(previous) => {
                if self.get_user_item_quantity(previous, FUNDS_ITEM_ID) > i64::MAX - order.price {
                    return Err(StorageError::Overflow);
                }
                proof {
                    lemma_credited_valid(self@, previous.0, FUNDS_ITEM_ID, order.price as int);
                }
                if previous.0 == buyer_id.0 {
                    available = available + order.price;
                }
            },
            None => {},
        }
        if available < bid {
            return Err(StorageError::NotEnoughFunds);
        }
        proof {
            lemma_bid_valid(self@, buyer_id.0, sell_order_id, bid);
        }
        match order.buyer_id {
            Some(previous) => {
                self.deposit_inner(previous, FUNDS_ITEM_ID, order.price);
            },
            None => {},
        }
        proof {
            lemma_covered(self@, buyer_id.0, FUNDS_ITEM_ID, bid as int);
            lemma_debited_valid(self@, buyer_id.0, FUNDS_ITEM_ID, bid as int);
        }
        self.withdraw_inner(buyer_id, FUNDS_ITEM_ID, bid);
        self.update_order(sell_order_id, bid, buyer_id);
        Ok(())
    }
    /// Whether some live order has expired at `unix_now`.
    fn any_expired(&self, unix_now: i64) -> (r: bool)
        ensures
            r == exists|i: int|
                0 <= i < self@.orders.len() && (#[trigger] self@.orders[i]).expired(unix_now),
    {
        let mut i: usize = 0;
        while i < self.orders.len()
            invariant
                i <= self.orders@.len(),
                forall|j: int| 0 <= j < i ==> !(#[trigger] self.orders@[j]).expired(unix_now),
            decreases self.orders@.len() - i,
        {
            if self.orders[i].expiration_time <= unix_now {
                assert(self@.orders[i as int].expired(unix_now));
                return true;
            }
            i += 1;
        }
        false
    }

    /// Settles every order that has expired at `unix_now`. The items of an
    /// order without a bid go back to the seller; those of an auction with a
    /// bid go to the highest bidder, and the bid, held in escrow since it was
    /// placed, goes to the seller. Listing fees are not returned.
    pub fn process_expired_sell_orders(&mut self, unix_now: i64) -> (r: Result<(), StorageError>)
        requires
            old(self).wf(),
        ensures
            final(self).wf(),
            match r {
                Ok(()) => old(self)@.process_expired_sell_orders(unix_now) == Ok::<
                    Ledger,
                    StorageErrorView,
                >(final(self)@),
                Err(e) => old(self)@.process_expired_sell_orders(unix_now) == Err::<
                    Ledger,
                    StorageErrorView,
                >(e@) && final(self)@ == old(self)@,
            },
    {
        if !self.any_expired(unix_now) {
            proof {
                lemma_sweep_nothing(self@, unix_now);
            }
            return Ok(());
        }
        let mut holdings = self.holdings.snapshot();
        let mut kept: Vec<SellOrderRow> = Vec::new();
        let n: usize = self.orders.len();
        let mut i: usize = 0;
        proof {
            let none = self@.orders.subrange(0, 0);
            assert(none =~= Seq::<SellOrderRow>::empty());
            assert(holdings@ =~= self@.settled(none, unix_now));
            assert forall|u: i64, it: i64|
                self@.quantity(u, it) + #[trigger] Ledger::owed(none, unix_now, u, it)
                    <= i64::MAX by {
                lemma_quantity_bounds(self@, u, it);
            }
        }
        while i < n
            invariant
                self.wf(),
                self == old(self),
                n == self.orders@.len(),
                i <= n,
                holdings.wf(),
                holdings@ == self@.settled(self@.orders.subrange(0, i as int), unix_now),
                kept@ == Ledger::unexpired(self@.orders.subrange(0, i as int), unix_now),
                forall|u: i64, it: i64|
                    self@.quantity(u, it) + #[trigger] Ledger::owed(
                        self@.orders.subrange(0, i as int),
                        unix_now,
                        u,
                        it,
                    ) <= i64::MAX,
            decreases n - i,
        {
            let o = self.orders[i];
            let ghost before = self@.orders.subrange(0, i as int);
            proof {
                assert(self@.orders.subrange(0, i + 1) =~= before.push(o));
                assert(self@.order_ok(self@.orders[i as int]));
                assert forall|j: int| 0 <= j < before.len() implies self@.order_ok(
                    #[trigger] before[j],
                ) by {
                    assert(self@.order_ok(self@.orders[j]));
                }
                lemma_unexpired_push(before, o, unix_now);
            }
            if o.expiration_time <= unix_now {
                let recipient: i64 = match o.buyer_id {
                    Some(b) => b,
                    None => o.seller_id,
                };
                let has_bid: bool = recipient != o.seller_id;
                assert(recipient == o.recipient() && has_bid == o.has_bid());
                proof {
                    lemma_quantity_bounds(self@, recipient, o.item_id);
                    lemma_owed_nonnegative(self@, before, unix_now, recipient, o.item_id);
                    lemma_quantity_bounds(self@, o.seller_id, FUNDS_ITEM_ID);
                    lemma_owed_nonnegative(self@, before, unix_now, o.seller_id, FUNDS_ITEM_ID);
                    lemma_owed_push(before, o, unix_now, recipient, o.item_id);
                    lemma_owed_push(before, o, unix_now, o.seller_id, FUNDS_ITEM_ID);
                    lemma_owed_prefix(self@, self@.orders, i + 1, unix_now, recipient, o.item_id);
                    lemma_owed_prefix(
                        self@,
                        self@.orders,
                        i + 1,
                        unix_now,
                        o.seller_id,
                        FUNDS_ITEM_ID,
                    );
                }
                let units: i64 = match holdings.get(recipient, o.item_id) {
                    Some(quantity) => quantity,
                    None => 0,
                };
                assert(units == self@.quantity(recipient, o.item_id) + Ledger::owed(
                    before,
                    unix_now,
                    recipient,
                    o.item_id,
                ));
                if units > i64::MAX - o.quantity {
                    assert(self@.quantity(recipient, o.item_id) + Ledger::owed(
                        self@.orders,
                        unix_now,
                        recipient,
                        o.item_id,
                    ) > i64::MAX);
                    return Err(StorageError::Overflow);
                }
                let funds: i64 = match holdings.get(o.seller_id, FUNDS_ITEM_ID) {
                    Some(quantity) => quantity,
                    None => 0,
                };
                assert(funds == self@.quantity(o.seller_id, FUNDS_ITEM_ID) + Ledger::owed(
                    before,
                    unix_now,
                    o.seller_id,
                    FUNDS_ITEM_ID,
                ));
                if has_bid && funds > i64::MAX - o.price {
                    assert(self@.quantity(o.seller_id, FUNDS_ITEM_ID) + Ledger::owed(
                        self@.orders,
                        unix_now,
                        o.seller_id,
                        FUNDS_ITEM_ID,
                    ) > i64::MAX);
                    return Err(StorageError::Overflow);
                }
                proof {
                    lemma_settle_step(self@, before, o, unix_now);
                }
                holdings.put(recipient, o.item_id, units + o.quantity);
                if has_bid {
                    holdings.put(o.seller_id, FUNDS_ITEM_ID, funds + o.price);
                }
            } else {
                proof {
                    lemma_settle_step(self@, before, o, unix_now);
                }
                kept.push(o);
            }
            i += 1;
        }
        proof {
            assert(self@.orders.subrange(0, n as int) =~= self@.orders);
            assert(!self@.sweep_overflows(unix_now));
            lemma_sweep_valid(self@, unix_now);
        }
        self.holdings = holdings;
        self.orders = kept;
        Ok(())
    }

    /// Every holding of a user, by ascending item id, each with the item's
    /// name.
    pub fn view_items(&self, user_id: UserId) -> (r: Result<Vec<(String, i64)>, StorageError>)
        requires
            self.wf(),
        ensures
            r matches Ok(items) && items.deep_view() == self@.view_items(user_id.0),
    {
        let ghost rows = self.holdings.rows();
        proof {
            self.holdings.lemma_view();
        }
        let start: usize = self.holdings.start_of(user_id.0);
        let total: usize = self.holdings.len();
        let mut out: Vec<(String, i64)> = Vec::new();
        let mut j: usize = start;
        let ghost mut seen: nat = 0;
        assert(out.deep_view() =~= self@.items_upto(user_id.0, 0));
        while j < total && self.holdings.row(j).user_id == user_id.0
            invariant
                self.wf(),
                rows == self.holdings.rows(),
                total == rows.len(),
                sorted(rows),
                self@.holdings == table_of(rows),
                start <= j <= total,
                forall|i: int| 0 <= i < start ==> (#[trigger] rows[i]).user_id < user_id.0,
                forall|i: int| start <= i < total ==> (#[trigger] rows[i]).user_id >= user_id.0,
                forall|i: int|
                    start <= i < j ==> (#[trigger] rows[i]).user_id == user_id.0 && rows[i].item_id
                        <= seen,
                seen <= self@.items.len(),
                j == start ==> seen == 0,
                j > start ==> seen == rows[j - 1].item_id,
                out.deep_view() == self@.items_upto(user_id.0, seen),
            decreases total - j,
        {
            let h = self.holdings.row(j);
            proof {
                lemma_row_in_table(rows, j as int);
                assert(self@.holdings.dom().contains((user_id.0, h.item_id)));
                assert(self@.has_item(h.item_id));
                if j > start {
                    assert(key_lt(key_of(rows[j - 1]), key_of(rows[j as int])));
                }
                assert forall|x: i64| seen < x <= h.item_id - 1 implies !self@.holdings.dom().contains(
                    (user_id.0, x),
                ) by {
                    if has_key(rows, (user_id.0, x)) {
                        let i = index_of_key(rows, (user_id.0, x));
                        assert(key_of(rows[i]) == (user_id.0, x));
                        if i < j {
                            assert(i >= start);
                        } else if i > j {
                            assert(key_lt(key_of(rows[j as int]), key_of(rows[i])));
                        }
                    }
                }
                lemma_items_gap(self@, user_id.0, seen, (h.item_id - 1) as nat);
            }
            let name = self.items.name(h.item_id).clone();
            let ghost before = out.deep_view();
            out.push((name, h.quantity));
            proof {
                assert(out.deep_view() =~= before.push((name@, h.quantity)));
                seen = h.item_id as nat;
            }
            j += 1;
        }
        proof {
            assert forall|x: i64| seen < x <= self@.items.len() implies !self@.holdings.dom().contains(
                (user_id.0, x),
            ) by {
                if has_key(rows, (user_id.0, x)) {
                    let i = index_of_key(rows, (user_id.0, x));
                    assert(key_of(rows[i]) == (user_id.0, x));
                    if i < j {
                        assert(i >= start);
                    } else if i > j {
                        assert(key_lt(key_of(rows[j as int]), key_of(rows[i])));
                    }
                }
            }
            lemma_items_gap(self@, user_id.0, seen, self@.items.len());
        }
        Ok(out)
    }

    /// Every live sell order as it is shown, by ascending id: with the
    /// seller's and the item's name, and the expiration as a calendar
    /// timestamp in UTC.
    pub fn view_sell_orders(&self) -> (r: Result<Vec<SellOrder>, StorageError>)
        requires
            self.wf(),
        ensures
            match r {
                Ok(orders) => self@.view_sell_orders() == Ok::<Seq<SellOrderView>, StorageErrorView>(
                    orders.deep_view(),
                ),
                Err(e) => self@.view_sell_orders() == Err::<Seq<SellOrderView>, StorageErrorView>(
                    e@,
                ),
            },
    {
        let mut out: Vec<SellOrder> = Vec::new();
        let mut i: usize = 0;
        while i < self.orders.len()
            invariant
                self.wf(),
                i <= self.orders@.len(),
                out@.len() == i,
                forall|j: int|
                    0 <= j < i ==> crate::calendar::renderable(
                        (#[trigger] self.orders@[j]).expiration_time as int,
                    ),
                forall|j: int|
                    0 <= j < i ==> (#[trigger] out@[j]).deep_view() == self@.shown(self.orders@[j]),
            decreases self.orders@.len() - i,
        {
            let o = self.orders[i];
            assert(self@.order_ok(self@.orders[i as int]));
            let expiration_time = match timestamp(o.expiration_time) {
                Some(text) => text,
                None => {
                    return Err(StorageError::ExpirationOutOfRange);
                },
            };
            let shown = SellOrder {
                id: o.id,
                seller_name: self.users.name(o.seller_id).clone(),
                item_name: self.items.name(o.item_id).clone(),
                quantity: o.quantity,
                price: o.price,
                expiration_time,
                order_type: o.entry().order_type(),
            };
            out.push(shown);
            i += 1;
        }
        assert(out.deep_view() =~= Seq::new(
            self@.orders.len(),
            |i: int| self@.shown(self@.orders[i]),
        ));
        Ok(out)
    }

    /// The engine over stored tables, if they stand for a valid state: users
    /// and items numbered from one, holdings in ascending key order, and the
    /// invariant of the auction house.
    pub fn from_tables(
        users: Vec<NameRow>,
        items: Vec<NameRow>,
        holdings: Vec<Holding>,
        orders: Vec<SellOrderRow>,
        last_order_id: i64,
    ) -> (r: Option<Storage>)
        ensures
            r is Some == tables_valid(users@, items@, holdings@, orders@, last_order_id),
            r matches Some(storage) ==> storage.wf() && storage@ == tables_ledger(
                users@,
                items@,
                holdings@,
                orders@,
                last_order_id,
            ),
    {
        proof {
            lemma_tables_valid(users@, items@, holdings@, orders@, last_order_id);
        }
        let user_table = match load_names(&users) {
            Some(table) => table,
            None => {
                return None;
            },
        };
        let item_table = match load_names(&items) {
            Some(table) => table,
            None => {
                return None;
            },
        };
        proof {
            user_table.lemma_wf();
            item_table.lemma_wf();
        }
        let user_count = user_table.count();
        let item_count = item_table.count();
        if item_count < 1 {
            return None;
        }
        if !same_text(item_table.name(FUNDS_ITEM_ID).as_str(), "funds") {
            return None;
        }
        if !check_orders(&orders, user_count, item_count, last_order_id) {
            return None;
        }
        let table = match load_holdings(holdings, user_count, item_count) {
            Some(table) => table,
            None => {
                return None;
            },
        };
        Some(
            Storage {
                users: user_table,
                items: item_table,
                holdings: table,
                orders,
                last_order_id,
            },
        )
    }

    /// The stored rows of the users, by ascending id.
    pub fn user_rows(&self) -> (r: Vec<NameRow>)
        requires
            self.wf(),
        ensures
            numbered_from_one(r@),
            names_of(r@) == self@.users,
    {
        name_rows(&self.users)
    }

    /// The stored rows of the items, by ascending id.
    pub fn item_rows(&self) -> (r: Vec<NameRow>)
        requires
            self.wf(),
        ensures
            numbered_from_one(r@),
            names_of(r@) == self@.items,
    {
        name_rows(&self.items)
    }

    /// The rows of the holdings, by ascending user id and item id.
    pub fn holding_rows(&self) -> (r: Vec<Holding>)
        requires
            self.wf(),
        ensures
            sorted(r@),
            table_of(r@) == self@.holdings,
    {
        proof {
            self.holdings.lemma_view();
        }
        self.holdings.to_rows()
    }

    /// The live sell orders, by ascending id.
    pub fn order_rows(&self) -> (r: Vec<SellOrderRow>)
        ensures
            r@ == self@.orders,
    {
        let mut r: Vec<SellOrderRow> = Vec::new();
        let mut i: usize = 0;
        while i < self.orders.len()
            invariant
                i <= self.orders@.len(),
                r@ == self.orders@.subrange(0, i as int),
            decreases self.orders@.len() - i,
        {
            r.push(self.orders[i]);
            assert(r@ =~= self.orders@.subrange(0, i + 1));
            i += 1;
        }
        assert(r@ =~= self.orders@);
        r
    }

    /// The largest order id ever given out.
    pub fn last_order_id(&self) -> (r: i64)
        ensures
            r == self@.last_order_id,
    {
        self.last_order_id
    }
}

} // verus!
