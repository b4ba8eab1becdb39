//! The auction house as a mathematical state, and each operation as a
//! function from a state to the next state or to a refusal.
//!
//! The storage engine's contracts are written over these functions, and the
//! laws of the auction house are proved of them.

use crate::calendar::{renderable, timestamp_text};
use crate::errors::StorageErrorView;
use crate::names::{distinct, id_of, is_id};
use crate::types::{SellOrderRow, SellOrderType, SellOrderView};
use vstd::prelude::*;

verus! {

/// The id of the item that serves as currency.
pub const FUNDS_ITEM_ID: i64 = 1;

/// The name of the item that serves as currency.
pub open spec fn funds_name() -> Seq<char> {
    "funds"@
}

/// The listing fee for a price: a twentieth of it, rounded down, plus one.
pub open spec fn fee_spec(price: int) -> int {
    price / 20 + 1
}

/// The whole state of the auction house.
pub struct Ledger {
    /// The usernames; the user at index `i` has id `i + 1`.
    pub users: Seq<Seq<char>>,
    /// The item names; the item at index `i` has id `i + 1`.
    pub items: Seq<Seq<char>>,
    /// The quantity under each `(user_id, item_id)` that has a row.
    pub holdings: Map<(i64, i64), i64>,
    /// The live sell orders, by ascending id.
    pub orders: Seq<SellOrderRow>,
    /// The largest order id ever given out.
    pub last_order_id: i64,
}

impl Ledger {
    /// Whether a user with this id exists.
    pub open spec fn has_user(self, user_id: i64) -> bool {
        is_id(self.users.len(), user_id)
    }

    /// Whether an item with this id exists.
    pub open spec fn has_item(self, item_id: i64) -> bool {
        is_id(self.items.len(), item_id)
    }

    /// How much of an item a user holds: the quantity of the row, or nothing
    /// where there is no row.
    pub open spec fn quantity(self, user_id: i64, item_id: i64) -> int {
        if self.holdings.dom().contains((user_id, item_id)) {
            self.holdings[(user_id, item_id)] as int
        } else {
            0
        }
    }

    /// What a stored order must satisfy.
    pub open spec fn order_ok(self, o: SellOrderRow) -> bool {
        &&& o.quantity > 0
        &&& o.price > 0
        &&& 1 <= o.id <= self.last_order_id
        &&& self.has_user(o.seller_id)
        &&& self.has_item(o.item_id)
        &&& o.item_id != FUNDS_ITEM_ID
        &&& o.buyer_id matches Some(b) ==> self.has_user(b)
    }

    /// The invariant of the auction house. Every state that the storage engine
    /// reaches satisfies it.
    pub open spec fn valid(self) -> bool {
        &&& distinct(self.users)
        &&& self.users.len() <= i64::MAX
        &&& forall|i: int| 0 <= i < self.users.len() ==> (#[trigger] self.users[i]).len() > 0
        &&& distinct(self.items)
        &&& self.items.len() <= i64::MAX
        &&& forall|i: int| 0 <= i < self.items.len() ==> (#[trigger] self.items[i]).len() > 0
        &&& self.items.len() >= 1
        &&& self.items[0] == funds_name()
        &&& forall|k: (i64, i64)| #[trigger]
            self.holdings.dom().contains(k) ==> {
                &&& self.has_user(k.0)
                &&& self.has_item(k.1)
                &&& self.holdings[k] >= 0
                &&& (k.1 != FUNDS_ITEM_ID ==> self.holdings[k] > 0)
            }
        &&& forall|u: i64|
            self.has_user(u) ==> #[trigger] self.holdings.dom().contains((u, FUNDS_ITEM_ID))
        &&& 0 <= self.last_order_id
        &&& forall|i: int| 0 <= i < self.orders.len() ==> self.order_ok(#[trigger] self.orders[i])
        &&& forall|i: int, j: int|
            0 <= i < j < self.orders.len() ==> (#[trigger] self.orders[i]).id < (
            #[trigger] self.orders[j]).id
    }

    /// The state of a freshly created store: no users, the currency as the
    /// only item, no orders.
    pub open spec fn fresh() -> Ledger {
        Ledger {
            users: Seq::empty(),
            items: seq![funds_name()],
            holdings: Map::empty(),
            orders: Seq::empty(),
            last_order_id: 0,
        }
    }

    /// The state with a quantity added to a holding, the row being created
    /// where there was none.
    pub open spec fn credited(self, user_id: i64, item_id: i64, amount: int) -> Ledger {
        Ledger {
            holdings: self.holdings.insert(
                (user_id, item_id),
                (self.quantity(user_id, item_id) + amount) as i64,
            ),
            ..self
        }
    }

    /// The state with a quantity taken from a holding. A row that reaches zero
    /// is deleted, unless it is the currency's.
    pub open spec fn debited(self, user_id: i64, item_id: i64, amount: int) -> Ledger {
        let rest = self.quantity(user_id, item_id) - amount;
        if rest > 0 || item_id == FUNDS_ITEM_ID {
            Ledger { holdings: self.holdings.insert((user_id, item_id), rest as i64), ..self }
        } else {
            Ledger { holdings: self.holdings.remove((user_id, item_id)), ..self }
        }
    }

    /// Whether a live order has this id.
    pub open spec fn has_order(self, order_id: i64) -> bool {
        exists|i: int| 0 <= i < self.orders.len() && (#[trigger] self.orders[i]).id == order_id
    }

    /// The index of the live order with this id, where there is one.
    pub open spec fn order_index(self, order_id: i64) -> int {
        choose|i: int| 0 <= i < self.orders.len() && (#[trigger] self.orders[i]).id == order_id
    }

    /// Logging in: the id of the user with this name, who is created with an
    /// empty currency holding where the name is new.
    pub open spec fn login(self, username: Seq<char>) -> Result<(Ledger, i64), StorageErrorView> {
        if username.len() == 0 {
            Err(StorageErrorView::EmptyUsername)
        } else {
            match id_of(self.users, username) {
                Some(id) => Ok((self, id)),
                None => if self.users.len() >= i64::MAX {
                    Err(StorageErrorView::Full)
                } else {
                    let id = (self.users.len() + 1) as i64;
                    Ok(
                        (
                            Ledger {
                                users: self.users.push(username),
                                holdings: self.holdings.insert((id, FUNDS_ITEM_ID), 0),
                                ..self
                            },
                            id,
                        ),
                    )
                },
            }
        }
    }

    /// Depositing: the item is created where its name is new, and the quantity
    /// is added to the user's holding.
    pub open spec fn deposit(self, user_id: i64, item_name: Seq<char>, quantity: i64) -> Result<
        Ledger,
        StorageErrorView,
    > {
        if item_name.len() == 0 {
            Err(StorageErrorView::EmptyItemName)
        } else if quantity <= 0 {
            Err(StorageErrorView::NonPositiveQuantity)
        } else if !self.has_user(user_id) {
            Err(StorageErrorView::UnknownUser)
        } else {
            match id_of(self.items, item_name) {
                Some(item_id) => if self.quantity(user_id, item_id) + quantity > i64::MAX {
                    Err(StorageErrorView::Overflow)
                } else {
                    Ok(self.credited(user_id, item_id, quantity as int))
                },
                None => if self.items.len() >= i64::MAX {
                    Err(StorageErrorView::Full)
                } else {
                    Ok(
                        Ledger { items: self.items.push(item_name), ..self }.credited(
                            user_id,
                            (self.items.len() + 1) as i64,
                            quantity as int,
                        ),
                    )
                },
            }
        }
    }

    /// Whether a withdrawal is allowed: a named, existing item, a positive
    /// quantity, and a holding that covers it.
    pub open spec fn can_withdraw(self, user_id: i64, item_name: Seq<char>, quantity: i64) -> bool {
        &&& item_name.len() > 0
        &&& quantity > 0
        &&& id_of(self.items, item_name) matches Some(item_id) && self.quantity(user_id, item_id)
            >= quantity
    }

    /// Withdrawing: the quantity is taken from the user's holding.
    pub open spec fn withdraw(self, user_id: i64, item_name: Seq<char>, quantity: i64) -> Result<
        Ledger,
        StorageErrorView,
    > {
        if self.can_withdraw(user_id, item_name, quantity) {
            Ok(self.debited(user_id, id_of(self.items, item_name)->0, quantity as int))
        } else {
            Err(StorageErrorView::NotEnoughToWithdraw { item_name })
        }
    }

    /// The row of a new sell order.
    pub open spec fn new_order(
        self,
        order_type: SellOrderType,
        seller_id: i64,
        item_id: i64,
        quantity: i64,
        price: i64,
        expiration_time: i64,
    ) -> SellOrderRow {
        SellOrderRow {
            id: (self.last_order_id + 1) as i64,
            seller_id,
            item_id,
            quantity,
            price,
            expiration_time,
            buyer_id: match order_type {
                SellOrderType::Immediate => Some(seller_id),
                SellOrderType::Auction => None,
            },
        }
    }

    /// Placing a sell order: the seller gives up the items and the listing
    /// fee, and the order goes live under the next id.
    pub open spec fn place_sell_order(
        self,
        order_type: SellOrderType,
        seller_id: i64,
        item_name: Seq<char>,
        quantity: i64,
        price: i64,
        expiration_time: i64,
    ) -> Result<Ledger, StorageErrorView> {
        if quantity < 0 {
            Err(StorageErrorView::NegativeQuantity)
        } else if price < 0 {
            Err(StorageErrorView::NegativePrice)
        } else if item_name == funds_name() {
            Err(StorageErrorView::SellingFunds)
        } else {
            match id_of(self.items, item_name) {
                None => Err(StorageErrorView::NotEnoughToSell { item_name }),
                Some(item_id) => {
                    let fee = fee_spec(price as int);
                    if self.quantity(seller_id, item_id) < quantity {
                        Err(StorageErrorView::NotEnoughToSell { item_name })
                    } else if self.quantity(seller_id, FUNDS_ITEM_ID) < fee {
                        Err(StorageErrorView::CannotPayFee { fee: fee as i64 })
                    } else if quantity == 0 {
                        Err(StorageErrorView::ZeroQuantity)
                    } else if price == 0 {
                        Err(StorageErrorView::ZeroPrice)
                    } else if self.last_order_id >= i64::MAX {
                        Err(StorageErrorView::Full)
                    } else {
                        let paid = self.debited(seller_id, item_id, quantity as int).debited(
                            seller_id,
                            FUNDS_ITEM_ID,
                            fee,
                        );
                        Ok(
                            Ledger {
                                orders: self.orders.push(
                                    self.new_order(
                                        order_type,
                                        seller_id,
                                        item_id,
                                        quantity,
                                        price,
                                        expiration_time,
                                    ),
                                ),
                                last_order_id: (self.last_order_id + 1) as i64,
                                ..paid
                            },
                        )
                    }
                },
            }
        }
    }

    /// Executing an immediate order: the buyer pays the price to the seller
    /// and gets the items; the order is gone.
    pub open spec fn execute_immediate_sell_order(self, buyer_id: i64, order_id: i64) -> Result<
        Ledger,
        StorageErrorView,
    > {
        if !self.has_order(order_id) {
            Err(StorageErrorView::NoSuchImmediateOrder { order_id })
        } else {
            let i = self.order_index(order_id);
            let o = self.orders[i];
            if !o.is_immediate() {
                Err(StorageErrorView::NotImmediate { order_id })
            } else if buyer_id == o.seller_id {
                Err(StorageErrorView::OwnOrder)
            } else if self.quantity(buyer_id, FUNDS_ITEM_ID) < o.price {
                Err(StorageErrorView::NotEnoughFunds)
            } else if self.quantity(o.seller_id, FUNDS_ITEM_ID) + o.price > i64::MAX {
                Err(StorageErrorView::Overflow)
            } else if self.quantity(buyer_id, o.item_id) + o.quantity > i64::MAX {
                Err(StorageErrorView::Overflow)
            } else {
                let settled = self.debited(buyer_id, FUNDS_ITEM_ID, o.price as int).credited(
                    o.seller_id,
                    FUNDS_ITEM_ID,
                    o.price as int,
                ).credited(buyer_id, o.item_id, o.quantity as int);
                Ok(Ledger { orders: self.orders.remove(i), ..settled })
            }
        }
    }

    /// Bidding on an auction: the previous bidder, if any, gets the previous
    /// bid back; the new bidder pays the new bid into escrow and becomes the
    /// order's buyer.
    pub open spec fn place_bid_on_auction_sell_order(
        self,
        buyer_id: i64,
        order_id: i64,
        bid: i64,
    ) -> Result<Ledger, StorageErrorView> {
        if !self.has_order(order_id) {
            Err(StorageErrorView::NoSuchAuctionOrder { order_id })
        } else {
            let i = self.order_index(order_id);
            let o = self.orders[i];
            if o.is_immediate() {
                Err(StorageErrorView::NotAuction { order_id })
            } else if buyer_id == o.seller_id {
                Err(StorageErrorView::OwnOrder)
            } else if bid <= o.price {
                Err(StorageErrorView::BidTooLow)
            } else if o.buyer_id is Some && self.quantity(o.buyer_id->0, FUNDS_ITEM_ID) + o.price
                > i64::MAX {
                Err(StorageErrorView::Overflow)
            } else {
                let refunded = match o.buyer_id {
                    Some(previous) => self.credited(previous, FUNDS_ITEM_ID, o.price as int),
                    None => self,
                };
                if refunded.quantity(buyer_id, FUNDS_ITEM_ID) < bid {
                    Err(StorageErrorView::NotEnoughFunds)
                } else {
                    let paid = refunded.debited(buyer_id, FUNDS_ITEM_ID, bid as int);
                    Ok(
                        Ledger {
                            orders: self.orders.update(
                                i,
                                SellOrderRow { price: bid, buyer_id: Some(buyer_id), ..o },
                            ),
                            ..paid
                        },
                    )
                }
            }
        }
    }

    /// What the expired orders among `orders` owe to one holding: the items of
    /// every order whose recipient is the user, and, in currency, the standing
    /// bid of every order that the user sold.
    pub open spec fn owed(orders: Seq<SellOrderRow>, now: i64, user_id: i64, item_id: i64) -> int
        decreases orders.len(),
    {
        if orders.len() == 0 {
            0
        } else {
            let o = orders.last();
            Self::owed(orders.drop_last(), now, user_id, item_id) + Self::owed_by(
                o,
                now,
                user_id,
                item_id,
            )
        }
    }

    /// What one order owes to one holding at the given second.
    pub open spec fn owed_by(o: SellOrderRow, now: i64, user_id: i64, item_id: i64) -> int {
        if !o.expired(now) {
            0
        } else {
            (if o.recipient() == user_id && o.item_id == item_id {
                o.quantity as int
            } else {
                0
            }) + (if o.has_bid() && o.seller_id == user_id && item_id == FUNDS_ITEM_ID {
                o.price as int
            } else {
                0
            })
        }
    }

    /// The holdings after the expired orders among `orders` have been settled:
    /// each holding receives what those orders owe it, and a holding that
    /// receives something has a row.
    pub open spec fn settled(self, orders: Seq<SellOrderRow>, now: i64) -> Map<(i64, i64), i64> {
        Map::new(
            |k: (i64, i64)|
                self.holdings.dom().contains(k) || Self::owed(orders, now, k.0, k.1) > 0,
            |k: (i64, i64)| (self.quantity(k.0, k.1) + Self::owed(orders, now, k.0, k.1)) as i64,
        )
    }

    /// The orders that have not expired at the given second, in their order.
    pub open spec fn unexpired(orders: Seq<SellOrderRow>, now: i64) -> Seq<SellOrderRow>
        decreases orders.len(),
    {
        if orders.len() == 0 {
            Seq::empty()
        } else {
            let before = Self::unexpired(orders.drop_last(), now);
            if orders.last().expired(now) {
                before
            } else {
                before.push(orders.last())
            }
        }
    }

    /// Whether settling the expired orders would take some holding past the
    /// largest quantity that a row can store.
    pub open spec fn sweep_overflows(self, now: i64) -> bool {
        exists|user_id: i64, item_id: i64|
            self.quantity(user_id, item_id) + #[trigger] Self::owed(
                self.orders,
                now,
                user_id,
                item_id,
            ) > i64::MAX
    }

    /// Settling every order that has expired at `now`: each holding receives
    /// what the expired orders owe it, and the expired orders are gone.
    pub open spec fn process_expired_sell_orders(self, now: i64) -> Result<
        Ledger,
        StorageErrorView,
    > {
        if self.sweep_overflows(now) {
            Err(StorageErrorView::Overflow)
        } else {
            Ok(
                Ledger {
                    holdings: self.settled(self.orders, now),
                    orders: Self::unexpired(self.orders, now),
                    ..self
                },
            )
        }
    }

    /// The holdings of a user among the first `n` items, by ascending item id,
    /// each with the item's name.
    pub open spec fn items_upto(self, user_id: i64, n: nat) -> Seq<(Seq<char>, i64)>
        decreases n,
    {
        if n == 0 {
            Seq::empty()
        } else {
            let before = self.items_upto(user_id, (n - 1) as nat);
            if self.holdings.dom().contains((user_id, n as i64)) {
                before.push((self.items[n - 1], self.holdings[(user_id, n as i64)]))
            } else {
                before
            }
        }
    }

    /// Every holding of a user, by ascending item id, each with the item's name.
    pub open spec fn view_items(self, user_id: i64) -> Seq<(Seq<char>, i64)> {
        self.items_upto(user_id, self.items.len())
    }

    /// A live order as it is shown: with the seller's and the item's name,
    /// the expiration as a timestamp in UTC, and the type that the buyer
    /// column encodes.
    pub open spec fn shown(self, o: SellOrderRow) -> SellOrderView {
        SellOrderView {
            id: o.id,
            seller_name: self.users[o.seller_id - 1],
            item_name: self.items[o.item_id - 1],
            quantity: o.quantity,
            price: o.price,
            expiration_time: timestamp_text(o.expiration_time as int),
            order_type: if o.is_immediate() {
                SellOrderType::Immediate
            } else {
                SellOrderType::Auction
            },
        }
    }

    /// Whether the expiration of every live order can be rendered.
    pub open spec fn all_renderable(self) -> bool {
        forall|i: int|
            0 <= i < self.orders.len() ==> renderable(
                (#[trigger] self.orders[i]).expiration_time as int,
            )
    }

    /// Every live order as it is shown, by ascending id.
    pub open spec fn view_sell_orders(self) -> Result<Seq<SellOrderView>, StorageErrorView> {
        if self.all_renderable() {
            Ok(Seq::new(self.orders.len(), |i: int| self.shown(self.orders[i])))
        } else {
            Err(StorageErrorView::ExpirationOutOfRange)
        }
    }

    /// The units of an item that the first `n` users hold together.
    pub open spec fn held_upto(self, item_id: i64, n: nat) -> int
        decreases n,
    {
        if n == 0 {
            0
        } else {
            self.held_upto(item_id, (n - 1) as nat) + self.quantity(n as i64, item_id)
        }
    }

    /// The units of an item that all users hold together.
    pub open spec fn held(self, item_id: i64) -> int {
        self.held_upto(item_id, self.users.len())
    }

    /// The units of an item that one live order binds: the quantity that it
    /// sells, where it sells this item, and, in currency, the bid that it
    /// holds in escrow.
    pub open spec fn bound_by(o: SellOrderRow, item_id: i64) -> int {
        (if o.item_id == item_id {
            o.quantity as int
        } else {
            0
        }) + (if item_id == FUNDS_ITEM_ID && o.has_bid() {
            o.price as int
        } else {
            0
        })
    }

    /// The units of an item that the orders bind together.
    pub open spec fn bound_in(orders: Seq<SellOrderRow>, item_id: i64) -> int
        decreases orders.len(),
    {
        if orders.len() == 0 {
            0
        } else {
            Self::bound_in(orders.drop_last(), item_id) + Self::bound_by(orders.last(), item_id)
        }
    }

    /// All units of an item in the auction house: those that users hold and
    /// those that live orders bind.
    pub open spec fn units(self, item_id: i64) -> int {
        self.held(item_id) + Self::bound_in(self.orders, item_id)
    }
}

} // verus!
