//! The plain data that the storage engine hands out and takes in.

use vstd::prelude::*;
use vstd::string::*;

verus! {

/// Identity of a user: assigned at first login, never reused.
#[derive(Clone, Copy, Debug, PartialEq, Eq, Structural)]
pub struct UserId(pub i64);

/// A logged-in user.
#[derive(Debug, PartialEq)]
pub struct User {
    pub id: UserId,
    pub username: String,
}

/// The two flavours of sell order.
#[derive(Clone, Copy, Debug, PartialEq, Eq, Structural)]
pub enum SellOrderType {
    /// Any other user may buy at the asking price until the order expires.
    Immediate,
    /// Bids accrue; the highest bidder at expiry wins.
    Auction,
}

/// Whether two strings hold the same characters.
pub fn same_text(a: &str, b: &str) -> (r: bool)
    ensures
        r == (a@ == b@),
{
    let x = a.to_owned();
    let y = b.to_owned();
    x == y
}

impl SellOrderType {
    /// The order type that a keyword names, if it names one.
    pub open spec fn keyword_spec(s: Seq<char>) -> Option<SellOrderType> {
        if s == "immediate"@ {
            Some(SellOrderType::Immediate)
        } else if s == "auction"@ {
            Some(SellOrderType::Auction)
        } else {
            None
        }
    }

    /// The keyword of an order type, as it appears in commands and replies.
    pub open spec fn name_spec(self) -> Seq<char> {
        match self {
            SellOrderType::Immediate => "immediate"@,
            SellOrderType::Auction => "auction"@,
        }
    }

    /// Parses `immediate` or `auction`; anything else, a misspelling included,
    /// names no order type.
    pub fn from_str(s: &str) -> (r: Option<SellOrderType>)
        ensures
            r == Self::keyword_spec(s@),
    {
        if same_text(s, "immediate") {
            Some(SellOrderType::Immediate)
        } else if same_text(s, "auction") {
            Some(SellOrderType::Auction)
        } else {
            None
        }
    }

    /// The keyword of this order type.
    pub fn name(&self) -> (r: &'static str)
        ensures
            r@ == self.name_spec(),
    {
        match self {
            SellOrderType::Immediate => "immediate",
            SellOrderType::Auction => "auction",
        }
    }
}

/// The fields of a stored sell order that settlement reads.
#[derive(Clone, Copy, Debug, PartialEq, Eq, Structural)]
pub struct SellOrderEntry {
    pub seller_id: UserId,
    pub item_id: i64,
    pub quantity: i64,
    pub price: i64,
    pub buyer_id: Option<UserId>,
}

impl SellOrderEntry {
    /// An order is immediate exactly when its buyer column names the seller.
    pub open spec fn order_type_spec(self) -> SellOrderType {
        if self.buyer_id == Some(self.seller_id) {
            SellOrderType::Immediate
        } else {
            SellOrderType::Auction
        }
    }

    /// Whether a bid is standing: a buyer is named and is not the seller.
    pub open spec fn has_bid(self) -> bool {
        self.buyer_id is Some && self.buyer_id != Some(self.seller_id)
    }

    /// The order type that the buyer column encodes.
    pub fn order_type(&self) -> (r: SellOrderType)
        ensures
            r == self.order_type_spec(),
    {
        match self.buyer_id {
            Some(b) => {
                if b.0 == self.seller_id.0 {
                    SellOrderType::Immediate
                } else {
                    SellOrderType::Auction
                }
            },
            None => SellOrderType::Auction,
        }
    }
}

/// A stored sell order. The buyer column encodes the order's type: the seller
/// for an immediate order, nobody for an auction without a bid, the highest
/// bidder otherwise.
#[derive(Clone, Copy, Debug, PartialEq, Eq, Structural)]
pub struct SellOrderRow {
    pub id: i64,
    pub seller_id: i64,
    pub item_id: i64,
    pub quantity: i64,
    pub price: i64,
    pub expiration_time: i64,
    pub buyer_id: Option<i64>,
}

impl SellOrderRow {
    /// An order is immediate exactly when its buyer column names the seller.
    pub open spec fn is_immediate(self) -> bool {
        self.buyer_id == Some(self.seller_id)
    }

    /// Whether a bid is standing: a buyer is named and is not the seller.
    pub open spec fn has_bid(self) -> bool {
        self.buyer_id is Some && self.buyer_id != Some(self.seller_id)
    }

    /// Who gets the items when the order expires: the highest bidder, or the
    /// seller where nobody bid.
    pub open spec fn recipient(self) -> i64 {
        if self.has_bid() {
            self.buyer_id->0
        } else {
            self.seller_id
        }
    }

    /// Whether the order has expired at the given second.
    pub open spec fn expired(self, now: i64) -> bool {
        self.expiration_time <= now
    }

    /// The fields that settlement reads.
    pub open spec fn entry_spec(self) -> SellOrderEntry {
        SellOrderEntry {
            seller_id: UserId(self.seller_id),
            item_id: self.item_id,
            quantity: self.quantity,
            price: self.price,
            buyer_id: match self.buyer_id {
                Some(b) => Some(UserId(b)),
                None => None,
            },
        }
    }

    /// The fields that settlement reads.
    pub fn entry(&self) -> (r: SellOrderEntry)
        ensures
            r == self.entry_spec(),
    {
        SellOrderEntry {
            seller_id: UserId(self.seller_id),
            item_id: self.item_id,
            quantity: self.quantity,
            price: self.price,
            buyer_id: match self.buyer_id {
                Some(b) => Some(UserId(b)),
                None => None,
            },
        }
    }
}

/// A sell order as it is shown: names in place of ids, the expiration as a
/// calendar timestamp.
#[derive(Debug, PartialEq)]
pub struct SellOrder {
    pub id: i64,
    pub seller_name: String,
    pub item_name: String,
    pub quantity: i64,
    pub price: i64,
    pub expiration_time: String,
    pub order_type: SellOrderType,
}

/// A shown sell order with its texts as sequences of characters.
pub struct SellOrderView {
    pub id: i64,
    pub seller_name: Seq<char>,
    pub item_name: Seq<char>,
    pub quantity: i64,
    pub price: i64,
    pub expiration_time: Seq<char>,
    pub order_type: SellOrderType,
}

impl DeepView for SellOrder {
    type V = SellOrderView;

    open spec fn deep_view(&self) -> SellOrderView {
        SellOrderView {
            id: self.id,
            seller_name: self.seller_name@,
            item_name: self.item_name@,
            quantity: self.quantity,
            price: self.price,
            expiration_time: self.expiration_time@,
            order_type: self.order_type,
        }
    }
}

} // verus!
