//! Why an operation was refused, and the line of text that says so.

use crate::text::{decimal, push_decimal};
use vstd::prelude::*;
use vstd::string::*;

verus! {

/// The broad kind of a refusal.
#[derive(Clone, Copy, Debug, PartialEq, Eq, Structural)]
pub enum ErrorKind {
    /// An argument that no state would accept.
    InvalidArgument,
    /// A user, item or order that does not exist.
    NotFound,
    /// The state does not allow the operation.
    Conflict,
    /// The operation would break a constraint of the stored data.
    IntegrityViolation,
    /// A limit of the store itself.
    Internal,
}

/// A refusal of the storage engine. The state is unchanged whenever one is
/// returned.
#[derive(Debug, PartialEq, Eq)]
pub enum StorageError {
    EmptyUsername,
    EmptyItemName,
    NonPositiveQuantity,
    UnknownUser,
    NotEnoughToWithdraw { item_name: String },
    NegativeQuantity,
    NegativePrice,
    SellingFunds,
    NotEnoughToSell { item_name: String },
    CannotPayFee { fee: i64 },
    ZeroQuantity,
    ZeroPrice,
    NoSuchImmediateOrder { order_id: i64 },
    NotImmediate { order_id: i64 },
    NoSuchAuctionOrder { order_id: i64 },
    NotAuction { order_id: i64 },
    OwnOrder,
    BidTooLow,
    NotEnoughFunds,
    Overflow,
    Full,
    ExpirationOutOfRange,
}

/// A refusal with its texts as sequences of characters.
pub enum StorageErrorView {
    EmptyUsername,
    EmptyItemName,
    NonPositiveQuantity,
    UnknownUser,
    NotEnoughToWithdraw { item_name: Seq<char> },
    NegativeQuantity,
    NegativePrice,
    SellingFunds,
    NotEnoughToSell { item_name: Seq<char> },
    CannotPayFee { fee: i64 },
    ZeroQuantity,
    ZeroPrice,
    NoSuchImmediateOrder { order_id: i64 },
    NotImmediate { order_id: i64 },
    NoSuchAuctionOrder { order_id: i64 },
    NotAuction { order_id: i64 },
    OwnOrder,
    BidTooLow,
    NotEnoughFunds,
    Overflow,
    Full,
    ExpirationOutOfRange,
}

impl View for StorageError {
    type V = StorageErrorView;

    open spec fn view(&self) -> StorageErrorView {
        match self {
            StorageError::EmptyUsername => StorageErrorView::EmptyUsername,
            StorageError::EmptyItemName => StorageErrorView::EmptyItemName,
            StorageError::NonPositiveQuantity => StorageErrorView::NonPositiveQuantity,
            StorageError::UnknownUser => StorageErrorView::UnknownUser,
            StorageError::NotEnoughToWithdraw { item_name } => StorageErrorView::NotEnoughToWithdraw {
                item_name: item_name@,
            },
            StorageError::NegativeQuantity => StorageErrorView::NegativeQuantity,
            StorageError::NegativePrice => StorageErrorView::NegativePrice,
            StorageError::SellingFunds => StorageErrorView::SellingFunds,
            StorageError::NotEnoughToSell { item_name } => StorageErrorView::NotEnoughToSell {
                item_name: item_name@,
            },
            StorageError::CannotPayFee { fee } => StorageErrorView::CannotPayFee { fee: *fee },
            StorageError::ZeroQuantity => StorageErrorView::ZeroQuantity,
            StorageError::ZeroPrice => StorageErrorView::ZeroPrice,
            StorageError::NoSuchImmediateOrder { order_id } => StorageErrorView::NoSuchImmediateOrder {
                order_id: *order_id,
            },
            StorageError::NotImmediate { order_id } => StorageErrorView::NotImmediate {
                order_id: *order_id,
            },
            StorageError::NoSuchAuctionOrder { order_id } => StorageErrorView::NoSuchAuctionOrder {
                order_id: *order_id,
            },
            StorageError::NotAuction { order_id } => StorageErrorView::NotAuction {
                order_id: *order_id,
            },
            StorageError::OwnOrder => StorageErrorView::OwnOrder,
            StorageError::BidTooLow => StorageErrorView::BidTooLow,
            StorageError::NotEnoughFunds => StorageErrorView::NotEnoughFunds,
            StorageError::Overflow => StorageErrorView::Overflow,
            StorageError::Full => StorageErrorView::Full,
            StorageError::ExpirationOutOfRange => StorageErrorView::ExpirationOutOfRange,
        }
    }
}

impl StorageErrorView {
    /// The kind of a refusal.
    pub open spec fn kind(self) -> ErrorKind {
        match self {
            StorageErrorView::EmptyUsername => ErrorKind::InvalidArgument,
            StorageErrorView::EmptyItemName => ErrorKind::InvalidArgument,
            StorageErrorView::NonPositiveQuantity => ErrorKind::InvalidArgument,
            StorageErrorView::NegativeQuantity => ErrorKind::InvalidArgument,
            StorageErrorView::NegativePrice => ErrorKind::InvalidArgument,
            StorageErrorView::UnknownUser => ErrorKind::NotFound,
            StorageErrorView::NoSuchImmediateOrder { .. } => ErrorKind::NotFound,
            StorageErrorView::NoSuchAuctionOrder { .. } => ErrorKind::NotFound,
            StorageErrorView::NotEnoughToWithdraw { .. } => ErrorKind::Conflict,
            StorageErrorView::SellingFunds => ErrorKind::Conflict,
            StorageErrorView::NotEnoughToSell { .. } => ErrorKind::Conflict,
            StorageErrorView::CannotPayFee { .. } => ErrorKind::Conflict,
            StorageErrorView::NotImmediate { .. } => ErrorKind::Conflict,
            StorageErrorView::NotAuction { .. } => ErrorKind::Conflict,
            StorageErrorView::OwnOrder => ErrorKind::Conflict,
            StorageErrorView::BidTooLow => ErrorKind::Conflict,
            StorageErrorView::NotEnoughFunds => ErrorKind::Conflict,
            StorageErrorView::ZeroQuantity => ErrorKind::IntegrityViolation,
            StorageErrorView::ZeroPrice => ErrorKind::IntegrityViolation,
            StorageErrorView::Overflow => ErrorKind::IntegrityViolation,
            StorageErrorView::Full => ErrorKind::Internal,
            StorageErrorView::ExpirationOutOfRange => ErrorKind::Internal,
        }
    }

    /// The single line that tells a person why the operation was refused.
    pub open spec fn message(self) -> Seq<char> {
        match self {
            StorageErrorView::EmptyUsername => "Username cannot be empty"@,
            StorageErrorView::EmptyItemName => "Item name cannot be empty"@,
            StorageErrorView::NonPositiveQuantity => "Quantity must be positive"@,
            StorageErrorView::UnknownUser => "FOREIGN KEY constraint failed"@,
            StorageErrorView::NotEnoughToWithdraw { item_name } => "Not enough "@ + item_name
                + "(s) to withdraw"@,
            StorageErrorView::NegativeQuantity => "Cannot sell negative amount"@,
            StorageErrorView::NegativePrice => "Cannot sell for negative price"@,
            StorageErrorView::SellingFunds => "Cannot sell funds for funds, it's a speculation!"@,
            StorageErrorView::NotEnoughToSell { item_name } => "Not enough "@ + item_name
                + "(s) to sell"@,
            StorageErrorView::CannotPayFee { fee } => "Not enough funds to pay "@ + decimal(
                fee as int,
            ) + " funds fee (which is 5% + 1)"@,
            StorageErrorView::ZeroQuantity => "CHECK constraint failed: quantity > 0"@,
            StorageErrorView::ZeroPrice => "CHECK constraint failed: price > 0"@,
            StorageErrorView::NoSuchImmediateOrder { order_id } => "Immediate sell order #"@
                + decimal(order_id as int) + " doesn't exist"@,
            StorageErrorView::NotImmediate { order_id } => "Order #"@ + decimal(order_id as int)
                + " is not an immediate order"@,
            StorageErrorView::NoSuchAuctionOrder { order_id } => "Auction sell order #"@ + decimal(
                order_id as int,
            ) + " doesn't exist"@,
            StorageErrorView::NotAuction { order_id } => "Order #"@ + decimal(order_id as int)
                + " is not an auction order"@,
            StorageErrorView::OwnOrder => "You can't buy your own items"@,
            StorageErrorView::BidTooLow => "Bid must be higher than the current price"@,
            StorageErrorView::NotEnoughFunds => "Not enough items to withdraw"@,
            StorageErrorView::Overflow => "integer overflow"@,
            StorageErrorView::Full => "database or disk is full"@,
            StorageErrorView::ExpirationOutOfRange => "Expiration time is out of range"@,
        }
    }
}

/// A text between two fixed texts.
fn framed(before: &str, middle: &str, after: &str) -> (r: String)
    ensures
        r@ == before@ + middle@ + after@,
{
    let mut r = String::from_str(before);
    r.append(middle);
    r.append(after);
    r
}

/// A number between two fixed texts.
fn framed_number(before: &str, n: i64, after: &str) -> (r: String)
    ensures
        r@ == before@ + decimal(n as int) + after@,
{
    let mut r = String::from_str(before);
    push_decimal(&mut r, n);
    r.append(after);
    r
}

impl StorageError {
    /// The kind of this refusal.
    pub fn kind(&self) -> (r: ErrorKind)
        ensures
            r == self@.kind(),
    {
        match self {
            StorageError::EmptyUsername => ErrorKind::InvalidArgument,
            StorageError::EmptyItemName => ErrorKind::InvalidArgument,
            StorageError::NonPositiveQuantity => ErrorKind::InvalidArgument,
            StorageError::NegativeQuantity => ErrorKind::InvalidArgument,
            StorageError::NegativePrice => ErrorKind::InvalidArgument,
            StorageError::UnknownUser => ErrorKind::NotFound,
            StorageError::NoSuchImmediateOrder { .. } => ErrorKind::NotFound,
            StorageError::NoSuchAuctionOrder { .. } => ErrorKind::NotFound,
            StorageError::NotEnoughToWithdraw { .. } => ErrorKind::Conflict,
            StorageError::SellingFunds => ErrorKind::Conflict,
            StorageError::NotEnoughToSell { .. } => ErrorKind::Conflict,
            StorageError::CannotPayFee { .. } => ErrorKind::Conflict,
            StorageError::NotImmediate { .. } => ErrorKind::Conflict,
            StorageError::NotAuction { .. } => ErrorKind::Conflict,
            StorageError::OwnOrder => ErrorKind::Conflict,
            StorageError::BidTooLow => ErrorKind::Conflict,
            StorageError::NotEnoughFunds => ErrorKind::Conflict,
            StorageError::ZeroQuantity => ErrorKind::IntegrityViolation,
            StorageError::ZeroPrice => ErrorKind::IntegrityViolation,
            StorageError::Overflow => ErrorKind::IntegrityViolation,
            StorageError::Full => ErrorKind::Internal,
            StorageError::ExpirationOutOfRange => ErrorKind::Internal,
        }
    }

    /// The single line that tells a person why the operation was refused.
    pub fn to_string(&self) -> (r: String)
        ensures
            r@ == self@.message(),
    {
        match self {
            StorageError::EmptyUsername => String::from_str("Username cannot be empty"),
            StorageError::EmptyItemName => String::from_str("Item name cannot be empty"),
            StorageError::NonPositiveQuantity => String::from_str("Quantity must be positive"),
            StorageError::UnknownUser => String::from_str("FOREIGN KEY constraint failed"),
            StorageError::NotEnoughToWithdraw { item_name } => framed(
                "Not enough ",
                item_name.as_str(),
                "(s) to withdraw",
            ),
            StorageError::NegativeQuantity => String::from_str("Cannot sell negative amount"),
            StorageError::NegativePrice => String::from_str("Cannot sell for negative price"),
            StorageError::SellingFunds => String::from_str(
                "Cannot sell funds for funds, it's a speculation!",
            ),
            StorageError::NotEnoughToSell { item_name } => framed(
                "Not enough ",
                item_name.as_str(),
                "(s) to sell",
            ),
            StorageError::CannotPayFee { fee } => framed_number(
                "Not enough funds to pay ",
                *fee,
                " funds fee (which is 5% + 1)",
            ),
            StorageError::ZeroQuantity => String::from_str("CHECK constraint failed: quantity > 0"),
            StorageError::ZeroPrice => String::from_str("CHECK constraint failed: price > 0"),
            StorageError::NoSuchImmediateOrder { order_id } => framed_number(
                "Immediate sell order #",
                *order_id,
                " doesn't exist",
            ),
            StorageError::NotImmediate { order_id } => framed_number(
                "Order #",
                *order_id,
                " is not an immediate order",
            ),
            StorageError::NoSuchAuctionOrder { order_id } => framed_number(
                "Auction sell order #",
                *order_id,
                " doesn't exist",
            ),
            StorageError::NotAuction { order_id } => framed_number(
                "Order #",
                *order_id,
                " is not an auction order",
            ),
            StorageError::OwnOrder => String::from_str("You can't buy your own items"),
            StorageError::BidTooLow => String::from_str("Bid must be higher than the current price"),
            StorageError::NotEnoughFunds => String::from_str("Not enough items to withdraw"),
            StorageError::Overflow => String::from_str("integer overflow"),
            StorageError::Full => String::from_str("database or disk is full"),
            StorageError::ExpirationOutOfRange => String::from_str("Expiration time is out of range"),
        }
    }
}

} // verus!
