use auction_house::errors::{ErrorKind, StorageError};
use auction_house::holdings::Holding;
use auction_house::storage::Storage;
use auction_house::tables::NameRow;
use auction_house::types::{SellOrderEntry, SellOrderType, UserId};

const T: i64 = 1609459200;

fn market() -> (Storage, UserId, UserId) {
    let mut storage = Storage::new();
    let seller = storage.login("seller").unwrap().id;
    let buyer = storage.login("buyer").unwrap().id;
    storage.deposit(seller, "funds", 100).unwrap();
    storage.deposit(seller, "gem", 10).unwrap();
    storage
        .place_sell_order(SellOrderType::Immediate, seller, "gem", 1, 10, T)
        .unwrap();
    storage
        .place_sell_order(SellOrderType::Auction, seller, "gem", 1, 10, T)
        .unwrap();
    (storage, seller, buyer)
}

fn check(refused: Result<(), StorageError>, expected: StorageError, kind: ErrorKind, text: &str) {
    let refused = refused.unwrap_err();
    assert_eq!(refused, expected);
    assert_eq!(refused.kind(), kind);
    assert_eq!(refused.to_string(), text);
}

#[test]
fn login_refusals() {
    let mut storage = Storage::new();
    let refused = storage.login("").unwrap_err();
    assert_eq!(refused, StorageError::EmptyUsername);
    assert_eq!(refused.kind(), ErrorKind::InvalidArgument);
    assert_eq!(refused.to_string(), "Username cannot be empty");
}

#[test]
fn deposit_refusals() {
    let (mut storage, seller, _) = market();
    check(
        storage.deposit(seller, "", 1),
        StorageError::EmptyItemName,
        ErrorKind::InvalidArgument,
        "Item name cannot be empty",
    );
    check(
        storage.deposit(seller, "gem", 0),
        StorageError::NonPositiveQuantity,
        ErrorKind::InvalidArgument,
        "Quantity must be positive",
    );
    check(
        storage.deposit(UserId(0), "gem", 1),
        StorageError::UnknownUser,
        ErrorKind::NotFound,
        "FOREIGN KEY constraint failed",
    );
    check(
        storage.deposit(UserId(3), "gem", 1),
        StorageError::UnknownUser,
        ErrorKind::NotFound,
        "FOREIGN KEY constraint failed",
    );
    check(
        storage.deposit(seller, "gem", i64::MAX),
        StorageError::Overflow,
        ErrorKind::IntegrityViolation,
        "integer overflow",
    );
    storage.deposit(seller, "gem", i64::MAX - 8).unwrap();
    assert_eq!(storage.get_user_item_quantity(seller, 2), i64::MAX);
}

#[test]
fn withdraw_refusals_all_read_the_same() {
    let (mut storage, seller, buyer) = market();
    for (user, item, quantity) in [
        (seller, "gem", 9),
        (seller, "gem", 0),
        (seller, "gem", -1),
        (seller, "gem", i64::MIN),
        (buyer, "gem", 1),
        (UserId(7), "gem", 1),
    ] {
        check(
            storage.withdraw(user, item, quantity),
            StorageError::NotEnoughToWithdraw {
                item_name: "gem".to_string(),
            },
            ErrorKind::Conflict,
            "Not enough gem(s) to withdraw",
        );
    }
    check(
        storage.withdraw(seller, "pearl", 1),
        StorageError::NotEnoughToWithdraw {
            item_name: "pearl".to_string(),
        },
        ErrorKind::Conflict,
        "Not enough pearl(s) to withdraw",
    );
    check(
        storage.withdraw(seller, "", 1),
        StorageError::NotEnoughToWithdraw {
            item_name: "".to_string(),
        },
        ErrorKind::Conflict,
        "Not enough (s) to withdraw",
    );
}

#[test]
fn place_sell_order_refusals() {
    let (mut storage, seller, buyer) = market();
    let kind = SellOrderType::Auction;
    check(
        storage.place_sell_order(kind, seller, "gem", -1, 1, T),
        StorageError::NegativeQuantity,
        ErrorKind::InvalidArgument,
        "Cannot sell negative amount",
    );
    check(
        storage.place_sell_order(kind, seller, "gem", 1, -1, T),
        StorageError::NegativePrice,
        ErrorKind::InvalidArgument,
        "Cannot sell for negative price",
    );
    check(
        storage.place_sell_order(kind, seller, "funds", 1, 1, T),
        StorageError::SellingFunds,
        ErrorKind::Conflict,
        "Cannot sell funds for funds, it's a speculation!",
    );
    check(
        storage.place_sell_order(kind, seller, "pearl", 1, 1, T),
        StorageError::NotEnoughToSell {
            item_name: "pearl".to_string(),
        },
        ErrorKind::Conflict,
        "Not enough pearl(s) to sell",
    );
    check(
        storage.place_sell_order(kind, buyer, "gem", 1, 1, T),
        StorageError::NotEnoughToSell {
            item_name: "gem".to_string(),
        },
        ErrorKind::Conflict,
        "Not enough gem(s) to sell",
    );
    check(
        storage.place_sell_order(kind, seller, "gem", 1, 1960, T),
        StorageError::CannotPayFee { fee: 99 },
        ErrorKind::Conflict,
        "Not enough funds to pay 99 funds fee (which is 5% + 1)",
    );
    check(
        storage.place_sell_order(kind, buyer, "gem", 0, 0, T),
        StorageError::CannotPayFee { fee: 1 },
        ErrorKind::Conflict,
        "Not enough funds to pay 1 funds fee (which is 5% + 1)",
    );
    check(
        storage.place_sell_order(kind, seller, "gem", 0, 5, T),
        StorageError::ZeroQuantity,
        ErrorKind::IntegrityViolation,
        "CHECK constraint failed: quantity > 0",
    );
    check(
        storage.place_sell_order(kind, seller, "gem", 0, 0, T),
        StorageError::ZeroQuantity,
        ErrorKind::IntegrityViolation,
        "CHECK constraint failed: quantity > 0",
    );
    check(
        storage.place_sell_order(kind, seller, "gem", 1, 0, T),
        StorageError::ZeroPrice,
        ErrorKind::IntegrityViolation,
        "CHECK constraint failed: price > 0",
    );
    assert_eq!(storage.order_rows().len(), 2);
    assert_eq!(storage.get_user_item_quantity(seller, 1), 98);
    assert_eq!(storage.get_user_item_quantity(seller, 2), 8);
}

#[test]
fn execute_refusals() {
    let (mut storage, seller, buyer) = market();
    check(
        storage.execute_immediate_sell_order(buyer, 3),
        StorageError::NoSuchImmediateOrder { order_id: 3 },
        ErrorKind::NotFound,
        "Immediate sell order #3 doesn't exist",
    );
    check(
        storage.execute_immediate_sell_order(buyer, -3),
        StorageError::NoSuchImmediateOrder { order_id: -3 },
        ErrorKind::NotFound,
        "Immediate sell order #-3 doesn't exist",
    );
    check(
        storage.execute_immediate_sell_order(buyer, 2),
        StorageError::NotImmediate { order_id: 2 },
        ErrorKind::Conflict,
        "Order #2 is not an immediate order",
    );
    check(
        storage.execute_immediate_sell_order(seller, 1),
        StorageError::OwnOrder,
        ErrorKind::Conflict,
        "You can't buy your own items",
    );
    check(
        storage.execute_immediate_sell_order(buyer, 1),
        StorageError::NotEnoughFunds,
        ErrorKind::Conflict,
        "Not enough items to withdraw",
    );
    check(
        storage.execute_immediate_sell_order(UserId(9), 1),
        StorageError::NotEnoughFunds,
        ErrorKind::Conflict,
        "Not enough items to withdraw",
    );
    storage.deposit(buyer, "funds", 10).unwrap();
    storage.deposit(seller, "funds", i64::MAX - 98).unwrap();
    check(
        storage.execute_immediate_sell_order(buyer, 1),
        StorageError::Overflow,
        ErrorKind::IntegrityViolation,
        "integer overflow",
    );
    storage.withdraw(seller, "funds", 10).unwrap();
    storage.deposit(buyer, "gem", i64::MAX).unwrap();
    check(
        storage.execute_immediate_sell_order(buyer, 1),
        StorageError::Overflow,
        ErrorKind::IntegrityViolation,
        "integer overflow",
    );
    storage.withdraw(buyer, "gem", 1).unwrap();
    storage.execute_immediate_sell_order(buyer, 1).unwrap();
    assert_eq!(storage.get_user_item_quantity(buyer, 2), i64::MAX);
    assert_eq!(storage.get_user_item_quantity(seller, 1), i64::MAX);
}

#[test]
fn bid_refusals() {
    let (mut storage, seller, buyer) = market();
    check(
        storage.place_bid_on_auction_sell_order(buyer, 3, 20),
        StorageError::NoSuchAuctionOrder { order_id: 3 },
        ErrorKind::NotFound,
        "Auction sell order #3 doesn't exist",
    );
    check(
        storage.place_bid_on_auction_sell_order(buyer, 1, 20),
        StorageError::NotAuction { order_id: 1 },
        ErrorKind::Conflict,
        "Order #1 is not an auction order",
    );
    check(
        storage.place_bid_on_auction_sell_order(seller, 2, 20),
        StorageError::OwnOrder,
        ErrorKind::Conflict,
        "You can't buy your own items",
    );
    check(
        storage.place_bid_on_auction_sell_order(buyer, 2, 10),
        StorageError::BidTooLow,
        ErrorKind::Conflict,
        "Bid must be higher than the current price",
    );
    check(
        storage.place_bid_on_auction_sell_order(buyer, 2, 11),
        StorageError::NotEnoughFunds,
        ErrorKind::Conflict,
        "Not enough items to withdraw",
    );
    storage.deposit(buyer, "funds", 11).unwrap();
    storage.place_bid_on_auction_sell_order(buyer, 2, 11).unwrap();
    storage.deposit(buyer, "funds", i64::MAX).unwrap();
    let third = storage.login("third").unwrap().id;
    storage.deposit(third, "funds", 50).unwrap();
    check(
        storage.place_bid_on_auction_sell_order(third, 2, 12),
        StorageError::Overflow,
        ErrorKind::IntegrityViolation,
        "integer overflow",
    );
    assert_eq!(storage.get_user_item_quantity(third, 1), 50);
    assert_eq!(storage.order_rows()[1].buyer_id, Some(buyer.0));
}

#[test]
fn order_type_is_read_from_the_buyer_column() {
    let entry = |buyer_id| SellOrderEntry {
        seller_id: UserId(4),
        item_id: 2,
        quantity: 1,
        price: 1,
        buyer_id,
    };
    assert_eq!(entry(Some(UserId(4))).order_type(), SellOrderType::Immediate);
    assert_eq!(entry(None).order_type(), SellOrderType::Auction);
    assert_eq!(entry(Some(UserId(5))).order_type(), SellOrderType::Auction);
    let (storage, _, _) = market();
    assert_eq!(
        storage.get_sell_oder_entry(1).unwrap().order_type(),
        SellOrderType::Immediate
    );
    assert_eq!(
        storage.get_sell_oder_entry(2).unwrap().order_type(),
        SellOrderType::Auction
    );
    assert_eq!(storage.get_sell_oder_entry(3), None);
}

#[test]
fn order_type_keywords() {
    assert_eq!(
        SellOrderType::from_str("immediate"),
        Some(SellOrderType::Immediate)
    );
    assert_eq!(SellOrderType::from_str("auction"), Some(SellOrderType::Auction));
    assert_eq!(SellOrderType::from_str("immidiate"), None);
    assert_eq!(SellOrderType::from_str("Auction"), None);
    assert_eq!(SellOrderType::from_str(""), None);
    assert_eq!(SellOrderType::from_str("auction "), None);
    assert_eq!(SellOrderType::Immediate.name(), "immediate");
    assert_eq!(SellOrderType::Auction.name(), "auction");
}

#[test]
fn a_store_that_gave_out_the_last_order_id_is_full() {
    let row = |id: i64, name: &str| NameRow {
        id,
        name: name.to_string(),
    };
    let holding = |item_id, quantity| Holding {
        user_id: 1,
        item_id,
        quantity,
    };
    let mut storage = Storage::from_tables(
        vec![row(1, "seller")],
        vec![row(1, "funds"), row(2, "gem")],
        vec![holding(1, 100), holding(2, 10)],
        vec![],
        i64::MAX,
    )
    .unwrap();
    check(
        storage.place_sell_order(SellOrderType::Auction, UserId(1), "gem", 1, 1, T),
        StorageError::Full,
        ErrorKind::Internal,
        "database or disk is full",
    );
    assert_eq!(storage.get_user_item_quantity(UserId(1), 1), 100);
    assert_eq!(storage.get_user_item_quantity(UserId(1), 2), 10);

    let mut storage = Storage::from_tables(
        vec![row(1, "seller")],
        vec![row(1, "funds"), row(2, "gem")],
        vec![holding(1, 100), holding(2, 10)],
        vec![],
        i64::MAX - 1,
    )
    .unwrap();
    storage
        .place_sell_order(SellOrderType::Auction, UserId(1), "gem", 1, 1, T)
        .unwrap();
    assert_eq!(storage.order_rows()[0].id, i64::MAX);
    assert_eq!(storage.last_order_id(), i64::MAX);
}
