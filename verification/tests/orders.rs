use auction_house::storage::Storage;
use auction_house::types::{SellOrder, SellOrderType, UserId};

// "2021-01-01 00:00"
const EXPIRATION_TIME: i64 = 1609459200;

fn sell_orders_negative(order_type: SellOrderType) {
    let mut storage = Storage::new();

    let user = storage.login("user").unwrap();
    assert!(storage.deposit(user.id, "funds", 100).is_ok());
    assert!(storage.deposit(user.id, "item1", 10).is_ok());
    assert!(storage.deposit(user.id, "item2", 20).is_ok());
    assert_eq!(
        storage.view_items(user.id).unwrap(),
        vec![
            ("funds".into(), 100),
            ("item1".into(), 10),
            ("item2".into(), 20)
        ]
    );

    // more than we have
    assert!(storage
        .place_sell_order(order_type, user.id, "item1", 110, 10, EXPIRATION_TIME)
        .is_err());
    // negative quantity
    assert!(storage
        .place_sell_order(order_type, user.id, "item1", -10, 10, EXPIRATION_TIME)
        .is_err());
    // negative price
    assert!(storage
        .place_sell_order(order_type, user.id, "item1", 10, -10, EXPIRATION_TIME)
        .is_err());
    // non-existing item
    assert!(storage
        .place_sell_order(
            order_type,
            user.id,
            "non-existing-item",
            1,
            10,
            EXPIRATION_TIME
        )
        .is_err());
    // non-existing user
    assert!(storage
        .place_sell_order(order_type, UserId(100), "item1", 1, 10, EXPIRATION_TIME)
        .is_err());
    // funds
    assert!(storage
        .place_sell_order(order_type, user.id, "funds", 1, 2, EXPIRATION_TIME)
        .is_err());

    // Finally, nothing should be changed
    assert_eq!(storage.view_sell_orders().unwrap(), vec![]);
}

#[test]
fn test_sell_orders_negative_immediate() {
    sell_orders_negative(SellOrderType::Immediate);
}

#[test]
fn test_sell_orders_negative_auction() {
    sell_orders_negative(SellOrderType::Auction);
}

fn sell_orders_positive(order_type: SellOrderType) {
    let mut storage = Storage::new();

    let user = storage.login("user").unwrap();
    assert!(storage.deposit(user.id, "funds", 100).is_ok());
    assert!(storage.deposit(user.id, "item1", 10).is_ok());
    assert!(storage.deposit(user.id, "item2", 20).is_ok());
    assert_eq!(
        storage.view_items(user.id).unwrap(),
        vec![
            ("funds".into(), 100),
            ("item1".into(), 10),
            ("item2".into(), 20)
        ]
    );

    for i in 1..10 {
        assert!(storage
            .place_sell_order(order_type, user.id, "item1", 1, 10 + i, EXPIRATION_TIME)
            .is_ok());
        assert_eq!(
            storage.view_items(user.id).unwrap(),
            vec![
                ("funds".into(), 100 - i /* fee is 1 for each order */),
                ("item1".into(), 10 - i),
                ("item2".into(), 20)
            ]
        );
    }
    assert!(storage
        .place_sell_order(order_type, user.id, "item2", 15, 100, EXPIRATION_TIME)
        .is_ok());
    assert_eq!(
        storage.view_items(user.id).unwrap(),
        vec![
            ("funds".into(), 100 - 9 - 6),
            ("item1".into(), 1),
            ("item2".into(), 5)
        ]
    );

    // Item entry dissapears when quantity reaches zero
    assert!(storage
        .place_sell_order(order_type, user.id, "item2", 5, 120, EXPIRATION_TIME + 1)
        .is_ok());
    assert_eq!(
        storage.view_items(user.id).unwrap(),
        vec![("funds".into(), 100 - 9 - 6 - 7), ("item1".into(), 1)]
    );

    assert_eq!(
        storage.view_sell_orders().unwrap(),
        vec![
            SellOrder {
                id: 1,
                seller_name: "user".into(),
                item_name: "item1".into(),
                quantity: 1,
                price: 11,
                expiration_time: "2021-01-01 00:00:00".into(),
                order_type,
            },
            SellOrder {
                id: 2,
                seller_name: "user".into(),
                item_name: "item1".into(),
                quantity: 1,
                price: 12,
                expiration_time: "2021-01-01 00:00:00".into(),
                order_type,
            },
            SellOrder {
                id: 3,
                seller_name: "user".into(),
                item_name: "item1".into(),
                quantity: 1,
                price: 13,
                expiration_time: "2021-01-01 00:00:00".into(),
                order_type,
            },
            SellOrder {
                id: 4,
                seller_name: "user".into(),
                item_name: "item1".into(),
                quantity: 1,
                price: 14,
                expiration_time: "2021-01-01 00:00:00".into(),
                order_type,
            },
            SellOrder {
                id: 5,
                seller_name: "user".into(),
                item_name: "item1".into(),
                quantity: 1,
                price: 15,
                expiration_time: "2021-01-01 00:00:00".into(),
                order_type,
            },
            SellOrder {
                id: 6,
                seller_name: "user".into(),
                item_name: "item1".into(),
                quantity: 1,
                price: 16,
                expiration_time: "2021-01-01 00:00:00".into(),
                order_type,
            },
            SellOrder {
                id: 7,
                seller_name: "user".into(),
                item_name: "item1".into(),
                quantity: 1,
                price: 17,
                expiration_time: "2021-01-01 00:00:00".into(),
                order_type,
            },
            SellOrder {
                id: 8,
                seller_name: "user".into(),
                item_name: "item1".into(),
                quantity: 1,
                price: 18,
                expiration_time: "2021-01-01 00:00:00".into(),
                order_type,
            },
            SellOrder {
                id: 9,
                seller_name: "user".into(),
                item_name: "item1".into(),
                quantity: 1,
                price: 19,
                expiration_time: "2021-01-01 00:00:00".into(),
                order_type,
            },
            SellOrder {
                id: 10,
                seller_name: "user".into(),
                item_name: "item2".into(),
                quantity: 15,
                price: 100,
                expiration_time: "2021-01-01 00:00:00".into(),
                order_type,
            },
            SellOrder {
                id: 11,
                seller_name: "user".into(),
                item_name: "item2".into(),
                quantity: 5,
                price: 120,
                expiration_time: "2021-01-01 00:00:01".into(), // as expected
                order_type,
            },
        ]
    );

    // cancel expired orders
    assert!(storage.process_expired_sell_orders(EXPIRATION_TIME).is_ok());
    assert_eq!(
        storage.view_sell_orders().unwrap(),
        vec![SellOrder {
            id: 11,
            seller_name: "user".into(),
            item_name: "item2".into(),
            quantity: 5,
            price: 120,
            expiration_time: "2021-01-01 00:00:01".into(),
            order_type,
        }]
    );

    // items are returned but fee is not
    assert_eq!(
        storage.view_items(user.id).unwrap(),
        vec![
            ("funds".into(), 100 - 9 - 6 - 7),
            ("item1".into(), 10),
            ("item2".into(), 15)
        ]
    );

    // And finally, cancel the last order
    assert!(storage
        .process_expired_sell_orders(EXPIRATION_TIME + 2)
        .is_ok());
    assert_eq!(
        storage.view_items(user.id).unwrap(),
        vec![
            ("funds".into(), 100 - 9 - 6 - 7),
            ("item1".into(), 10),
            ("item2".into(), 20)
        ]
    );
}

#[test]
fn test_sell_orders_positive_immediate() {
    sell_orders_positive(SellOrderType::Immediate);
}

#[test]
fn test_sell_orders_positive_auction() {
    sell_orders_positive(SellOrderType::Auction);
}

#[test]
fn test_execute_immediate_sell_order_err() {
    let mut storage = Storage::new();

    let seller = storage.login("seller").unwrap();
    assert!(storage.deposit(seller.id, "funds", 100).is_ok());
    assert!(storage.deposit(seller.id, "item1", 10).is_ok());
    assert!(storage
        .place_sell_order(
            SellOrderType::Immediate,
            seller.id,
            "item1",
            7,
            10,
            EXPIRATION_TIME
        )
        .is_ok());
    assert!(storage
        .place_sell_order(
            SellOrderType::Auction,
            seller.id,
            "item1",
            3,
            11,
            EXPIRATION_TIME
        )
        .is_ok());

    assert_eq!(
        storage.view_sell_orders().unwrap(),
        vec![
            SellOrder {
                id: 1,
                seller_name: "seller".into(),
                item_name: "item1".into(),
                quantity: 7,
                price: 10,
                expiration_time: "2021-01-01 00:00:00".into(),
                order_type: SellOrderType::Immediate,
            },
            SellOrder {
                id: 2,
                seller_name: "seller".into(),
                item_name: "item1".into(),
                quantity: 3,
                price: 11,
                expiration_time: "2021-01-01 00:00:00".into(),
                order_type: SellOrderType::Auction,
            }
        ]
    );

    // You can't buy your own items
    assert!(!storage.execute_immediate_sell_order(seller.id, 1).is_ok());

    let buyer = storage.login("buyer").unwrap();

    // try to buy non-existing sell order
    assert!(!storage.execute_immediate_sell_order(buyer.id, 100).is_ok());

    // try to buy from non-existing user
    assert!(!storage.execute_immediate_sell_order(UserId(100), 1).is_ok());

    // try to buy without enough funds
    assert!(!storage.execute_immediate_sell_order(buyer.id, 1).is_ok());

    // try to buy auction order with not enough funds
    assert!(!storage.execute_immediate_sell_order(buyer.id, 2).is_ok());

    // repeat with funds
    assert!(storage.deposit(buyer.id, "funds", 100).is_ok());

    // still can't buy auction order
    assert!(!storage.execute_immediate_sell_order(buyer.id, 2).is_ok());

    // while immediate order should be bought
    assert!(storage.execute_immediate_sell_order(buyer.id, 1).is_ok());
}

#[test]
fn test_execute_immediate_sell_order_ok() {
    let mut storage = Storage::new();

    let seller = storage.login("seller").unwrap();
    assert!(storage.deposit(seller.id, "funds", 100).is_ok());
    assert!(storage.deposit(seller.id, "item1", 10).is_ok());
    assert!(storage.deposit(seller.id, "item2", 20).is_ok());
    assert_eq!(
        storage.view_items(seller.id).unwrap(),
        vec![
            ("funds".into(), 100),
            ("item1".into(), 10),
            ("item2".into(), 20),
        ]
    );

    assert!(storage
        .place_sell_order(
            SellOrderType::Immediate,
            seller.id,
            "item1",
            2,
            2,
            EXPIRATION_TIME + 1
        )
        .is_ok());

    // sell fee is (5% + 1)
    assert_eq!(
        storage.view_items(seller.id).unwrap(),
        vec![
            ("funds".into(), 99),
            ("item1".into(), 8),
            ("item2".into(), 20),
        ]
    );

    assert!(storage
        .place_sell_order(
            SellOrderType::Immediate,
            seller.id,
            "item1",
            3,
            3,
            EXPIRATION_TIME + 2
        )
        .is_ok());
    assert!(storage
        .place_sell_order(
            SellOrderType::Immediate,
            seller.id,
            "item1",
            4,
            4,
            EXPIRATION_TIME + 3
        )
        .is_ok());
    assert!(storage
        .place_sell_order(
            SellOrderType::Immediate,
            seller.id,
            "item1",
            1,
            4,
            EXPIRATION_TIME + 4
        )
        .is_ok());

    assert!(storage
        .place_sell_order(
            SellOrderType::Immediate,
            seller.id,
            "item2",
            5,
            5,
            EXPIRATION_TIME + 5
        )
        .is_ok());
    assert!(storage
        .place_sell_order(
            SellOrderType::Immediate,
            seller.id,
            "item2",
            10,
            10,
            EXPIRATION_TIME + 6
        )
        .is_ok());
    assert!(storage
        .place_sell_order(
            SellOrderType::Immediate,
            seller.id,
            "item2",
            5,
            15,
            EXPIRATION_TIME + 7
        )
        .is_ok());

    assert_eq!(
        storage.view_items(seller.id).unwrap(),
        vec![("funds".into(), 93)]
    );

    let buyer = storage.login("buyer").unwrap();
    assert!(storage.deposit(buyer.id, "funds", 20).is_ok());
    // 1 item1 for 4 funds
    assert!(storage.execute_immediate_sell_order(buyer.id, 4).is_ok());

    // check items and funds
    assert_eq!(
        storage.view_items(buyer.id).unwrap(),
        vec![("funds".into(), 16), ("item1".into(), 1)]
    );
    assert_eq!(
        storage.view_items(seller.id).unwrap(),
        vec![("funds".into(), 97)]
    );

    assert!(storage
        .process_expired_sell_orders(EXPIRATION_TIME + 4)
        .is_ok());

    // try to buy expired order
    assert!(!storage.execute_immediate_sell_order(buyer.id, 3).is_ok());

    // check items and funds
    assert_eq!(
        storage.view_items(buyer.id).unwrap(),
        vec![("funds".into(), 16), ("item1".into(), 1)]
    );

    assert_eq!(
        storage.view_items(seller.id).unwrap(),
        vec![("funds".into(), 97), ("item1".into(), 9)]
    );

    // buy the rest
    assert!(storage.execute_immediate_sell_order(buyer.id, 5).is_ok());
    assert!(storage.execute_immediate_sell_order(buyer.id, 6).is_ok());
    // not enough money
    assert!(!storage.execute_immediate_sell_order(buyer.id, 7).is_ok());

    // check items and funds
    assert_eq!(
        storage.view_items(buyer.id).unwrap(),
        vec![
            ("funds".into(), 1),
            ("item1".into(), 1),
            ("item2".into(), 15)
        ]
    );
    assert_eq!(
        storage.view_items(seller.id).unwrap(),
        vec![("funds".into(), 97 + 15), ("item1".into(), 9)]
    );

    // check remaining orders
    assert_eq!(
        storage.view_sell_orders().unwrap(),
        vec![SellOrder {
            id: 7,
            seller_name: "seller".into(),
            item_name: "item2".into(),
            quantity: 5,
            price: 15,
            expiration_time: "2021-01-01 00:00:07".into(),
            order_type: SellOrderType::Immediate,
        }]
    );
}

#[test]
fn test_place_a_bid() {
    let mut storage = Storage::new();

    let seller = storage.login("seller").unwrap();
    assert!(storage.deposit(seller.id, "funds", 100).is_ok());
    assert!(storage.deposit(seller.id, "item1", 10).is_ok());
    assert!(storage.deposit(seller.id, "item2", 20).is_ok());
    assert_eq!(
        storage.view_items(seller.id).unwrap(),
        vec![
            ("funds".into(), 100),
            ("item1".into(), 10),
            ("item2".into(), 20),
        ]
    );
    assert!(storage
        .place_sell_order(
            SellOrderType::Immediate,
            seller.id,
            "item1",
            7,
            10,
            EXPIRATION_TIME
        )
        .is_ok());
    assert!(storage
        .place_sell_order(
            SellOrderType::Auction,
            seller.id,
            "item1",
            3,
            11,
            EXPIRATION_TIME
        )
        .is_ok());
    assert!(storage
        .place_sell_order(
            SellOrderType::Auction,
            seller.id,
            "item2",
            1,
            20,
            EXPIRATION_TIME
        )
        .is_ok());
    assert!(storage
        .place_sell_order(
            SellOrderType::Auction,
            seller.id,
            "item2",
            2,
            45,
            EXPIRATION_TIME
        )
        .is_ok());
    assert!(storage
        .place_sell_order(
            SellOrderType::Auction,
            seller.id,
            "item2",
            2,
            50,
            EXPIRATION_TIME
        )
        .is_ok());

    // check orders
    assert_eq!(
        storage.view_sell_orders().unwrap(),
        vec![
            SellOrder {
                id: 1,
                seller_name: "seller".into(),
                item_name: "item1".into(),
                quantity: 7,
                price: 10,
                expiration_time: "2021-01-01 00:00:00".into(),
                order_type: SellOrderType::Immediate,
            },
            SellOrder {
                id: 2,
                seller_name: "seller".into(),
                item_name: "item1".into(),
                quantity: 3,
                price: 11,
                expiration_time: "2021-01-01 00:00:00".into(),
                order_type: SellOrderType::Auction,
            },
            SellOrder {
                id: 3,
                seller_name: "seller".into(),
                item_name: "item2".into(),
                quantity: 1,
                price: 20,
                expiration_time: "2021-01-01 00:00:00".into(),
                order_type: SellOrderType::Auction,
            },
            SellOrder {
                id: 4,
                seller_name: "seller".into(),
                item_name: "item2".into(),
                quantity: 2,
                price: 45,
                expiration_time: "2021-01-01 00:00:00".into(),
                order_type: SellOrderType::Auction,
            },
            SellOrder {
                id: 5,
                seller_name: "seller".into(),
                item_name: "item2".into(),
                quantity: 2,
                price: 50,
                expiration_time: "2021-01-01 00:00:00".into(),
                order_type: SellOrderType::Auction,
            }
        ]
    );

    // You can't can't place a bid on your own items
    assert!(!storage
        .place_bid_on_auction_sell_order(seller.id, 2, 20)
        .is_ok());

    let buyer = storage.login("buyer").unwrap();

    // can't place a bid on non-existing sell order
    assert!(!storage
        .place_bid_on_auction_sell_order(buyer.id, 100, 20)
        .is_ok());

    // can't place a bid from non-existing user
    assert!(!storage
        .place_bid_on_auction_sell_order(UserId(100), 2, 20)
        .is_ok());

    // can't place a bid without enough funds
    assert!(!storage
        .place_bid_on_auction_sell_order(buyer.id, 20, 20)
        .is_ok());

    // can't place a bid on auction order with not enough funds
    assert!(!storage
        .place_bid_on_auction_sell_order(buyer.id, 1, 20)
        .is_ok());

    // repeat with funds
    assert!(storage.deposit(buyer.id, "funds", 100).is_ok());

    // still can't place a bid on immediate order
    assert!(!storage
        .place_bid_on_auction_sell_order(buyer.id, 1, 20)
        .is_ok());

    // while it is possible to place a bid on auction order
    assert!(storage
        .place_bid_on_auction_sell_order(buyer.id, 2, 20)
        .is_ok());

    assert_eq!(
        storage.view_items(buyer.id).unwrap(),
        vec![("funds".into(), 80)]
    );

    // check that bid is placed
    assert_eq!(
        storage.view_sell_orders().unwrap(),
        vec![
            SellOrder {
                id: 1,
                seller_name: "seller".into(),
                item_name: "item1".into(),
                quantity: 7,
                price: 10,
                expiration_time: "2021-01-01 00:00:00".into(),
                order_type: SellOrderType::Immediate,
            },
            SellOrder {
                id: 2,
                seller_name: "seller".into(),
                item_name: "item1".into(),
                quantity: 3,
                price: 20, // a bid was made!
                expiration_time: "2021-01-01 00:00:00".into(),
                order_type: SellOrderType::Auction,
            },
            SellOrder {
                id: 3,
                seller_name: "seller".into(),
                item_name: "item2".into(),
                quantity: 1,
                price: 20,
                expiration_time: "2021-01-01 00:00:00".into(),
                order_type: SellOrderType::Auction,
            },
            SellOrder {
                id: 4,
                seller_name: "seller".into(),
                item_name: "item2".into(),
                quantity: 2,
                price: 45,
                expiration_time: "2021-01-01 00:00:00".into(),
                order_type: SellOrderType::Auction,
            },
            SellOrder {
                id: 5,
                seller_name: "seller".into(),
                item_name: "item2".into(),
                quantity: 2,
                price: 50,
                expiration_time: "2021-01-01 00:00:00".into(),
                order_type: SellOrderType::Auction,
            }
        ]
    );

    // but you can't repeat a bid
    assert!(!storage
        .place_bid_on_auction_sell_order(buyer.id, 2, 20)
        .is_ok());

    let another_buyer = storage.login("another buyer").unwrap();
    assert!(storage.deposit(another_buyer.id, "funds", 100).is_ok());

    // and you can't lower previous bid
    assert!(!storage
        .place_bid_on_auction_sell_order(another_buyer.id, 2, 19)
        .is_ok());

    // but you can increase it, but not greater than funds allow
    assert!(!storage
        .place_bid_on_auction_sell_order(another_buyer.id, 2, 121)
        .is_ok());
    assert!(storage
        .place_bid_on_auction_sell_order(another_buyer.id, 2, 21)
        .is_ok());

    assert!(storage
        .place_bid_on_auction_sell_order(another_buyer.id, 3, 25)
        .is_ok());
    assert!(storage
        .place_bid_on_auction_sell_order(another_buyer.id, 4, 50)
        .is_ok());

    assert!(storage
        .place_bid_on_auction_sell_order(buyer.id, 3, 27)
        .is_ok());

    assert_eq!(
        storage.view_items(seller.id).unwrap(),
        vec![("funds".into(), 90), ("item2".into(), 20 - 1 - 2 - 2)]
    );
    assert_eq!(
        storage.view_items(buyer.id).unwrap(),
        vec![("funds".into(), 100 - 27)]
    );
    assert_eq!(
        storage.view_items(another_buyer.id).unwrap(),
        vec![("funds".into(), 100 - 21 - 50)]
    );

    // and finally process expired orders - make them real
    assert!(storage
        .process_expired_sell_orders(EXPIRATION_TIME + 1)
        .is_ok());
    assert_eq!(
        storage.view_items(seller.id).unwrap(),
        vec![
            ("funds".into(), 90 + 27 + 21 + 50),
            ("item1".into(), 7),
            ("item2".into(), 20 - 5 + 2)
        ]
    );
    assert_eq!(
        storage.view_items(buyer.id).unwrap(),
        vec![("funds".into(), 100 - 27), ("item2".into(), 1),]
    );
    assert_eq!(
        storage.view_items(another_buyer.id).unwrap(),
        vec![
            ("funds".into(), 100 - 21 - 50),
            ("item1".into(), 3),
            ("item2".into(), 2)
        ]
    );
}
