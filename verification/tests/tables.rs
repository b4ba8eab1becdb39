use auction_house::holdings::{Holding, Holdings};
use auction_house::names::NameTable;
use auction_house::storage::Storage;
use auction_house::tables::{
    check_orders, journal_mode_accepted, load_holdings, load_names, NameRow,
};
use auction_house::types::{SellOrderRow, SellOrderType};

fn rows(names: &[&str]) -> Vec<NameRow> {
    names
        .iter()
        .enumerate()
        .map(|(i, name)| NameRow {
            id: i as i64 + 1,
            name: name.to_string(),
        })
        .collect()
}

fn holding(user_id: i64, item_id: i64, quantity: i64) -> Holding {
    Holding {
        user_id,
        item_id,
        quantity,
    }
}

fn order(id: i64, buyer_id: Option<i64>) -> SellOrderRow {
    SellOrderRow {
        id,
        seller_id: 1,
        item_id: 2,
        quantity: 3,
        price: 4,
        expiration_time: 5,
        buyer_id,
    }
}

#[test]
fn a_store_comes_back_from_its_own_tables() {
    let mut storage = Storage::new();
    let ann = storage.login("ann").unwrap().id;
    let bob = storage.login("bob").unwrap().id;
    storage.deposit(ann, "funds", 100).unwrap();
    storage.deposit(ann, "gem", 10).unwrap();
    storage.deposit(bob, "funds", 100).unwrap();
    storage
        .place_sell_order(SellOrderType::Immediate, ann, "gem", 1, 10, 7)
        .unwrap();
    storage
        .place_sell_order(SellOrderType::Auction, ann, "gem", 2, 10, 8)
        .unwrap();
    storage.execute_immediate_sell_order(bob, 1).unwrap();
    storage.place_bid_on_auction_sell_order(bob, 2, 30).unwrap();

    let mut copy = Storage::from_tables(
        storage.user_rows(),
        storage.item_rows(),
        storage.holding_rows(),
        storage.order_rows(),
        storage.last_order_id(),
    )
    .unwrap();
    assert_eq!(copy.user_rows(), storage.user_rows());
    assert_eq!(copy.item_rows(), storage.item_rows());
    assert_eq!(copy.item_rows(), rows(&["funds", "gem"]));
    assert_eq!(copy.holding_rows(), storage.holding_rows());
    assert_eq!(copy.order_rows(), storage.order_rows());
    assert_eq!(copy.last_order_id(), 2);

    assert_eq!(copy.login("bob").unwrap().id, bob);
    assert_eq!(copy.login("cid").unwrap().id.0, 3);
    copy.process_expired_sell_orders(8).unwrap();
    assert_eq!(
        copy.view_items(bob).unwrap(),
        vec![("funds".to_string(), 60), ("gem".to_string(), 3)]
    );
    copy.deposit(ann, "gem", 1).unwrap();
    copy.place_sell_order(SellOrderType::Auction, ann, "gem", 1, 1, 9)
        .unwrap();
    assert_eq!(copy.order_rows()[0].id, 3);
}

#[test]
fn a_fresh_store_comes_back_from_its_own_tables() {
    let storage = Storage::new();
    assert_eq!(storage.item_rows(), rows(&["funds"]));
    assert_eq!(storage.user_rows(), vec![]);
    assert_eq!(storage.holding_rows(), vec![]);
    assert_eq!(storage.order_rows(), vec![]);
    assert_eq!(storage.last_order_id(), 0);
    assert!(Storage::from_tables(vec![], rows(&["funds"]), vec![], vec![], 0).is_some());
}

#[test]
fn tables_that_are_no_valid_state_are_refused() {
    let users = || rows(&["ann", "bob"]);
    let items = || rows(&["funds", "gem"]);
    let holdings = || vec![holding(1, 1, 0), holding(1, 2, 5), holding(2, 1, 9)];
    let build = |u, i, h, o, last| Storage::from_tables(u, i, h, o, last).is_some();
    assert!(build(users(), items(), holdings(), vec![order(3, None)], 3));
    assert!(build(users(), items(), holdings(), vec![order(3, Some(2))], 9));

    // no currency, or not as the first item
    assert!(!build(users(), vec![], vec![], vec![], 0));
    assert!(!build(users(), rows(&["gem", "funds"]), holdings(), vec![], 0));
    // ids that do not count from one
    let mut shifted = users();
    shifted[1].id = 3;
    assert!(!build(shifted, items(), holdings(), vec![], 0));
    // a name twice, an empty name
    assert!(!build(rows(&["ann", "ann"]), items(), holdings(), vec![], 0));
    assert!(!build(rows(&["ann", ""]), items(), holdings(), vec![], 0));
    assert!(!build(users(), rows(&["funds", "funds"]), holdings(), vec![], 0));
    // holdings out of order, twice, negative, empty, of nobody, of nothing
    assert!(!build(
        users(),
        items(),
        vec![holding(1, 2, 5), holding(1, 1, 0), holding(2, 1, 9)],
        vec![],
        0
    ));
    assert!(!build(
        users(),
        items(),
        vec![holding(1, 1, 0), holding(1, 1, 0), holding(2, 1, 9)],
        vec![],
        0
    ));
    assert!(!build(
        users(),
        items(),
        vec![holding(1, 1, -1), holding(2, 1, 9)],
        vec![],
        0
    ));
    assert!(!build(
        users(),
        items(),
        vec![holding(1, 1, 0), holding(1, 2, 0), holding(2, 1, 9)],
        vec![],
        0
    ));
    assert!(!build(
        users(),
        items(),
        vec![holding(1, 1, 0), holding(2, 1, 9), holding(3, 1, 9)],
        vec![],
        0
    ));
    assert!(!build(
        users(),
        items(),
        vec![holding(1, 1, 0), holding(1, 3, 1), holding(2, 1, 9)],
        vec![],
        0
    ));
    // a user without a row of the currency
    assert!(!build(users(), items(), vec![holding(1, 1, 0)], vec![], 0));
    assert!(!build(
        users(),
        items(),
        vec![holding(1, 1, 0), holding(2, 2, 4)],
        vec![],
        0
    ));
    // orders
    assert!(!build(users(), items(), holdings(), vec![order(3, None)], 2));
    assert!(!build(users(), items(), holdings(), vec![], -1));
    assert!(!build(users(), items(), holdings(), vec![order(0, None)], 3));
    assert!(!build(users(), items(), holdings(), vec![order(3, Some(3))], 3));
    assert!(!build(
        users(),
        items(),
        holdings(),
        vec![order(2, None), order(2, None)],
        3
    ));
    assert!(!build(
        users(),
        items(),
        holdings(),
        vec![order(3, None), order(2, None)],
        3
    ));
    for broken in [
        SellOrderRow {
            quantity: 0,
            ..order(1, None)
        },
        SellOrderRow {
            price: 0,
            ..order(1, None)
        },
        SellOrderRow {
            seller_id: 3,
            ..order(1, None)
        },
        SellOrderRow {
            item_id: 1,
            ..order(1, None)
        },
        SellOrderRow {
            item_id: 3,
            ..order(1, None)
        },
    ] {
        assert!(!build(users(), items(), holdings(), vec![broken], 3));
    }
}

#[test]
fn the_parts_of_the_check() {
    let table: NameTable = load_names(&rows(&["ann", "bob"])).unwrap();
    assert_eq!(table.find("bob"), Some(2));
    assert_eq!(table.find("cid"), None);
    assert_eq!(table.names(), vec!["ann", "bob"]);
    assert!(load_names(&rows(&["ann", "bob", "ann"])).is_none());

    let table: Holdings = load_holdings(vec![holding(1, 1, 0), holding(1, 2, 5)], 1, 2).unwrap();
    assert_eq!(table.get(1, 2), Some(5));
    assert_eq!(table.get(1, 3), None);
    assert_eq!(table.get(2, 1), None);
    assert!(load_holdings(vec![holding(1, 2, 5)], 1, 2).is_none());
    assert!(load_holdings(vec![], 0, 0).is_some());

    assert!(check_orders(&vec![order(1, None), order(5, Some(1))], 1, 2, 5));
    assert!(!check_orders(&vec![order(1, None), order(5, Some(1))], 1, 2, 4));
    assert!(!check_orders(&vec![order(1, None)], 0, 2, 5));
    assert!(check_orders(&vec![], 0, 0, 0));
}

#[test]
fn holdings_table_keeps_rows_in_key_order() {
    let mut table = Holdings::new();
    table.put(2, 1, 5);
    table.put(1, 3, 7);
    table.put(1, 1, 9);
    table.put(2, 1, 6);
    assert_eq!(
        table.to_rows(),
        vec![holding(1, 1, 9), holding(1, 3, 7), holding(2, 1, 6)]
    );
    assert_eq!(table.len(), 3);
    assert_eq!(table.row(1), holding(1, 3, 7));
    assert_eq!(table.start_of(1), 0);
    assert_eq!(table.start_of(2), 2);
    assert_eq!(table.start_of(3), 3);
    table.delete(1, 3);
    table.delete(1, 2);
    assert_eq!(table.to_rows(), vec![holding(1, 1, 9), holding(2, 1, 6)]);
    assert_eq!(table.snapshot().to_rows(), table.to_rows());
    assert_eq!(table.get(2, 1), Some(6));
    assert_eq!(table.get(1, 3), None);
}

#[test]
fn write_ahead_logging_is_required_but_in_memory() {
    assert!(journal_mode_accepted("wal", "db.sqlite"));
    assert!(journal_mode_accepted("wal", ":memory:"));
    assert!(journal_mode_accepted("memory", ":memory:"));
    assert!(!journal_mode_accepted("memory", "db.sqlite"));
    assert!(!journal_mode_accepted("delete", "memory"));
    assert!(!journal_mode_accepted("WAL", "db.sqlite"));
}
