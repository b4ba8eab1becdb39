use auction_house::storage::Storage;
use auction_house::types::{User, UserId};

#[test]
fn login() {
    let mut storage = Storage::new();

    for _ in 0..3 {
        assert_eq!(
            storage.login("test1").unwrap(),
            User {
                id: UserId(1),
                username: "test1".into()
            }
        );
        assert_eq!(
            storage.login("test2").unwrap(),
            User {
                id: UserId(2),
                username: "test2".into()
            }
        );
        assert_eq!(
            storage.login("test3").unwrap(),
            User {
                id: UserId(3),
                username: "test3".into()
            }
        );
    }

    assert_eq!(
        storage.login("").unwrap_err().to_string(),
        "Username cannot be empty"
    );
}

#[test]
fn funds() {
    let mut storage = Storage::new();

    // freshly created user always has 0 funds
    let user1 = storage.login("user1").unwrap();
    assert_eq!(
        storage.view_items(user1.id).unwrap(),
        vec![("funds".into(), 0)]
    );

    assert!(storage.deposit(user1.id, "funds", 10).is_ok());
    assert_eq!(
        storage.view_items(user1.id).unwrap(),
        vec![("funds".into(), 10)]
    );

    assert!(storage.withdraw(user1.id, "funds", 7).is_ok());
    assert_eq!(
        storage.view_items(user1.id).unwrap(),
        vec![("funds".into(), 3)]
    );

    // Withdraw all funds doesn't remove the record
    assert!(storage.withdraw(user1.id, "funds", 3).is_ok());
    assert_eq!(
        storage.view_items(user1.id).unwrap(),
        vec![("funds".into(), 0)]
    );

    assert!(storage.deposit(user1.id, "funds", 3).is_ok());

    // get_or_create_user should not create new funds
    let user = storage.login("user1").unwrap();
    assert_eq!(
        storage.view_items(user.id).unwrap(),
        vec![("funds".into(), 3)]
    );

    // Withdraw more than we have
    assert!(!storage.withdraw(user.id, "funds", 10).is_ok());
    // Deposit negative amount
    assert!(!storage.deposit(user.id, "funds", -10).is_ok());
    // Withdraw negative amount
    assert!(!storage.withdraw(user.id, "funds", -10).is_ok());
    // Deposit zero
    assert!(!storage.deposit(user.id, "funds", 0).is_ok());
    // Withdraw zero
    assert!(!storage.withdraw(user.id, "funds", 0).is_ok());
    // Nothing should change
    assert_eq!(
        storage.view_items(user.id).unwrap(),
        vec![("funds".into(), 3)]
    );

    // deposit to non-existing user
    assert!(!storage.deposit(UserId(100), "funds", 10).is_ok());
    assert!(!storage.withdraw(UserId(100), "funds", 10).is_ok());

    // and check that we can deposit and withdraw from different users
    let user2 = storage.login("user2").unwrap();
    assert!(storage.deposit(user2.id, "funds", 20).is_ok());

    let user3 = storage.login("user3").unwrap();
    assert!(storage.deposit(user3.id, "funds", 30).is_ok());

    let user1 = storage.login("user1").unwrap();
    assert_eq!(
        storage.view_items(user1.id).unwrap(),
        vec![("funds".into(), 3)]
    );

    let user2 = storage.login("user2").unwrap();
    assert_eq!(
        storage.view_items(user2.id).unwrap(),
        vec![("funds".into(), 20)]
    );

    let user3 = storage.login("user3").unwrap();
    assert_eq!(
        storage.view_items(user3.id).unwrap(),
        vec![("funds".into(), 30)]
    );

    // Big numbers also are ok
    assert!(storage.deposit(user1.id, "funds", 100500).is_ok());
    assert!(storage.withdraw(user1.id, "funds", 100400).is_ok());
}

#[test]
fn items() {
    let mut storage = Storage::new();

    let user = storage.login("user1").unwrap();
    // freshly created user always has 0 items
    assert_eq!(
        storage.view_items(user.id).unwrap(),
        vec![("funds".into(), 0)]
    );

    assert!(storage.deposit(user.id, "item1", 10).is_ok());
    assert_eq!(
        storage.view_items(user.id).unwrap(),
        vec![("funds".into(), 0), ("item1".into(), 10)]
    );

    assert!(storage.deposit(user.id, "item2", 20).is_ok());
    assert_eq!(
        storage.view_items(user.id).unwrap(),
        vec![
            ("funds".into(), 0),
            ("item1".into(), 10),
            ("item2".into(), 20)
        ]
    );

    assert!(storage.withdraw(user.id, "item1", 5).is_ok());
    assert_eq!(
        storage.view_items(user.id).unwrap(),
        vec![
            ("funds".into(), 0),
            ("item1".into(), 5),
            ("item2".into(), 20)
        ]
    );

    assert!(storage.withdraw(user.id, "item2", 10).is_ok());
    assert_eq!(
        storage.view_items(user.id).unwrap(),
        vec![
            ("funds".into(), 0),
            ("item1".into(), 5),
            ("item2".into(), 10)
        ]
    );

    // withdraw to zero should remove the record
    assert!(storage.withdraw(user.id, "item1", 5).is_ok());
    assert_eq!(
        storage.view_items(user.id).unwrap(),
        vec![("funds".into(), 0), ("item2".into(), 10)]
    );

    // login with the same username should return the same user with the same items
    let user = storage.login("user1").unwrap();
    assert_eq!(
        storage.view_items(user.id).unwrap(),
        vec![("funds".into(), 0), ("item2".into(), 10)]
    );

    // Withdraw more than we have
    assert!(!storage.withdraw(user.id, "item2", 20).is_ok());

    // Negative quantity
    assert!(!storage.deposit(user.id, "item2", -10).is_ok());
    assert!(!storage.withdraw(user.id, "item2", -10).is_ok());

    // Zero quantity
    assert!(!storage.deposit(user.id, "item2", 0).is_ok());
    assert!(!storage.withdraw(user.id, "item2", 0).is_ok());

    // empty item name
    assert!(!storage.deposit(user.id, "", 10).is_ok());
    assert!(!storage.withdraw(user.id, "", 10).is_ok());

    // Nothing should change
    assert_eq!(
        storage.view_items(user.id).unwrap(),
        vec![("funds".into(), 0), ("item2".into(), 10)]
    );

    // deposit to non-existing user
    assert!(!storage.deposit(UserId(100), "item1", 10).is_ok());
    assert!(!storage.withdraw(UserId(100), "item1", 10).is_ok());
}
