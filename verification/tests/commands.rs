use auction_house::commands::{
    parse_buy_order, parse_item_name_and_quantity, parse_sell_order, split_request, try_login,
    CommandsProcessor,
};
use auction_house::errors::{ErrorKind, StorageError};
use auction_house::replies::{
    items_reply, logged_in, response_text, sell_orders_reply, CommandError, GREETING,
    HELP_MESSAGE,
};
use auction_house::storage::Storage;
use auction_house::text::ParseFailure;
use auction_house::types::{SellOrder, SellOrderType, UserId};

const NOW: i64 = 1609459200 - 300;

fn session(storage: &mut Storage, name: &str) -> CommandsProcessor {
    CommandsProcessor::new(storage.login(name).unwrap())
}

fn ask(processor: &CommandsProcessor, storage: &mut Storage, request: &str) -> String {
    response_text(processor.process_request(storage, request, NOW))
}

#[test]
fn test_parse_item_name_and_quantity() {
    assert_eq!(parse_item_name_and_quantity("arrow 5"), ("arrow", 5));
    assert_eq!(
        parse_item_name_and_quantity("holy sword 1"),
        ("holy sword", 1)
    );
    assert_eq!(parse_item_name_and_quantity("arrow"), ("arrow", 1));
    assert_eq!(
        parse_item_name_and_quantity("holy sword"),
        ("holy sword", 1)
    );
    assert_eq!(parse_item_name_and_quantity(""), ("", 1));
}

#[test]
fn parse_item_name_and_quantity_edge_cases() {
    assert_eq!(parse_item_name_and_quantity("arrow -5"), ("arrow", -5));
    assert_eq!(parse_item_name_and_quantity("arrow +5"), ("arrow", 5));
    assert_eq!(parse_item_name_and_quantity("arrow 5 "), ("arrow 5 ", 1));
    assert_eq!(parse_item_name_and_quantity(" 5"), ("", 5));
    assert_eq!(parse_item_name_and_quantity("5"), ("5", 1));
    assert_eq!(parse_item_name_and_quantity("a  5"), ("a ", 5));
    assert_eq!(
        parse_item_name_and_quantity("arrow 9223372036854775808"),
        ("arrow 9223372036854775808", 1)
    );
    assert_eq!(parse_item_name_and_quantity("épée 2"), ("épée", 2));
}

#[test]
fn parse_sell_order_reads_type_name_quantity_and_price() {
    assert_eq!(
        parse_sell_order("arrow 5 10"),
        Some((SellOrderType::Immediate, "arrow".to_string(), 5, 10))
    );
    assert_eq!(
        parse_sell_order("holy sword 1 100"),
        Some((SellOrderType::Immediate, "holy sword".to_string(), 1, 100))
    );
    assert_eq!(
        parse_sell_order("arrow 10"),
        Some((SellOrderType::Immediate, "arrow".to_string(), 1, 10))
    );
    assert_eq!(
        parse_sell_order("immediate arrow 10 5"),
        Some((SellOrderType::Immediate, "arrow".to_string(), 10, 5))
    );
    assert_eq!(
        parse_sell_order("auction arrow 10 5"),
        Some((SellOrderType::Auction, "arrow".to_string(), 10, 5))
    );
    assert_eq!(
        parse_sell_order("auction holy sword 7"),
        Some((SellOrderType::Auction, "holy sword".to_string(), 1, 7))
    );
}

#[test]
fn parse_sell_order_takes_a_misspelt_type_for_a_name() {
    assert_eq!(
        parse_sell_order("immidiate arrow 10 5"),
        Some((SellOrderType::Immediate, "immidiate arrow".to_string(), 10, 5))
    );
    assert_eq!(
        parse_sell_order("Auction arrow 5"),
        Some((SellOrderType::Immediate, "Auction arrow".to_string(), 1, 5))
    );
}

#[test]
fn parse_sell_order_needs_a_price() {
    assert_eq!(parse_sell_order(""), None);
    assert_eq!(parse_sell_order("arrow"), None);
    assert_eq!(parse_sell_order("10"), None);
    assert_eq!(parse_sell_order("arrow ten"), None);
    assert_eq!(parse_sell_order("auction 10"), None);
    assert_eq!(parse_sell_order("arrow 10 "), None);
    assert_eq!(
        parse_sell_order("auction  10"),
        Some((SellOrderType::Auction, "".to_string(), 1, 10))
    );
    assert_eq!(
        parse_sell_order("auction"),
        None
    );
}

#[test]
fn parse_buy_order_reads_id_and_bid() {
    assert_eq!(parse_buy_order("7"), Ok((7, None)));
    assert_eq!(parse_buy_order("7 20"), Ok((7, Some(20))));
    assert_eq!(parse_buy_order("-7 -20"), Ok((-7, Some(-20))));
    assert_eq!(parse_buy_order(""), Err(ParseFailure::Empty));
    assert_eq!(parse_buy_order("seven"), Err(ParseFailure::InvalidDigit));
    assert_eq!(parse_buy_order("7 twenty"), Err(ParseFailure::InvalidDigit));
    assert_eq!(parse_buy_order("1 2 3"), Err(ParseFailure::InvalidDigit));
    assert_eq!(parse_buy_order(" 3"), Err(ParseFailure::Empty));
    assert_eq!(
        parse_buy_order("9223372036854775808"),
        Err(ParseFailure::TooLarge)
    );
    assert_eq!(
        parse_buy_order("-9223372036854775809 1"),
        Err(ParseFailure::TooSmall)
    );
}

#[test]
fn split_request_gives_command_and_trimmed_arguments() {
    assert_eq!(split_request("ping"), ("ping", ""));
    assert_eq!(split_request("deposit arrow 5"), ("deposit", "arrow 5"));
    assert_eq!(split_request("deposit   arrow 5  \n"), ("deposit", "arrow 5"));
    assert_eq!(split_request("deposit "), ("deposit", ""));
    assert_eq!(split_request(" deposit"), ("", "deposit"));
    assert_eq!(split_request(""), ("", ""));
    assert_eq!(split_request("ping\n"), ("ping\n", ""));
}

#[test]
fn requests_without_state() {
    let mut storage = Storage::new();
    let hero = session(&mut storage, "hero");
    assert_eq!(ask(&hero, &mut storage, "ping"), "pong");
    assert_eq!(ask(&hero, &mut storage, "ping me"), "pong");
    assert_eq!(ask(&hero, &mut storage, "whoami"), "hero");
    assert_eq!(ask(&hero, &mut storage, "help"), HELP_MESSAGE);
    assert_eq!(
        ask(&hero, &mut storage, "dance"),
        "Failed to process request: Unknown command 'dance'"
    );
    assert_eq!(
        ask(&hero, &mut storage, ""),
        "Failed to process request: Unknown command ''"
    );
    assert_eq!(
        ask(&hero, &mut storage, "Ping"),
        "Failed to process request: Unknown command 'Ping'"
    );
    assert_eq!(
        hero.process_request(&mut storage, "dance now", NOW),
        Err(CommandError::UnknownCommand {
            command: "dance".to_string()
        })
    );
}

#[test]
fn deposit_and_withdraw_requests() {
    let mut storage = Storage::new();
    let hero = session(&mut storage, "hero");
    assert_eq!(
        ask(&hero, &mut storage, "deposit funds 100"),
        "Successfully deposited 100 funds(s)"
    );
    assert_eq!(
        ask(&hero, &mut storage, "deposit holy sword"),
        "Successfully deposited 1 holy sword(s)"
    );
    assert_eq!(
        ask(&hero, &mut storage, "view_items"),
        "Items: [(\"funds\", 100), (\"holy sword\", 1)]"
    );
    assert_eq!(
        ask(&hero, &mut storage, "withdraw funds 40"),
        "Successfully withdrawed 40 funds(s)"
    );
    assert_eq!(
        ask(&hero, &mut storage, "withdraw holy sword 1"),
        "Successfully withdrawed 1 holy sword(s)"
    );
    assert_eq!(
        ask(&hero, &mut storage, "view_items"),
        "Items: [(\"funds\", 60)]"
    );
    assert_eq!(
        ask(&hero, &mut storage, "deposit"),
        "Failed to process request: Argument is required. Format: 'deposit <item name> [<quantity>]'"
    );
    assert_eq!(
        ask(&hero, &mut storage, "withdraw  "),
        "Failed to process request: Argument is required. Format: 'withdraw <item name> [<quantity>]'"
    );
    assert_eq!(
        ask(&hero, &mut storage, "deposit arrow 0"),
        "Failed to process request: Failed to deposit 0 arrow(s): Quantity must be positive"
    );
    assert_eq!(
        ask(&hero, &mut storage, "deposit arrow -3"),
        "Failed to process request: Failed to deposit -3 arrow(s): Quantity must be positive"
    );
    assert_eq!(
        ask(&hero, &mut storage, "deposit shield 7 "),
        "Successfully deposited 7 shield(s)"
    );
    assert_eq!(
        ask(&hero, &mut storage, "withdraw arrow 5"),
        "Failed to process request: Failed to withdraw 5 arrow(s): Not enough arrow(s) to withdraw"
    );
    assert_eq!(
        ask(&hero, &mut storage, "withdraw funds 61"),
        "Failed to process request: Failed to withdraw 61 funds(s): Not enough funds(s) to withdraw"
    );
}

#[test]
fn view_items_quotes_names_as_debug_does() {
    let mut storage = Storage::new();
    let hero = session(&mut storage, "hero");
    assert_eq!(ask(&hero, &mut storage, "view_items"), "Items: [(\"funds\", 0)]");
    storage.deposit(hero.user.id, "say \"hi\"\\now", 2).unwrap();
    storage.deposit(hero.user.id, "tab\there", 3).unwrap();
    let items = storage.view_items(hero.user.id).unwrap();
    assert_eq!(
        ask(&hero, &mut storage, "view_items"),
        format!("Items: {:?}", items)
    );
    assert_eq!(
        ask(&hero, &mut storage, "view_items"),
        "Items: [(\"funds\", 0), (\"say \\\"hi\\\"\\\\now\", 2), (\"tab\\there\", 3)]"
    );
    assert_eq!(items_reply(&vec![]), "Items: []");
    assert_eq!(
        items_reply(&vec![("a".to_string(), -1)]),
        "Items: [(\"a\", -1)]"
    );
}

#[test]
fn sell_and_buy_requests() {
    let mut storage = Storage::new();
    let seller = session(&mut storage, "seller");
    let buyer = session(&mut storage, "buyer");
    ask(&seller, &mut storage, "deposit funds 100");
    ask(&seller, &mut storage, "deposit arrow 10");
    ask(&buyer, &mut storage, "deposit funds 100");

    assert_eq!(
        ask(&seller, &mut storage, "sell arrow 1 10"),
        "Successfully placed immediate sell order for 1 arrow(s)"
    );
    assert_eq!(
        ask(&seller, &mut storage, "sell auction arrow 3 20"),
        "Successfully placed auction sell order for 3 arrow(s)"
    );
    assert_eq!(
        ask(&seller, &mut storage, "view_sell_orders"),
        "Sell orders:\
        \n- #1: seller is selling 1 arrow(s) for 10 funds until 2021-01-01 00:00:00\
        \n- #2: seller is selling 3 arrow(s) for 20 funds on auction until 2021-01-01 00:00:00"
    );
    assert_eq!(
        ask(&seller, &mut storage, "sell arrow"),
        "Failed to process request: Unable to parse order. Expected: 'sell [immediate|auction] <item_name> [<quantity>] <price>'. Default type is 'immediate' and default quantity is 1"
    );
    assert_eq!(
        ask(&seller, &mut storage, "sell auction arrow 30 5"),
        "Failed to process request: Failed to place auction sell order for 30 arrow(s): Not enough arrow(s) to sell"
    );
    assert_eq!(
        ask(&seller, &mut storage, "sell funds 1 2"),
        "Failed to process request: Failed to place immediate sell order for 1 funds(s): Cannot sell funds for funds, it's a speculation!"
    );
    assert_eq!(
        ask(&seller, &mut storage, "sell arrow 1 2000"),
        "Failed to process request: Failed to place immediate sell order for 1 arrow(s): Not enough funds to pay 101 funds fee (which is 5% + 1)"
    );

    assert_eq!(
        ask(&buyer, &mut storage, "buy 1"),
        "Successfully executed immediate sell order #1"
    );
    assert_eq!(
        ask(&buyer, &mut storage, "buy 1"),
        "Failed to process request: Failed to executed immediate sell order #1: Immediate sell order #1 doesn't exist"
    );
    assert_eq!(
        ask(&buyer, &mut storage, "buy 2"),
        "Failed to process request: Failed to executed immediate sell order #2: Order #2 is not an immediate order"
    );
    assert_eq!(
        ask(&buyer, &mut storage, "buy 2 25"),
        "Successfully placed bid on sell order #2"
    );
    assert_eq!(
        ask(&buyer, &mut storage, "buy 2 25"),
        "Failed to process request: Failed to place bid on sell order #2: Bid must be higher than the current price"
    );
    assert_eq!(
        ask(&seller, &mut storage, "buy 2 30"),
        "Failed to process request: Failed to place bid on sell order #2: You can't buy your own items"
    );
    assert_eq!(
        ask(&buyer, &mut storage, "buy two"),
        "Failed to process request: Unable to parse sell order id: invalid digit found in string"
    );
    assert_eq!(
        ask(&buyer, &mut storage, "buy"),
        "Failed to process request: Unable to parse sell order id: cannot parse integer from empty string"
    );
    assert_eq!(
        ask(&buyer, &mut storage, "buy 99999999999999999999"),
        "Failed to process request: Unable to parse sell order id: number too large to fit in target type"
    );
    assert_eq!(
        ask(&buyer, &mut storage, "buy -99999999999999999999"),
        "Failed to process request: Unable to parse sell order id: number too small to fit in target type"
    );
    assert_eq!(
        ask(&buyer, &mut storage, "view_items"),
        "Items: [(\"funds\", 65), (\"arrow\", 1)]"
    );
    assert_eq!(
        ask(&seller, &mut storage, "view_sell_orders"),
        "Sell orders:\
        \n- #2: seller is selling 3 arrow(s) for 25 funds on auction until 2021-01-01 00:00:00"
    );
}

#[test]
fn sell_request_expires_five_minutes_later() {
    let mut storage = Storage::new();
    let seller = session(&mut storage, "seller");
    ask(&seller, &mut storage, "deposit funds 100");
    ask(&seller, &mut storage, "deposit arrow 10");
    seller
        .process_request(&mut storage, "sell arrow 5", 1000)
        .unwrap();
    seller
        .process_request(&mut storage, "sell arrow 5", i64::MAX - 299)
        .unwrap();
    seller
        .process_request(&mut storage, "sell arrow 5", i64::MAX - 300)
        .unwrap();
    let orders = storage.order_rows();
    assert_eq!(orders[0].expiration_time, 1300);
    assert_eq!(orders[1].expiration_time, i64::MAX);
    assert_eq!(orders[2].expiration_time, i64::MAX);
    assert_eq!(
        seller.process_request(&mut storage, "view_sell_orders", 0),
        Err(CommandError::Failed {
            cause: StorageError::ExpirationOutOfRange
        })
    );
    assert_eq!(
        ask(&seller, &mut storage, "view_sell_orders"),
        "Failed to process request: Expiration time is out of range"
    );
}

#[test]
fn sell_orders_reply_has_a_line_for_each_order() {
    assert_eq!(sell_orders_reply(&vec![]), "Sell orders:");
    let order = SellOrder {
        id: 12,
        seller_name: "Ann".to_string(),
        item_name: "holy sword".to_string(),
        quantity: 1,
        price: 300,
        expiration_time: "2021-01-01 00:00:00".to_string(),
        order_type: SellOrderType::Auction,
    };
    assert_eq!(
        sell_orders_reply(&vec![order]),
        "Sell orders:\n- #12: Ann is selling 1 holy sword(s) for 300 funds on auction until 2021-01-01 00:00:00"
    );
}

#[test]
fn login_by_what_a_client_sent() {
    let mut storage = Storage::new();
    let user = try_login(&mut storage, "  hero \n").unwrap();
    assert_eq!(user.id, UserId(1));
    assert_eq!(user.username, "hero");
    assert_eq!(try_login(&mut storage, "hero").unwrap().id, UserId(1));
    assert_eq!(try_login(&mut storage, "her o").unwrap().id, UserId(2));
    let refused = try_login(&mut storage, " \t ").unwrap_err();
    assert_eq!(refused, StorageError::EmptyUsername);
    assert_eq!(refused.to_string(), "Username cannot be empty");
    assert_eq!(logged_in("hero"), "Successfully logged in as hero");
    assert_eq!(
        GREETING,
        "Welcome to Sundris Auction House, stranger! How can I call you?"
    );
}

#[test]
fn kinds_of_failed_commands() {
    let mut storage = Storage::new();
    let hero = session(&mut storage, "hero");
    for (request, kind) in [
        ("dance", ErrorKind::InvalidArgument),
        ("deposit", ErrorKind::InvalidArgument),
        ("withdraw", ErrorKind::InvalidArgument),
        ("sell arrow", ErrorKind::InvalidArgument),
        ("buy one", ErrorKind::InvalidArgument),
        ("deposit arrow 0", ErrorKind::InvalidArgument),
        ("withdraw arrow 1", ErrorKind::Conflict),
        ("buy 1", ErrorKind::NotFound),
        ("buy 1 5", ErrorKind::NotFound),
        ("sell funds 1", ErrorKind::Conflict),
    ] {
        let failed = hero.process_request(&mut storage, request, NOW).unwrap_err();
        assert_eq!(failed.kind(), kind, "{request}");
    }
}

#[test]
fn help_text_keeps_its_lines() {
    assert!(HELP_MESSAGE.starts_with(
        "Available commands:\n    - whoami: Displays the username of the current user\n    - ping: Replies 'pong'\n"
    ));
    assert!(HELP_MESSAGE.contains(
        "\n\n    - deposit: Deposits a specified amount into the user's account. Format: 'deposit <item name> [<quantity>]'.\n      'fund' is a special item name"
    ));
    assert!(HELP_MESSAGE
        .ends_with("\n\n    Usage: <command> [<args>], where `[]` annotates optional argumet(s)"));
    assert_eq!(HELP_MESSAGE.lines().count(), 22);
}
