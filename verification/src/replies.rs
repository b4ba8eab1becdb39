//! The wording of a session: the replies to commands, and why a command
//! failed.

use crate::errors::{ErrorKind, StorageError, StorageErrorView};
use crate::text::{decimal, push_decimal, ParseFailure};
use crate::types::{SellOrder, SellOrderType, SellOrderView};
use vstd::prelude::*;
use vstd::string::*;

verus! {

/// The greeting that opens a session.
pub const GREETING: &'static str = "Welcome to Sundris Auction House, stranger! How can I call you?";

/// The text of the `help` command.
pub const HELP_MESSAGE: &'static str =
    "Available commands:
    - whoami: Displays the username of the current user
    - ping: Replies 'pong'
    - help: Prints this help message about all available commands

    - deposit: Deposits a specified amount into the user's account. Format: 'deposit <item name> [<quantity>]'.
      'fund' is a special item name that can be used to deposit funds into the user's account
      Example: 'deposit funds 100' - deposits 100 funds, 'deposit Sword' - deposits 1 Sword
    - withdraw: Withdraws a specified amount from the user's account. Format: 'withdraw <item name> [<quantity>]'
      Example: 'withdraw arrow 5' - withdraws 5 arrows, 'withdraw Sword' - withdraws 1 Sword
    - view_items: Displays a list items for the current user

    - view_sell_orders: Displays a list of all sell orders from all users
    - sell: Places an item for sale at a specified price. Format: 'sell [immediate|auction] <item_name> [<quantity>] <price>'
      - immediate sell order - will be executed immediately once someone buys it. Otherwise it will expire in 5 minutes
        and items will be returned to the seller, but not the fee, which is `5% of the price + 1` funds
      - auction sell order - will be executed once it expires if someone placed a bid on it
    - buy: Executes immediate sell order or places a bid on a auction sell order. Format: 'buy <sell_order_id> [<bid>]'
      - no bid - executes immediate sell order
      - bid - places a bid on a auction sell order

    Usage: <command> [<args>], where `[]` annotates optional argumet(s)";

/// The text of a string in double quotes, with the escapes that the `Debug`
/// format of `str` writes.
pub uninterp spec fn debug_text(s: Seq<char>) -> Seq<char>;

/// `format!("{:?}", s)` for a `str`: the text in double quotes, with the
/// escapes of the type's `Debug` format. The result depends on the text
/// alone.
#[verifier::external_body]
fn quoted(s: &str) -> (r: String)
    ensures
        r@ == debug_text(s@),
{
    format!("{:?}", s)
}

/// Why a command failed.
#[derive(Debug, PartialEq, Eq)]
pub enum CommandError {
    /// The first word of the request is no command.
    UnknownCommand { command: String },
    /// `deposit` without an argument.
    DepositArgumentRequired,
    /// `withdraw` without an argument.
    WithdrawArgumentRequired,
    /// The arguments of `sell` do not end in a price.
    UnparsableOrder,
    /// The order id of `buy` is no number.
    UnparsableOrderId { failure: ParseFailure },
    /// The storage engine refused, while doing what the context says.
    Refused { context: String, cause: StorageError },
    /// The storage engine refused.
    Failed { cause: StorageError },
}

/// Why a command failed, with its texts as sequences of characters.
pub enum CommandErrorView {
    UnknownCommand { command: Seq<char> },
    DepositArgumentRequired,
    WithdrawArgumentRequired,
    UnparsableOrder,
    UnparsableOrderId { failure: ParseFailure },
    Refused { context: Seq<char>, cause: StorageErrorView },
    Failed { cause: StorageErrorView },
}

impl View for CommandError {
    type V = CommandErrorView;

    open spec fn view(&self) -> CommandErrorView {
        match self {
            CommandError::UnknownCommand { command } => CommandErrorView::UnknownCommand {
                command: command@,
            },
            CommandError::DepositArgumentRequired => CommandErrorView::DepositArgumentRequired,
            CommandError::WithdrawArgumentRequired => CommandErrorView::WithdrawArgumentRequired,
            CommandError::UnparsableOrder => CommandErrorView::UnparsableOrder,
            CommandError::UnparsableOrderId { failure } => CommandErrorView::UnparsableOrderId {
                failure: *failure,
            },
            CommandError::Refused { context, cause } => CommandErrorView::Refused {
                context: context@,
                cause: cause@,
            },
            CommandError::Failed { cause } => CommandErrorView::Failed { cause: cause@ },
        }
    }
}

/// The words for a number that could not be read.
pub open spec fn failure_text(f: ParseFailure) -> Seq<char> {
    match f {
        ParseFailure::Empty => "cannot parse integer from empty string"@,
        ParseFailure::InvalidDigit => "invalid digit found in string"@,
        ParseFailure::TooLarge => "number too large to fit in target type"@,
        ParseFailure::TooSmall => "number too small to fit in target type"@,
    }
}

impl CommandErrorView {
    /// The kind of a failure: a malformed request is an invalid argument, and
    /// a refusal of the storage engine has the kind of its cause.
    pub open spec fn kind(self) -> ErrorKind {
        match self {
            CommandErrorView::Refused { cause, .. } => cause.kind(),
            CommandErrorView::Failed { cause } => cause.kind(),
            _ => ErrorKind::InvalidArgument,
        }
    }

    /// The single line that tells a person why the command failed: the
    /// context, where there is one, a colon, and the cause.
    pub open spec fn message(self) -> Seq<char> {
        match self {
            CommandErrorView::UnknownCommand { command } => "Unknown command '"@ + command + "'"@,
            CommandErrorView::DepositArgumentRequired => "Argument is required. Format: 'deposit <item name> [<quantity>]'"@,
            CommandErrorView::WithdrawArgumentRequired => "Argument is required. Format: 'withdraw <item name> [<quantity>]'"@,
            CommandErrorView::UnparsableOrder => "Unable to parse order. Expected: 'sell [immediate|auction] <item_name> [<quantity>] <price>'. Default type is 'immediate' and default quantity is 1"@,
            CommandErrorView::UnparsableOrderId { failure } => "Unable to parse sell order id: "@
                + failure_text(failure),
            CommandErrorView::Refused { context, cause } => context + ": "@ + cause.message(),
            CommandErrorView::Failed { cause } => cause.message(),
        }
    }
}

impl CommandError {
    /// The kind of this failure.
    pub fn kind(&self) -> (r: ErrorKind)
        ensures
            r == self@.kind(),
    {
        match self {
            CommandError::Refused { cause, .. } => cause.kind(),
            CommandError::Failed { cause } => cause.kind(),
            _ => ErrorKind::InvalidArgument,
        }
    }

    /// The single line that tells a person why the command failed.
    pub fn to_string(&self) -> (r: String)
        ensures
            r@ == self@.message(),
    {
        match self {
            CommandError::UnknownCommand { command } => {
                let mut r = String::from_str("Unknown command '");
                r.append(command.as_str());
                r.append("'");
                r
            },
            CommandError::DepositArgumentRequired => String::from_str(
                "Argument is required. Format: 'deposit <item name> [<quantity>]'",
            ),
            CommandError::WithdrawArgumentRequired => String::from_str(
                "Argument is required. Format: 'withdraw <item name> [<quantity>]'",
            ),
            CommandError::UnparsableOrder => String::from_str(
                "Unable to parse order. Expected: 'sell [immediate|auction] <item_name> [<quantity>] <price>'. Default type is 'immediate' and default quantity is 1",
            ),
            CommandError::UnparsableOrderId { failure } => {
                let mut r = String::from_str("Unable to parse sell order id: ");
                r.append(
                    match failure {
                        ParseFailure::Empty => "cannot parse integer from empty string",
                        ParseFailure::InvalidDigit => "invalid digit found in string",
                        ParseFailure::TooLarge => "number too large to fit in target type",
                        ParseFailure::TooSmall => "number too small to fit in target type",
                    },
                );
                r
            },
            CommandError::Refused { context, cause } => {
                let mut r = context.clone();
                r.append(": ");
                let why = cause.to_string();
                r.append(why.as_str());
                r
            },
            CommandError::Failed { cause } => cause.to_string(),
        }
    }
}

/// A reply as a sequence of characters, or why there is none.
pub open spec fn outcome_view(r: Result<String, CommandError>) -> Result<
    Seq<char>,
    CommandErrorView,
> {
    match r {
        Ok(text) => Ok(text@),
        Err(e) => Err(e@),
    }
}

/// What is sent for an outcome: the reply, or the reason after the words
/// that say that the request failed.
pub open spec fn response_spec(outcome: Result<Seq<char>, CommandErrorView>) -> Seq<char> {
    match outcome {
        Ok(text) => text,
        Err(e) => "Failed to process request: "@ + e.message(),
    }
}

/// What is sent for an outcome.
pub fn response_text(outcome: Result<String, CommandError>) -> (r: String)
    ensures
        r@ == response_spec(outcome_view(outcome)),
{
    match outcome {
        Ok(text) => text,
        Err(e) => {
            let mut r = String::from_str("Failed to process request: ");
            let why = e.to_string();
            r.append(why.as_str());
            r
        },
    }
}

/// The reply to a login: the words of success and the username.
pub open spec fn logged_in_text(username: Seq<char>) -> Seq<char> {
    "Successfully logged in as "@ + username
}

/// The reply to a login.
pub fn logged_in(username: &str) -> (r: String)
    ensures
        r@ == logged_in_text(username@),
{
    let mut r = String::from_str("Successfully logged in as ");
    r.append(username);
    r
}

/// Words, a number, a space, an item name and `(s)`: the shape of what is
/// said of a quantity of an item.
pub open spec fn counted(words: Seq<char>, quantity: i64, item_name: Seq<char>) -> Seq<char> {
    words + decimal(quantity as int) + " "@ + item_name + "(s)"@
}

/// Words, a number, a space, an item name and `(s)`.
pub fn counted_text(words: &str, quantity: i64, item_name: &str) -> (r: String)
    ensures
        r@ == counted(words@, quantity, item_name@),
{
    let mut r = String::from_str(words);
    push_decimal(&mut r, quantity);
    r.append(" ");
    r.append(item_name);
    r.append("(s)");
    r
}

/// Words and a number.
pub open spec fn numbered(words: Seq<char>, n: i64) -> Seq<char> {
    words + decimal(n as int)
}

/// Words and a number.
pub fn numbered_text(words: &str, n: i64) -> (r: String)
    ensures
        r@ == numbered(words@, n),
{
    let mut r = String::from_str(words);
    push_decimal(&mut r, n);
    r
}

/// What is said of a sell order of a type: words, the type's keyword, and
/// the quantity and item.
pub open spec fn typed_counted(
    words: Seq<char>,
    order_type: SellOrderType,
    quantity: i64,
    item_name: Seq<char>,
) -> Seq<char> {
    counted(words + order_type.name_spec() + " sell order for "@, quantity, item_name)
}

/// What is said of a sell order of a type.
pub fn typed_counted_text(
    words: &str,
    order_type: SellOrderType,
    quantity: i64,
    item_name: &str,
) -> (r: String)
    ensures
        r@ == typed_counted(words@, order_type, quantity, item_name@),
{
    let mut head = String::from_str(words);
    head.append(order_type.name());
    head.append(" sell order for ");
    counted_text(head.as_str(), quantity, item_name)
}

/// One holding in the list of a user's items: the quoted name and the
/// quantity, in round brackets.
pub open spec fn entry_text(quoted_name: Seq<char>, quantity: i64) -> Seq<char> {
    "("@ + quoted_name + ", "@ + decimal(quantity as int) + ")"@
}

/// The holdings of a list, each as an entry, with a comma and a space
/// between two.
pub open spec fn entries_text(rows: Seq<(Seq<char>, i64)>) -> Seq<char>
    decreases rows.len(),
{
    if rows.len() == 0 {
        Seq::empty()
    } else if rows.len() == 1 {
        entry_text(debug_text(rows[0].0), rows[0].1)
    } else {
        entries_text(rows.drop_last()) + ", "@ + entry_text(
            debug_text(rows.last().0),
            rows.last().1,
        )
    }
}

/// The reply to `view_items`: the list of the user's holdings in square
/// brackets.
pub open spec fn items_text(rows: Seq<(Seq<char>, i64)>) -> Seq<char> {
    "Items: ["@ + entries_text(rows) + "]"@
}

/// Appends one holding to a list of items, given its name in quotes.
pub fn push_entry(out: &mut String, quoted_name: &str, quantity: i64)
    ensures
        final(out)@ == old(out)@ + entry_text(quoted_name@, quantity),
{
    out.append("(");
    out.append(quoted_name);
    out.append(", ");
    push_decimal(out, quantity);
    out.append(")");
    assert(out@ =~= old(out)@ + entry_text(quoted_name@, quantity));
}

/// The reply to `view_items`.
pub fn items_reply(rows: &Vec<(String, i64)>) -> (r: String)
    ensures
        r@ == items_text(rows.deep_view()),
{
    let mut r = String::from_str("Items: [");
    let ghost all = rows.deep_view();
    let mut i: usize = 0;
    assert(all.subrange(0, 0) =~= Seq::<(Seq<char>, i64)>::empty());
    while i < rows.len()
        invariant
            i <= rows@.len(),
            all == rows.deep_view(),
            r@ == "Items: ["@ + entries_text(all.subrange(0, i as int)),
        decreases rows@.len() - i,
    {
        let ghost before = all.subrange(0, i as int);
        let ghost after = all.subrange(0, i + 1);
        proof {
            assert(after.drop_last() =~= before);
            assert(after.last() == all[i as int]);
            assert(all[i as int] == (rows@[i as int].0@, rows@[i as int].1));
        }
        if i > 0 {
            r.append(", ");
        }
        let name = quoted(rows[i].0.as_str());
        push_entry(&mut r, name.as_str(), rows[i].1);
        assert(r@ =~= "Items: ["@ + entries_text(after));
        i += 1;
    }
    assert(all.subrange(0, rows@.len() as int) =~= all);
    r.append("]");
    r
}

/// The line of one sell order in the reply to `view_sell_orders`.
pub open spec fn order_line(o: SellOrderView) -> Seq<char> {
    "\n- #"@ + decimal(o.id as int) + ": "@ + o.seller_name + " is selling "@ + decimal(
        o.quantity as int,
    ) + " "@ + o.item_name + "(s) for "@ + decimal(o.price as int) + " funds "@ + (match o.order_type {
        SellOrderType::Auction => "on auction "@,
        SellOrderType::Immediate => ""@,
    }) + "until "@ + o.expiration_time
}

/// The lines of the sell orders, in their order.
pub open spec fn order_lines(orders: Seq<SellOrderView>) -> Seq<char>
    decreases orders.len(),
{
    if orders.len() == 0 {
        Seq::empty()
    } else {
        order_lines(orders.drop_last()) + order_line(orders.last())
    }
}

/// The reply to `view_sell_orders`: a heading and one line for each order.
pub open spec fn sell_orders_text(orders: Seq<SellOrderView>) -> Seq<char> {
    "Sell orders:"@ + order_lines(orders)
}

/// Appends the line of one sell order.
pub fn push_order_line(out: &mut String, order: &SellOrder)
    ensures
        final(out)@ == old(out)@ + order_line(order.deep_view()),
{
    proof {
        reveal_strlit("");
    }
    out.append("\n- #");
    push_decimal(out, order.id);
    out.append(": ");
    out.append(order.seller_name.as_str());
    out.append(" is selling ");
    push_decimal(out, order.quantity);
    out.append(" ");
    out.append(order.item_name.as_str());
    out.append("(s) for ");
    push_decimal(out, order.price);
    out.append(" funds ");
    match order.order_type {
        SellOrderType::Auction => {
            out.append("on auction ");
        },
        SellOrderType::Immediate => {},
    }
    out.append("until ");
    out.append(order.expiration_time.as_str());
    assert(out@ =~= old(out)@ + order_line(order.deep_view()));
}

/// The reply to `view_sell_orders`.
pub fn sell_orders_reply(orders: &Vec<SellOrder>) -> (r: String)
    ensures
        r@ == sell_orders_text(orders.deep_view()),
{
    let mut r = String::from_str("Sell orders:");
    let ghost all = orders.deep_view();
    let mut i: usize = 0;
    assert(all.subrange(0, 0) =~= Seq::<SellOrderView>::empty());
    while i < orders.len()
        invariant
            i <= orders@.len(),
            all == orders.deep_view(),
            r@ == "Sell orders:"@ + order_lines(all.subrange(0, i as int)),
        decreases orders@.len() - i,
    {
        let ghost before = all.subrange(0, i as int);
        let ghost after = all.subrange(0, i + 1);
        proof {
            assert(after.drop_last() =~= before);
            assert(after.last() == orders@[i as int].deep_view());
        }
        push_order_line(&mut r, &orders[i]);
        assert(r@ =~= "Sell orders:"@ + order_lines(after));
        i += 1;
    }
    assert(all.subrange(0, orders@.len() as int) =~= all);
    r
}

} // verus!
