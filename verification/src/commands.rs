//! The commands of a session: reading a request, carrying it out on the
//! storage engine, and wording the reply.

use crate::errors::{StorageError, StorageErrorView};
use crate::ledger::Ledger;
use crate::replies::{
    counted, counted_text, items_reply, items_text, numbered, numbered_text, outcome_view,
    sell_orders_reply, sell_orders_text, typed_counted, typed_counted_text, CommandError,
    CommandErrorView, HELP_MESSAGE,
};
use crate::storage::Storage;
use crate::text::{
    chars_of, find_first, find_last, first_index, last_index, number_spec, parse_i64,
    parse_i64_spec, parse_number, text_of, trim_bounds, trimmed, ParseFailure,
};
use crate::types::{same_text, SellOrderType, User};
use vstd::prelude::*;
use vstd::string::*;

verus! {

/// How long a sell order that a session places stays live, in seconds.
pub const ORDER_LIFETIME_SECONDS: i64 = 300;

/// The item name and the quantity that an argument text gives: where the text
/// after the last space writes a number, that number is the quantity and the
/// text before the space the name; otherwise the whole text is the name and
/// the quantity is one.
pub open spec fn item_and_quantity(args: Seq<char>) -> (Seq<char>, i64) {
    match last_index(args, ' ') {
        Some(pos) => match parse_i64_spec(args.subrange(pos + 1, args.len() as int)) {
            Some(quantity) => (args.subrange(0, pos), quantity),
            None => (args, 1),
        },
        None => (args, 1),
    }
}

/// The order type and the rest that an argument text of `sell` gives: where
/// the first word is the keyword of a type, that type and what follows the
/// word; otherwise an immediate order and the whole text.
pub open spec fn typed_args(args: Seq<char>) -> (SellOrderType, Seq<char>) {
    match first_index(args, ' ') {
        Some(pos) => match SellOrderType::keyword_spec(args.subrange(0, pos)) {
            Some(order_type) => (order_type, args.subrange(pos + 1, args.len() as int)),
            None => (SellOrderType::Immediate, args),
        },
        None => (SellOrderType::Immediate, args),
    }
}

/// The price and the rest that an argument text gives: the number after the
/// last space, and what stands before that space.
pub open spec fn priced_args(args: Seq<char>) -> Option<(i64, Seq<char>)> {
    match last_index(args, ' ') {
        Some(pos) => match parse_i64_spec(args.subrange(pos + 1, args.len() as int)) {
            Some(price) => Some((price, args.subrange(0, pos))),
            None => None,
        },
        None => None,
    }
}

/// The sell order that the arguments of `sell` describe: an optional type, an
/// item name that may hold spaces, an optional quantity, and a price.
pub open spec fn sell_order_of(args: Seq<char>) -> Option<(SellOrderType, Seq<char>, i64, i64)> {
    let (order_type, rest) = typed_args(args);
    match priced_args(rest) {
        Some((price, named)) => {
            let (item_name, quantity) = item_and_quantity(named);
            Some((order_type, item_name, quantity, price))
        },
        None => None,
    }
}

/// The order id and the optional bid that the arguments of `buy` give.
pub open spec fn buy_order_of(args: Seq<char>) -> Result<(i64, Option<i64>), ParseFailure> {
    let (bid, rest) = match priced_args(args) {
        Some((bid, rest)) => (Some(bid), rest),
        None => (None, args),
    };
    match number_spec(rest) {
        Ok(order_id) => Ok((order_id, bid)),
        Err(failure) => Err(failure),
    }
}

/// The command word and the arguments of a request: the text before the
/// first space, and the text after it without the blanks at its ends.
pub open spec fn request_parts(request: Seq<char>) -> (Seq<char>, Seq<char>) {
    match first_index(request, ' ') {
        Some(pos) => (
            request.subrange(0, pos),
            trimmed(request.subrange(pos + 1, request.len() as int)),
        ),
        None => (request, Seq::empty()),
    }
}

/// The end of the item name and the quantity in `chars[from..to]`.
fn item_and_quantity_in(chars: &Vec<char>, from: usize, to: usize) -> (r: (usize, i64))
    requires
        from <= to <= chars@.len(),
    ensures
        from <= r.0 <= to,
        (chars@.subrange(from as int, r.0 as int), r.1) == item_and_quantity(
            chars@.subrange(from as int, to as int),
        ),
{
    let ghost args = chars@.subrange(from as int, to as int);
    match find_last(chars, ' ', from, to) {
        Some(pos) => {
            assert(args.subrange(pos - from + 1, args.len() as int) =~= chars@.subrange(
                pos + 1,
                to as int,
            ));
            assert(args.subrange(0, pos - from) =~= chars@.subrange(from as int, pos as int));
            match parse_i64(chars, pos + 1, to) {
                Some(quantity) => (pos, quantity),
                None => (to, 1),
            }
        },
        None => (to, 1),
    }
}

/// The order type and the start of the rest in `chars[from..to]`.
fn order_type_in(chars: &Vec<char>, from: usize, to: usize) -> (r: (SellOrderType, usize))
    requires
        from <= to <= chars@.len(),
    ensures
        from <= r.1 <= to,
        (r.0, chars@.subrange(r.1 as int, to as int)) == typed_args(
            chars@.subrange(from as int, to as int),
        ),
{
    let ghost args = chars@.subrange(from as int, to as int);
    match find_first(chars, ' ', from, to) {
        Some(pos) => {
            assert(args.subrange(pos - from + 1, args.len() as int) =~= chars@.subrange(
                pos + 1,
                to as int,
            ));
            assert(args.subrange(0, pos - from) =~= chars@.subrange(from as int, pos as int));
            let word = text_of(chars, from, pos);
            match SellOrderType::from_str(word.as_str()) {
                Some(order_type) => (order_type, pos + 1),
                None => (SellOrderType::Immediate, from),
            }
        },
        None => (SellOrderType::Immediate, from),
    }
}

/// The price and the end of the rest in `chars[from..to]`.
fn price_in(chars: &Vec<char>, from: usize, to: usize) -> (r: Option<(i64, usize)>)
    requires
        from <= to <= chars@.len(),
    ensures
        match priced_args(chars@.subrange(from as int, to as int)) {
            Some(p) => r matches Some(found) && found.0 == p.0 && from <= found.1 <= to
                && chars@.subrange(from as int, found.1 as int) == p.1,
            None => r is None,
        },
{
    let ghost args = chars@.subrange(from as int, to as int);
    match find_last(chars, ' ', from, to) {
        Some(pos) => {
            assert(args.subrange(pos - from + 1, args.len() as int) =~= chars@.subrange(
                pos + 1,
                to as int,
            ));
            assert(args.subrange(0, pos - from) =~= chars@.subrange(from as int, pos as int));
            match parse_i64(chars, pos + 1, to) {
                Some(price) => Some((price, pos)),
                None => None,
            }
        },
        None => None,
    }
}

/// Splits an argument text into an item name, which may hold spaces, and an
/// optional trailing quantity, which defaults to one.
pub fn parse_item_name_and_quantity(args: &str) -> (r: (&str, i64))
    ensures
        (r.0@, r.1) == item_and_quantity(args@),
{
    let chars = chars_of(args);
    let n: usize = chars.len();
    assert(chars@.subrange(0, n as int) =~= args@);
    let (end, quantity) = item_and_quantity_in(&chars, 0, n);
    if end == n {
        assert(chars@.subrange(0, end as int) =~= args@);
        (args, quantity)
    } else {
        (args.substring_char(0, end), quantity)
    }
}

/// Reads the arguments of `sell`: an optional type, an item name that may
/// hold spaces, an optional quantity, and a price.
pub fn parse_sell_order(args: &str) -> (r: Option<(SellOrderType, String, i64, i64)>)
    ensures
        match sell_order_of(args@) {
            Some(order) => r matches Some(found) && found.0 == order.0 && found.1@ == order.1
                && found.2 == order.2 && found.3 == order.3,
            None => r is None,
        },
{
    let chars = chars_of(args);
    let n: usize = chars.len();
    assert(chars@.subrange(0, n as int) =~= args@);
    let (order_type, start) = order_type_in(&chars, 0, n);
    match price_in(&chars, start, n) {
        Some((price, end)) => {
            let (name_end, quantity) = item_and_quantity_in(&chars, start, end);
            Some((order_type, text_of(&chars, start, name_end), quantity, price))
        },
        None => None,
    }
}

/// Reads the arguments of `buy`: an order id and an optional bid.
pub fn parse_buy_order(args: &str) -> (r: Result<(i64, Option<i64>), ParseFailure>)
    ensures
        r == buy_order_of(args@),
{
    let chars = chars_of(args);
    let n: usize = chars.len();
    assert(chars@.subrange(0, n as int) =~= args@);
    let (bid, end) = match price_in(&chars, 0, n) {
        Some((bid, end)) => (Some(bid), end),
        None => (None, n),
    };
    match parse_number(&chars, 0, end) {
        Ok(order_id) => Ok((order_id, bid)),
        Err(failure) => Err(failure),
    }
}

/// Splits a request into its command word and its arguments.
pub fn split_request<'a>(request: &'a str) -> (r: (&'a str, &'a str))
    ensures
        (r.0@, r.1@) == request_parts(request@),
{
    let chars = chars_of(request);
    let n: usize = chars.len();
    assert(chars@.subrange(0, n as int) =~= request@);
    match find_first(&chars, ' ', 0, n) {
        Some(pos) => {
            let (a, b) = trim_bounds(&chars, pos + 1, n);
            (request.substring_char(0, pos), request.substring_char(a, b))
        },
        None => {
            proof {
                reveal_strlit("");
                assert(""@ =~= Seq::<char>::empty());
            }
            (request, "")
        },
    }
}

/// When a sell order that is placed at `now` expires: five minutes later, or
/// at the last second that the clock can show.
pub open spec fn expiration_of(now: i64) -> i64 {
    if now > i64::MAX - ORDER_LIFETIME_SECONDS {
        i64::MAX
    } else {
        (now + ORDER_LIFETIME_SECONDS) as i64
    }
}

/// The outcome of a command: the next state, and the reply or the error.
pub type Outcome = (Ledger, Result<Seq<char>, CommandErrorView>);

/// What `view_items` does for a user.
pub open spec fn view_items_outcome(user_id: i64, s: Ledger) -> Outcome {
    (s, Ok(items_text(s.view_items(user_id))))
}

/// What `deposit` does for a user.
pub open spec fn deposit_outcome(user_id: i64, s: Ledger, args: Seq<char>) -> Outcome {
    if args.len() == 0 {
        (s, Err(CommandErrorView::DepositArgumentRequired))
    } else {
        let (item_name, quantity) = item_and_quantity(args);
        match s.deposit(user_id, item_name, quantity) {
            Ok(t) => (t, Ok(counted("Successfully deposited "@, quantity, item_name))),
            Err(cause) => (
                s,
                Err(
                    CommandErrorView::Refused {
                        context: counted("Failed to deposit "@, quantity, item_name),
                        cause,
                    },
                ),
            ),
        }
    }
}

/// What `withdraw` does for a user.
pub open spec fn withdraw_outcome(user_id: i64, s: Ledger, args: Seq<char>) -> Outcome {
    if args.len() == 0 {
        (s, Err(CommandErrorView::WithdrawArgumentRequired))
    } else {
        let (item_name, quantity) = item_and_quantity(args);
        match s.withdraw(user_id, item_name, quantity) {
            Ok(t) => (t, Ok(counted("Successfully withdrawed "@, quantity, item_name))),
            Err(cause) => (
                s,
                Err(
                    CommandErrorView::Refused {
                        context: counted("Failed to withdraw "@, quantity, item_name),
                        cause,
                    },
                ),
            ),
        }
    }
}

/// What `view_sell_orders` does.
pub open spec fn view_sell_orders_outcome(s: Ledger) -> Outcome {
    match s.view_sell_orders() {
        Ok(orders) => (s, Ok(sell_orders_text(orders))),
        Err(cause) => (s, Err(CommandErrorView::Failed { cause })),
    }
}

/// What `sell` does for a user at the given second.
pub open spec fn sell_outcome(user_id: i64, s: Ledger, args: Seq<char>, now: i64) -> Outcome {
    match sell_order_of(args) {
        None => (s, Err(CommandErrorView::UnparsableOrder)),
        Some((order_type, item_name, quantity, price)) => match s.place_sell_order(
            order_type,
            user_id,
            item_name,
            quantity,
            price,
            expiration_of(now),
        ) {
            Ok(t) => (
                t,
                Ok(typed_counted("Successfully placed "@, order_type, quantity, item_name)),
            ),
            Err(cause) => (
                s,
                Err(
                    CommandErrorView::Refused {
                        context: typed_counted(
                            "Failed to place "@,
                            order_type,
                            quantity,
                            item_name,
                        ),
                        cause,
                    },
                ),
            ),
        },
    }
}

/// What `buy` does for a user: with a bid, it bids on an auction; without
/// one, it executes an immediate order.
pub open spec fn buy_outcome(user_id: i64, s: Ledger, args: Seq<char>) -> Outcome {
    match buy_order_of(args) {
        Err(failure) => (s, Err(CommandErrorView::UnparsableOrderId { failure })),
        Ok((order_id, Some(bid))) => match s.place_bid_on_auction_sell_order(
            user_id,
            order_id,
            bid,
        ) {
            Ok(t) => (t, Ok(numbered("Successfully placed bid on sell order #"@, order_id))),
            Err(cause) => (
                s,
                Err(
                    CommandErrorView::Refused {
                        context: numbered("Failed to place bid on sell order #"@, order_id),
                        cause,
                    },
                ),
            ),
        },
        Ok((order_id, None)) => match s.execute_immediate_sell_order(user_id, order_id) {
            Ok(t) => (
                t,
                Ok(numbered("Successfully executed immediate sell order #"@, order_id)),
            ),
            Err(cause) => (
                s,
                Err(
                    CommandErrorView::Refused {
                        context: numbered("Failed to executed immediate sell order #"@, order_id),
                        cause,
                    },
                ),
            ),
        },
    }
}

/// What a request does for a user at the given second.
pub open spec fn request_outcome(
    user_id: i64,
    username: Seq<char>,
    s: Ledger,
    request: Seq<char>,
    now: i64,
) -> Outcome {
    let (command, args) = request_parts(request);
    if command == "ping"@ {
        (s, Ok("pong"@))
    } else if command == "whoami"@ {
        (s, Ok(username))
    } else if command == "help"@ {
        (s, Ok(HELP_MESSAGE@))
    } else if command == "view_items"@ {
        view_items_outcome(user_id, s)
    } else if command == "deposit"@ {
        deposit_outcome(user_id, s, args)
    } else if command == "withdraw"@ {
        withdraw_outcome(user_id, s, args)
    } else if command == "view_sell_orders"@ {
        view_sell_orders_outcome(s)
    } else if command == "sell"@ {
        sell_outcome(user_id, s, args, now)
    } else if command == "buy"@ {
        buy_outcome(user_id, s, args)
    } else {
        (s, Err(CommandErrorView::UnknownCommand { command }))
    }
}

/// What a login by the text that a client sent does: the user of the text
/// without the blanks at its ends is logged in.
pub open spec fn login_outcome(s: Ledger, sent: Seq<char>) -> Result<
    (Ledger, i64),
    StorageErrorView,
> {
    s.login(trimmed(sent))
}

/// Logs in the user whose name a client sent, without the blanks at its
/// ends.
pub fn try_login(storage: &mut Storage, sent: &str) -> (r: Result<User, StorageError>)
    requires
        old(storage).wf(),
    ensures
        final(storage).wf(),
        match r {
            Ok(user) => login_outcome(old(storage)@, sent@) == Ok::<
                (Ledger, i64),
                StorageErrorView,
            >((final(storage)@, user.id.0)) && user.username@ == trimmed(sent@),
            Err(e) => login_outcome(old(storage)@, sent@) == Err::<
                (Ledger, i64),
                StorageErrorView,
            >(e@) && final(storage)@ == old(storage)@,
        },
{
    let chars = chars_of(sent);
    let n: usize = chars.len();
    assert(chars@.subrange(0, n as int) =~= sent@);
    let (a, b) = trim_bounds(&chars, 0, n);
    storage.login(sent.substring_char(a, b))
}

/// Carries out the commands of one logged-in user.
pub struct CommandsProcessor {
    pub user: User,
}

impl CommandsProcessor {
    /// The processor of a user's session.
    pub fn new(user: User) -> (r: CommandsProcessor)
        ensures
            r.user == user,
    {
        CommandsProcessor { user }
    }

    /// Carries out one request at the given second and words the reply.
    pub fn process_request(&self, storage: &mut Storage, request: &str, unix_now: i64) -> (r:
        Result<String, CommandError>)
        requires
            old(storage).wf(),
        ensures
            final(storage).wf(),
            (final(storage)@, outcome_view(r)) == request_outcome(
                self.user.id.0,
                self.user.username@,
                old(storage)@,
                request@,
                unix_now,
            ),
    {
        let (command, args) = split_request(request);
        if same_text(command, "ping") {
            Ok(String::from_str("pong"))
        } else if same_text(command, "whoami") {
            Ok(self.user.username.clone())
        } else if same_text(command, "help") {
            Ok(String::from_str(HELP_MESSAGE))
        } else if same_text(command, "view_items") {
            self.view_items(storage)
        } else if same_text(command, "deposit") {
            self.deposit(storage, args)
        } else if same_text(command, "withdraw") {
            self.withdraw(storage, args)
        } else if same_text(command, "view_sell_orders") {
            self.view_sell_orders(storage)
        } else if same_text(command, "sell") {
            self.sell(storage, args, unix_now)
        } else if same_text(command, "buy") {
            self.buy(storage, args)
        } else {
            Err(CommandError::UnknownCommand { command: command.to_owned() })
        }
    }

    /// Lists the user's holdings.
    pub fn view_items(&self, storage: &Storage) -> (r: Result<String, CommandError>)
        requires
            storage.wf(),
        ensures
            (storage@, outcome_view(r)) == view_items_outcome(self.user.id.0, storage@),
    {
        match storage.view_items(self.user.id) {
            Ok(items) => Ok(items_reply(&items)),
            Err(cause) => Err(CommandError::Failed { cause }),
        }
    }

    /// Deposits what the arguments name into the user's holdings.
    pub fn deposit(&self, storage: &mut Storage, args: &str) -> (r: Result<String, CommandError>)
        requires
            old(storage).wf(),
        ensures
            final(storage).wf(),
            (final(storage)@, outcome_view(r)) == deposit_outcome(
                self.user.id.0,
                old(storage)@,
                args@,
            ),
    {
        if args.is_empty() {
            return Err(CommandError::DepositArgumentRequired);
        }
        let (item_name, quantity) = parse_item_name_and_quantity(args);
        match storage.deposit(self.user.id, item_name, quantity) {
            Ok(()) => Ok(counted_text("Successfully deposited ", quantity, item_name)),
            Err(cause) => Err(
                CommandError::Refused {
                    context: counted_text("Failed to deposit ", quantity, item_name),
                    cause,
                },
            ),
        }
    }

    /// Withdraws what the arguments name from the user's holdings.
    pub fn withdraw(&self, storage: &mut Storage, args: &str) -> (r: Result<String, CommandError>)
        requires
            old(storage).wf(),
        ensures
            final(storage).wf(),
            (final(storage)@, outcome_view(r)) == withdraw_outcome(
                self.user.id.0,
                old(storage)@,
                args@,
            ),
    {
        if args.is_empty() {
            return Err(CommandError::WithdrawArgumentRequired);
        }
        let (item_name, quantity) = parse_item_name_and_quantity(args);
        match storage.withdraw(self.user.id, item_name, quantity) {
            Ok(()) => Ok(counted_text("Successfully withdrawed ", quantity, item_name)),
            Err(cause) => Err(
                CommandError::Refused {
                    context: counted_text("Failed to withdraw ", quantity, item_name),
                    cause,
                },
            ),
        }
    }

    /// Lists the live sell orders of all users.
    pub fn view_sell_orders(&self, storage: &Storage) -> (r: Result<String, CommandError>)
        requires
            storage.wf(),
        ensures
            (storage@, outcome_view(r)) == view_sell_orders_outcome(storage@),
    {
        match storage.view_sell_orders() {
            Ok(orders) => Ok(sell_orders_reply(&orders)),
            Err(cause) => Err(CommandError::Failed { cause }),
        }
    }

    /// Places the sell order that the arguments describe, to expire five
    /// minutes after the given second.
    pub fn sell(&self, storage: &mut Storage, args: &str, unix_now: i64) -> (r: Result<
        String,
        CommandError,
    >)
        requires
            old(storage).wf(),
        ensures
            final(storage).wf(),
            (final(storage)@, outcome_view(r)) == sell_outcome(
                self.user.id.0,
                old(storage)@,
                args@,
                unix_now,
            ),
    {
        let (order_type, item_name, quantity, price) = match parse_sell_order(args) {
            Some(order) => order,
            None => {
                return Err(CommandError::UnparsableOrder);
            },
        };
        let expiration: i64 = if unix_now > i64::MAX - ORDER_LIFETIME_SECONDS {
            i64::MAX
        } else {
            unix_now + ORDER_LIFETIME_SECONDS
        };
        match storage.place_sell_order(
            order_type,
            self.user.id,
            item_name.as_str(),
            quantity,
            price,
            expiration,
        ) {
            Ok(()) => Ok(
                typed_counted_text("Successfully placed ", order_type, quantity, item_name.as_str()),
            ),
            Err(cause) => Err(
                CommandError::Refused {
                    context: typed_counted_text(
                        "Failed to place ",
                        order_type,
                        quantity,
                        item_name.as_str(),
                    ),
                    cause,
                },
            ),
        }
    }

    /// Buys from the sell order that the arguments name: with a bid, places
    /// the bid on an auction; without one, executes an immediate order.
    pub fn buy(&self, storage: &mut Storage, args: &str) -> (r: Result<String, CommandError>)
        requires
            old(storage).wf(),
        ensures
            final(storage).wf(),
            (final(storage)@, outcome_view(r)) == buy_outcome(self.user.id.0, old(storage)@, args@),
    {
        let (sell_order_id, bid) = match parse_buy_order(args) {
            Ok(order) => order,
            Err(failure) => {
                return Err(CommandError::UnparsableOrderId { failure });
            },
        };
        match bid {
            Some(bid) => match storage.place_bid_on_auction_sell_order(
                self.user.id,
                sell_order_id,
                bid,
            ) {
                Ok(()) => Ok(numbered_text("Successfully placed bid on sell order #", sell_order_id)),
                Err(cause) => Err(
                    CommandError::Refused {
                        context: numbered_text("Failed to place bid on sell order #", sell_order_id),
                        cause,
                    },
                ),
            },
            None => match storage.execute_immediate_sell_order(self.user.id, sell_order_id) {
                Ok(()) => Ok(
                    numbered_text("Successfully executed immediate sell order #", sell_order_id),
                ),
                Err(cause) => Err(
                    CommandError::Refused {
                        context: numbered_text(
                            "Failed to executed immediate sell order #",
                            sell_order_id,
                        ),
                        cause,
                    },
                ),
            },
        }
    }
}

} // verus!
