//! What the expired orders owe, and what stays when they are settled.

use crate::errors::StorageErrorView;
use crate::ledger::{Ledger, FUNDS_ITEM_ID};
use crate::types::SellOrderRow;
use crate::validity::lemma_quantity_bounds;
use vstd::prelude::*;

verus! {

/// Every order of the sequence is well formed in the state.
pub open spec fn all_ok(s: Ledger, orders: Seq<SellOrderRow>) -> bool {
    forall|i: int| 0 <= i < orders.len() ==> s.order_ok(#[trigger] orders[i])
}

/// The ids of the orders ascend strictly.
pub open spec fn ascending(orders: Seq<SellOrderRow>) -> bool {
    forall|i: int, j: int|
        0 <= i < j < orders.len() ==> (#[trigger] orders[i]).id < (#[trigger] orders[j]).id
}

/// One more order owes what the others owe and what it owes itself.
pub proof fn lemma_owed_push(
    orders: Seq<SellOrderRow>,
    o: SellOrderRow,
    now: i64,
    user_id: i64,
    item_id: i64,
)
    ensures
        Ledger::owed(orders.push(o), now, user_id, item_id) == Ledger::owed(
            orders,
            now,
            user_id,
            item_id,
        ) + Ledger::owed_by(o, now, user_id, item_id),
{
    assert(orders.push(o).drop_last() =~= orders);
}

/// Well-formed orders owe nothing negative.
pub proof fn lemma_owed_nonnegative(
    s: Ledger,
    orders: Seq<SellOrderRow>,
    now: i64,
    user_id: i64,
    item_id: i64,
)
    requires
        all_ok(s, orders),
    ensures
        Ledger::owed(orders, now, user_id, item_id) >= 0,
    decreases orders.len(),
{
    if orders.len() > 0 {
        let rest = orders.drop_last();
        assert forall|i: int| 0 <= i < rest.len() implies s.order_ok(#[trigger] rest[i]) by {
            assert(rest[i] == orders[i]);
        }
        lemma_owed_nonnegative(s, rest, now, user_id, item_id);
        assert(s.order_ok(orders[orders.len() - 1]));
    }
}

/// The first orders of a sequence owe no more than all of them.
pub proof fn lemma_owed_prefix(
    s: Ledger,
    orders: Seq<SellOrderRow>,
    n: int,
    now: i64,
    user_id: i64,
    item_id: i64,
)
    requires
        all_ok(s, orders),
        0 <= n <= orders.len(),
    ensures
        Ledger::owed(orders.subrange(0, n), now, user_id, item_id) <= Ledger::owed(
            orders,
            now,
            user_id,
            item_id,
        ),
    decreases orders.len() - n,
{
    if n == orders.len() {
        assert(orders.subrange(0, n) =~= orders);
    } else {
        lemma_owed_prefix(s, orders, n + 1, now, user_id, item_id);
        assert(orders.subrange(0, n + 1) =~= orders.subrange(0, n).push(orders[n]));
        lemma_owed_push(orders.subrange(0, n), orders[n], now, user_id, item_id);
        assert(s.order_ok(orders[n]));
    }
}

/// A holding that is owed something belongs to an existing user and item.
pub proof fn lemma_owed_positive(
    s: Ledger,
    orders: Seq<SellOrderRow>,
    now: i64,
    user_id: i64,
    item_id: i64,
)
    requires
        s.valid(),
        all_ok(s, orders),
        Ledger::owed(orders, now, user_id, item_id) > 0,
    ensures
        s.has_user(user_id),
        s.has_item(item_id),
    decreases orders.len(),
{
    if orders.len() > 0 {
        let rest = orders.drop_last();
        let o = orders.last();
        assert(s.order_ok(orders[orders.len() - 1]));
        assert forall|i: int| 0 <= i < rest.len() implies s.order_ok(#[trigger] rest[i]) by {
            assert(rest[i] == orders[i]);
        }
        if Ledger::owed(rest, now, user_id, item_id) > 0 {
            lemma_owed_positive(s, rest, now, user_id, item_id);
        }
    }
}

/// Orders that have not expired owe nothing.
pub proof fn lemma_owed_none(orders: Seq<SellOrderRow>, now: i64, user_id: i64, item_id: i64)
    requires
        forall|i: int| 0 <= i < orders.len() ==> !(#[trigger] orders[i]).expired(now),
    ensures
        Ledger::owed(orders, now, user_id, item_id) == 0,
    decreases orders.len(),
{
    if orders.len() > 0 {
        let rest = orders.drop_last();
        assert forall|i: int| 0 <= i < rest.len() implies !(#[trigger] rest[i]).expired(now) by {
            assert(rest[i] == orders[i]);
        }
        lemma_owed_none(rest, now, user_id, item_id);
        assert(!orders[orders.len() - 1].expired(now));
    }
}

/// One more order is kept exactly when it has not expired.
pub proof fn lemma_unexpired_push(orders: Seq<SellOrderRow>, o: SellOrderRow, now: i64)
    ensures
        Ledger::unexpired(orders.push(o), now) == if o.expired(now) {
            Ledger::unexpired(orders, now)
        } else {
            Ledger::unexpired(orders, now).push(o)
        },
{
    assert(orders.push(o).drop_last() =~= orders);
}

/// The orders that are kept are orders of the sequence that have not expired,
/// in the order they had; none that has not expired is missing.
pub proof fn lemma_unexpired(orders: Seq<SellOrderRow>, now: i64)
    ensures
        Ledger::unexpired(orders, now).len() <= orders.len(),
        forall|j: int|
            0 <= j < Ledger::unexpired(orders, now).len() ==> !(#[trigger] Ledger::unexpired(
                orders,
                now,
            )[j]).expired(now) && orders.contains(Ledger::unexpired(orders, now)[j]),
        forall|i: int|
            0 <= i < orders.len() && !(#[trigger] orders[i]).expired(now) ==> Ledger::unexpired(
                orders,
                now,
            ).contains(orders[i]),
        ascending(orders) ==> ascending(Ledger::unexpired(orders, now)),
    decreases orders.len(),
{
    let kept = Ledger::unexpired(orders, now);
    if orders.len() > 0 {
        let rest = orders.drop_last();
        let o = orders.last();
        let before = Ledger::unexpired(rest, now);
        lemma_unexpired(rest, now);
        assert forall|j: int| 0 <= j < kept.len() implies !(#[trigger] kept[j]).expired(now)
            && orders.contains(kept[j]) by {
            if j < before.len() {
                assert(kept[j] == before[j]);
                assert(rest.contains(before[j]));
                let i = choose|i: int| 0 <= i < rest.len() && rest[i] == before[j];
                assert(orders[i] == kept[j]);
            } else {
                assert(kept[j] == o);
                assert(orders[orders.len() - 1] == o);
            }
        }
        assert forall|i: int| 0 <= i < orders.len() && !(#[trigger] orders[i]).expired(
            now,
        ) implies kept.contains(orders[i]) by {
            if i < rest.len() {
                assert(rest[i] == orders[i]);
                assert(before.contains(rest[i]));
                let j = choose|j: int| 0 <= j < before.len() && before[j] == rest[i];
                assert(kept[j] == orders[i]);
            } else {
                assert(kept[kept.len() - 1] == orders[i]);
            }
        }
        if ascending(orders) {
            assert forall|a: int, b: int| 0 <= a < b < rest.len() implies (#[trigger] rest[a]).id < (
            #[trigger] rest[b]).id by {
                assert(rest[a] == orders[a] && rest[b] == orders[b]);
            }
            assert forall|a: int, b: int| 0 <= a < b < kept.len() implies (#[trigger] kept[a]).id < (
            #[trigger] kept[b]).id by {
                if b < before.len() {
                    assert(kept[a] == before[a] && kept[b] == before[b]);
                } else {
                    assert(kept[b] == o);
                    assert(kept[a] == before[a]);
                    assert(rest.contains(before[a]));
                    let i = choose|i: int| 0 <= i < rest.len() && rest[i] == before[a];
                    assert(orders[i] == kept[a]);
                    assert(orders[i].id < orders[orders.len() - 1].id);
                }
            }
        }
    }
}

/// Orders of which none has expired are all kept.
pub proof fn lemma_unexpired_all(orders: Seq<SellOrderRow>, now: i64)
    requires
        forall|i: int| 0 <= i < orders.len() ==> !(#[trigger] orders[i]).expired(now),
    ensures
        Ledger::unexpired(orders, now) == orders,
    decreases orders.len(),
{
    if orders.len() > 0 {
        let rest = orders.drop_last();
        assert forall|i: int| 0 <= i < rest.len() implies !(#[trigger] rest[i]).expired(now) by {
            assert(rest[i] == orders[i]);
        }
        lemma_unexpired_all(rest, now);
        assert(!orders[orders.len() - 1].expired(now));
        assert(rest.push(orders.last()) =~= orders);
    } else {
        assert(Ledger::unexpired(orders, now) =~= orders);
    }
}

/// Settling one more order: where it has expired, its recipient's holding of
/// the item grows by the quantity, and, where a bid stands, the seller's
/// holding of the currency grows by the bid.
pub proof fn lemma_settle_step(s: Ledger, orders: Seq<SellOrderRow>, o: SellOrderRow, now: i64)
    requires
        s.valid(),
        all_ok(s, orders),
        s.order_ok(o),
        forall|u: i64, i: i64|
            s.quantity(u, i) + #[trigger] Ledger::owed(orders, now, u, i) <= i64::MAX,
        o.expired(now) ==> s.quantity(o.recipient(), o.item_id) + Ledger::owed(
            orders,
            now,
            o.recipient(),
            o.item_id,
        ) + o.quantity <= i64::MAX,
        o.expired(now) && o.has_bid() ==> s.quantity(o.seller_id, FUNDS_ITEM_ID) + Ledger::owed(
            orders,
            now,
            o.seller_id,
            FUNDS_ITEM_ID,
        ) + o.price <= i64::MAX,
    ensures
        forall|u: i64, i: i64|
            s.quantity(u, i) + #[trigger] Ledger::owed(orders.push(o), now, u, i) <= i64::MAX,
        !o.expired(now) ==> s.settled(orders.push(o), now) == s.settled(orders, now),
        o.expired(now) && !o.has_bid() ==> s.settled(orders.push(o), now) == s.settled(
            orders,
            now,
        ).insert(
            (o.recipient(), o.item_id),
            (s.quantity(o.recipient(), o.item_id) + Ledger::owed(
                orders,
                now,
                o.recipient(),
                o.item_id,
            ) + o.quantity) as i64,
        ),
        o.expired(now) && o.has_bid() ==> s.settled(orders.push(o), now) == s.settled(
            orders,
            now,
        ).insert(
            (o.recipient(), o.item_id),
            (s.quantity(o.recipient(), o.item_id) + Ledger::owed(
                orders,
                now,
                o.recipient(),
                o.item_id,
            ) + o.quantity) as i64,
        ).insert(
            (o.seller_id, FUNDS_ITEM_ID),
            (s.quantity(o.seller_id, FUNDS_ITEM_ID) + Ledger::owed(
                orders,
                now,
                o.seller_id,
                FUNDS_ITEM_ID,
            ) + o.price) as i64,
        ),
{
    let after = orders.push(o);
    assert forall|u: i64, i: i64|
        s.quantity(u, i) + #[trigger] Ledger::owed(after, now, u, i) <= i64::MAX by {
        lemma_owed_push(orders, o, now, u, i);
        assert(s.quantity(u, i) + Ledger::owed(orders, now, u, i) <= i64::MAX);
    }
    let lhs = s.settled(after, now);
    let k1 = (o.recipient(), o.item_id);
    let k2 = (o.seller_id, FUNDS_ITEM_ID);
    let v1 = (s.quantity(k1.0, k1.1) + Ledger::owed(orders, now, k1.0, k1.1) + o.quantity) as i64;
    let v2 = (s.quantity(k2.0, k2.1) + Ledger::owed(orders, now, k2.0, k2.1) + o.price) as i64;
    let rhs = if !o.expired(now) {
        s.settled(orders, now)
    } else if !o.has_bid() {
        s.settled(orders, now).insert(k1, v1)
    } else {
        s.settled(orders, now).insert(k1, v1).insert(k2, v2)
    };
    assert forall|k: (i64, i64)| lhs.dom().contains(k) <==> rhs.dom().contains(k) by {
        lemma_owed_push(orders, o, now, k.0, k.1);
        lemma_owed_nonnegative(s, orders, now, k.0, k.1);
    }
    assert forall|k: (i64, i64)| lhs.dom().contains(k) implies lhs[k] == rhs[k] by {
        lemma_owed_push(orders, o, now, k.0, k.1);
    }
    assert(lhs =~= rhs);
}

/// Settling the expired orders keeps the state valid.
pub proof fn lemma_sweep_valid(s: Ledger, now: i64)
    requires
        s.valid(),
        s.process_expired_sell_orders(now) is Ok,
    ensures
        s.process_expired_sell_orders(now)->Ok_0.valid(),
{
    let t = s.process_expired_sell_orders(now)->Ok_0;
    lemma_unexpired(s.orders, now);
    assert forall|k: (i64, i64)| #[trigger] t.holdings.dom().contains(k) implies {
        &&& t.has_user(k.0)
        &&& t.has_item(k.1)
        &&& t.holdings[k] >= 0
        &&& (k.1 != FUNDS_ITEM_ID ==> t.holdings[k] > 0)
    } by {
        lemma_owed_nonnegative(s, s.orders, now, k.0, k.1);
        assert(s.quantity(k.0, k.1) + Ledger::owed(s.orders, now, k.0, k.1) <= i64::MAX);
        if s.holdings.dom().contains(k) {
        } else {
            lemma_owed_positive(s, s.orders, now, k.0, k.1);
        }
    }
    assert forall|u: i64| t.has_user(u) implies #[trigger] t.holdings.dom().contains(
        (u, FUNDS_ITEM_ID),
    ) by {
        assert(s.holdings.dom().contains((u, FUNDS_ITEM_ID)));
    }
    assert forall|j: int| 0 <= j < t.orders.len() implies t.order_ok(#[trigger] t.orders[j]) by {
        assert(s.orders.contains(t.orders[j]));
        let i = choose|i: int| 0 <= i < s.orders.len() && s.orders[i] == t.orders[j];
        assert(s.order_ok(s.orders[i]));
    }
    assert(ascending(s.orders));
    assert(ascending(t.orders));
}

/// Where no order has expired, settling the expired orders succeeds and
/// changes nothing.
pub proof fn lemma_sweep_nothing(s: Ledger, now: i64)
    requires
        s.valid(),
        forall|i: int| 0 <= i < s.orders.len() ==> !(#[trigger] s.orders[i]).expired(now),
    ensures
        s.process_expired_sell_orders(now) == Ok::<Ledger, StorageErrorView>(s),
{
    lemma_unexpired_all(s.orders, now);
    assert forall|u: i64, i: i64| s.quantity(u, i) + #[trigger] Ledger::owed(s.orders, now, u, i)
        <= i64::MAX by {
        lemma_owed_none(s.orders, now, u, i);
        lemma_quantity_bounds(s, u, i);
    }
    assert(!s.sweep_overflows(now));
    assert forall|k: (i64, i64)| #[trigger]
        s.settled(s.orders, now).dom().contains(k) <==> s.holdings.dom().contains(k) by {
        lemma_owed_none(s.orders, now, k.0, k.1);
    }
    assert forall|k: (i64, i64)| #[trigger] s.holdings.dom().contains(k) implies s.settled(
        s.orders,
        now,
    )[k] == s.holdings[k] by {
        lemma_owed_none(s.orders, now, k.0, k.1);
    }
    assert(s.settled(s.orders, now) =~= s.holdings);
}

} // verus!
