//! The laws of the order lifecycle, proved over the abstract transitions of
//! [`crate::state`]. The engine's entry points refine those transitions
//! exactly, so each law carries over to the executable code.

use vstd::prelude::*;
use vstd::set::fold::{is_fun_commutative, lemma_finite_set_induct, lemma_fold_empty,
    lemma_fold_insert};
use crate::types::{AccountId, Balance, CurrencyId, Error, Order, OrderId};
use crate::ledger::{total_of, can_transfer};
use crate::state::{
    State, Op, step, run, ids_bounded, submit_transition, take_transition, cancel_transition,
};

verus! {

/// A failed submission changes no state at all: no counter advance, no
/// order, no balance movement.
pub proof fn lemma_failed_submit_changes_nothing(
    s: State,
    who: AccountId,
    base_currency_id: CurrencyId,
    base_amount: Balance,
    target_currency_id: CurrencyId,
    target_amount: Balance,
)
    ensures
        ({
            let (s2, r) = submit_transition(
                s,
                who,
                base_currency_id,
                base_amount,
                target_currency_id,
                target_amount,
            );
            r.is_err() ==> s2 == s
        }),
{
}

/// A failed take changes no state at all: the order stays open, no balance
/// moves.
pub proof fn lemma_failed_take_changes_nothing(s: State, who: AccountId, order_id: OrderId)
    ensures
        ({
            let (s2, r) = take_transition(s, who, order_id);
            r.is_err() ==> s2 == s
        }),
{
}

/// A failed cancellation changes no state at all.
pub proof fn lemma_failed_cancel_changes_nothing(s: State, who: AccountId, order_id: OrderId)
    ensures
        ({
            let (s2, r) = cancel_transition(s, who, order_id);
            r.is_err() ==> s2 == s
        }),
{
}

/// Escrow conservation at submission: reserving only moves value between
/// the free and reserved sides of the caller's own balance, so every
/// account's total holding in every asset is unchanged — whether or not the
/// submission succeeds.
pub proof fn lemma_submit_conserves_totals(
    s: State,
    who: AccountId,
    base_currency_id: CurrencyId,
    base_amount: Balance,
    target_currency_id: CurrencyId,
    target_amount: Balance,
    account: AccountId,
    asset: CurrencyId,
)
    ensures
        total_of(
            submit_transition(
                s,
                who,
                base_currency_id,
                base_amount,
                target_currency_id,
                target_amount,
            ).0.ledger,
            account,
            asset,
        ) == total_of(s.ledger, account, asset),
{
}

/// Escrow conservation at cancellation: releasing only moves value between
/// the reserved and free sides of the owner's own balance, so every
/// account's total holding in every asset is unchanged — whether or not the
/// cancellation succeeds.
pub proof fn lemma_cancel_conserves_totals(
    s: State,
    who: AccountId,
    order_id: OrderId,
    account: AccountId,
    asset: CurrencyId,
)
    ensures
        total_of(cancel_transition(s, who, order_id).0.ledger, account, asset) == total_of(
            s.ledger,
            account,
            asset,
        ),
{
}

/// Escrow conservation at settlement: a successful take changes an
/// account's total holding in an asset by exactly what the trade moves —
/// the target amount from the taker to the owner, and the base amount from
/// the owner to the taker — and a failed take changes nothing at all.
pub proof fn lemma_take_moves_exactly(
    s: State,
    who: AccountId,
    order_id: OrderId,
    account: AccountId,
    asset: CurrencyId,
)
    ensures
        ({
            let (s2, r) = take_transition(s, who, order_id);
            let order = s.orders[order_id];
            let gains_target: int = if account == order.owner && asset == order.target_currency_id {
                order.target_amount as int
            } else {
                0
            };
            let pays_target: int = if account == who && asset == order.target_currency_id {
                order.target_amount as int
            } else {
                0
            };
            let gains_base: int = if account == who && asset == order.base_currency_id {
                order.base_amount as int
            } else {
                0
            };
            let pays_base: int = if account == order.owner && asset == order.base_currency_id {
                order.base_amount as int
            } else {
                0
            };
            &&& r.is_ok() ==> total_of(s2.ledger, account, asset) == total_of(s.ledger, account, asset)
                + gains_target - pays_target + gains_base - pays_base
            &&& r.is_err() ==> s2 == s
        }),
{
}

/// No step lowers the identifier counter.
pub proof fn lemma_step_next_monotone(s: State, op: Op)
    ensures
        step(s, op).next_order_id >= s.next_order_id,
{
}

/// No run of operations lowers the identifier counter.
pub proof fn lemma_run_next_monotone(s: State, ops: Seq<Op>)
    ensures
        run(s, ops).next_order_id >= s.next_order_id,
    decreases ops.len(),
{
    if ops.len() > 0 {
        lemma_step_next_monotone(s, ops[0]);
        lemma_run_next_monotone(step(s, ops[0]), ops.drop_first());
    }
}

/// Every operation keeps the stored identifiers strictly below the counter.
pub proof fn lemma_step_preserves_ids_bounded(s: State, op: Op)
    requires
        ids_bounded(s),
    ensures
        ids_bounded(step(s, op)),
{
    lemma_step_next_monotone(s, op);
}

/// Every run of operations keeps the stored identifiers strictly below the
/// counter.
pub proof fn lemma_run_preserves_ids_bounded(s: State, ops: Seq<Op>)
    requires
        ids_bounded(s),
    ensures
        ids_bounded(run(s, ops)),
    decreases ops.len(),
{
    if ops.len() > 0 {
        lemma_step_preserves_ids_bounded(s, ops[0]);
        lemma_run_preserves_ids_bounded(step(s, ops[0]), ops.drop_first());
    }
}

/// Identifier uniqueness and monotonicity: two successful submissions, with
/// any operations at all run in between, return strictly increasing — in
/// particular distinct — identifiers. (And a failed submission does not
/// advance the counter: `lemma_failed_submit_changes_nothing`.)
pub proof fn lemma_submitted_ids_strictly_increase(
    s: State,
    who1: AccountId,
    base_currency_id1: CurrencyId,
    base_amount1: Balance,
    target_currency_id1: CurrencyId,
    target_amount1: Balance,
    ops: Seq<Op>,
    who2: AccountId,
    base_currency_id2: CurrencyId,
    base_amount2: Balance,
    target_currency_id2: CurrencyId,
    target_amount2: Balance,
)
    ensures
        ({
            let (s1, r1) = submit_transition(
                s,
                who1,
                base_currency_id1,
                base_amount1,
                target_currency_id1,
                target_amount1,
            );
            let (s2, r2) = submit_transition(
                run(s1, ops),
                who2,
                base_currency_id2,
                base_amount2,
                target_currency_id2,
                target_amount2,
            );
            r1.is_ok() && r2.is_ok() ==> r2->Ok_0 > r1->Ok_0
        }),
{
    let (s1, r1) = submit_transition(
        s,
        who1,
        base_currency_id1,
        base_amount1,
        target_currency_id1,
        target_amount1,
    );
    lemma_run_next_monotone(s1, ops);
}

/// Any take or cancel of an identifier with no open order fails with
/// `InvalidOrderId` and changes nothing.
pub proof fn lemma_absent_id_rejected(s: State, who: AccountId, order_id: OrderId)
    requires
        !s.orders.dom().contains(order_id),
    ensures
        take_transition(s, who, order_id) == (s, Err::<(), Error>(Error::InvalidOrderId)),
        cancel_transition(s, who, order_id) == (s, Err::<(), Error>(Error::InvalidOrderId)),
{
}

/// An identifier once resolved stays resolved: absent from the store and
/// below the counter, through any run of operations.
pub proof fn lemma_resolved_stays_resolved(s: State, order_id: OrderId, ops: Seq<Op>)
    requires
        ids_bounded(s),
        !s.orders.dom().contains(order_id),
        order_id < s.next_order_id,
    ensures
        !run(s, ops).orders.dom().contains(order_id),
        order_id < run(s, ops).next_order_id,
        ids_bounded(run(s, ops)),
    decreases ops.len(),
{
    if ops.len() > 0 {
        lemma_step_preserves_ids_bounded(s, ops[0]);
        lemma_step_next_monotone(s, ops[0]);
        assert(!step(s, ops[0]).orders.dom().contains(order_id));
        lemma_resolved_stays_resolved(step(s, ops[0]), order_id, ops.drop_first());
    }
}

/// Exactly-once resolution, take first: once an order is taken, any later
/// take or cancel of its identifier — with any operations in between —
/// fails with `InvalidOrderId`.
pub proof fn lemma_take_resolves_exactly_once(
    s: State,
    who: AccountId,
    order_id: OrderId,
    ops: Seq<Op>,
    who2: AccountId,
)
    requires
        ids_bounded(s),
        take_transition(s, who, order_id).1.is_ok(),
    ensures
        ({
            let later = run(take_transition(s, who, order_id).0, ops);
            &&& take_transition(later, who2, order_id).1 == Err::<(), Error>(Error::InvalidOrderId)
            &&& cancel_transition(later, who2, order_id).1 == Err::<(), Error>(
                Error::InvalidOrderId,
            )
        }),
{
    let s1 = take_transition(s, who, order_id).0;
    assert(s1 == step(s, Op::Take { who, order_id }));
    lemma_step_preserves_ids_bounded(s, Op::Take { who, order_id });
    lemma_resolved_stays_resolved(s1, order_id, ops);
    lemma_absent_id_rejected(run(s1, ops), who2, order_id);
}

/// Exactly-once resolution, cancel first: once an order is cancelled, any
/// later take or cancel of its identifier — with any operations in between
/// — fails with `InvalidOrderId`.
pub proof fn lemma_cancel_resolves_exactly_once(
    s: State,
    who: AccountId,
    order_id: OrderId,
    ops: Seq<Op>,
    who2: AccountId,
)
    requires
        ids_bounded(s),
        cancel_transition(s, who, order_id).1.is_ok(),
    ensures
        ({
            let later = run(cancel_transition(s, who, order_id).0, ops);
            &&& take_transition(later, who2, order_id).1 == Err::<(), Error>(Error::InvalidOrderId)
            &&& cancel_transition(later, who2, order_id).1 == Err::<(), Error>(
                Error::InvalidOrderId,
            )
        }),
{
    let s1 = cancel_transition(s, who, order_id).0;
    assert(s1 == step(s, Op::Cancel { who, order_id }));
    lemma_step_preserves_ids_bounded(s, Op::Cancel { who, order_id });
    lemma_resolved_stays_resolved(s1, order_id, ops);
    lemma_absent_id_rejected(run(s1, ops), who2, order_id);
}

/// Atomic take: where the target-asset transfer cannot be fully made, the
/// take fails with `InsufficientBalance`, no reservation is repatriated, and
/// the order remains open — still takeable and cancellable.
pub proof fn lemma_take_atomic(s: State, who: AccountId, order_id: OrderId)
    requires
        s.orders.dom().contains(order_id),
        !can_transfer(
            s.ledger,
            s.orders[order_id].target_currency_id,
            who,
            s.orders[order_id].owner,
            s.orders[order_id].target_amount,
        ),
    ensures
        take_transition(s, who, order_id) == (s, Err::<(), Error>(Error::InsufficientBalance)),
        take_transition(s, who, order_id).0.orders.dom().contains(order_id),
{
}

/// No orphaned escrow at cancellation: where the owner's reserved balance
/// covers the escrow and the released funds fit in its free balance, a
/// successful cancellation puts the base amount fully back in the owner's
/// free balance and removes the reservation; the order is gone.
pub proof fn lemma_cancel_releases_escrow(s: State, who: AccountId, order_id: OrderId)
    requires
        s.orders.dom().contains(order_id),
        s.orders[order_id].owner == who,
        s.ledger[(who, s.orders[order_id].base_currency_id)].reserved
            >= s.orders[order_id].base_amount,
        s.ledger[(who, s.orders[order_id].base_currency_id)].free
            + s.orders[order_id].base_amount <= Balance::MAX,
    ensures
        ({
            let (s2, r) = cancel_transition(s, who, order_id);
            let order = s.orders[order_id];
            let key = (who, order.base_currency_id);
            &&& r == Ok::<(), Error>(())
            &&& s2.ledger[key].free == s.ledger[key].free + order.base_amount
            &&& s2.ledger[key].reserved == s.ledger[key].reserved - order.base_amount
            &&& !s2.orders.dom().contains(order_id)
        }),
{
}

/// No orphaned escrow at settlement: after a successful take between
/// distinct parties over distinct assets, the owner's reservation has
/// dropped by the base amount, the taker's free balance holds it, the
/// owner's free balance has gained the target amount, and the taker's has
/// paid it; the order is gone.
pub proof fn lemma_take_settles_escrow(s: State, who: AccountId, order_id: OrderId)
    requires
        take_transition(s, who, order_id).1.is_ok(),
        who != s.orders[order_id].owner,
        s.orders[order_id].base_currency_id != s.orders[order_id].target_currency_id,
    ensures
        ({
            let s2 = take_transition(s, who, order_id).0;
            let order = s.orders[order_id];
            let owner_base = (order.owner, order.base_currency_id);
            let taker_base = (who, order.base_currency_id);
            let owner_target = (order.owner, order.target_currency_id);
            let taker_target = (who, order.target_currency_id);
            &&& s2.ledger[owner_base].reserved == s.ledger[owner_base].reserved
                - order.base_amount
            &&& s2.ledger[taker_base].free == s.ledger[taker_base].free + order.base_amount
            &&& s2.ledger[owner_target].free == s.ledger[owner_target].free + order.target_amount
            &&& s2.ledger[taker_target].free == s.ledger[taker_target].free - order.target_amount
            &&& !s2.orders.dom().contains(order_id)
        }),
{
}

/// What one open order contributes to the escrow held against
/// `(account, asset)`: its base amount where it is owned by `account` and
/// quoted in `asset`, nothing otherwise.
pub open spec fn escrow_contribution(order: Order, account: AccountId, asset: CurrencyId) -> int {
    if order.owner == account && order.base_currency_id == asset {
        order.base_amount as int
    } else {
        0
    }
}

/// The summand used to fold the escrow of `(account, asset)` over a set of
/// order identifiers.
pub open spec fn escrow_fn(
    orders: Map<OrderId, Order>,
    account: AccountId,
    asset: CurrencyId,
) -> spec_fn(int, OrderId) -> int {
    |acc: int, id: OrderId| acc + escrow_contribution(orders[id], account, asset)
}

/// The escrow all open orders together hold against `(account, asset)`.
pub open spec fn escrow_sum(
    orders: Map<OrderId, Order>,
    account: AccountId,
    asset: CurrencyId,
) -> int {
    orders.dom().fold(0, escrow_fn(orders, account, asset))
}

/// Folding the escrow summand over a set of identifiers reads only the
/// orders stored under that set.
proof fn lemma_escrow_fold_congruence(
    t: Set<OrderId>,
    m1: Map<OrderId, Order>,
    m2: Map<OrderId, Order>,
    account: AccountId,
    asset: CurrencyId,
)
    requires
        t.finite(),
        forall|id: OrderId| t.contains(id) ==> m1[id] == m2[id],
    ensures
        t.fold(0, escrow_fn(m1, account, asset)) == t.fold(0, escrow_fn(m2, account, asset)),
{
    let f1 = escrow_fn(m1, account, asset);
    let f2 = escrow_fn(m2, account, asset);
    assert(is_fun_commutative(f1));
    assert(is_fun_commutative(f2));
    let pred = |u: Set<OrderId>| u.subset_of(t) ==> u.fold(0, f1) == u.fold(0, f2);
    assert(pred(Set::<OrderId>::empty())) by {
        lemma_fold_empty(0, f1);
        lemma_fold_empty(0, f2);
    }
    assert forall|u: Set<OrderId>, a: OrderId|
        pred(u) && u.finite() && !u.contains(a) implies #[trigger] pred(u.insert(a)) by {
        if u.insert(a).subset_of(t) {
            assert(u.subset_of(t));
            assert(t.contains(a));
            lemma_fold_insert(u, 0, f1, a);
            lemma_fold_insert(u, 0, f2, a);
        }
    }
    lemma_finite_set_induct(t, pred);
}

/// An escrow sum is never negative.
proof fn lemma_escrow_sum_nonneg(orders: Map<OrderId, Order>, account: AccountId, asset: CurrencyId)
    requires
        orders.dom().finite(),
    ensures
        escrow_sum(orders, account, asset) >= 0,
{
    let f = escrow_fn(orders, account, asset);
    assert(is_fun_commutative(f));
    let pred = |u: Set<OrderId>| u.fold(0, f) >= 0;
    assert(pred(Set::<OrderId>::empty())) by {
        lemma_fold_empty(0, f);
    }
    assert forall|u: Set<OrderId>, a: OrderId|
        pred(u) && u.finite() && !u.contains(a) implies #[trigger] pred(u.insert(a)) by {
        lemma_fold_insert(u, 0, f, a);
    }
    lemma_finite_set_induct(orders.dom(), pred);
}

/// Filing an order under a fresh identifier grows the escrow sum by exactly
/// that order's contribution.
proof fn lemma_escrow_sum_insert(
    orders: Map<OrderId, Order>,
    id: OrderId,
    order: Order,
    account: AccountId,
    asset: CurrencyId,
)
    requires
        orders.dom().finite(),
        !orders.dom().contains(id),
    ensures
        escrow_sum(orders.insert(id, order), account, asset) == escrow_sum(orders, account, asset)
            + escrow_contribution(order, account, asset),
{
    let m2 = orders.insert(id, order);
    let f2 = escrow_fn(m2, account, asset);
    assert(is_fun_commutative(f2));
    assert(m2.dom() =~= orders.dom().insert(id));
    lemma_fold_insert(orders.dom(), 0, f2, id);
    assert(m2[id] == order);
    lemma_escrow_fold_congruence(orders.dom(), m2, orders, account, asset);
}

/// Resolving an order shrinks the escrow sum by exactly that order's
/// contribution.
proof fn lemma_escrow_sum_remove(
    orders: Map<OrderId, Order>,
    id: OrderId,
    account: AccountId,
    asset: CurrencyId,
)
    requires
        orders.dom().finite(),
        orders.dom().contains(id),
    ensures
        escrow_sum(orders.remove(id), account, asset) == escrow_sum(orders, account, asset)
            - escrow_contribution(orders[id], account, asset),
{
    let m0 = orders.remove(id);
    lemma_escrow_sum_insert(m0, id, orders[id], account, asset);
    assert(m0.insert(id, orders[id]) =~= orders);
}

/// The escrow invariant of the data model: the store is finite, and every
/// account's reserved balance in every asset covers the summed escrow of the
/// open orders held against it.
pub open spec fn escrow_backed(s: State) -> bool {
    &&& s.orders.dom().finite()
    &&& forall|account: AccountId, asset: CurrencyId|
        s.ledger[(account, asset)].reserved >= #[trigger] escrow_sum(s.orders, account, asset)
}

/// A state with no open orders is escrow-backed as soon as no reserved
/// balance is negative.
pub proof fn lemma_no_orders_escrow_backed(s: State)
    requires
        s.orders.dom() =~= Set::<OrderId>::empty(),
        forall|account: AccountId, asset: CurrencyId|
            #[trigger] s.ledger[(account, asset)].reserved >= 0,
    ensures
        escrow_backed(s),
{
    assert forall|account: AccountId, asset: CurrencyId|
        s.ledger[(account, asset)].reserved >= #[trigger] escrow_sum(
            s.orders,
            account,
            asset,
        ) by {
        lemma_fold_empty(0, escrow_fn(s.orders, account, asset));
    }
}

/// While an order is open, its owner's reserved balance in its base asset
/// covers its full base amount: no escrow is ever orphaned or silently
/// diluted.
pub proof fn lemma_open_order_escrow_covered(s: State, order_id: OrderId)
    requires
        escrow_backed(s),
        s.orders.dom().contains(order_id),
    ensures
        s.ledger[(s.orders[order_id].owner, s.orders[order_id].base_currency_id)].reserved
            >= s.orders[order_id].base_amount,
{
    let order = s.orders[order_id];
    lemma_escrow_sum_remove(s.orders, order_id, order.owner, order.base_currency_id);
    lemma_escrow_sum_nonneg(s.orders.remove(order_id), order.owner, order.base_currency_id);
}

/// Every operation preserves the escrow invariant.
pub proof fn lemma_step_preserves_escrow_backed(s: State, op: Op)
    requires
        escrow_backed(s),
        ids_bounded(s),
    ensures
        escrow_backed(step(s, op)),
{
    let s2 = step(s, op);
    match op {
        Op::Submit { who, base_currency_id, base_amount, target_currency_id, target_amount } => {
            let (s2s, r) = submit_transition(
                s,
                who,
                base_currency_id,
                base_amount,
                target_currency_id,
                target_amount,
            );
            if r.is_ok() {
                let order = Order {
                    base_currency_id,
                    base_amount,
                    target_currency_id,
                    target_amount,
                    owner: who,
                };
                assert forall|account: AccountId, asset: CurrencyId|
                    s2.ledger[(account, asset)].reserved >= #[trigger] escrow_sum(
                        s2.orders,
                        account,
                        asset,
                    ) by {
                    lemma_escrow_sum_insert(s.orders, s.next_order_id, order, account, asset);
                }
            }
        },
        Op::Take { who, order_id } => {
            let (s2t, r) = take_transition(s, who, order_id);
            if r.is_ok() {
                let order = s.orders[order_id];
                assert forall|account: AccountId, asset: CurrencyId|
                    s2.ledger[(account, asset)].reserved >= #[trigger] escrow_sum(
                        s2.orders,
                        account,
                        asset,
                    ) by {
                    lemma_escrow_sum_remove(s.orders, order_id, account, asset);
                }
            }
        },
        Op::Cancel { who, order_id } => {
            let (s2c, r) = cancel_transition(s, who, order_id);
            if r.is_ok() {
                assert forall|account: AccountId, asset: CurrencyId|
                    s2.ledger[(account, asset)].reserved >= #[trigger] escrow_sum(
                        s2.orders,
                        account,
                        asset,
                    ) by {
                    lemma_escrow_sum_remove(s.orders, order_id, account, asset);
                }
            }
        },
    }
}

/// Every run of operations preserves the escrow invariant.
pub proof fn lemma_run_preserves_escrow_backed(s: State, ops: Seq<Op>)
    requires
        escrow_backed(s),
        ids_bounded(s),
    ensures
        escrow_backed(run(s, ops)),
    decreases ops.len(),
{
    if ops.len() > 0 {
        lemma_step_preserves_escrow_backed(s, ops[0]);
        lemma_step_preserves_ids_bounded(s, ops[0]);
        lemma_run_preserves_escrow_backed(step(s, ops[0]), ops.drop_first());
    }
}

} // verus!


