//! The abstract order lifecycle state machine.
//!
//! A state is the order store, the identifier allocator's counter, and the
//! ledger model. Each entry point of the engine is specified as a pure
//! transition on such states: the verified executable code refines these
//! transitions exactly, and the library's laws are proved about them.

use vstd::prelude::*;
use crate::types::{AccountId, Balance, CurrencyId, Error, Order, OrderId};
use crate::ledger::{
    LedgerModel, can_reserve, can_transfer, can_repatriate, spec_reserve, spec_transfer,
    spec_repatriate, spec_unreserve,
};

verus! {

/// The whole abstract state of the exchange.
#[verifier::ext_equal]
pub ghost struct State {
    /// The open orders, keyed by identifier.
    pub orders: Map<OrderId, Order>,
    /// The identifier the next successful submission will receive.
    pub next_order_id: OrderId,
    /// The balance ledger.
    pub ledger: LedgerModel,
}

/// What a submission does: allocate the next identifier, reserve the base
/// amount from the caller as escrow, and file the order. Allocation fails
/// closed when the counter cannot be advanced; a failed reservation leaves
/// the counter unadvanced and no order created.
pub open spec fn submit_transition(
    s: State,
    who: AccountId,
    base_currency_id: CurrencyId,
    base_amount: Balance,
    target_currency_id: CurrencyId,
    target_amount: Balance,
) -> (State, Result<OrderId, Error>) {
    if s.next_order_id == OrderId::MAX {
        (s, Err(Error::OrderIdOverflow))
    } else if !can_reserve(s.ledger, base_currency_id, who, base_amount) {
        (s, Err(Error::InsufficientBalance))
    } else {
        let order = Order {
            base_currency_id,
            base_amount,
            target_currency_id,
            target_amount,
            owner: who,
        };
        (
            State {
                orders: s.orders.insert(s.next_order_id, order),
                next_order_id: (s.next_order_id + 1) as OrderId,
                ledger: spec_reserve(s.ledger, base_currency_id, who, base_amount),
            },
            Ok(s.next_order_id),
        )
    }
}

/// What a take does: pay the owner the target amount from the caller's free
/// balance, repatriate the escrow to the caller, and resolve the order — all
/// of it, or none of it. The settlement succeeds only when the transfer can
/// be fully made, the escrow fully covers the base amount, and the
/// repatriated funds still fit in the caller's free balance.
pub open spec fn take_transition(s: State, who: AccountId, order_id: OrderId) -> (
    State,
    Result<(), Error>,
) {
    if !s.orders.dom().contains(order_id) {
        (s, Err(Error::InvalidOrderId))
    } else {
        let order = s.orders[order_id];
        let mid = spec_transfer(
            s.ledger,
            order.target_currency_id,
            who,
            order.owner,
            order.target_amount,
        );
        if can_transfer(s.ledger, order.target_currency_id, who, order.owner, order.target_amount)
            && s.ledger[(order.owner, order.base_currency_id)].reserved >= order.base_amount
            && can_repatriate(mid, order.base_currency_id, order.owner, who, order.base_amount) {
            (
                State {
                    orders: s.orders.remove(order_id),
                    next_order_id: s.next_order_id,
                    ledger: spec_repatriate(
                        mid,
                        order.base_currency_id,
                        order.owner,
                        who,
                        order.base_amount,
                    ),
                },
                Ok(()),
            )
        } else {
            (s, Err(Error::InsufficientBalance))
        }
    }
}

/// What a cancellation does: only the owner may withdraw the order; its
/// escrow is released back to the owner's free balance.
pub open spec fn cancel_transition(s: State, who: AccountId, order_id: OrderId) -> (
    State,
    Result<(), Error>,
) {
    if !s.orders.dom().contains(order_id) {
        (s, Err(Error::InvalidOrderId))
    } else {
        let order = s.orders[order_id];
        if order.owner != who {
            (s, Err(Error::NotOwner))
        } else {
            (
                State {
                    orders: s.orders.remove(order_id),
                    next_order_id: s.next_order_id,
                    ledger: spec_unreserve(s.ledger, order.base_currency_id, who, order.base_amount),
                },
                Ok(()),
            )
        }
    }
}

/// One request against the engine, with its already-authenticated caller.
pub ghost enum Op {
    Submit {
        who: AccountId,
        base_currency_id: CurrencyId,
        base_amount: Balance,
        target_currency_id: CurrencyId,
        target_amount: Balance,
    },
    Take { who: AccountId, order_id: OrderId },
    Cancel { who: AccountId, order_id: OrderId },
}

/// The state after one request, whether it succeeded or failed.
pub open spec fn step(s: State, op: Op) -> State {
    match op {
        Op::Submit { who, base_currency_id, base_amount, target_currency_id, target_amount } => {
            submit_transition(s, who, base_currency_id, base_amount, target_currency_id, target_amount).0
        },
        Op::Take { who, order_id } => take_transition(s, who, order_id).0,
        Op::Cancel { who, order_id } => cancel_transition(s, who, order_id).0,
    }
}

/// The state after a whole sequence of requests.
pub open spec fn run(s: State, ops: Seq<Op>) -> State
    decreases ops.len(),
{
    if ops.len() == 0 {
        s
    } else {
        run(step(s, ops[0]), ops.drop_first())
    }
}

/// Every stored identifier lies strictly below the allocator's counter; this
/// is what makes identifiers fresh and never reused.
pub open spec fn ids_bounded(s: State) -> bool {
    forall|id: OrderId| s.orders.dom().contains(id) ==> id < s.next_order_id
}

} // verus!
