//! The order lifecycle engine: submit, take and cancel, with transactional
//! semantics against the ledger.
//!
//! Each entry point's contract says that the engine's state and the ledger
//! move exactly as the corresponding abstract transition of
//! [`crate::state`] says, and that the matching event is recorded on
//! success — and nothing at all changes on failure.

use vstd::prelude::*;
use crate::types::{AccountId, Balance, CurrencyId, Error, Event, Order, OrderId};
use crate::ledger::{Ledger, LedgerModel, can_transfer, can_repatriate, spec_transfer};
use crate::store::OrderStore;
use crate::state::{State, ids_bounded, submit_transition, take_transition, cancel_transition};

verus! {

/// The lifecycle engine. It exclusively owns the order store and the
/// identifier allocator's counter; the ledger is handed to each entry point
/// by its caller. Events are recorded fire-and-forget.
pub struct Pallet {
    /// The open orders.
    pub orders: OrderStore,
    /// The identifier allocator: the next identifier to hand out.
    pub next_order_id: OrderId,
    /// The notification sink: every completed transition, in order.
    pub events: Vec<Event>,
}

impl Pallet {
    /// The abstract state of this engine together with a ledger model.
    pub open spec fn state_with(self, ledger: LedgerModel) -> State {
        State { orders: self.orders@, next_order_id: self.next_order_id, ledger }
    }

    /// A fresh engine: no orders, the counter at zero, no events.
    pub fn new() -> (r: Pallet)
        ensures
            r.orders@ == Map::<OrderId, Order>::empty(),
            r.next_order_id == 0,
            r.events@ == Seq::<Event>::empty(),
    {
        Pallet { orders: OrderStore::new(), next_order_id: 0, events: Vec::new() }
    }

    /// Submit a new order: reserve `base_amount` of the base asset from the
    /// caller as escrow and file the order under a fresh identifier.
    ///
    /// Fails with `OrderIdOverflow` when the identifier space is exhausted
    /// and with `InsufficientBalance` when the reservation cannot be made;
    /// a failure changes nothing.
    ///
    /// The engine's identifiers must be in their lawful shape — every stored
    /// identifier strictly below the counter. [`Pallet::new`] establishes
    /// that shape and every entry point preserves it.
    pub fn submit_order(
        &mut self,
        ledger: &mut Ledger,
        who: AccountId,
        base_currency_id: CurrencyId,
        base_amount: Balance,
        target_currency_id: CurrencyId,
        target_amount: Balance,
    ) -> (r: Result<OrderId, Error>)
        requires
            ids_bounded(old(self).state_with(old(ledger)@)),
        ensures
            ({
                let (s2, expected) = submit_transition(
                    old(self).state_with(old(ledger)@),
                    who,
                    base_currency_id,
                    base_amount,
                    target_currency_id,
                    target_amount,
                );
                &&& final(self).state_with(final(ledger)@) == s2
                &&& r == expected
                &&& match r {
                    Ok(id) => final(self).events@ == old(self).events@.push(
                        Event::OrderCreated(
                            id,
                            (Order {
                                base_currency_id,
                                base_amount,
                                target_currency_id,
                                target_amount,
                                owner: who,
                            }),
                        ),
                    ),
                    Err(_) => final(self).events@ == old(self).events@,
                }
            }),
            ids_bounded(final(self).state_with(final(ledger)@)),
    {
        if self.next_order_id == OrderId::MAX {
            return Err(Error::OrderIdOverflow);
        }
        let order = Order {
            base_currency_id,
            base_amount,
            target_currency_id,
            target_amount,
            owner: who,
        };
        match ledger.reserve(base_currency_id, who, base_amount) {
            Err(_) => {
                return Err(Error::InsufficientBalance);
            },
            Ok(_) => {},
        }
        let order_id = self.next_order_id;
        self.next_order_id = order_id + 1;
        self.orders.insert(order_id, order);
        self.events.push(Event::OrderCreated(order_id, order));
        Ok(order_id)
    }

    /// Take an open order: transfer its target amount from the caller to the
    /// owner, and settle the escrowed base amount to the caller, as one
    /// all-or-nothing settlement.
    ///
    /// Fails with `InvalidOrderId` when no such open order exists, and with
    /// `InsufficientBalance` when any part of the settlement cannot be fully
    /// made; a failure changes nothing and the order stays open.
    pub fn take_order(&mut self, ledger: &mut Ledger, who: AccountId, order_id: OrderId) -> (r:
        Result<(), Error>)
        ensures
            ({
                let (s2, expected) = take_transition(
                    old(self).state_with(old(ledger)@),
                    who,
                    order_id,
                );
                &&& final(self).state_with(final(ledger)@) == s2
                &&& r == expected
                &&& match r {
                    Ok(_) => final(self).events@ == old(self).events@.push(
                        Event::OrderTaken(who, order_id, old(self).orders@[order_id]),
                    ),
                    Err(_) => final(self).events@ == old(self).events@,
                }
            }),
            ids_bounded(old(self).state_with(old(ledger)@)) ==> ids_bounded(
                final(self).state_with(final(ledger)@),
            ),
    {
        let ghost s = old(self).state_with(old(ledger)@);
        let order = match self.orders.get(order_id) {
            None => {
                return Err(Error::InvalidOrderId);
            },
            Some(o) => o,
        };
        let ghost mid = spec_transfer(
            s.ledger,
            order.target_currency_id,
            who,
            order.owner,
            order.target_amount,
        );
        let who_free_target = ledger.free_balance(order.target_currency_id, who);
        if who_free_target < order.target_amount {
            return Err(Error::InsufficientBalance);
        }
        if who != order.owner {
            let owner_free_target = ledger.free_balance(order.target_currency_id, order.owner);
            if owner_free_target > Balance::MAX - order.target_amount {
                return Err(Error::InsufficientBalance);
            }
        }
        assert(can_transfer(
            s.ledger,
            order.target_currency_id,
            who,
            order.owner,
            order.target_amount,
        ));
        let owner_reserved_base = ledger.reserved_balance(order.base_currency_id, order.owner);
        if owner_reserved_base < order.base_amount {
            return Err(Error::InsufficientBalance);
        }
        let who_free_base = ledger.free_balance(order.base_currency_id, who);
        let who_free_base_mid = if who != order.owner
            && order.base_currency_id == order.target_currency_id {
            who_free_base - order.target_amount
        } else {
            who_free_base
        };
        proof {
            assert(mid[(who, order.base_currency_id)].free == who_free_base_mid as int);
            assert(mid[(order.owner, order.base_currency_id)].reserved == s.ledger[(
                order.owner,
                order.base_currency_id,
            )].reserved);
        }
        if who_free_base_mid > Balance::MAX - order.base_amount {
            assert(!can_repatriate(mid, order.base_currency_id, order.owner, who, order.base_amount));
            return Err(Error::InsufficientBalance);
        }
        assert(can_repatriate(mid, order.base_currency_id, order.owner, who, order.base_amount));
        let transfer_result = ledger.transfer(
            order.target_currency_id,
            who,
            order.owner,
            order.target_amount,
        );
        assert(transfer_result.is_ok());
        let repatriate_result = ledger.repatriate_reserved(
            order.base_currency_id,
            order.owner,
            who,
            order.base_amount,
        );
        assert(repatriate_result.is_ok());
        self.orders.remove_if_exists(order_id);
        self.events.push(Event::OrderTaken(who, order_id, order));
        Ok(())
    }

    /// Cancel an open order: only its owner may withdraw it; the escrowed
    /// base amount is released back to the owner's free balance.
    ///
    /// Fails with `InvalidOrderId` when no such open order exists and with
    /// `NotOwner` for any caller but the owner; a failure changes nothing.
    pub fn cancel_order(&mut self, ledger: &mut Ledger, who: AccountId, order_id: OrderId) -> (r:
        Result<(), Error>)
        ensures
            ({
                let (s2, expected) = cancel_transition(
                    old(self).state_with(old(ledger)@),
                    who,
                    order_id,
                );
                &&& final(self).state_with(final(ledger)@) == s2
                &&& r == expected
                &&& match r {
                    Ok(_) => final(self).events@ == old(self).events@.push(
                        Event::OrderCancelled(order_id),
                    ),
                    Err(_) => final(self).events@ == old(self).events@,
                }
            }),
            ids_bounded(old(self).state_with(old(ledger)@)) ==> ids_bounded(
                final(self).state_with(final(ledger)@),
            ),
    {
        let order = match self.orders.get(order_id) {
            None => {
                return Err(Error::InvalidOrderId);
            },
            Some(o) => o,
        };
        if order.owner != who {
            return Err(Error::NotOwner);
        }
        self.orders.remove_if_exists(order_id);
        ledger.unreserve(order.base_currency_id, who, order.base_amount);
        self.events.push(Event::OrderCancelled(order_id));
        Ok(())
    }
}

} // verus!
