//! The data model: accounts, assets, balances, orders, errors and events.

use vstd::prelude::*;

verus! {

/// An opaque, already-authenticated account reference.
pub type AccountId = u64;

/// A quantity of some asset, in the ledger's balance representation.
pub type Balance = u128;

/// Identifies one asset (currency) tracked by the ledger.
pub type CurrencyId = u128;

/// Order identifiers: an unsigned counter, monotonically increasing, never
/// reused.
pub type OrderId = u32;

/// A standing offer: the owner gives `base_amount` of `base_currency_id` in
/// exchange for `target_amount` of `target_currency_id`. Immutable once
/// created; while it exists, `base_amount` of the base asset is reserved
/// against `owner` as escrow.
#[derive(Clone, Copy, Debug, PartialEq, Eq)]
pub struct Order {
    pub base_currency_id: CurrencyId,
    pub base_amount: Balance,
    pub target_currency_id: CurrencyId,
    pub target_amount: Balance,
    pub owner: AccountId,
}

/// The failures of the three entry points. Every failure is a typed outcome
/// and leaves the whole state exactly as it was.
#[derive(Clone, Copy, Debug, PartialEq, Eq)]
pub enum Error {
    /// The identifier space is exhausted: incrementing the counter would
    /// overflow.
    OrderIdOverflow,
    /// No open order exists under the given identifier.
    InvalidOrderId,
    /// A required ledger movement could not be fully satisfied.
    InsufficientBalance,
    /// The caller is not authorized for a mutation restricted to the owner.
    NotOwner,
}

/// Notifications of completed transitions, recorded fire-and-forget; they
/// have no bearing on the state machine itself.
#[derive(Clone, Copy, Debug, PartialEq, Eq)]
pub enum Event {
    OrderCreated(OrderId, Order),
    OrderTaken(AccountId, OrderId, Order),
    OrderCancelled(OrderId),
}

} // verus!
