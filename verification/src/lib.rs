//! An escrow-based bilateral exchange.
//!
//! A party locks a quantity of one asset in escrow and advertises a desired
//! quantity of another; any counterparty may atomically fulfil the trade, or
//! the original party may withdraw it. The crate verifies the order lifecycle
//! state machine — submit, take, cancel — against a mathematical model of the
//! balance ledger: reservation at creation, exactly-once settlement at
//! fulfilment, release at cancellation, and full rollback on partial failure.
//!
//! - [`types`] holds the data model: orders, errors and events.
//! - [`ledger`] is the balance ledger, each operation specified as a
//!   transformation of a total map from `(account, asset)` to balances.
//! - [`store`] is the order store: a map from identifier to order record.
//! - [`state`] gives each entry point its meaning as a pure transition on
//!   abstract states.
//! - [`pallet`] is the lifecycle engine; its entry points refine the
//!   transitions exactly.
//! - [`props`] proves the laws: escrow conservation, identifier uniqueness
//!   and monotonicity, exactly-once resolution, escrow backing, and
//!   atomicity of settlement.

pub mod types;
pub mod ledger;
pub mod store;
pub mod state;
pub mod pallet;
pub mod props;
