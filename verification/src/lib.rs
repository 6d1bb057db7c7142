//! Accounting and settlement core of a multi-contract wagering platform.
//!
//! Three components, dependency order leaves-first:
//!
//! - an idempotency engine: a replay-protection oracle keyed by a scope tag
//!   and a 32-byte operation hash, with TTL-bounded records;
//! - a balance ledger: per-user `(withdrawable, locked)` buckets and
//!   cumulative metrics, mutated only through backend-authorized,
//!   overflow-checked primitives;
//! - a settlement orchestrator: resolves a wager's outcome exactly once,
//!   driving the ledger's primitives to pay out, retain, or refund the
//!   escrowed stake.
//!
//! Every entry point runs as one serial transaction against the component's
//! owned state; the host's logical clock is passed in as a parameter, and the
//! caller's identity stands in for the host's authorization proof.

pub mod errors;
pub mod gateway;
pub mod idempotency;
pub mod ledger;
pub mod settlement;
pub mod store;

pub use errors::BalanceLedgerError;
pub use errors::ContractError;
