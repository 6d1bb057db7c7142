//! Typed result codes. Errors are returned to the caller, never raised as
//! exceptions, and a failed call leaves the component's state untouched.

use vstd::prelude::*;

verus! {

/// Result codes of the balance ledger's entry points.
#[derive(Clone, Copy, Debug, PartialEq, Eq, Structural)]
pub enum BalanceLedgerError {
    Unauthorized,
    AlreadyInitialized,
    InvalidAmount,
    InsufficientWithdrawable,
    InsufficientLocked,
    Overflow,
}

/// Result codes shared by the idempotency engine and the settlement
/// orchestrator. Ledger failures that surface through a settlement carry
/// over via [`contract_error_of`].
#[derive(Clone, Copy, Debug, PartialEq, Eq, Structural)]
pub enum ContractError {
    Unauthorized,
    AlreadyInitialized,
    NotInitialized,
    InvalidAmount,
    InsufficientWithdrawable,
    InsufficientLocked,
    Overflow,
    InvalidBet,
    InvalidStatus,
    BetAlreadySettled,
    DuplicateOperation,
}

/// The ledger error that a settlement surfaces, seen as a shared result code.
pub open spec fn spec_contract_error_of(e: BalanceLedgerError) -> ContractError {
    match e {
        BalanceLedgerError::Unauthorized => ContractError::Unauthorized,
        BalanceLedgerError::AlreadyInitialized => ContractError::AlreadyInitialized,
        BalanceLedgerError::InvalidAmount => ContractError::InvalidAmount,
        BalanceLedgerError::InsufficientWithdrawable => ContractError::InsufficientWithdrawable,
        BalanceLedgerError::InsufficientLocked => ContractError::InsufficientLocked,
        BalanceLedgerError::Overflow => ContractError::Overflow,
    }
}

/// Maps a ledger result code onto the shared result codes, variant by variant.
pub fn contract_error_of(e: BalanceLedgerError) -> (r: ContractError)
    ensures
        r == spec_contract_error_of(e),
{
    match e {
        BalanceLedgerError::Unauthorized => ContractError::Unauthorized,
        BalanceLedgerError::AlreadyInitialized => ContractError::AlreadyInitialized,
        BalanceLedgerError::InvalidAmount => ContractError::InvalidAmount,
        BalanceLedgerError::InsufficientWithdrawable => ContractError::InsufficientWithdrawable,
        BalanceLedgerError::InsufficientLocked => ContractError::InsufficientLocked,
        BalanceLedgerError::Overflow => ContractError::Overflow,
    }
}

} // verus!
