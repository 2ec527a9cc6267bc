//! Error taxonomy shared by every contract in the family.
//!
//! Each rejected operation surfaces one of these values; on chain the host
//! then rolls the whole transaction back, so an error also promises that the
//! contract state was left untouched.

use vstd::prelude::*;

verus! {

/// Why an operation was refused.
#[derive(Clone, Copy, Debug, PartialEq, Eq, Structural)]
pub enum ContractError {
    /// Bad input shape: zero amounts where not allowed, wrong token identifiers,
    /// identical tokens, malformed argument lists.
    ValidationError,
    /// A milestone schedule is not well formed: epochs out of order, a percent
    /// above one hundred, or percentages that do not sum to exactly one hundred.
    InvalidScheduleError,
    /// Caller is not the owner, not whitelisted, or the target contract is not
    /// an intermediated counterpart.
    PermissionError,
    /// The operation does not fit the contract's current state: global
    /// operation ongoing (or not) where the opposite is required, an empty
    /// distribution list, a token not yet issued, parameters not set.
    StateError,
    /// A sub-call to a pool or farm contract failed or returned an unexpected
    /// token.
    ExternalCallError,
    /// A distribution round was registered out of chronological order.
    ChronologyError,
    /// A per-user allocation exceeds the amount still available for planning.
    OverAllocationError,
    /// A per-user entry for the same key already exists.
    DuplicateEntryError,
    /// A payment or escrow amount was zero where a positive amount is required.
    ZeroAmountError,
    /// A simulated farm operation would produce zero position tokens.
    ZeroYieldError,
}

impl ContractError {
    /// A short description, in place of a `Display` implementation.
    pub fn message(&self) -> String {
        match self {
            ContractError::ValidationError => "invalid input".to_string(),
            ContractError::InvalidScheduleError => "invalid unlock schedule".to_string(),
            ContractError::PermissionError => "permission denied".to_string(),
            ContractError::StateError => "operation not allowed in this state".to_string(),
            ContractError::ExternalCallError => "external contract call failed".to_string(),
            ContractError::ChronologyError => "distribution out of chronological order".to_string(),
            ContractError::OverAllocationError => "allocation exceeds planned amount".to_string(),
            ContractError::DuplicateEntryError => "duplicate entry".to_string(),
            ContractError::ZeroAmountError => "amount cannot be zero".to_string(),
            ContractError::ZeroYieldError => "operation would yield zero tokens".to_string(),
        }
    }
}

} // verus!
