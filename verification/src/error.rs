//! The ways an operation can be refused.

use vstd::prelude::*;

verus! {

/// What is wrong with a registration.
#[derive(Debug, Clone, Copy, PartialEq, Eq, Structural)]
pub enum ConfigurationFault {
    /// No pair was supplied.
    NoPairs,
    /// A pair names the caller itself.
    CallerNamed,
    /// No supplied pair names an owner.
    NoOwner,
}

/// Why an operation was refused.
#[derive(Debug, Clone, Copy, PartialEq, Eq, Structural)]
pub enum ContractError {
    /// The registration names no owner at all, or names the caller itself.
    InvalidConfiguration { fault: ConfigurationFault },
    /// The funds attached to the registration do not cover the fee.
    InsufficientDeposit { required: u128 },
    /// The caller owns no slot.
    Unauthorized,
    /// The withdrawal asks for more than the account holds.
    InsufficientBalance { available: u128 },
    /// The credential is already tracked.
    DuplicateCredential,
    /// The caller is not the account that administers the contract.
    NotAllowed,
}

} // verus!
