//! What the contracts around a pool answer when they refuse a request:
//! the token ledgers, the owner check, the pause and the guard against
//! nested calls.

use vstd::prelude::*;

verus! {

/// What a token ledger answers when it refuses a request.
#[derive(Clone, Debug, PartialEq, Eq)]
pub enum PSP22Error {
    /// A restriction of the ledger's own, in its words.
    Custom(String),
    /// The account does not hold the amount asked for.
    InsufficientBalance,
    /// The spender is not allowed the amount asked for.
    InsufficientAllowance,
    /// The recipient is the address that stands for "no account".
    ZeroRecipientAddress,
    /// The sender is the address that stands for "no account".
    ZeroSenderAddress,
    /// The recipient refused the transfer, in its words.
    SafeTransferCheckFailed(String),
}

/// Why a call reserved to the owner was refused.
#[derive(Clone, Copy, Debug, PartialEq, Eq)]
pub enum OwnableError {
    CallerIsNotOwner,
    NewOwnerIsZero,
}

/// Why a call was refused on account of a pause.
#[derive(Clone, Copy, Debug, PartialEq, Eq)]
pub enum PausableError {
    Paused,
    NotPaused,
}

/// Why the guard against nested calls refused a call.
#[derive(Clone, Copy, Debug, PartialEq, Eq)]
pub enum ReentrancyGuardError {
    ReentrantCall,
}

} // verus!
