//! The single failure value of a request.

use vstd::prelude::*;

verus! {

/// Why a request was refused. Every failure ends the request: nothing is
/// retried, and nothing computed before the failure is kept.
#[derive(Clone, Copy, Debug, PartialEq, Eq, Structural)]
pub enum TokenError {
    /// A debit exceeds the balance, or a burn exceeds the total supply.
    InsufficientFunds,
    /// A credit would exceed `u64::MAX`.
    MathOverflow,
    /// A new owner was credited while the ledger already held as many records
    /// as it has room for.
    LedgerFull,
    /// An account that the operation needs is not among those supplied.
    AccountNotFound,
    /// The asset's owner is none of the known backends.
    UnknownBackend,
    /// The response to a preflight call was set by another program than the
    /// one that was called.
    ResponseIdentityMismatch,
    /// The authority of an owner-gated operation is not the owner.
    AuthorizationMismatch,
    /// The response to a preflight call is not an encoded list of descriptors.
    MalformedResponse,
    /// Stored account data is not what the operation expects to find there.
    InvalidAccountData,
    /// No program address exists for the seeds of a derived account.
    NoProgramAddress,
}

} // verus!
