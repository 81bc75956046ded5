//! Error kinds reported by the pool operations.

use vstd::prelude::*;

verus! {

/// Why the transfer capability refused to move a balance.
#[derive(Clone, Copy, Debug, PartialEq, Eq, Structural)]
pub enum TransferError {
    /// The source balance holds less than the requested amount.
    InsufficientBalance,
    /// The signer of the request may not debit the source balance.
    Unauthorized,
    /// The capability could not be reached.
    Unreachable,
}

/// Why a pool operation failed.
#[derive(Clone, Copy, Debug, PartialEq, Eq, Structural)]
pub enum AmmError {
    /// The pool is locked: no deposit, withdrawal or swap is accepted.
    PoolLocked,
    /// A principal amount is zero, or a computed amount is degenerate.
    InvalidAmount,
    /// A computed amount violates the bound that the caller gave.
    SlippageExceeded,
    /// An intermediate or final quantity does not fit its integer type.
    ArithmeticOverflow,
    /// A pool already exists under the identity that was to be initialized.
    DuplicatePool,
    /// A requested transfer failed; nothing was committed.
    TransferFailed(TransferError),
}

} // verus!
