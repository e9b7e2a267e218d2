//! The error kinds that registry operations surface to the caller.
//!
//! None of them is retryable by the registry itself: every precondition
//! violation aborts the whole operation before any write, and the caller
//! decides whether to retry.

use vstd::prelude::*;

verus! {

/// Why a registry operation was refused.
#[derive(Clone, Copy, Debug, PartialEq, Eq, Structural)]
pub enum Error {
    /// The admission check failed: the identity already holds a record.
    AlreadyParticipated,
    /// The submitted comment was empty.
    InvalidComment,
    /// The external transfer service rejected the reward transfer; no state
    /// changed.
    TokenTransferFailed,
    /// The caller's identity does not match the required role.
    NotAuthorized,
    /// Reserved for lookup-style failure paths; no current operation raises
    /// it, queries report absence instead.
    ParticipationNotFound,
    /// Reserved; expiry is currently informational only and never blocks an
    /// operation.
    TokenExpired,
}

} // verus!
