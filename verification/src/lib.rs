//! A ledger-backed registry that records a one-time participation event per
//! identity, pays a fixed reward for that event from a pooled balance, and
//! retires stale records after an expiry window.
//!
//! The registry itself is plain verified state: identities are opaque `u64`
//! handles, the host clock hands every time-dependent operation the current
//! timestamp, and the external token-transfer service reports its outcome as
//! an event that the participation engine consumes. The host around the
//! library authenticates callers, runs the clock, and performs the transfers.

pub mod config;
pub mod errors;
pub mod laws;
pub mod record;
pub mod registry;
pub mod store;
