//! The configuration store: the small, always-resident half of the two-tier
//! storage model. It holds the administrator identity, the handle of the
//! token-transfer service, the current reward amount, the expiry window, the
//! aggregate counters, and the all-time participant index.

use vstd::prelude::*;

verus! {

/// Seconds in one day; the expiry window is configured in days and applied
/// in clock seconds.
pub const SECONDS_PER_DAY: u64 = 86400;

/// The singleton configuration, created once at initialization. Only
/// `reward_amount`, the counters and the index ever change afterwards, and
/// `reward_amount` only through the admin-gated update path.
pub struct Configuration {
    /// The administrator identity, set once at initialization.
    pub admin: u64,
    /// Opaque handle of the external token-transfer service.
    pub token_contract: u64,
    /// Current payout for new participations. Mutating it does not affect
    /// records already issued.
    pub reward_amount: i128,
    /// Expiry window in days, used only at record-creation time.
    pub token_expiry_days: u64,
    /// Number of successful participations; monotonically increasing.
    pub total_participants: u32,
    /// Sum of the rewards captured at each participation; monotonically
    /// increasing while rewards are positive.
    pub total_rewards_distributed: i128,
    /// Every identity that has ever participated successfully, in insertion
    /// order. Entries are never removed, even after the corresponding record
    /// is evicted: the index is the all-time audit trail the sweeper walks.
    pub participant_index: Vec<u64>,
}

} // verus!
