//! The participation record: one per identity, written exactly once by a
//! successful participation and destroyed only by the expiry sweep.

use vstd::prelude::*;

verus! {

/// One participation event. `reward_amount` and `expiry` are snapshots taken
/// at creation time and never mutated afterwards.
pub struct ParticipationData {
    /// The identity that participated.
    pub participant: u64,
    /// Creation time, in the host clock's units (seconds).
    pub timestamp: u64,
    /// Free-text comment; always non-empty.
    pub comment: String,
    /// The reward paid out for this participation, captured from the
    /// configuration at creation time.
    pub reward_amount: i128,
    /// Reserved for a future claim-vs-grant split; always true at creation,
    /// since the reward is granted synchronously.
    pub reward_claimed: bool,
    /// The timestamp at which this record becomes stale:
    /// `timestamp` plus the configured expiry window.
    pub expiry: u64,
}

impl Clone for ParticipationData {
    fn clone(&self) -> (r: Self)
        ensures
            r == *self,
    {
        ParticipationData {
            participant: self.participant,
            timestamp: self.timestamp,
            comment: self.comment.clone(),
            reward_amount: self.reward_amount,
            reward_claimed: self.reward_claimed,
            expiry: self.expiry,
        }
    }
}

} // verus!
