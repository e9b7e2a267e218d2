//! The registry's laws: statements that hold across whole operations or
//! across several of them, proved from the operations' contracts alone. Each
//! exec operation's `ensures` names a relation between the state before and
//! after the call; the proof functions here consume those relations.

use vstd::prelude::*;

use crate::config::SECONDS_PER_DAY;
use crate::errors::Error;
use crate::registry::EducationRewardContract;
use crate::registry::cleanup_rel;
use crate::registry::participate_check;
use crate::registry::participate_rel;
use crate::registry::record_valid;
use crate::registry::sum_i128;
use crate::registry::update_rel;
use crate::store::index_of;
use crate::store::lemma_same_keys_same_len;
use crate::store::spec_contains;
use crate::store::spec_get;

verus! {

/// Participation is exactly-once: after a participation for `p` succeeds,
/// a second attempt for `p` — whatever its comment, time or transfer
/// outcome — fails with `AlreadyParticipated`, changes nothing, and exactly
/// one record for `p` exists afterwards.
pub proof fn lemma_participate_exactly_once(
    pre: EducationRewardContract,
    mid: EducationRewardContract,
    post: EducationRewardContract,
    p: u64,
    comment1: Seq<char>,
    comment2: Seq<char>,
    now1: u64,
    now2: u64,
    transfer_ok2: bool,
    r1: Result<(), Error>,
    r2: Result<(), Error>,
)
    requires
        pre.wf(),
        mid.wf(),
        participate_check(pre, p, p, comment1) is Ok,
        participate_rel(pre, mid, p, p, comment1, now1, true, r1),
        participate_rel(mid, post, p, p, comment2, now2, transfer_ok2, r2),
        comment2.len() > 0,
    ensures
        r1 == Ok::<(), Error>(()),
        r2 == Err::<(), Error>(Error::AlreadyParticipated),
        post == mid,
        spec_contains(post.records.entries@, p),
        forall|i: int, j: int|
            0 <= i < post.records.entries@.len() && 0 <= j < post.records.entries@.len()
                && post.records.entries@[i].participant == p
                && post.records.entries@[j].participant == p ==> i == j,
{
    let n = mid.records.entries@.len() - 1;
    assert(mid.records.entries@[n].participant == p);
    assert(spec_contains(mid.records.entries@, p));
    assert(participate_check(mid, p, p, comment2) == Err::<(), Error>(
        Error::AlreadyParticipated,
    ));
    assert forall|i: int, j: int|
        0 <= i < post.records.entries@.len() && 0 <= j < post.records.entries@.len()
            && post.records.entries@[i].participant == p && post.records.entries@[j].participant
            == p implies i == j by {
        if i < j {
            assert(post.records.entries@[i].participant != post.records.entries@[j].participant);
        }
        if j < i {
            assert(post.records.entries@[j].participant != post.records.entries@[i].participant);
        }
    }
}

/// Every stored record's expiry stands exactly one configured window after
/// its creation time.
pub proof fn lemma_expiry_matches_window(r: EducationRewardContract, p: u64)
    requires
        r.wf(),
        spec_contains(r.records.entries@, p),
    ensures
        spec_get(r.records.entries@, p).expiry == spec_get(r.records.entries@, p).timestamp
            + r.config.token_expiry_days * SECONDS_PER_DAY,
{
    let i = index_of(r.records.entries@, p);
    assert(0 <= i < r.records.entries@.len() && r.records.entries@[i].participant == p);
    assert(record_valid(r.records.entries@[i], r.config.token_expiry_days));
}

/// The aggregate counters track the participation history exactly: the
/// participant count equals the index length and the number of captured
/// rewards, and the distributed total equals their sum.
pub proof fn lemma_totals_match_history(r: EducationRewardContract)
    requires
        r.wf(),
    ensures
        r.config.total_participants as int == r.config.participant_index@.len(),
        r.config.total_participants as int == r.history@.len(),
        r.config.total_rewards_distributed as int == sum_i128(r.history@),
{
}

/// Each successful participation advances the participant count by exactly
/// one and the distributed total by exactly the reward captured — the amount
/// configured at that moment, which is also the amount snapshotted into the
/// new record.
pub proof fn lemma_participate_success_accounting(
    pre: EducationRewardContract,
    post: EducationRewardContract,
    caller: u64,
    participant: u64,
    comment: Seq<char>,
    now: u64,
    r: Result<(), Error>,
)
    requires
        participate_rel(pre, post, caller, participant, comment, now, true, r),
        r is Ok,
    ensures
        post.config.total_participants == pre.config.total_participants + 1,
        post.config.total_rewards_distributed == pre.config.total_rewards_distributed
            + pre.config.reward_amount,
        post.config.participant_index@ == pre.config.participant_index@.push(participant),
        post.history@ == pre.history@.push(pre.config.reward_amount),
        post.records.entries@.last().reward_amount == pre.config.reward_amount,
{
}

/// If a participation fails — whichever admission check refused it, or the
/// transfer collaborator reporting failure — the registry is exactly as it
/// was: no record, no index entry, no counter change.
pub proof fn lemma_failure_rolls_back(
    pre: EducationRewardContract,
    post: EducationRewardContract,
    caller: u64,
    participant: u64,
    comment: Seq<char>,
    now: u64,
    transfer_ok: bool,
    r: Result<(), Error>,
)
    requires
        participate_rel(pre, post, caller, participant, comment, now, transfer_ok, r),
        r is Err,
    ensures
        post == pre,
{
}

/// Updating the reward amount never touches issued records, the counters,
/// the history or the index; and a caller other than the admin is refused
/// with `NotAuthorized` and changes nothing at all.
pub proof fn lemma_update_preserves_issued(
    pre: EducationRewardContract,
    post: EducationRewardContract,
    caller: u64,
    new_amount: i128,
    r: Result<(), Error>,
)
    requires
        update_rel(pre, post, caller, new_amount, r),
    ensures
        post.records == pre.records,
        post.history == pre.history,
        post.config.total_participants == pre.config.total_participants,
        post.config.total_rewards_distributed == pre.config.total_rewards_distributed,
        post.config.participant_index@ == pre.config.participant_index@,
        caller != pre.config.admin ==> r == Err::<(), Error>(Error::NotAuthorized) && post == pre,
        caller == pre.config.admin ==> r == Ok::<(), Error>(()) && post.config.reward_amount
            == new_amount,
{
}

/// Sweeping twice in succession does nothing the second time: when no new
/// expiries occur between the runs, the second sweep removes zero records
/// and every identity keeps exactly the record it had.
pub proof fn lemma_cleanup_idempotent(
    pre: EducationRewardContract,
    mid: EducationRewardContract,
    post: EducationRewardContract,
    caller: u64,
    now: u64,
    r1: Result<u32, Error>,
    r2: Result<u32, Error>,
)
    requires
        pre.wf(),
        caller == pre.config.admin,
        cleanup_rel(pre, mid, caller, now, r1),
        cleanup_rel(mid, post, caller, now, r2),
    ensures
        r2 == Ok::<u32, Error>(0),
        forall|p: u64|
            spec_contains(post.records.entries@, p) <==> spec_contains(mid.records.entries@, p),
        forall|p: u64|
            spec_contains(post.records.entries@, p) ==> spec_get(post.records.entries@, p)
                == spec_get(mid.records.entries@, p),
{
    assert(mid.config == pre.config);
    assert forall|p: u64|
        spec_contains(mid.records.entries@, p) implies !(now > spec_get(
        mid.records.entries@,
        p,
    ).expiry) by {
        assert(spec_get(mid.records.entries@, p) == spec_get(pre.records.entries@, p));
        assert(!(now > spec_get(pre.records.entries@, p).expiry));
    }
    assert forall|p: u64|
        spec_contains(post.records.entries@, p) <==> spec_contains(
        mid.records.entries@,
        p,
    ) by {
        if spec_contains(mid.records.entries@, p) {
            assert(!(now > spec_get(mid.records.entries@, p).expiry));
        }
    }
    lemma_same_keys_same_len(mid.records.entries@, post.records.entries@);
}

} // verus!
