//! The participation engine: admission control, reward capture, the
//! administrator-gated configuration update, and the expiry sweep.

use vstd::prelude::*;

use crate::config::Configuration;
use crate::config::SECONDS_PER_DAY;
use crate::errors::Error;
use crate::record::ParticipationData;
use crate::store::RecordStore;
use crate::store::spec_contains;
use crate::store::spec_get;
use crate::store::unique_participants;

verus! {

/// The sum of a sequence of reward amounts.
pub open spec fn sum_i128(s: Seq<i128>) -> int
    decreases s.len(),
{
    if s.len() == 0 {
        0
    } else {
        sum_i128(s.drop_last()) + s.last()
    }
}

/// The registry: the configuration store, the record store, and the ghost
/// history of the reward captured by each successful participation, in order.
pub struct EducationRewardContract {
    /// The always-resident configuration singleton.
    pub config: Configuration,
    /// The keyed record store, one record per currently-active identity.
    pub records: RecordStore,
    /// The rewards captured by every successful participation, oldest first.
    pub history: Ghost<Seq<i128>>,
}

impl EducationRewardContract {
    /// The registry's invariant, established by `initialize` and preserved
    /// by every operation.
    pub open spec fn wf(self) -> bool {
        &&& unique_participants(self.records.entries@)
        &&& forall|i: int|
            0 <= i < self.records.entries@.len() ==> self.config.participant_index@.contains(
                (#[trigger] self.records.entries@[i]).participant,
            )
        &&& forall|i: int|
            0 <= i < self.records.entries@.len() ==> record_valid(
                #[trigger] self.records.entries@[i],
                self.config.token_expiry_days,
            )
        &&& self.config.total_participants as int == self.config.participant_index@.len()
        &&& self.config.total_participants as int == self.history@.len()
        &&& self.config.total_rewards_distributed as int == sum_i128(self.history@)
        &&& self.records.entries@.len() <= self.config.total_participants as int
    }
}

/// What holds of every stored record: a non-empty comment, the reward marked
/// granted, and the expiry standing exactly one window after creation.
pub open spec fn record_valid(rec: ParticipationData, expiry_days: u64) -> bool {
    &&& rec.comment@.len() > 0
    &&& rec.reward_claimed == true
    &&& rec.expiry == rec.timestamp + expiry_days * SECONDS_PER_DAY
}

/// The transfer the participation engine asks the external token service to
/// perform: `amount` units from the registry's own pooled balance to `to`,
/// through the service `token` names.
#[derive(Clone, Copy, Debug, PartialEq, Eq, Structural)]
pub struct TransferOrder {
    /// Handle of the token-transfer service.
    pub token: u64,
    /// The participant being rewarded.
    pub to: u64,
    /// The amount to move.
    pub amount: i128,
}

/// The admission checks of `participate`, in the order they are made:
/// the caller must be the participant, the comment must be non-empty, and
/// the participant must not already hold a record.
pub open spec fn participate_check(
    pre: EducationRewardContract,
    caller: u64,
    participant: u64,
    comment: Seq<char>,
) -> Result<(), Error> {
    if caller != participant {
        Err(Error::NotAuthorized)
    } else if comment.len() == 0 {
        Err(Error::InvalidComment)
    } else if spec_contains(pre.records.entries@, participant) {
        Err(Error::AlreadyParticipated)
    } else {
        Ok(())
    }
}

/// The machine limits a committing participation must respect: the counter,
/// the running reward sum and the expiry timestamp must all fit their types.
pub open spec fn commit_fits(pre: EducationRewardContract, now: u64) -> bool {
    &&& pre.config.total_participants < u32::MAX
    &&& i128::MIN <= pre.config.total_rewards_distributed + pre.config.reward_amount
        <= i128::MAX
    &&& now + pre.config.token_expiry_days * SECONDS_PER_DAY <= u64::MAX
}

/// The committed outcome of a successful participation: one new record at
/// the end of the store, the participant appended to the index, both
/// counters advanced by the captured reward, everything else untouched.
pub open spec fn participate_commit_rel(
    pre: EducationRewardContract,
    post: EducationRewardContract,
    participant: u64,
    comment: Seq<char>,
    now: u64,
) -> bool {
    &&& post.records.entries@.len() == pre.records.entries@.len() + 1
    &&& post.records.entries@.drop_last() == pre.records.entries@
    &&& ({
        let rec = post.records.entries@.last();
        &&& rec.participant == participant
        &&& rec.timestamp == now
        &&& rec.comment@ == comment
        &&& rec.reward_amount == pre.config.reward_amount
        &&& rec.reward_claimed == true
        &&& rec.expiry == now + pre.config.token_expiry_days * SECONDS_PER_DAY
    })
    &&& post.config.participant_index@ == pre.config.participant_index@.push(participant)
    &&& post.config.total_participants == pre.config.total_participants + 1
    &&& post.config.total_rewards_distributed == pre.config.total_rewards_distributed
        + pre.config.reward_amount
    &&& post.config.admin == pre.config.admin
    &&& post.config.token_contract == pre.config.token_contract
    &&& post.config.reward_amount == pre.config.reward_amount
    &&& post.config.token_expiry_days == pre.config.token_expiry_days
    &&& post.history@ == pre.history@.push(pre.config.reward_amount)
}

/// Everything `participate` may do, as a relation between the state before
/// and after: a failed admission check surfaces its error and changes
/// nothing; a failed transfer surfaces `TokenTransferFailed` and changes
/// nothing; a successful transfer commits the whole bookkeeping as one unit.
pub open spec fn participate_rel(
    pre: EducationRewardContract,
    post: EducationRewardContract,
    caller: u64,
    participant: u64,
    comment: Seq<char>,
    now: u64,
    transfer_ok: bool,
    result: Result<(), Error>,
) -> bool {
    match participate_check(pre, caller, participant, comment) {
        Err(e) => result == Err::<(), Error>(e) && post == pre,
        Ok(()) => if !transfer_ok {
            result == Err::<(), Error>(Error::TokenTransferFailed) && post == pre
        } else {
            result == Ok::<(), Error>(()) && participate_commit_rel(
                pre,
                post,
                participant,
                comment,
                now,
            )
        },
    }
}

/// Everything `update_reward_amount` may do: a caller other than the admin
/// is refused and nothing changes; the admin overwrites the reward amount
/// and nothing else.
pub open spec fn update_rel(
    pre: EducationRewardContract,
    post: EducationRewardContract,
    caller: u64,
    new_amount: i128,
    result: Result<(), Error>,
) -> bool {
    if caller != pre.config.admin {
        result == Err::<(), Error>(Error::NotAuthorized) && post == pre
    } else {
        &&& result == Ok::<(), Error>(())
        &&& post.config.reward_amount == new_amount
        &&& post.config.admin == pre.config.admin
        &&& post.config.token_contract == pre.config.token_contract
        &&& post.config.token_expiry_days == pre.config.token_expiry_days
        &&& post.config.total_participants == pre.config.total_participants
        &&& post.config.total_rewards_distributed == pre.config.total_rewards_distributed
        &&& post.config.participant_index@ == pre.config.participant_index@
        &&& post.records == pre.records
        &&& post.history == pre.history
    }
}

/// What one sweep at time `now` does to the record seqs: a key survives
/// exactly when it was present and not yet strictly past its expiry, and a
/// surviving key keeps its record.
pub open spec fn swept_rel(
    pre: Seq<ParticipationData>,
    post: Seq<ParticipationData>,
    now: u64,
) -> bool {
    &&& forall|p: u64|
        spec_contains(post, p) <==> (spec_contains(pre, p) && !(now > spec_get(pre, p).expiry))
    &&& forall|p: u64| spec_contains(post, p) ==> spec_get(post, p) == spec_get(pre, p)
}

/// The sweep's intermediate state, after the identities in `visited` have
/// been examined: a key is still present exactly when it was present before
/// the sweep and has not yet been evicted — that is, unless its record was
/// strictly past its expiry and its identity has been visited — and every
/// surviving key keeps its record.
pub open spec fn sweep_progress(
    pre: Seq<ParticipationData>,
    cur: Seq<ParticipationData>,
    visited: Seq<u64>,
    now: u64,
) -> bool {
    &&& forall|p: u64|
        spec_contains(cur, p) <==> (spec_contains(pre, p) && !(now > spec_get(pre, p).expiry
            && visited.contains(p)))
    &&& forall|p: u64| spec_contains(cur, p) ==> spec_get(cur, p) == spec_get(pre, p)
}

/// Everything `cleanup_expired_tokens` may do: a caller other than the admin
/// is refused and nothing changes; the admin evicts exactly the expired
/// records and is told how many, while the configuration — the participant
/// index included — stays as it was.
pub open spec fn cleanup_rel(
    pre: EducationRewardContract,
    post: EducationRewardContract,
    caller: u64,
    now: u64,
    result: Result<u32, Error>,
) -> bool {
    if caller != pre.config.admin {
        result == Err::<u32, Error>(Error::NotAuthorized) && post == pre
    } else {
        &&& post.config == pre.config
        &&& post.history == pre.history
        &&& unique_participants(post.records.entries@)
        &&& swept_rel(pre.records.entries@, post.records.entries@, now)
        &&& post.records.entries@.len() <= pre.records.entries@.len()
        &&& result == Ok::<u32, Error>(
            ((pre.records.entries@.len() - post.records.entries@.len()) as u32),
        )
    }
}

/// `sum_i128` distributes over `push`.
proof fn lemma_sum_push(s: Seq<i128>, x: i128)
    ensures
        sum_i128(s.push(x)) == sum_i128(s) + x,
{
    assert(s.push(x).drop_last() =~= s);
    assert(s.push(x).last() == x);
}

impl EducationRewardContract {
    /// Creates the registry: writes the full configuration singleton, zeroes
    /// both counters and establishes an empty identity index and an empty
    /// record store. The host must have authenticated the caller as `admin`
    /// before invoking this, and must guarantee a single invocation: a second
    /// call builds a fresh registry with no memory of the first.
    pub fn initialize(
        admin: u64,
        token_contract: u64,
        reward_amount: i128,
        token_expiry_days: u64,
    ) -> (r: EducationRewardContract)
        ensures
            r.wf(),
            r.config.admin == admin,
            r.config.token_contract == token_contract,
            r.config.reward_amount == reward_amount,
            r.config.token_expiry_days == token_expiry_days,
            r.config.total_participants == 0,
            r.config.total_rewards_distributed == 0,
            r.config.participant_index@ == Seq::<u64>::empty(),
            r.records.entries@ == Seq::<ParticipationData>::empty(),
            r.history@ == Seq::<i128>::empty(),
    {
        let r = EducationRewardContract {
            config: Configuration {
                admin,
                token_contract,
                reward_amount,
                token_expiry_days,
                total_participants: 0,
                total_rewards_distributed: 0,
                participant_index: Vec::new(),
            },
            records: RecordStore::new(),
            history: Ghost(Seq::empty()),
        };
        r
    }

    /// Validates a participation request and, when it is admissible, hands
    /// back the transfer the host must perform before committing: the
    /// current reward amount, from the registry's pooled balance to the
    /// participant. Nothing is written.
    pub fn participate_request(&self, caller: u64, participant: u64, comment: &String) -> (r:
        Result<TransferOrder, Error>)
        ensures
            match participate_check(*self, caller, participant, comment@) {
                Ok(()) => r == Ok::<TransferOrder, Error>(
                    (TransferOrder {
                        token: self.config.token_contract,
                        to: participant,
                        amount: self.config.reward_amount,
                    }),
                ),
                Err(e) => r == Err::<TransferOrder, Error>(e),
            },
    {
        if caller != participant {
            return Err(Error::NotAuthorized);
        }
        if comment.as_str().is_empty() {
            return Err(Error::InvalidComment);
        }
        if self.records.contains(participant) {
            return Err(Error::AlreadyParticipated);
        }
        Ok(
            TransferOrder {
                token: self.config.token_contract,
                to: participant,
                amount: self.config.reward_amount,
            },
        )
    }

    /// The participation state machine's committing step. `transfer_ok` is
    /// the outcome the external token service reported for the transfer that
    /// `participate_request` asked for; the host performs that transfer and
    /// hands the outcome back here. The admission checks are re-made in the
    /// same order, so the call is safe on its own: any failed check surfaces
    /// its error, a failed transfer surfaces `TokenTransferFailed`, and in
    /// either case nothing is written. Only after every check has passed and
    /// the transfer succeeded are the record, the index entry and both
    /// counters committed, as one unit.
    pub fn participate(
        &mut self,
        caller: u64,
        participant: u64,
        comment: String,
        now: u64,
        transfer_ok: bool,
    ) -> (r: Result<(), Error>)
        requires
            old(self).wf(),
            participate_check(*old(self), caller, participant, comment@) is Ok ==> commit_fits(
                *old(self),
                now,
            ),
        ensures
            participate_rel(*old(self), *final(self), caller, participant, comment@, now,
                transfer_ok, r),
            final(self).wf(),
    {
        if caller != participant {
            return Err(Error::NotAuthorized);
        }
        if comment.as_str().is_empty() {
            return Err(Error::InvalidComment);
        }
        if self.records.contains(participant) {
            return Err(Error::AlreadyParticipated);
        }
        if !transfer_ok {
            return Err(Error::TokenTransferFailed);
        }
        let ghost pre = *self;
        let reward_amount: i128 = self.config.reward_amount;
        let expiry: u64 = now + self.config.token_expiry_days * SECONDS_PER_DAY;
        let rec = ParticipationData {
            participant,
            timestamp: now,
            comment,
            reward_amount,
            reward_claimed: true,
            expiry,
        };
        self.records.insert(rec);
        self.config.participant_index.push(participant);
        self.config.total_participants = self.config.total_participants + 1;
        self.config.total_rewards_distributed = self.config.total_rewards_distributed
            + reward_amount;
        proof {
            self.history@ = self.history@.push(reward_amount);
            lemma_sum_push(pre.history@, reward_amount);
            assert(self.records.entries@.drop_last() =~= pre.records.entries@);
            assert forall|i: int|
                0 <= i < self.records.entries@.len() implies self.config.participant_index@
                .contains((#[trigger] self.records.entries@[i]).participant) by {
                if i < pre.records.entries@.len() {
                    assert(self.records.entries@[i] == pre.records.entries@[i]);
                    let k = choose|k: int|
                        0 <= k < pre.config.participant_index@.len()
                            && pre.config.participant_index@[k] == pre.records.entries@[i].participant;
                    assert(self.config.participant_index@[k] == pre.records.entries@[i].participant);
                } else {
                    assert(self.records.entries@[i] == self.records.entries@.last());
                    let n = pre.config.participant_index@.len();
                    assert(self.config.participant_index@[n as int] == participant);
                }
            }
        }
        Ok(())
    }

    /// The record for `participant`, if one exists; absence is not an error.
    pub fn get_participation(&self, participant: u64) -> (r: Option<ParticipationData>)
        requires
            self.wf(),
        ensures
            match r {
                Some(rec) => spec_contains(self.records.entries@, participant) && rec == spec_get(
                    self.records.entries@,
                    participant,
                ),
                None => !spec_contains(self.records.entries@, participant),
            },
    {
        self.records.get(participant)
    }

    /// The full identity index, in insertion order.
    pub fn get_participants(&self) -> (r: Vec<u64>)
        ensures
            r@ == self.config.participant_index@,
    {
        let mut out: Vec<u64> = Vec::new();
        let mut i: usize = 0;
        while i < self.config.participant_index.len()
            invariant
                i <= self.config.participant_index@.len(),
                out@ == self.config.participant_index@.take(i as int),
            decreases self.config.participant_index@.len() - i,
        {
            let id: u64 = self.config.participant_index[i];
            out.push(id);
            proof {
                assert(self.config.participant_index@.take(i + 1) =~= self.config
                    .participant_index@.take(i as int).push(id));
            }
            i = i + 1;
        }
        proof {
            assert(self.config.participant_index@.take(i as int) =~= self.config
                .participant_index@);
        }
        out
    }

    /// The running count of successful participations.
    pub fn get_total_participants(&self) -> (r: u32)
        ensures
            r == self.config.total_participants,
    {
        self.config.total_participants
    }

    /// The running sum of the rewards captured at each participation.
    pub fn get_total_rewards_distributed(&self) -> (r: i128)
        ensures
            r == self.config.total_rewards_distributed,
    {
        self.config.total_rewards_distributed
    }

    /// Overwrites the reward amount for future participations. Only the
    /// administrator may do so; records already issued keep the amount they
    /// captured.
    pub fn update_reward_amount(&mut self, caller: u64, new_amount: i128) -> (r: Result<
        (),
        Error,
    >)
        requires
            old(self).wf(),
        ensures
            update_rel(*old(self), *final(self), caller, new_amount, r),
            final(self).wf(),
    {
        if caller != self.config.admin {
            return Err(Error::NotAuthorized);
        }
        let ghost pre = *self;
        self.config.reward_amount = new_amount;
        proof {
            assert forall|i: int|
                0 <= i < self.records.entries@.len() implies record_valid(
                #[trigger] self.records.entries@[i],
                self.config.token_expiry_days,
            ) by {
                assert(record_valid(pre.records.entries@[i], pre.config.token_expiry_days));
            }
        }
        Ok(())
    }

    /// Whether `participant`'s record is stale at time `now`: true exactly
    /// when a record exists and `now` lies strictly after its expiry. An
    /// absent record is not expired, and a record is not expired at its
    /// expiry instant itself.
    pub fn is_token_expired(&self, participant: u64, now: u64) -> (r: bool)
        requires
            self.wf(),
        ensures
            r == (spec_contains(self.records.entries@, participant) && now > spec_get(
                self.records.entries@,
                participant,
            ).expiry),
    {
        match self.get_participation(participant) {
            Some(data) => now > data.expiry,
            None => false,
        }
    }

    /// The expiry sweep: walks the full identity index, re-derives each
    /// identity's expiry status, evicts every record strictly past its
    /// expiry, and returns the count evicted. Only the administrator may
    /// sweep. The index itself is never pruned: an evicted identity stays
    /// listed, and visiting it again is a cheap no-op.
    pub fn cleanup_expired_tokens(&mut self, caller: u64, now: u64) -> (r: Result<u32, Error>)
        requires
            old(self).wf(),
        ensures
            cleanup_rel(*old(self), *final(self), caller, now, r),
            final(self).wf(),
    {
        if caller != self.config.admin {
            return Err(Error::NotAuthorized);
        }
        let ghost pre = *self;
        let mut cleaned: u32 = 0;
        let mut k: usize = 0;
        while k < self.config.participant_index.len()
            invariant
                self.wf(),
                pre.wf(),
                self.config == pre.config,
                self.history == pre.history,
                k <= pre.config.participant_index@.len(),
                cleaned as int + self.records.entries@.len() == pre.records.entries@.len(),
                sweep_progress(
                    pre.records.entries@,
                    self.records.entries@,
                    pre.config.participant_index@.take(k as int),
                    now,
                ),
            decreases pre.config.participant_index@.len() - k,
        {
            let p: u64 = self.config.participant_index[k];
            let ghost before = *self;
            let expired = self.is_token_expired(p, now);
            if expired {
                let removed = self.records.remove(p);
                proof {
                    assert(removed);
                }
                cleaned = cleaned + 1;
            }
            proof {
                let idx = pre.config.participant_index@;
                assert(idx.take(k + 1) =~= idx.take(k as int).push(p));
                assert forall|q: u64|
                    spec_contains(self.records.entries@, q) <==> (spec_contains(
                        pre.records.entries@,
                        q,
                    ) && !(now > spec_get(pre.records.entries@, q).expiry && idx.take(
                        k + 1,
                    ).contains(q))) by {
                    vstd::seq_lib::lemma_seq_contains_after_push(idx.take(k as int), p, q);
                    assert(spec_contains(before.records.entries@, q) <==> (spec_contains(
                        pre.records.entries@,
                        q,
                    ) && !(now > spec_get(pre.records.entries@, q).expiry && idx.take(
                        k as int,
                    ).contains(q))));
                    if spec_contains(before.records.entries@, q) {
                        assert(spec_get(before.records.entries@, q) == spec_get(
                            pre.records.entries@,
                            q,
                        ));
                    }
                    if q == p {
                        if expired {
                            assert(spec_contains(before.records.entries@, p));
                            assert(spec_contains(pre.records.entries@, p));
                            assert(spec_get(before.records.entries@, p) == spec_get(
                                pre.records.entries@,
                                p,
                            ));
                            assert(!spec_contains(self.records.entries@, p));
                        } else {
                            assert(self.records.entries@ == before.records.entries@);
                            if spec_contains(before.records.entries@, p) {
                                assert(spec_get(before.records.entries@, p) == spec_get(
                                    pre.records.entries@,
                                    p,
                                ));
                                assert(!(now > spec_get(pre.records.entries@, p).expiry));
                                assert(spec_contains(pre.records.entries@, p));
                            } else {
                                assert(!(spec_contains(pre.records.entries@, p) && !(now
                                    > spec_get(pre.records.entries@, p).expiry && idx.take(
                                    k as int,
                                ).contains(p))));
                            }
                        }
                    } else {
                        assert(spec_contains(self.records.entries@, q) == spec_contains(
                            before.records.entries@,
                            q,
                        ));
                        assert(idx.take(k + 1).contains(q) == idx.take(k as int).contains(q));
                    }
                }
                assert forall|q: u64|
                    spec_contains(self.records.entries@, q) implies spec_get(
                    self.records.entries@,
                    q,
                ) == spec_get(pre.records.entries@, q) by {
                    if q != p {
                        assert(spec_contains(before.records.entries@, q));
                        assert(spec_get(self.records.entries@, q) == spec_get(
                            before.records.entries@,
                            q,
                        ));
                    } else {
                        assert(!expired);
                        assert(spec_contains(before.records.entries@, q));
                        assert(spec_get(self.records.entries@, q) == spec_get(
                            before.records.entries@,
                            q,
                        ));
                    }
                    assert(spec_get(before.records.entries@, q) == spec_get(
                        pre.records.entries@,
                        q,
                    ));
                }
                assert(sweep_progress(
                    pre.records.entries@,
                    self.records.entries@,
                    idx.take(k + 1),
                    now,
                ));
                assert forall|i: int|
                    0 <= i < self.records.entries@.len() implies self.config.participant_index@
                    .contains((#[trigger] self.records.entries@[i]).participant) by {
                    let q = self.records.entries@[i].participant;
                    crate::store::lemma_found_is_get(self.records.entries@, i, q);
                    assert(spec_contains(pre.records.entries@, q));
                    assert(pre.config.participant_index@.contains(
                        spec_get(pre.records.entries@, q).participant,
                    ));
                }
                assert forall|i: int|
                    0 <= i < self.records.entries@.len() implies record_valid(
                    #[trigger] self.records.entries@[i],
                    self.config.token_expiry_days,
                ) by {
                    let q = self.records.entries@[i].participant;
                    crate::store::lemma_found_is_get(self.records.entries@, i, q);
                    assert(spec_get(self.records.entries@, q) == spec_get(
                        pre.records.entries@,
                        q,
                    ));
                }
            }
            k = k + 1;
        }
        proof {
            assert(pre.config.participant_index@.take(k as int) =~= pre.config
                .participant_index@);
            assert forall|p: u64|
                spec_contains(pre.records.entries@, p) && now > spec_get(
                    pre.records.entries@,
                    p,
                ).expiry implies pre.config.participant_index@.contains(p) by {
                let i = crate::store::index_of(pre.records.entries@, p);
                assert(0 <= i < pre.records.entries@.len() && pre.records.entries@[i].participant
                    == p);
                assert(pre.config.participant_index@.contains(pre.records.entries@[i].participant));
            }
        }
        Ok(cleaned)
    }
}

} // verus!
