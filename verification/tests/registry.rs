use attendance_reward::errors::Error;
use attendance_reward::registry::EducationRewardContract;
use attendance_reward::registry::TransferOrder;

const ADMIN: u64 = 1;
const TOKEN: u64 = 2;
const P1: u64 = 10;
const P2: u64 = 20;
const P3: u64 = 30;
const OUTSIDER: u64 = 99;

fn fresh(reward: i128, days: u64) -> EducationRewardContract {
    EducationRewardContract::initialize(ADMIN, TOKEN, reward, days)
}

#[test]
fn initialize_writes_configuration_and_zeroes_counters() {
    let r = fresh(100, 1);
    assert_eq!(r.config.admin, ADMIN);
    assert_eq!(r.config.token_contract, TOKEN);
    assert_eq!(r.config.reward_amount, 100);
    assert_eq!(r.config.token_expiry_days, 1);
    assert_eq!(r.get_total_participants(), 0);
    assert_eq!(r.get_total_rewards_distributed(), 0);
    assert!(r.get_participants().is_empty());
    assert!(r.get_participation(P1).is_none());
}

#[test]
fn participate_request_hands_back_the_transfer_to_perform() {
    let r = fresh(100, 1);
    let order = r
        .participate_request(P1, P1, &String::from("great course"))
        .unwrap();
    assert_eq!(
        order,
        TransferOrder {
            token: TOKEN,
            to: P1,
            amount: 100,
        }
    );
}

#[test]
fn participate_request_checks_in_order() {
    let mut r = fresh(100, 1);
    // caller must be the participant
    assert_eq!(
        r.participate_request(OUTSIDER, P1, &String::from("")),
        Err(Error::NotAuthorized)
    );
    // then the comment must be non-empty
    assert_eq!(
        r.participate_request(P1, P1, &String::from("")),
        Err(Error::InvalidComment)
    );
    // then the identity must not already hold a record
    let res = r.participate(P1, P1, String::from("ok"), 0, true);
    assert_eq!(res, Ok(()));
    assert_eq!(
        r.participate_request(P1, P1, &String::from("again")),
        Err(Error::AlreadyParticipated)
    );
}

#[test]
fn full_lifecycle_scenario() {
    // initialize, one successful participation, a refused repeat, expiry
    // after the one-day window, and a sweep that evicts the record
    let mut r = fresh(100, 1);
    let order = r
        .participate_request(P1, P1, &String::from("great course"))
        .unwrap();
    assert_eq!(order.amount, 100);
    // the host performed the 100-unit transfer to P1 and it succeeded
    let res = r.participate(P1, P1, String::from("great course"), 0, true);
    assert_eq!(res, Ok(()));
    assert_eq!(r.get_total_participants(), 1);
    assert_eq!(r.get_total_rewards_distributed(), 100);

    let rec = r.get_participation(P1).unwrap();
    assert_eq!(rec.participant, P1);
    assert_eq!(rec.timestamp, 0);
    assert_eq!(rec.comment, String::from("great course"));
    assert_eq!(rec.reward_amount, 100);
    assert!(rec.reward_claimed);
    assert_eq!(rec.expiry, 86400);

    let res2 = r.participate(P1, P1, String::from("again"), 5, true);
    assert_eq!(res2, Err(Error::AlreadyParticipated));
    assert_eq!(r.get_total_participants(), 1);

    // one day has passed
    assert!(r.is_token_expired(P1, 86401));
    assert_eq!(r.cleanup_expired_tokens(ADMIN, 86401), Ok(1));
    assert!(r.get_participation(P1).is_none());
    // the identity index is never pruned
    assert_eq!(r.get_participants(), vec![P1]);
    assert_eq!(r.get_total_participants(), 1);
    assert_eq!(r.get_total_rewards_distributed(), 100);
}

#[test]
fn participate_twice_yields_success_then_already_participated() {
    let mut r = fresh(100, 1);
    assert_eq!(r.participate(P1, P1, String::from("first"), 0, true), Ok(()));
    assert_eq!(
        r.participate(P1, P1, String::from("second"), 1, true),
        Err(Error::AlreadyParticipated)
    );
    // exactly one record for P1 afterwards
    assert!(r.get_participation(P1).is_some());
    assert_eq!(r.get_total_participants(), 1);
    assert_eq!(r.get_participants(), vec![P1]);
}

#[test]
fn expiry_is_exactly_timestamp_plus_window() {
    let mut r = fresh(7, 3);
    assert_eq!(r.participate(P1, P1, String::from("hi"), 1000, true), Ok(()));
    let rec = r.get_participation(P1).unwrap();
    assert_eq!(rec.expiry, 1000 + 3 * 86400);
    assert_eq!(rec.expiry, rec.timestamp + 3 * 86400);
}

#[test]
fn counters_track_each_captured_reward() {
    let mut r = fresh(100, 1);
    assert_eq!(r.participate(P1, P1, String::from("a"), 0, true), Ok(()));
    assert_eq!(r.participate(P2, P2, String::from("b"), 1, true), Ok(()));
    assert_eq!(r.update_reward_amount(ADMIN, 500), Ok(()));
    assert_eq!(r.participate(P3, P3, String::from("c"), 2, true), Ok(()));
    assert_eq!(r.get_total_participants(), 3);
    // 100 and 100 captured before the update, 500 after; earlier records
    // keep what they captured
    assert_eq!(r.get_total_rewards_distributed(), 100 + 100 + 500);
    assert_eq!(r.get_participation(P1).unwrap().reward_amount, 100);
    assert_eq!(r.get_participation(P3).unwrap().reward_amount, 500);
    assert_eq!(r.get_participants(), vec![P1, P2, P3]);
}

#[test]
fn transfer_failure_rolls_everything_back() {
    let mut r = fresh(100, 1);
    let res = r.participate(P1, P1, String::from("hello"), 0, false);
    assert_eq!(res, Err(Error::TokenTransferFailed));
    assert!(r.get_participation(P1).is_none());
    assert!(r.get_participants().is_empty());
    assert_eq!(r.get_total_participants(), 0);
    assert_eq!(r.get_total_rewards_distributed(), 0);
    // the failure is terminal for that invocation only: a retry may succeed
    assert_eq!(r.participate(P1, P1, String::from("hello"), 1, true), Ok(()));
}

#[test]
fn empty_comment_is_refused() {
    let mut r = fresh(100, 1);
    assert_eq!(
        r.participate(P1, P1, String::new(), 0, true),
        Err(Error::InvalidComment)
    );
    assert_eq!(r.get_total_participants(), 0);
}

#[test]
fn participate_for_someone_else_is_refused() {
    let mut r = fresh(100, 1);
    assert_eq!(
        r.participate(OUTSIDER, P1, String::from("hi"), 0, true),
        Err(Error::NotAuthorized)
    );
    assert!(r.get_participation(P1).is_none());
}

#[test]
fn expiry_check_is_strict_and_absence_is_not_expired() {
    let mut r = fresh(100, 1);
    // no record: not expired, whatever the time
    assert!(!r.is_token_expired(P1, 0));
    assert!(!r.is_token_expired(P1, u64::MAX));
    assert_eq!(r.participate(P1, P1, String::from("hi"), 100, true), Ok(()));
    // not expired before, at, and only strictly after the expiry instant
    assert!(!r.is_token_expired(P1, 86499));
    assert!(!r.is_token_expired(P1, 86500));
    assert!(r.is_token_expired(P1, 86501));
}

#[test]
fn cleanup_requires_the_admin() {
    let mut r = fresh(100, 1);
    assert_eq!(r.participate(P1, P1, String::from("hi"), 0, true), Ok(()));
    assert_eq!(
        r.cleanup_expired_tokens(OUTSIDER, u64::MAX),
        Err(Error::NotAuthorized)
    );
    assert!(r.get_participation(P1).is_some());
}

#[test]
fn cleanup_removes_only_expired_records() {
    let mut r = fresh(100, 1);
    assert_eq!(r.participate(P1, P1, String::from("a"), 0, true), Ok(()));
    assert_eq!(r.participate(P2, P2, String::from("b"), 50000, true), Ok(()));
    // at 100000 only P1's record (expiry 86400) is past its expiry
    assert_eq!(r.cleanup_expired_tokens(ADMIN, 100000), Ok(1));
    assert!(r.get_participation(P1).is_none());
    assert!(r.get_participation(P2).is_some());
}

#[test]
fn second_cleanup_removes_nothing_new() {
    let mut r = fresh(100, 1);
    assert_eq!(r.participate(P1, P1, String::from("a"), 0, true), Ok(()));
    assert_eq!(r.participate(P2, P2, String::from("b"), 10, true), Ok(()));
    assert_eq!(r.cleanup_expired_tokens(ADMIN, 90000), Ok(2));
    assert_eq!(r.cleanup_expired_tokens(ADMIN, 90000), Ok(0));
    assert_eq!(r.cleanup_expired_tokens(ADMIN, 90001), Ok(0));
}

#[test]
fn participation_is_legal_again_after_eviction() {
    let mut r = fresh(100, 1);
    assert_eq!(r.participate(P1, P1, String::from("a"), 0, true), Ok(()));
    assert_eq!(r.cleanup_expired_tokens(ADMIN, 86401), Ok(1));
    // the record is gone, so a fresh participation is admitted
    assert_eq!(
        r.participate(P1, P1, String::from("back"), 86500, true),
        Ok(())
    );
    assert_eq!(r.get_total_participants(), 2);
    // the index lists the identity once per successful participation
    assert_eq!(r.get_participants(), vec![P1, P1]);
}

#[test]
fn update_reward_amount_requires_the_admin() {
    let mut r = fresh(100, 1);
    assert_eq!(
        r.update_reward_amount(OUTSIDER, 500),
        Err(Error::NotAuthorized)
    );
    assert_eq!(r.config.reward_amount, 100);
    assert_eq!(r.update_reward_amount(ADMIN, 500), Ok(()));
    assert_eq!(r.config.reward_amount, 500);
}

#[test]
fn negative_and_zero_rewards_are_permitted() {
    // no bounds are put on the configured amount
    let mut r = fresh(0, 1);
    assert_eq!(r.participate(P1, P1, String::from("a"), 0, true), Ok(()));
    assert_eq!(r.get_total_rewards_distributed(), 0);
    assert_eq!(r.update_reward_amount(ADMIN, -5), Ok(()));
    assert_eq!(r.participate(P2, P2, String::from("b"), 0, true), Ok(()));
    assert_eq!(r.get_total_rewards_distributed(), -5);
}

#[test]
fn reserved_error_kinds_are_distinct() {
    // declared for future lookup-style failures; no current operation
    // raises either
    assert_ne!(Error::ParticipationNotFound, Error::TokenExpired);
    assert_ne!(Error::ParticipationNotFound, Error::NotAuthorized);
    assert_ne!(Error::TokenExpired, Error::AlreadyParticipated);
}
