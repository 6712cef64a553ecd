//! The classification machine on concrete values: alive accounts carry no
//! marker, classification is pure and idempotent, and the status report
//! matches the rule book.

use deadman_switch::classify::{classify, timeout_status, Classification};
use deadman_switch::results::{AccountInfoResult, Result_};
use deadman_switch::state::DeadManSwitchState;
use deadman_switch::types::{RegisterArgs, UserAccount};

fn plain_account() -> UserAccount {
    UserAccount {
        principal: 1,
        last_heartbeat: 0,
        timeout_duration_seconds: 100,
        beneficiary: 2,
        beneficiaries: Vec::new(),
        balance: 0,
        transaction_history: Vec::new(),
        contestation_period_seconds: 50,
        timeout_detected_at: None,
        trusted_parties: Vec::new(),
    }
}

fn account_of(s: &DeadManSwitchState, owner: u64) -> UserAccount {
    match s.get_account_info(owner) {
        AccountInfoResult::ok(a) => a,
        AccountInfoResult::err(e) => panic!("expected an account, got {:?}", e),
    }
}

#[test]
fn classification_walks_through_the_states() {
    let mut a = plain_account();
    assert_eq!(classify(0, &a), Classification::Alive);
    assert_eq!(classify(99, &a), Classification::Alive);
    // Reached but not yet persisted: a fresh detection.
    assert_eq!(classify(100, &a), Classification::GraceActive);
    a.timeout_detected_at = Some(100);
    assert_eq!(classify(100, &a), Classification::GraceActive);
    assert_eq!(classify(149, &a), Classification::GraceActive);
    assert_eq!(classify(150, &a), Classification::Disbursable);
}

#[test]
fn classification_is_pure() {
    let a = plain_account();
    let first = classify(123, &a);
    let second = classify(123, &a);
    assert_eq!(first, second);
}

#[test]
fn a_clock_reading_before_the_heartbeat_counts_as_alive() {
    let mut a = plain_account();
    a.last_heartbeat = 500;
    assert_eq!(classify(400, &a), Classification::Alive);
}

#[test]
fn alive_accounts_carry_no_marker() {
    let mut s = DeadManSwitchState::default();
    let r = s.register(1, 0, RegisterArgs { timeout_duration_seconds: 100, beneficiary: 2 });
    assert!(matches!(r, Result_::ok));

    // Ticks while the interval has not elapsed persist nothing.
    s.tick(30);
    s.tick(99);
    assert_eq!(account_of(&s, 1).timeout_detected_at, None);
}

#[test]
fn a_second_pass_at_the_same_instant_changes_nothing() {
    let mut s = DeadManSwitchState::default();
    let r = s.register(1, 0, RegisterArgs { timeout_duration_seconds: 100, beneficiary: 2 });
    assert!(matches!(r, Result_::ok));
    assert!(matches!(s.update_contestation_period(1, 0, 50), Result_::ok));

    s.tick(150);
    let once = account_of(&s, 1);
    s.tick(150);
    let twice = account_of(&s, 1);

    // The marker is not re-set and the detection is not logged again.
    assert_eq!(once.timeout_detected_at, twice.timeout_detected_at);
    assert_eq!(once.transaction_history, twice.transaction_history);
    assert_eq!(once.last_heartbeat, twice.last_heartbeat);
}

#[test]
fn status_report_before_and_inside_the_window() {
    let mut a = plain_account();

    let st = timeout_status(40, &a);
    assert!(!st.timeout_reached);
    assert!(!st.in_grace_period);
    assert_eq!(st.time_until_timeout, 60);
    assert_eq!(st.time_until_transfer, 0);
    assert_eq!(st.grace_period_end, 0);
    assert_eq!(st.last_heartbeat, 0);
    assert_eq!(st.timeout_duration, 100);
    assert_eq!(st.contestation_period, 50);

    a.timeout_detected_at = Some(150);
    let st = timeout_status(180, &a);
    assert!(st.timeout_reached);
    assert!(st.in_grace_period);
    assert_eq!(st.time_until_timeout, 0);
    assert_eq!(st.time_until_transfer, 20);
    assert_eq!(st.grace_period_end, 200);

    let st = timeout_status(200, &a);
    assert!(st.timeout_reached);
    assert!(!st.in_grace_period);
    assert_eq!(st.time_until_transfer, 0);
}

#[test]
fn status_report_of_an_unpersisted_timeout_uses_the_theoretical_window() {
    let a = plain_account();
    // Reached at 120 with no marker: the report anchors the window at the
    // theoretical detection instant, 100.
    let st = timeout_status(120, &a);
    assert!(st.timeout_reached);
    assert!(st.in_grace_period);
    assert_eq!(st.grace_period_end, 150);
    assert_eq!(st.time_until_transfer, 30);
}
