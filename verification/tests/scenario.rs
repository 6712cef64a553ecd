//! End-to-end scenarios: a full timeout-and-disbursement run, and the
//! cancellation that re-enters the grace window.

use deadman_switch::classify::Classification;
use deadman_switch::disburse::{TransferDecision, TransferRequest};
use deadman_switch::disburse::disbursement_outcome;
use deadman_switch::disburse::evaluate_transfer;
use deadman_switch::results::{AccountInfoResult, Result_, SwitchError, TimeoutStatusResult};
use deadman_switch::state::DeadManSwitchState;
use deadman_switch::types::{RegisterArgs, UserAccount};

fn registered_state() -> DeadManSwitchState {
    let mut s = DeadManSwitchState::default();
    let r = s.register(1, 0, RegisterArgs { timeout_duration_seconds: 100, beneficiary: 2 });
    assert!(matches!(r, Result_::ok));
    let r = s.update_contestation_period(1, 0, 50);
    assert!(matches!(r, Result_::ok));
    let r = s.set_mock_balance(1, 0, 1000);
    assert!(matches!(r, Result_::ok));
    s
}

fn account_of(s: &DeadManSwitchState, owner: u64) -> UserAccount {
    match s.get_account_info(owner) {
        AccountInfoResult::ok(a) => a,
        AccountInfoResult::err(e) => panic!("expected an account, got {:?}", e),
    }
}

#[test]
fn end_to_end_timeout_disburses_and_removes() {
    let mut s = registered_state();

    // A tick at t=150 observes the timeout (elapsed 150 >= 100): the
    // marker is persisted at the observation instant and the grace window
    // runs to 200. Nothing is disbursable yet.
    let due = s.tick(150);
    assert_eq!(due.len(), 0);
    let a = account_of(&s, 1);
    assert_eq!(a.timeout_detected_at, Some(150));

    // At t=180 the status query reports the open window.
    match s.get_timeout_status(1, 180) {
        TimeoutStatusResult::ok(st) => {
            assert!(st.timeout_reached);
            assert!(st.in_grace_period);
            assert_eq!(st.grace_period_end, 200);
            assert_eq!(st.time_until_transfer, 20);
            assert_eq!(st.time_until_timeout, 0);
        }
        TimeoutStatusResult::err(e) => panic!("expected a status, got {:?}", e),
    }

    // At t=210 the window has elapsed: the tick hands the account over.
    let due = s.tick(210);
    assert_eq!(due.len(), 1);
    let snapshot = &due[0];
    let legs: Vec<TransferRequest> = match evaluate_transfer(snapshot, 210) {
        TransferDecision::Proceed(legs) => legs,
        other => panic!("expected transfers, got {:?}", other),
    };
    assert_eq!(legs.len(), 1);
    assert_eq!(legs[0].to, 2);
    assert_eq!(legs[0].amount, 1000);

    // The host performs the one transfer and reports its receipt.
    let results: Vec<Option<u64>> = vec![Some(42)];
    let outcome = disbursement_outcome(snapshot, &legs, &results).expect("one leg succeeded");
    assert!(outcome.success);
    assert_eq!(outcome.block_index, Some(42));
    assert_eq!(outcome.total_transferred, 1000);

    // Committing the success removes the account for good.
    s.finish_disbursement(1, true);
    assert!(matches!(
        s.get_account_info(1),
        AccountInfoResult::err(SwitchError::NotRegistered)
    ));
}

#[test]
fn cancellation_reenters_grace_without_resetting_heartbeat() {
    let mut s = registered_state();

    let due = s.tick(150);
    assert_eq!(due.len(), 0);
    assert_eq!(account_of(&s, 1).timeout_detected_at, Some(150));

    // The owner cancels at t=160: the marker is cleared, but the
    // heartbeat clock is not restarted.
    let r = s.cancel_timeout_transfer(1, 160);
    assert!(matches!(r, Result_::ok));
    let a = account_of(&s, 1);
    assert_eq!(a.timeout_detected_at, None);
    assert_eq!(a.last_heartbeat, 0);

    // At t=210 the elapsed time is still past the interval, so the
    // account re-enters grace with a fresh marker; nothing is disbursed.
    let due = s.tick(210);
    assert_eq!(due.len(), 0);
    let a = account_of(&s, 1);
    assert_eq!(a.timeout_detected_at, Some(210));
    assert_eq!(a.balance, 1000);

    // Only once the new window has elapsed does a tick hand it over.
    let due = s.tick(260);
    assert_eq!(due.len(), 1);
    assert!(matches!(
        evaluate_transfer(&due[0], 260),
        TransferDecision::Proceed(_)
    ));
}

#[test]
fn trusted_party_cancels_for_owner() {
    let mut s = registered_state();
    let r = s.add_trusted_party(1, 0, 5);
    assert!(matches!(r, Result_::ok));

    s.tick(150);
    assert_eq!(account_of(&s, 1).timeout_detected_at, Some(150));

    // Identity 5 has no account of its own; it acts as a trusted party.
    let r = s.cancel_timeout_transfer(5, 170);
    assert!(matches!(r, Result_::ok));
    assert_eq!(account_of(&s, 1).timeout_detected_at, None);
}

#[test]
fn stranger_cannot_cancel() {
    let mut s = registered_state();
    s.tick(150);
    let r = s.cancel_timeout_transfer(6, 170);
    assert!(matches!(r, Result_::err(SwitchError::NotAuthorized)));
    assert_eq!(account_of(&s, 1).timeout_detected_at, Some(150));
}

#[test]
fn failed_disbursement_keeps_the_account_for_the_next_pass() {
    let mut s = registered_state();
    s.tick(150);

    let due = s.tick(210);
    assert_eq!(due.len(), 1);
    let legs = match evaluate_transfer(&due[0], 210) {
        TransferDecision::Proceed(legs) => legs,
        other => panic!("expected transfers, got {:?}", other),
    };

    // The ledger was unreachable: every leg failed.
    let results: Vec<Option<u64>> = vec![None];
    let outcome = disbursement_outcome(&due[0], &legs, &results);
    assert!(outcome.is_err());
    s.finish_disbursement(1, false);

    // The account is still there, marker and balance untouched, and the
    // next pass picks it up again.
    let a = account_of(&s, 1);
    assert_eq!(a.timeout_detected_at, Some(150));
    assert_eq!(a.balance, 1000);
    let due = s.tick(270);
    assert_eq!(due.len(), 1);
}

#[test]
fn heartbeat_aborts_even_when_disbursable() {
    let mut s = registered_state();
    s.tick(150);

    // At t=210 the account is disbursable; a heartbeat still aborts.
    let r = s.heartbeat(1, 210);
    match r {
        deadman_switch::results::HeartbeatResult::ok(resp) => {
            assert!(resp.success);
            assert_eq!(resp.next_heartbeat_due, 310);
        }
        deadman_switch::results::HeartbeatResult::err(e) => panic!("unexpected {:?}", e),
    }
    let a = account_of(&s, 1);
    assert_eq!(a.timeout_detected_at, None);
    assert_eq!(a.last_heartbeat, 210);
    assert_eq!(deadman_switch::classify::classify(210, &a), Classification::Alive);

    let due = s.tick(210);
    assert_eq!(due.len(), 0);
}
