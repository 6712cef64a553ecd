//! The boundary operations: registration, heartbeats, balances,
//! settings, trusted parties, withdrawal, and every refusal each of them
//! can answer with.

use deadman_switch::results::{
    AccountInfoResult, BalanceResult, HeartbeatResult, Result_, SwitchError,
    TransactionHistoryResult,
};
use deadman_switch::state::DeadManSwitchState;
use deadman_switch::types::{EventKind, RegisterArgs, UserAccount, HISTORY_CAPACITY};

fn fresh() -> DeadManSwitchState {
    let mut s = DeadManSwitchState::default();
    let r = s.register(1, 0, RegisterArgs { timeout_duration_seconds: 100, beneficiary: 2 });
    assert!(matches!(r, Result_::ok));
    s
}

fn account_of(s: &DeadManSwitchState, owner: u64) -> UserAccount {
    match s.get_account_info(owner) {
        AccountInfoResult::ok(a) => a,
        AccountInfoResult::err(e) => panic!("expected an account, got {:?}", e),
    }
}

#[test]
fn register_rejects_anonymous_caller() {
    let mut s = DeadManSwitchState::default();
    let r = s.register(0, 0, RegisterArgs { timeout_duration_seconds: 100, beneficiary: 2 });
    assert_eq!(r, Result_::err(SwitchError::AnonymousCaller));
}

#[test]
fn register_rejects_zero_interval() {
    let mut s = DeadManSwitchState::default();
    let r = s.register(1, 0, RegisterArgs { timeout_duration_seconds: 0, beneficiary: 2 });
    assert_eq!(r, Result_::err(SwitchError::ZeroTimeout));
}

#[test]
fn register_rejects_double_registration() {
    let mut s = fresh();
    let r = s.register(1, 9, RegisterArgs { timeout_duration_seconds: 50, beneficiary: 3 });
    assert_eq!(r, Result_::err(SwitchError::AlreadyRegistered));
}

#[test]
fn register_sets_up_the_account() {
    let s = fresh();
    let a = account_of(&s, 1);
    assert_eq!(a.principal, 1);
    assert_eq!(a.last_heartbeat, 0);
    assert_eq!(a.timeout_duration_seconds, 100);
    assert_eq!(a.beneficiary, 2);
    assert_eq!(a.beneficiaries.len(), 1);
    assert_eq!(a.beneficiaries[0].principal, 2);
    assert_eq!(a.beneficiaries[0].percentage, 100);
    assert_eq!(a.balance, 0);
    assert_eq!(a.contestation_period_seconds, 7 * 24 * 60 * 60);
    assert_eq!(a.timeout_detected_at, None);
    assert!(a.trusted_parties.is_empty());
    assert_eq!(a.transaction_history.len(), 1);
    assert_eq!(a.transaction_history[0].transaction_type, EventKind::Register);
}

#[test]
fn heartbeat_reports_next_due_instant() {
    let mut s = fresh();
    match s.heartbeat(1, 40) {
        HeartbeatResult::ok(resp) => {
            assert!(resp.success);
            assert_eq!(resp.next_heartbeat_due, 140);
        }
        HeartbeatResult::err(e) => panic!("unexpected {:?}", e),
    }
    assert_eq!(account_of(&s, 1).last_heartbeat, 40);
}

#[test]
fn heartbeat_requires_registration() {
    let mut s = DeadManSwitchState::default();
    assert!(matches!(
        s.heartbeat(1, 40),
        HeartbeatResult::err(SwitchError::NotRegistered)
    ));
}

#[test]
fn sync_balance_overwrites_and_logs() {
    let mut s = fresh();
    assert!(matches!(s.sync_balance(1, 5, 700), Result_::ok));
    let a = account_of(&s, 1);
    assert_eq!(a.balance, 700);
    let last = a.transaction_history.last().unwrap();
    assert_eq!(last.transaction_type, EventKind::Deposit);
    assert_eq!(last.amount, Some(700));

    // Syncing downwards logs a plain reconciliation.
    assert!(matches!(s.sync_balance(1, 6, 300), Result_::ok));
    let a = account_of(&s, 1);
    assert_eq!(a.balance, 300);
    let last = a.transaction_history.last().unwrap();
    assert_eq!(last.transaction_type, EventKind::BalanceSync);

    // An unchanged balance is not logged.
    let n = a.transaction_history.len();
    assert!(matches!(s.sync_balance(1, 7, 300), Result_::ok));
    assert_eq!(account_of(&s, 1).transaction_history.len(), n);
}

#[test]
fn sync_balance_requires_registration() {
    let mut s = DeadManSwitchState::default();
    assert_eq!(s.sync_balance(1, 5, 700), Result_::err(SwitchError::NotRegistered));
}

#[test]
fn deposit_accepts_growth_and_refuses_shrinkage() {
    let mut s = fresh();
    assert!(matches!(s.set_mock_balance(1, 0, 500), Result_::ok));
    assert_eq!(s.deposit(1, 5, 400), Result_::err(SwitchError::LedgerBelowTracked));
    assert_eq!(account_of(&s, 1).balance, 500);

    assert!(matches!(s.deposit(1, 6, 900), Result_::ok));
    let a = account_of(&s, 1);
    assert_eq!(a.balance, 900);
    let last = a.transaction_history.last().unwrap();
    assert_eq!(last.transaction_type, EventKind::Deposit);
    assert_eq!(last.amount, Some(400));
}

#[test]
fn mock_balance_tops_up_and_saturates() {
    let mut s = fresh();
    assert!(matches!(s.set_mock_balance(1, 0, u64::MAX), Result_::ok));
    assert!(matches!(s.set_mock_balance(1, 1, 10), Result_::ok));
    assert_eq!(account_of(&s, 1).balance, u64::MAX);
}

#[test]
fn withdraw_checks_and_decrements() {
    let mut s = fresh();
    assert!(matches!(s.set_mock_balance(1, 0, 500), Result_::ok));

    assert_eq!(s.check_withdraw(1, 600), Result_::err(SwitchError::InsufficientBalance));
    assert_eq!(s.check_withdraw(9, 10), Result_::err(SwitchError::NotRegistered));
    assert!(matches!(s.check_withdraw(1, 500), Result_::ok));

    assert!(matches!(s.apply_withdraw(1, 5, 200), Result_::ok));
    let a = account_of(&s, 1);
    assert_eq!(a.balance, 300);
    let last = a.transaction_history.last().unwrap();
    assert_eq!(last.transaction_type, EventKind::Withdrawal);
    assert_eq!(last.amount, Some(200));

    assert_eq!(s.apply_withdraw(1, 6, 301), Result_::err(SwitchError::InsufficientBalance));
    assert_eq!(account_of(&s, 1).balance, 300);
}

#[test]
fn update_settings_changes_interval_and_beneficiary() {
    let mut s = fresh();
    assert!(matches!(s.update_settings(1, 5, Some(250), Some(7)), Result_::ok));
    let a = account_of(&s, 1);
    assert_eq!(a.timeout_duration_seconds, 250);
    assert_eq!(a.beneficiary, 7);
    assert_eq!(a.beneficiaries.len(), 1);
    assert_eq!(a.beneficiaries[0].principal, 7);
    assert_eq!(a.beneficiaries[0].percentage, 100);
    assert_eq!(a.transaction_history.last().unwrap().transaction_type, EventKind::SettingsUpdate);
}

#[test]
fn update_settings_refusals() {
    let mut s = fresh();
    assert_eq!(s.update_settings(1, 5, Some(0), Some(7)), Result_::err(SwitchError::ZeroTimeout));
    assert_eq!(s.update_settings(1, 5, None, None), Result_::err(SwitchError::NoChangesProvided));
    assert_eq!(s.update_settings(9, 5, Some(10), None), Result_::err(SwitchError::NotRegistered));
}

#[test]
fn widening_the_interval_clears_a_stale_marker() {
    let mut s = fresh();
    s.tick(150);
    assert_eq!(account_of(&s, 1).timeout_detected_at, Some(150));
    // Under a 1000-second interval the account is not timed out at 150:
    // the detection no longer stands.
    assert!(matches!(s.update_settings(1, 150, Some(1000), None), Result_::ok));
    let a = account_of(&s, 1);
    assert_eq!(a.timeout_duration_seconds, 1000);
    assert_eq!(a.timeout_detected_at, None);
}

#[test]
fn trusted_parties_are_a_set() {
    let mut s = fresh();
    assert!(matches!(s.add_trusted_party(1, 5, 8), Result_::ok));
    assert_eq!(s.add_trusted_party(1, 6, 8), Result_::err(SwitchError::TrustedPartyExists));
    assert_eq!(account_of(&s, 1).trusted_parties, vec![8]);

    assert_eq!(s.remove_trusted_party(1, 7, 9), Result_::err(SwitchError::TrustedPartyNotFound));
    assert!(matches!(s.remove_trusted_party(1, 8, 8), Result_::ok));
    assert!(account_of(&s, 1).trusted_parties.is_empty());
}

#[test]
fn cancel_without_pending_timeout_is_refused() {
    let mut s = fresh();
    assert_eq!(s.cancel_timeout_transfer(1, 5), Result_::err(SwitchError::NoActiveTimeout));
}

#[test]
fn contestation_period_may_be_zero() {
    let mut s = fresh();
    assert!(matches!(s.update_contestation_period(1, 5, 0), Result_::ok));
    let a = account_of(&s, 1);
    assert_eq!(a.contestation_period_seconds, 0);
    // With no grace, the window closes at the marker itself: detection at
    // 150, disbursable from the next pass on.
    let mut s2 = s;
    assert!(matches!(s2.set_mock_balance(1, 6, 100), Result_::ok));
    assert_eq!(s2.tick(150).len(), 0);
    assert_eq!(s2.tick(151).len(), 1);
}

#[test]
fn balance_queries_answer_per_user_and_in_total() {
    let mut s = fresh();
    assert!(matches!(s.set_mock_balance(1, 0, 300), Result_::ok));
    let r = s.register(4, 0, RegisterArgs { timeout_duration_seconds: 60, beneficiary: 2 });
    assert!(matches!(r, Result_::ok));
    assert!(matches!(s.set_mock_balance(4, 0, 200), Result_::ok));

    assert_eq!(s.get_user_balance(1), BalanceResult::ok(300));
    assert_eq!(s.get_user_balance(9), BalanceResult::err(SwitchError::NotRegistered));

    // The ledger's own answer wins; without one, the cached balances are
    // added up as a fallback.
    assert_eq!(s.get_ckbtc_balance(Some(777)), BalanceResult::ok(777));
    assert_eq!(s.get_ckbtc_balance(None), BalanceResult::ok(500));
}

#[test]
fn history_is_bounded_and_evicts_the_oldest() {
    let mut s = fresh();
    for t in 0..(HISTORY_CAPACITY as u64 + 30) {
        assert!(matches!(s.heartbeat(1, t), HeartbeatResult::ok(_)));
    }
    match s.get_transaction_history(1) {
        TransactionHistoryResult::ok(h) => {
            assert_eq!(h.len(), HISTORY_CAPACITY);
            // The registration entry and the earliest heartbeats are gone.
            assert_eq!(h[0].transaction_type, EventKind::Heartbeat);
            assert_eq!(h.last().unwrap().timestamp, HISTORY_CAPACITY as u64 + 29);
        }
        TransactionHistoryResult::err(e) => panic!("unexpected {:?}", e),
    }
}

#[test]
fn history_requires_registration() {
    let s = DeadManSwitchState::default();
    assert!(matches!(
        s.get_transaction_history(1),
        TransactionHistoryResult::err(SwitchError::NotRegistered)
    ));
}

#[test]
fn list_users_names_every_owner() {
    let mut s = fresh();
    let r = s.register(4, 0, RegisterArgs { timeout_duration_seconds: 60, beneficiary: 2 });
    assert!(matches!(r, Result_::ok));
    let all = s.list_users();
    let mut owners: Vec<u64> = all.iter().map(|(p, _)| *p).collect();
    owners.sort();
    assert_eq!(owners, vec![1, 4]);
    for (p, a) in &all {
        assert_eq!(*p, a.principal);
    }
}

#[test]
fn default_state_is_empty() {
    let s = DeadManSwitchState::default();
    assert!(s.list_users().is_empty());
    assert!(!s.is_registered(1));
}
