//! The disbursement engine: split arithmetic, single-beneficiary receipts,
//! partial and total failure.

use deadman_switch::disburse::{
    disbursement_outcome, evaluate_transfer, TransferDecision, TransferRequest,
};
use deadman_switch::results::SwitchError;
use deadman_switch::types::{Beneficiary, UserAccount};

/// An account whose grace window elapsed at t=200: marker at 150,
/// contestation 50 seconds.
fn disbursable_account(balance: u64, beneficiaries: Vec<Beneficiary>) -> UserAccount {
    UserAccount {
        principal: 1,
        last_heartbeat: 0,
        timeout_duration_seconds: 100,
        beneficiary: 2,
        beneficiaries,
        balance,
        transaction_history: Vec::new(),
        contestation_period_seconds: 50,
        timeout_detected_at: Some(150),
        trusted_parties: Vec::new(),
    }
}

fn share(principal: u64, percentage: u8) -> Beneficiary {
    Beneficiary { principal, percentage, subaccount: None }
}

fn legs_of(a: &UserAccount, now: u64) -> Vec<TransferRequest> {
    match evaluate_transfer(a, now) {
        TransferDecision::Proceed(legs) => legs,
        other => panic!("expected transfers, got {:?}", other),
    }
}

#[test]
fn split_sixty_forty() {
    let a = disbursable_account(1000, vec![share(3, 60), share(4, 40)]);
    let legs = legs_of(&a, 210);
    assert_eq!(legs.len(), 2);
    assert_eq!((legs[0].to, legs[0].amount), (3, 600));
    assert_eq!((legs[1].to, legs[1].amount), (4, 400));
}

#[test]
fn split_rounds_down_and_leaves_remainder_unspent() {
    let a = disbursable_account(100, vec![share(3, 33), share(4, 33)]);
    let legs = legs_of(&a, 210);
    assert_eq!(legs.len(), 2);
    assert_eq!(legs[0].amount, 33);
    assert_eq!(legs[1].amount, 33);
    // The remaining 34 stay unspent; that is not an error.
}

#[test]
fn zero_share_gets_no_leg() {
    let a = disbursable_account(1000, vec![share(3, 0), share(4, 40)]);
    let legs = legs_of(&a, 210);
    assert_eq!(legs.len(), 1);
    assert_eq!((legs[0].to, legs[0].amount), (4, 400));
}

#[test]
fn tiny_balance_rounds_every_share_to_nothing() {
    // 1 * 40 / 100 rounds down to 0 for both: no legs, and the outcome of
    // attempting nothing is a failure that keeps the account.
    let a = disbursable_account(1, vec![share(3, 40), share(4, 40)]);
    let legs = legs_of(&a, 210);
    assert_eq!(legs.len(), 0);
    let results: Vec<Option<u64>> = Vec::new();
    let outcome = disbursement_outcome(&a, &legs, &results);
    assert_eq!(outcome, Err(SwitchError::AllTransfersFailed));
}

#[test]
fn single_listed_beneficiary_gets_whole_balance() {
    // One listed beneficiary receives everything, its percentage
    // notwithstanding.
    let a = disbursable_account(1000, vec![share(3, 40)]);
    let legs = legs_of(&a, 210);
    assert_eq!(legs.len(), 1);
    assert_eq!((legs[0].to, legs[0].amount), (3, 1000));
}

#[test]
fn empty_list_falls_back_to_primary_beneficiary() {
    let a = disbursable_account(1000, Vec::new());
    let legs = legs_of(&a, 210);
    assert_eq!(legs.len(), 1);
    assert_eq!((legs[0].to, legs[0].amount), (2, 1000));
}

#[test]
fn subaccount_tag_rides_along() {
    let a = disbursable_account(
        1000,
        vec![Beneficiary { principal: 3, subaccount: Some(vec![7u8; 32]), percentage: 60 }, share(4, 40)],
    );
    let legs = legs_of(&a, 210);
    assert_eq!(legs[0].subaccount, Some(vec![7u8; 32]));
    assert_eq!(legs[1].subaccount, None);
}

#[test]
fn single_beneficiary_outcome_carries_block_index() {
    let a = disbursable_account(1000, vec![share(3, 100)]);
    let legs = legs_of(&a, 210);
    let results = vec![Some(99)];
    let outcome = disbursement_outcome(&a, &legs, &results).expect("the leg succeeded");
    assert!(outcome.success);
    assert_eq!(outcome.block_index, Some(99));
    assert_eq!(outcome.total_transferred, 1000);
}

#[test]
fn single_beneficiary_failure_is_an_error() {
    let a = disbursable_account(1000, vec![share(3, 100)]);
    let legs = legs_of(&a, 210);
    let results = vec![None];
    assert_eq!(
        disbursement_outcome(&a, &legs, &results),
        Err(SwitchError::TransferFailed)
    );
}

#[test]
fn partial_success_counts_only_what_moved() {
    let a = disbursable_account(1000, vec![share(3, 60), share(4, 40)]);
    let legs = legs_of(&a, 210);
    let results = vec![None, Some(17)];
    let outcome = disbursement_outcome(&a, &legs, &results).expect("one leg succeeded");
    assert!(outcome.success);
    // A split has no single receipt.
    assert_eq!(outcome.block_index, None);
    assert_eq!(outcome.total_transferred, 400);
}

#[test]
fn all_legs_failing_is_an_error() {
    let a = disbursable_account(1000, vec![share(3, 60), share(4, 40)]);
    let legs = legs_of(&a, 210);
    let results = vec![None, None];
    assert_eq!(
        disbursement_outcome(&a, &legs, &results),
        Err(SwitchError::AllTransfersFailed)
    );
}

#[test]
fn every_transfer_carries_the_audit_tag() {
    assert_eq!(deadman_switch::disburse::transfer_memo(), b"DEADMAN".to_vec());
}

#[test]
fn no_balance_means_no_transfer() {
    let a = disbursable_account(0, vec![share(3, 100)]);
    assert!(matches!(
        evaluate_transfer(&a, 210),
        TransferDecision::NoBalance
    ));
}

#[test]
fn nothing_leaves_while_grace_is_open() {
    let a = disbursable_account(1000, vec![share(3, 100)]);
    // The window runs to 200; at 180 nothing may move.
    assert!(matches!(
        evaluate_transfer(&a, 180),
        TransferDecision::NotReady
    ));
}

#[test]
fn fresh_detection_is_never_disbursable() {
    let mut a = disbursable_account(1000, vec![share(3, 100)]);
    a.timeout_detected_at = None;
    // Elapsed far past interval and the theoretical window, but no marker
    // was ever persisted: the machine opens grace instead of disbursing.
    assert!(matches!(
        evaluate_transfer(&a, 10_000),
        TransferDecision::NotReady
    ));
}
