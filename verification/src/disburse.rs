//! The disbursement engine and the scheduler pass. A tick classifies every
//! account, persists newly detected timeouts, and hands back pre-marking
//! snapshots of the accounts whose grace window has elapsed. For such a
//! snapshot the engine computes the transfer legs; the host performs the
//! ledger calls and reports each leg's receipt back, and the engine turns
//! the reports into an outcome that is then committed to the store.

use vstd::prelude::*;

use crate::classify::{
    classify_spec, saturate_u64, timeout_reached_spec, Classification,
};
use crate::results::{SwitchError, TransferResult};
use crate::state::{
    contains_owner, lemma_users_wf_remove, lemma_views_of_users, lemma_views_of_users_remove,
    owner_index, views_of_users, DeadManSwitchState,
};
use crate::types::{
    account_wf, push_log, push_log_spec, AccountView, BeneficiaryView, EventKind, TransactionLog,
    UserAccount,
};

verus! {

/// One ledger transfer the engine asks the host to perform.
#[derive(Debug)]
pub struct TransferRequest {
    pub to: u64,
    pub subaccount: Option<Vec<u8>>,
    pub amount: u64,
}

/// Mathematical view of a [`TransferRequest`].
#[verifier::ext_equal]
pub struct TransferRequestView {
    pub to: u64,
    pub subaccount: Option<Seq<u8>>,
    pub amount: u64,
}

impl View for TransferRequest {
    type V = TransferRequestView;

    open spec fn view(&self) -> TransferRequestView {
        TransferRequestView {
            to: self.to,
            subaccount: match self.subaccount {
                Some(bytes) => Some(bytes@),
                None => None,
            },
            amount: self.amount,
        }
    }
}

/// The views of a sequence of transfer requests, element by element.
pub open spec fn views_of_requests(v: Seq<TransferRequest>) -> Seq<TransferRequestView> {
    v.map_values(|t: TransferRequest| t@)
}

/// Length and elementwise shape of [`views_of_requests`].
pub proof fn lemma_views_of_requests(v: Seq<TransferRequest>)
    ensures
        views_of_requests(v).len() == v.len(),
        forall|i: int| 0 <= i < v.len() ==> views_of_requests(v)[i] == v[i]@,
{
}

/// A beneficiary's share of the balance: `balance * percentage / 100`,
/// rounded down. Shares that do not divide evenly leave a remainder
/// undisbursed, deliberately.
pub open spec fn leg_amount_spec(balance: u64, percentage: u8) -> int {
    (balance * percentage) / 100
}

/// A share never exceeds the balance it is taken from.
pub proof fn lemma_leg_amount_le_balance(balance: u64, percentage: u8)
    requires
        percentage <= 100,
    ensures
        0 <= leg_amount_spec(balance, percentage) <= balance,
{
    vstd::arithmetic::mul::lemma_mul_inequality(percentage as int, 100, balance as int);
    assert(balance * percentage == percentage * balance) by (nonlinear_arith);
    assert(balance * 100 == 100 * balance) by (nonlinear_arith);
    vstd::arithmetic::div_mod::lemma_div_is_ordered(
        balance as int * percentage as int,
        balance as int * 100,
        100,
    );
    vstd::arithmetic::div_mod::lemma_div_multiples_vanish(balance as int, 100);
    vstd::arithmetic::div_mod::lemma_div_pos_is_pos(balance as int * percentage as int, 100);
}

/// The transfer legs of a multi-beneficiary split: one leg per beneficiary
/// with a nonzero share, in list order.
pub open spec fn multi_legs_spec(bs: Seq<BeneficiaryView>, balance: u64) -> Seq<
    TransferRequestView,
>
    decreases bs.len(),
{
    if bs.len() == 0 {
        Seq::empty()
    } else {
        let rest = multi_legs_spec(bs.drop_last(), balance);
        let b = bs.last();
        if leg_amount_spec(balance, b.percentage) > 0 {
            rest.push(
                TransferRequestView {
                    to: b.principal,
                    subaccount: b.subaccount,
                    amount: leg_amount_spec(balance, b.percentage) as u64,
                },
            )
        } else {
            rest
        }
    }
}

/// The transfer legs owed for a disbursable account: a split when several
/// beneficiaries are listed; otherwise one transfer of the whole balance —
/// to the single listed beneficiary, or, with an empty list, to the legacy
/// primary beneficiary.
pub open spec fn plan_spec(a: AccountView) -> Seq<TransferRequestView> {
    if a.beneficiaries.len() > 1 {
        multi_legs_spec(a.beneficiaries, a.balance)
    } else {
        seq![
            TransferRequestView {
                to: if a.beneficiaries.len() == 1 {
                    a.beneficiaries[0].principal
                } else {
                    a.beneficiary
                },
                subaccount: if a.beneficiaries.len() == 1 {
                    a.beneficiaries[0].subaccount
                } else {
                    None
                },
                amount: a.balance,
            },
        ]
    }
}

/// The fixed tag attached to every transfer this system makes, so ledger
/// audits can attribute them: the bytes of "DEADMAN".
pub fn transfer_memo() -> (m: Vec<u8>)
    ensures
        m@ == seq![0x44u8, 0x45u8, 0x41u8, 0x44u8, 0x4Du8, 0x41u8, 0x4Eu8],
{
    let mut m: Vec<u8> = Vec::new();
    m.push(0x44);
    m.push(0x45);
    m.push(0x41);
    m.push(0x44);
    m.push(0x4D);
    m.push(0x41);
    m.push(0x4E);
    proof {
        assert(m@ =~= seq![0x44u8, 0x45u8, 0x41u8, 0x44u8, 0x4Du8, 0x41u8, 0x4Eu8]);
    }
    m
}

/// What the engine decides for one account snapshot at `now`.
#[derive(Debug)]
pub enum TransferDecision {
    /// No timeout, or the contestation window is still open: nothing may
    /// be transferred.
    NotReady,
    /// Disbursable, but there is nothing to transfer; not an error.
    NoBalance,
    /// Disbursable: perform these ledger transfers.
    Proceed(Vec<TransferRequest>),
}

/// Decide whether and how to disburse an account snapshot at `now`.
/// Transfers are proposed only for an account the state machine classifies
/// disbursable: never while the contestation window is open.
pub fn evaluate_transfer(a: &UserAccount, now: u64) -> (d: TransferDecision)
    requires
        account_wf(a@),
    ensures
        d is NotReady <==> classify_spec(now, a@) != Classification::Disbursable,
        d is NoBalance <==> classify_spec(now, a@) == Classification::Disbursable && a@.balance
            == 0,
        d is Proceed <==> classify_spec(now, a@) == Classification::Disbursable && a@.balance > 0,
        d matches TransferDecision::Proceed(legs) ==> views_of_requests(legs@) == plan_spec(a@),
{
    let c = crate::classify::classify(now, a);
    if !matches!(c, Classification::Disbursable) {
        return TransferDecision::NotReady;
    }
    if a.balance == 0 {
        return TransferDecision::NoBalance;
    }
    if a.beneficiaries.len() > 1 {
        proof {
            crate::types::lemma_views_of_beneficiaries(a.beneficiaries@);
        }
        let mut legs: Vec<TransferRequest> = Vec::new();
        let mut i: usize = 0;
        while i < a.beneficiaries.len()
            invariant
                account_wf(a@),
                i <= a.beneficiaries@.len(),
                a@.beneficiaries.len() == a.beneficiaries@.len(),
                forall|j: int|
                    0 <= j < a.beneficiaries@.len() ==> a@.beneficiaries[j]
                        == a.beneficiaries@[j]@,
                views_of_requests(legs@) == multi_legs_spec(
                    a@.beneficiaries.take(i as int),
                    a.balance,
                ),
            decreases a.beneficiaries@.len() - i,
        {
            proof {
                assert(a@.beneficiaries.take(i + 1).drop_last() =~= a@.beneficiaries.take(
                    i as int,
                ));
                assert(a@.beneficiaries.take(i + 1).last() == a@.beneficiaries[i as int]);
                lemma_leg_amount_le_balance(a.balance, a.beneficiaries@[i as int].percentage);
                vstd::arithmetic::mul::lemma_mul_inequality(
                    a.beneficiaries@[i as int].percentage as int,
                    100,
                    a.balance as int,
                );
                assert(a.balance * a.beneficiaries@[i as int].percentage
                    == a.beneficiaries@[i as int].percentage * a.balance) by (nonlinear_arith);
            }
            let b = a.beneficiaries[i].clone();
            let amount_wide: u128 = (a.balance as u128) * (b.percentage as u128) / 100;
            if amount_wide > 0 {
                let leg = TransferRequest {
                    to: b.principal,
                    subaccount: b.subaccount,
                    amount: amount_wide as u64,
                };
                legs.push(leg);
                proof {
                    lemma_views_of_requests(legs@);
                    assert(views_of_requests(legs@) =~= multi_legs_spec(
                        a@.beneficiaries.take(i + 1),
                        a.balance,
                    ));
                }
            } else {
                proof {
                    lemma_views_of_requests(legs@);
                    assert(views_of_requests(legs@) =~= multi_legs_spec(
                        a@.beneficiaries.take(i + 1),
                        a.balance,
                    ));
                }
            }
            i = i + 1;
        }
        proof {
            assert(a@.beneficiaries.take(a@.beneficiaries.len() as int) =~= a@.beneficiaries);
        }
        TransferDecision::Proceed(legs)
    } else {
        proof {
            crate::types::lemma_views_of_beneficiaries(a.beneficiaries@);
        }
        let mut legs: Vec<TransferRequest> = Vec::new();
        if a.beneficiaries.len() == 1 {
            let b = a.beneficiaries[0].clone();
            legs.push(TransferRequest { to: b.principal, subaccount: b.subaccount, amount: a.balance });
        } else {
            legs.push(TransferRequest { to: a.beneficiary, subaccount: None, amount: a.balance });
        }
        proof {
            lemma_views_of_requests(legs@);
            assert(views_of_requests(legs@) =~= plan_spec(a@));
        }
        TransferDecision::Proceed(legs)
    }
}

/// Whether at least one transfer leg came back with a receipt.
pub open spec fn some_leg_succeeded(results: Seq<Option<u64>>) -> bool {
    exists|i: int| 0 <= i < results.len() && results[i] is Some
}

/// The amounts of the legs that succeeded, added up.
pub open spec fn transferred_total_spec(
    legs: Seq<TransferRequestView>,
    results: Seq<Option<u64>>,
) -> int
    decreases legs.len(),
{
    if legs.len() == 0 {
        0
    } else {
        transferred_total_spec(legs.drop_last(), results.drop_last()) + (
        if results.last() is Some {
            legs.last().amount as int
        } else {
            0
        })
    }
}

/// The total transferred is never negative.
pub proof fn lemma_transferred_total_nonneg(
    legs: Seq<TransferRequestView>,
    results: Seq<Option<u64>>,
)
    ensures
        transferred_total_spec(legs, results) >= 0,
    decreases legs.len(),
{
    if legs.len() > 0 {
        lemma_transferred_total_nonneg(legs.drop_last(), results.drop_last());
    }
}

/// Turn the host's per-leg reports into the disbursement outcome.
/// `results[i]` is the ledger receipt of `legs[i]`, or `None` for a leg
/// whose transfer failed; failed legs never abort the others. The outcome
/// is a success iff anything was transferred at all; a single-beneficiary
/// disbursement carries its one receipt, a split reports no unified
/// receipt.
pub fn disbursement_outcome(
    a: &UserAccount,
    legs: &Vec<TransferRequest>,
    results: &Vec<Option<u64>>,
) -> (r: Result<TransferResult, SwitchError>)
    requires
        account_wf(a@),
        a@.balance > 0,
        views_of_requests(legs@) == plan_spec(a@),
        results@.len() == legs@.len(),
    ensures
        r is Ok <==> some_leg_succeeded(results@),
        a@.beneficiaries.len() > 1 ==> match r {
            Ok(t) => {
                &&& t.success
                &&& t.block_index is None
                &&& t.total_transferred == saturate_u64(
                    transferred_total_spec(views_of_requests(legs@), results@),
                )
            },
            Err(e) => e == SwitchError::AllTransfersFailed,
        },
        a@.beneficiaries.len() <= 1 ==> match r {
            Ok(t) => {
                &&& t.success
                &&& t.block_index == results@[0]
                &&& t.total_transferred == a@.balance
            },
            Err(e) => e == SwitchError::TransferFailed,
        },
{
    proof {
        lemma_views_of_requests(legs@);
        crate::types::lemma_views_of_beneficiaries(a.beneficiaries@);
    }
    if a.beneficiaries.len() > 1 {
        let mut total: u64 = 0;
        let mut succeeded = false;
        let mut i: usize = 0;
        while i < legs.len()
            invariant
                i <= legs@.len(),
                results@.len() == legs@.len(),
                forall|j: int| 0 <= j < legs@.len() ==> views_of_requests(legs@)[j] == legs@[j]@,
                views_of_requests(legs@).len() == legs@.len(),
                total == saturate_u64(
                    transferred_total_spec(
                        views_of_requests(legs@).take(i as int),
                        results@.take(i as int),
                    ),
                ),
                succeeded <==> some_leg_succeeded(results@.take(i as int)),
            decreases legs@.len() - i,
        {
            proof {
                lemma_transferred_total_nonneg(
                    views_of_requests(legs@).take(i as int),
                    results@.take(i as int),
                );
                assert(views_of_requests(legs@).take(i + 1).drop_last() =~= views_of_requests(
                    legs@,
                ).take(i as int));
                assert(results@.take(i + 1).drop_last() =~= results@.take(i as int));
                assert(views_of_requests(legs@).take(i + 1).last() == legs@[i as int]@);
                assert(results@.take(i + 1).last() == results@[i as int]);
            }
            if results[i].is_some() {
                total = total.saturating_add(legs[i].amount);
                succeeded = true;
                proof {
                    assert(results@.take(i + 1)[i as int] is Some);
                }
            } else {
                proof {
                    assert forall|j: int|
                        0 <= j < i + 1 && (#[trigger] results@.take(i + 1)[j]) is Some implies some_leg_succeeded(
                        results@.take(i as int),
                    ) by {
                        assert(results@.take(i as int)[j] is Some);
                    }
                }
            }
            i = i + 1;
        }
        proof {
            assert(views_of_requests(legs@).take(legs@.len() as int) =~= views_of_requests(legs@));
            assert(results@.take(results@.len() as int) =~= results@);
        }
        if succeeded {
            Ok(TransferResult { success: true, block_index: None, total_transferred: total })
        } else {
            Err(SwitchError::AllTransfersFailed)
        }
    } else {
        proof {
            assert(views_of_requests(legs@).len() == 1);
            assert(results@.len() == 1);
        }
        match results[0] {
            Some(block) => {
                proof {
                    assert(results@[0] is Some);
                }
                Ok(
                    TransferResult {
                        success: true,
                        block_index: Some(block),
                        total_transferred: a.balance,
                    },
                )
            },
            None => {
                proof {
                    assert(results@[0] is None);
                    assert(!some_leg_succeeded(results@));
                }
                Err(SwitchError::TransferFailed)
            },
        }
    }
}

/// The log entry of a detected timeout.
pub open spec fn timeout_log_spec(now: u64) -> TransactionLog {
    TransactionLog { timestamp: now, transaction_type: EventKind::TimeoutDetected, amount: None }
}

/// What one scheduler pass at `now` does to one account: the instant a
/// timeout is first observed, the marker is persisted — at the observation
/// instant, though the window end is computed from the theoretical timeout
/// instant — and the detection is logged; any other account is left as it
/// is.
pub open spec fn mark_timeout_spec(a: AccountView, now: u64) -> AccountView {
    if timeout_reached_spec(now, a) && a.timeout_detected_at is None {
        AccountView {
            timeout_detected_at: Some(now),
            transaction_history: push_log_spec(a.transaction_history, timeout_log_spec(now)),
            ..a
        }
    } else {
        a
    }
}

/// The accounts a pass at `now` finds disbursable, in store order, as
/// they stood before the pass persisted any marker.
pub open spec fn due_accounts_spec(users: Seq<AccountView>, now: u64) -> Seq<AccountView>
    decreases users.len(),
{
    if users.len() == 0 {
        Seq::empty()
    } else {
        let rest = due_accounts_spec(users.drop_last(), now);
        if classify_spec(now, users.last()) == Classification::Disbursable {
            rest.push(users.last())
        } else {
            rest
        }
    }
}

impl DeadManSwitchState {
    /// One scheduler pass: classify every account at `now`, persist and
    /// log newly detected timeouts, and return snapshots — taken before
    /// the marker was persisted, so the grace window stays anchored at the
    /// theoretical timeout instant — of the accounts whose window has
    /// elapsed. The host disburses each snapshot and commits the outcome
    /// through [`Self::finish_disbursement`].
    pub fn tick(&mut self, now: u64) -> (due: Vec<UserAccount>)
        requires
            old(self).wf(),
        ensures
            final (self).wf(),
            final (self)@.ckbtc_ledger == old(self)@.ckbtc_ledger,
            final (self)@.users.len() == old(self)@.users.len(),
            forall|i: int|
                0 <= i < old(self)@.users.len() ==> final (self)@.users[i] == mark_timeout_spec(
                    #[trigger] old(self)@.users[i],
                    now,
                ),
            views_of_users(due@) == due_accounts_spec(old(self)@.users, now),
    {
        let ghost users0 = self@.users;
        let mut due: Vec<UserAccount> = Vec::new();
        let mut i: usize = 0;
        while i < self.users.len()
            invariant
                self.wf(),
                i <= users0.len(),
                self.users@.len() == users0.len(),
                self@.users.len() == users0.len(),
                self@.ckbtc_ledger == old(self)@.ckbtc_ledger,
                forall|j: int|
                    0 <= j < i ==> self@.users[j] == mark_timeout_spec(
                        #[trigger] users0[j],
                        now,
                    ),
                forall|j: int| i <= j < users0.len() ==> self@.users[j] == users0[j],
                views_of_users(due@) == due_accounts_spec(users0.take(i as int), now),
            decreases users0.len() - i,
        {
            proof {
                lemma_views_of_users(self.users@);
                assert(users0.take(i + 1).drop_last() =~= users0.take(i as int));
                assert(users0.take(i + 1).last() == users0[i as int]);
            }
            let c = crate::classify::classify(now, &self.users[i]);
            if matches!(c, Classification::Disbursable) {
                let snapshot = self.users[i].clone();
                due.push(snapshot);
                proof {
                    lemma_views_of_users(due@);
                    assert(views_of_users(due@) =~= due_accounts_spec(users0.take(i + 1), now));
                }
            } else {
                proof {
                    assert(views_of_users(due@) =~= due_accounts_spec(users0.take(i + 1), now));
                }
            }
            let reached = now.saturating_sub(self.users[i].last_heartbeat)
                >= self.users[i].timeout_duration_seconds;
            if reached && self.users[i].timeout_detected_at.is_none() {
                let mut a = self.users[i].clone();
                a.timeout_detected_at = Some(now);
                push_log(&mut a.transaction_history, TransactionLog {
                    timestamp: now,
                    transaction_type: EventKind::TimeoutDetected,
                    amount: None,
                });
                proof {
                    assert(a@ =~= mark_timeout_spec(users0[i as int], now));
                }
                self.replace_account(i, a);
            }
            proof {
                lemma_views_of_users(self.users@);
            }
            i = i + 1;
        }
        proof {
            assert(users0.take(users0.len() as int) =~= users0);
        }
        due
    }

    /// Commit a disbursement outcome for `owner`'s account. A success —
    /// even a partial one — removes the account for good: a partially
    /// disbursed account is not retried for its remainder. A failure
    /// leaves the account untouched, so the next pass picks it up again.
    ///
    /// The removal is committed without re-classifying the live account,
    /// as the hosted original does: a heartbeat or cancellation that the
    /// host interleaved while the transfer was in flight does not undo it.
    /// This keeps the one-disbursement-per-account guarantee — a snapshot
    /// marked and disbursed in the same pass would re-classify as still in
    /// grace — at the price of honouring such a last-instant signal only
    /// until the transfer leaves.
    pub fn finish_disbursement(&mut self, owner: u64, success: bool)
        requires
            old(self).wf(),
        ensures
            final (self).wf(),
            final (self)@.ckbtc_ledger == old(self)@.ckbtc_ledger,
            !success ==> final (self)@ == old(self)@,
            success && contains_owner(old(self)@.users, owner) ==> final (self)@.users == old(
                self,
            )@.users.remove(owner_index(old(self)@.users, owner)),
            success && !contains_owner(old(self)@.users, owner) ==> final (self)@ == old(self)@,
    {
        if !success {
            return ;
        }
        match self.find_user(owner) {
            None => {},
            Some(i) => {
                proof {
                    lemma_views_of_users_remove(self.users@, i as int);
                    lemma_users_wf_remove(self@.users, i as int);
                }
                self.users.remove(i);
            },
        }
    }
}

} // verus!
