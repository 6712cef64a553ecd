//! Account data model: event log entries, beneficiaries, and per-owner
//! account state, together with their mathematical views and
//! well-formedness conditions.

use vstd::prelude::*;

verus! {

/// How many log entries an account retains; the oldest entry is evicted
/// first once the log is full.
pub const HISTORY_CAPACITY: usize = 100;

/// What kind of event a [`TransactionLog`] entry records.
#[derive(Clone, Copy, PartialEq, Eq, Debug)]
pub enum EventKind {
    Register,
    Heartbeat,
    Deposit,
    BalanceSync,
    Withdrawal,
    TimeoutDetected,
    TimeoutCancelled,
    SettingsUpdate,
    MockDeposit,
}

/// One entry of an account's bounded, append-only event log.
/// Observability only: the state machine never reads it.
#[derive(Clone, Copy, PartialEq, Eq, Debug)]
pub struct TransactionLog {
    pub timestamp: u64,
    pub transaction_type: EventKind,
    pub amount: Option<u64>,
}

/// A disbursement recipient: an identity, its share of the balance in
/// percent, and an optional sub-account tag for the ledger transfer.
#[derive(Debug)]
pub struct Beneficiary {
    pub principal: u64,
    pub percentage: u8,
    pub subaccount: Option<Vec<u8>>,
}

/// Mathematical view of a [`Beneficiary`].
#[verifier::ext_equal]
pub struct BeneficiaryView {
    pub principal: u64,
    pub percentage: u8,
    pub subaccount: Option<Seq<u8>>,
}

impl View for Beneficiary {
    type V = BeneficiaryView;

    open spec fn view(&self) -> BeneficiaryView {
        BeneficiaryView {
            principal: self.principal,
            percentage: self.percentage,
            subaccount: match self.subaccount {
                Some(bytes) => Some(bytes@),
                None => None,
            },
        }
    }
}

/// The views of a sequence of beneficiaries, element by element.
pub open spec fn views_of_beneficiaries(v: Seq<Beneficiary>) -> Seq<BeneficiaryView> {
    v.map_values(|b: Beneficiary| b@)
}

/// Length and elementwise shape of [`views_of_beneficiaries`].
pub proof fn lemma_views_of_beneficiaries(v: Seq<Beneficiary>)
    ensures
        views_of_beneficiaries(v).len() == v.len(),
        forall|i: int| 0 <= i < v.len() ==> views_of_beneficiaries(v)[i] == v[i]@,
{
}

/// Per-owner account state.
#[derive(Debug)]
pub struct UserAccount {
    pub principal: u64,
    pub last_heartbeat: u64,
    pub timeout_duration_seconds: u64,
    /// Primary beneficiary, used when `beneficiaries` is empty.
    pub beneficiary: u64,
    pub beneficiaries: Vec<Beneficiary>,
    /// Cached view of the external ledger balance; updated only by an
    /// explicit reconciliation, never automatically.
    pub balance: u64,
    pub transaction_history: Vec<TransactionLog>,
    /// Seconds the account stays contestable once a timeout is detected.
    pub contestation_period_seconds: u64,
    /// Present iff a timeout has been observed since the last heartbeat
    /// or cancellation; absence means "alive".
    pub timeout_detected_at: Option<u64>,
    /// Identities allowed to cancel a pending timeout on this account.
    pub trusted_parties: Vec<u64>,
}

/// Mathematical view of a [`UserAccount`].
#[verifier::ext_equal]
pub struct AccountView {
    pub principal: u64,
    pub last_heartbeat: u64,
    pub timeout_duration_seconds: u64,
    pub beneficiary: u64,
    pub beneficiaries: Seq<BeneficiaryView>,
    pub balance: u64,
    pub transaction_history: Seq<TransactionLog>,
    pub contestation_period_seconds: u64,
    pub timeout_detected_at: Option<u64>,
    pub trusted_parties: Seq<u64>,
}

impl View for UserAccount {
    type V = AccountView;

    open spec fn view(&self) -> AccountView {
        AccountView {
            principal: self.principal,
            last_heartbeat: self.last_heartbeat,
            timeout_duration_seconds: self.timeout_duration_seconds,
            beneficiary: self.beneficiary,
            beneficiaries: views_of_beneficiaries(self.beneficiaries@),
            balance: self.balance,
            transaction_history: self.transaction_history@,
            contestation_period_seconds: self.contestation_period_seconds,
            timeout_detected_at: self.timeout_detected_at,
            trusted_parties: self.trusted_parties@,
        }
    }
}

/// A beneficiary's share never exceeds one hundred percent. (The shares of
/// a list of beneficiaries need not sum to one hundred: shortfalls leave a
/// remainder undisbursed, deliberately.)
pub open spec fn beneficiary_wf(b: BeneficiaryView) -> bool {
    b.percentage <= 100
}

/// Well-formedness of one account: a positive timeout interval, a
/// non-anonymous owner, a bounded log, and well-formed beneficiaries.
pub open spec fn account_wf(a: AccountView) -> bool {
    &&& a.timeout_duration_seconds > 0
    &&& a.principal != crate::ANONYMOUS_PRINCIPAL
    &&& a.transaction_history.len() <= HISTORY_CAPACITY
    &&& forall|i: int|
        0 <= i < a.beneficiaries.len() ==> beneficiary_wf(#[trigger] a.beneficiaries[i])
}

impl UserAccount {
    pub open spec fn wf(&self) -> bool {
        account_wf(self@)
    }
}

/// What appending `entry` does to a bounded log: the entry goes to the
/// end, and the oldest entry leaves if the capacity would be exceeded.
pub open spec fn push_log_spec(h: Seq<TransactionLog>, entry: TransactionLog) -> Seq<
    TransactionLog,
> {
    let grown = h.push(entry);
    if grown.len() > HISTORY_CAPACITY {
        grown.remove(0)
    } else {
        grown
    }
}

/// Append `entry` to a bounded event log, evicting the oldest entry once
/// the capacity is exceeded.
pub fn push_log(history: &mut Vec<TransactionLog>, entry: TransactionLog)
    ensures
        final (history)@ == push_log_spec(old(history)@, entry),
        old(history)@.len() <= HISTORY_CAPACITY ==> final (history)@.len() <= HISTORY_CAPACITY,
{
    history.push(entry);
    if history.len() > HISTORY_CAPACITY {
        history.remove(0);
    }
}

/// Copy a byte vector.
fn clone_bytes(v: &Vec<u8>) -> (r: Vec<u8>)
    ensures
        r@ == v@,
{
    let mut out: Vec<u8> = Vec::new();
    let mut i: usize = 0;
    while i < v.len()
        invariant
            i <= v.len(),
            out@ == v@.take(i as int),
        decreases v.len() - i,
    {
        out.push(v[i]);
        assert(out@ =~= v@.take(i + 1));
        i = i + 1;
    }
    assert(out@ =~= v@);
    out
}

impl Clone for Beneficiary {
    fn clone(&self) -> (r: Self)
        ensures
            r@ == self@,
    {
        Beneficiary {
            principal: self.principal,
            percentage: self.percentage,
            subaccount: match &self.subaccount {
                Some(bytes) => Some(clone_bytes(bytes)),
                None => None,
            },
        }
    }
}

/// Copy a beneficiary list, preserving its view.
fn clone_beneficiaries(v: &Vec<Beneficiary>) -> (r: Vec<Beneficiary>)
    ensures
        views_of_beneficiaries(r@) == views_of_beneficiaries(v@),
{
    let mut out: Vec<Beneficiary> = Vec::new();
    let mut i: usize = 0;
    while i < v.len()
        invariant
            i <= v.len(),
            out@.len() == i,
            forall|j: int| 0 <= j < i ==> #[trigger] out@[j]@ == v@[j]@,
        decreases v.len() - i,
    {
        let b = v[i].clone();
        out.push(b);
        i = i + 1;
    }
    proof {
        lemma_views_of_beneficiaries(out@);
        lemma_views_of_beneficiaries(v@);
        assert(views_of_beneficiaries(out@) =~= views_of_beneficiaries(v@));
    }
    out
}

/// Copy a vector of plain values.
fn clone_u64s(v: &Vec<u64>) -> (r: Vec<u64>)
    ensures
        r@ == v@,
{
    let mut out: Vec<u64> = Vec::new();
    let mut i: usize = 0;
    while i < v.len()
        invariant
            i <= v.len(),
            out@ == v@.take(i as int),
        decreases v.len() - i,
    {
        out.push(v[i]);
        assert(out@ =~= v@.take(i + 1));
        i = i + 1;
    }
    assert(out@ =~= v@);
    out
}

/// Copy an event log.
fn clone_history(v: &Vec<TransactionLog>) -> (r: Vec<TransactionLog>)
    ensures
        r@ == v@,
{
    let mut out: Vec<TransactionLog> = Vec::new();
    let mut i: usize = 0;
    while i < v.len()
        invariant
            i <= v.len(),
            out@ == v@.take(i as int),
        decreases v.len() - i,
    {
        out.push(v[i]);
        assert(out@ =~= v@.take(i + 1));
        i = i + 1;
    }
    assert(out@ =~= v@);
    out
}

impl Clone for UserAccount {
    /// A clone carries the same view: every field the specifications speak
    /// of is preserved.
    fn clone(&self) -> (r: Self)
        ensures
            r@ == self@,
    {
        let r = UserAccount {
            principal: self.principal,
            last_heartbeat: self.last_heartbeat,
            timeout_duration_seconds: self.timeout_duration_seconds,
            beneficiary: self.beneficiary,
            beneficiaries: clone_beneficiaries(&self.beneficiaries),
            balance: self.balance,
            transaction_history: clone_history(&self.transaction_history),
            contestation_period_seconds: self.contestation_period_seconds,
            timeout_detected_at: self.timeout_detected_at,
            trusted_parties: clone_u64s(&self.trusted_parties),
        };
        assert(r@ =~= self@);
        r
    }
}

/// Arguments of a registration request.
#[derive(Clone, Copy, Debug)]
pub struct RegisterArgs {
    pub timeout_duration_seconds: u64,
    pub beneficiary: u64,
}

/// Arguments the host passes when the process is first installed.
#[derive(Clone, Copy, Debug)]
pub struct InitArgs {
    pub ckbtc_ledger_canister_id: Option<u64>,
}

} // verus!
