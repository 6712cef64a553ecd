//! The account store and the boundary operations that mutate it. The store
//! is the single owner of all account state: every mutation goes through
//! it, so the invariants are enforced at one seam.

use vstd::prelude::*;

use crate::classify::{
    classify_spec, saturate_u64, timeout_status, timeout_status_spec, Classification,
};
use crate::results::{
    AccountInfoResult, BalanceResult, HeartbeatResponse, HeartbeatResult, Result_, SwitchError,
    TimeoutStatusResult, TransactionHistoryResult,
};
use crate::types::{
    account_wf, push_log, push_log_spec, AccountView, Beneficiary, BeneficiaryView, EventKind,
    RegisterArgs, TransactionLog, UserAccount,
};

verus! {

/// The views of a sequence of accounts, element by element.
pub open spec fn views_of_users(v: Seq<UserAccount>) -> Seq<AccountView> {
    v.map_values(|a: UserAccount| a@)
}

/// Length and elementwise shape of [`views_of_users`].
pub proof fn lemma_views_of_users(v: Seq<UserAccount>)
    ensures
        views_of_users(v).len() == v.len(),
        forall|i: int| 0 <= i < v.len() ==> views_of_users(v)[i] == v[i]@,
{
}

/// Whole process state: every registered account, and which ledger the
/// host should address transfers to.
#[derive(Debug)]
pub struct DeadManSwitchState {
    pub users: Vec<UserAccount>,
    pub ckbtc_ledger: u64,
}

/// Mathematical view of [`DeadManSwitchState`].
#[verifier::ext_equal]
pub struct StateView {
    pub users: Seq<AccountView>,
    pub ckbtc_ledger: u64,
}

impl View for DeadManSwitchState {
    type V = StateView;

    open spec fn view(&self) -> StateView {
        StateView { users: views_of_users(self.users@), ckbtc_ledger: self.ckbtc_ledger }
    }
}

/// Whether some account in `users` belongs to `owner`.
pub open spec fn contains_owner(users: Seq<AccountView>, owner: u64) -> bool {
    exists|i: int| 0 <= i < users.len() && users[i].principal == owner
}

/// The position of `owner`'s account; meaningful only when
/// [`contains_owner`] holds and owners are unique.
pub open spec fn owner_index(users: Seq<AccountView>, owner: u64) -> int {
    choose|i: int| 0 <= i < users.len() && users[i].principal == owner
}

/// The account belonging to `owner`.
pub open spec fn account_of(users: Seq<AccountView>, owner: u64) -> AccountView {
    users[owner_index(users, owner)]
}

/// No two accounts share an owner.
pub open spec fn owners_unique(users: Seq<AccountView>) -> bool {
    forall|i: int, j: int|
        0 <= i < j < users.len() ==> users[i].principal != users[j].principal
}

/// Well-formedness of a store content: unique owners, each account
/// well formed.
pub open spec fn users_wf(users: Seq<AccountView>) -> bool {
    &&& owners_unique(users)
    &&& forall|i: int| 0 <= i < users.len() ==> account_wf(#[trigger] users[i])
}

/// Well-formedness of the whole store.
pub open spec fn state_wf(s: StateView) -> bool {
    users_wf(s.users)
}

/// Replacing an account by one that is well formed and keeps its owner
/// preserves store well-formedness.
pub proof fn lemma_users_wf_update(users: Seq<AccountView>, i: int, a: AccountView)
    requires
        0 <= i < users.len(),
        users_wf(users),
        account_wf(a),
        a.principal == users[i].principal,
    ensures
        users_wf(users.update(i, a)),
{
}

/// Removing an account preserves store well-formedness.
pub proof fn lemma_users_wf_remove(users: Seq<AccountView>, i: int)
    requires
        0 <= i < users.len(),
        users_wf(users),
    ensures
        users_wf(users.remove(i)),
{
    let shrunk = users.remove(i);
    assert forall|p: int, q: int|
        0 <= p < q < shrunk.len() implies shrunk[p].principal != shrunk[q].principal by {
        let p0: int = if p < i {
            p
        } else {
            p + 1
        };
        let q0: int = if q < i {
            q
        } else {
            q + 1
        };
        assert(shrunk[p] == users[p0]);
        assert(shrunk[q] == users[q0]);
    }
    assert forall|j: int| 0 <= j < shrunk.len() implies account_wf(#[trigger] shrunk[j]) by {
        if j < i {
            assert(shrunk[j] == users[j]);
        } else {
            assert(shrunk[j] == users[j + 1]);
        }
    }
}

/// Mapping to views commutes with updating one element.
pub proof fn lemma_views_of_users_update(v: Seq<UserAccount>, i: int, a: UserAccount)
    requires
        0 <= i < v.len(),
    ensures
        views_of_users(v.update(i, a)) == views_of_users(v).update(i, a@),
{
    lemma_views_of_users(v);
    lemma_views_of_users(v.update(i, a));
    assert(views_of_users(v.update(i, a)) =~= views_of_users(v).update(i, a@));
}

/// Mapping to views commutes with appending one element.
pub proof fn lemma_views_of_users_push(v: Seq<UserAccount>, a: UserAccount)
    ensures
        views_of_users(v.push(a)) == views_of_users(v).push(a@),
{
    lemma_views_of_users(v);
    lemma_views_of_users(v.push(a));
    assert(views_of_users(v.push(a)) =~= views_of_users(v).push(a@));
}

/// Mapping to views commutes with removing one element.
pub proof fn lemma_views_of_users_remove(v: Seq<UserAccount>, i: int)
    requires
        0 <= i < v.len(),
    ensures
        views_of_users(v.remove(i)) == views_of_users(v).remove(i),
{
    lemma_views_of_users(v);
    lemma_views_of_users(v.remove(i));
    assert(views_of_users(v.remove(i)) =~= views_of_users(v).remove(i));
}

impl DeadManSwitchState {
    pub open spec fn wf(&self) -> bool {
        state_wf(self@)
    }

    /// Locate the account of `owner`, if any.
    pub(crate) fn find_user(&self, owner: u64) -> (r: Option<usize>)
        requires
            owners_unique(self@.users),
        ensures
            match r {
                Some(i) => {
                    &&& contains_owner(self@.users, owner)
                    &&& i < self.users@.len()
                    &&& i as int == owner_index(self@.users, owner)
                    &&& self@.users[i as int].principal == owner
                },
                None => !contains_owner(self@.users, owner),
            },
    {
        proof {
            lemma_views_of_users(self.users@);
        }
        let mut i: usize = 0;
        while i < self.users.len()
            invariant
                i <= self.users@.len(),
                owners_unique(self@.users),
                self@.users.len() == self.users@.len(),
                forall|j: int| 0 <= j < self@.users.len() ==> self@.users[j] == self.users@[j]@,
                forall|j: int| 0 <= j < i ==> self@.users[j].principal != owner,
            decreases self.users@.len() - i,
        {
            if self.users[i].principal == owner {
                proof {
                    assert(self@.users[i as int].principal == owner);
                    assert(contains_owner(self@.users, owner));
                    let w = owner_index(self@.users, owner);
                    assert(0 <= w < self@.users.len() && self@.users[w].principal == owner);
                    assert(w == i as int) by {
                        if w < i as int {
                            assert(self@.users[w].principal != self@.users[i as int].principal);
                        } else if w > i as int {
                            assert(self@.users[i as int].principal != self@.users[w].principal);
                        }
                    }
                }
                return Some(i);
            }
            i = i + 1;
        }
        None
    }
}

/// With unique owners, any position holding `owner`'s account is the
/// position [`owner_index`] denotes.
pub proof fn lemma_owner_index_of(users: Seq<AccountView>, owner: u64, i: int)
    requires
        owners_unique(users),
        0 <= i < users.len(),
        users[i].principal == owner,
    ensures
        contains_owner(users, owner),
        owner_index(users, owner) == i,
{
    assert(contains_owner(users, owner));
    let w = owner_index(users, owner);
    if w < i {
        assert(users[w].principal != users[i].principal);
    } else if w > i {
        assert(users[i].principal != users[w].principal);
    }
}

/// The account a registration creates: heartbeat clock started at `now`,
/// the single beneficiary at one hundred percent, the default contestation
/// window, no balance, no detected timeout.
pub open spec fn fresh_account_spec(caller: u64, now: u64, args: RegisterArgs) -> AccountView {
    AccountView {
        principal: caller,
        last_heartbeat: now,
        timeout_duration_seconds: args.timeout_duration_seconds,
        beneficiary: args.beneficiary,
        beneficiaries: seq![
            BeneficiaryView { principal: args.beneficiary, percentage: 100, subaccount: None },
        ],
        balance: 0,
        transaction_history: seq![
            TransactionLog { timestamp: now, transaction_type: EventKind::Register, amount: None },
        ],
        contestation_period_seconds: crate::DEFAULT_CONTESTATION_SECONDS,
        timeout_detected_at: None,
        trusted_parties: Seq::empty(),
    }
}

/// What a heartbeat at `now` does to an account: the clock restarts, any
/// detected timeout is cleared unconditionally, and the event is logged.
pub open spec fn heartbeat_update_spec(a: AccountView, now: u64) -> AccountView {
    AccountView {
        last_heartbeat: now,
        timeout_detected_at: None,
        transaction_history: push_log_spec(
            a.transaction_history,
            TransactionLog { timestamp: now, transaction_type: EventKind::Heartbeat, amount: None },
        ),
        ..a
    }
}

impl DeadManSwitchState {
    /// Register a new account for `caller`. Refused for the anonymous
    /// caller, for a zero timeout interval, and for a double registration.
    pub fn register(&mut self, caller: u64, now: u64, args: RegisterArgs) -> (r: Result_)
        requires
            old(self).wf(),
        ensures
            final (self).wf(),
            final (self)@.ckbtc_ledger == old(self)@.ckbtc_ledger,
            match r {
                Result_::ok => {
                    &&& caller != crate::ANONYMOUS_PRINCIPAL
                    &&& args.timeout_duration_seconds > 0
                    &&& !contains_owner(old(self)@.users, caller)
                    &&& final (self)@.users == old(self)@.users.push(
                        fresh_account_spec(caller, now, args),
                    )
                },
                Result_::err(e) => {
                    &&& final (self)@ == old(self)@
                    &&& (e == SwitchError::AnonymousCaller || e == SwitchError::ZeroTimeout
                        || e == SwitchError::AlreadyRegistered)
                    &&& (e == SwitchError::AnonymousCaller <==> caller
                        == crate::ANONYMOUS_PRINCIPAL)
                    &&& (e == SwitchError::ZeroTimeout <==> caller != crate::ANONYMOUS_PRINCIPAL
                        && args.timeout_duration_seconds == 0)
                    &&& (e == SwitchError::AlreadyRegistered <==> caller
                        != crate::ANONYMOUS_PRINCIPAL && args.timeout_duration_seconds > 0
                        && contains_owner(old(self)@.users, caller))
                },
            },
    {
        if caller == crate::ANONYMOUS_PRINCIPAL {
            return Result_::err(SwitchError::AnonymousCaller);
        }
        if args.timeout_duration_seconds == 0 {
            return Result_::err(SwitchError::ZeroTimeout);
        }
        if self.find_user(caller).is_some() {
            return Result_::err(SwitchError::AlreadyRegistered);
        }
        let mut beneficiaries: Vec<Beneficiary> = Vec::new();
        beneficiaries.push(
            Beneficiary { principal: args.beneficiary, percentage: 100, subaccount: None },
        );
        let mut history: Vec<TransactionLog> = Vec::new();
        history.push(
            TransactionLog { timestamp: now, transaction_type: EventKind::Register, amount: None },
        );
        let account = UserAccount {
            principal: caller,
            last_heartbeat: now,
            timeout_duration_seconds: args.timeout_duration_seconds,
            beneficiary: args.beneficiary,
            beneficiaries,
            balance: 0,
            transaction_history: history,
            contestation_period_seconds: crate::DEFAULT_CONTESTATION_SECONDS,
            timeout_detected_at: None,
            trusted_parties: Vec::new(),
        };
        proof {
            crate::types::lemma_views_of_beneficiaries(account.beneficiaries@);
            assert(account@ =~= fresh_account_spec(caller, now, args)) by {
                assert(account@.beneficiaries =~= fresh_account_spec(
                    caller,
                    now,
                    args,
                ).beneficiaries);
                assert(account@.transaction_history =~= fresh_account_spec(
                    caller,
                    now,
                    args,
                ).transaction_history);
                assert(account@.trusted_parties =~= fresh_account_spec(
                    caller,
                    now,
                    args,
                ).trusted_parties);
            }
            lemma_views_of_users_push(self.users@, account);
            lemma_views_of_users(self.users@);
        }
        self.users.push(account);
        Result_::ok
    }

    /// Record a heartbeat from `caller`: the timeout clock restarts and
    /// any detected timeout is cleared, whatever state the account was in.
    pub fn heartbeat(&mut self, caller: u64, now: u64) -> (r: HeartbeatResult)
        requires
            old(self).wf(),
        ensures
            final (self).wf(),
            final (self)@.ckbtc_ledger == old(self)@.ckbtc_ledger,
            match r {
                HeartbeatResult::ok(resp) => {
                    &&& contains_owner(old(self)@.users, caller)
                    &&& final (self)@.users == old(self)@.users.update(
                        owner_index(old(self)@.users, caller),
                        heartbeat_update_spec(account_of(old(self)@.users, caller), now),
                    )
                    &&& resp.success
                    &&& resp.next_heartbeat_due == saturate_u64(
                        now + account_of(old(self)@.users, caller).timeout_duration_seconds,
                    )
                    &&& account_of(final (self)@.users, caller).timeout_detected_at is None
                    &&& classify_spec(now, account_of(final (self)@.users, caller))
                        == Classification::Alive
                },
                HeartbeatResult::err(e) => {
                    &&& e == SwitchError::NotRegistered
                    &&& !contains_owner(old(self)@.users, caller)
                    &&& final (self)@ == old(self)@
                },
            },
    {
        match self.find_user(caller) {
            None => HeartbeatResult::err(SwitchError::NotRegistered),
            Some(i) => {
                let ghost users0 = self@.users;
                let mut a = self.users[i].clone();
                a.last_heartbeat = now;
                a.timeout_detected_at = None;
                push_log(
                    &mut a.transaction_history,
                    TransactionLog {
                        timestamp: now,
                        transaction_type: EventKind::Heartbeat,
                        amount: None,
                    },
                );
                let next_due = now.saturating_add(a.timeout_duration_seconds);
                proof {
                    lemma_views_of_users(self.users@);
                    assert(a@ =~= heartbeat_update_spec(account_of(users0, caller), now));
                    lemma_views_of_users_update(self.users@, i as int, a);
                    lemma_users_wf_update(users0, i as int, a@);
                }
                self.users.set(i, a);
                proof {
                    lemma_owner_index_of(self@.users, caller, i as int);
                }
                HeartbeatResult::ok(
                    HeartbeatResponse { success: true, next_heartbeat_due: next_due },
                )
            },
        }
    }
}

/// What a balance reconciliation at `now` does to an account: the cached
/// balance is overwritten with the ledger's answer, and any change is
/// logged (a rise as a deposit, a fall as a plain sync).
pub open spec fn synced_balance_update_spec(a: AccountView, now: u64, ledger_balance: u64) -> AccountView {
    if ledger_balance == a.balance {
        a
    } else {
        AccountView {
            balance: ledger_balance,
            transaction_history: push_log_spec(
                a.transaction_history,
                TransactionLog {
                    timestamp: now,
                    transaction_type: if ledger_balance > a.balance {
                        EventKind::Deposit
                    } else {
                        EventKind::BalanceSync
                    },
                    amount: Some(ledger_balance),
                },
            ),
            ..a
        }
    }
}

/// What a verified deposit does to an account: the cached balance rises to
/// the ledger's answer and the delta is logged. (Only meaningful when the
/// ledger is not behind the cache.)
pub open spec fn deposit_update_spec(a: AccountView, now: u64, ledger_balance: u64) -> AccountView {
    if ledger_balance > a.balance {
        AccountView {
            balance: ledger_balance,
            transaction_history: push_log_spec(
                a.transaction_history,
                TransactionLog {
                    timestamp: now,
                    transaction_type: EventKind::Deposit,
                    amount: Some((ledger_balance - a.balance) as u64),
                },
            ),
            ..a
        }
    } else {
        a
    }
}

/// What a mock top-up does to an account: the balance grows by `amount`,
/// saturating, and a nonzero top-up is logged.
pub open spec fn mock_balance_update_spec(a: AccountView, now: u64, amount: u64) -> AccountView {
    let grown = AccountView { balance: saturate_u64(a.balance + amount), ..a };
    if amount > 0 {
        AccountView {
            transaction_history: push_log_spec(
                a.transaction_history,
                TransactionLog {
                    timestamp: now,
                    transaction_type: EventKind::MockDeposit,
                    amount: Some(amount),
                },
            ),
            ..grown
        }
    } else {
        grown
    }
}

impl DeadManSwitchState {
    /// Replace the account at position `i` by a well-formed account of the
    /// same owner.
    pub(crate) fn replace_account(&mut self, i: usize, a: UserAccount)
        requires
            old(self).wf(),
            i < old(self).users@.len(),
            account_wf(a@),
            a@.principal == old(self)@.users[i as int].principal,
        ensures
            final (self).wf(),
            final (self)@.users == old(self)@.users.update(i as int, a@),
            final (self)@.ckbtc_ledger == old(self)@.ckbtc_ledger,
    {
        proof {
            lemma_views_of_users(self.users@);
            lemma_views_of_users_update(self.users@, i as int, a);
            lemma_users_wf_update(self@.users, i as int, a@);
        }
        self.users.set(i, a);
    }

    /// Whether `caller` has an account.
    pub fn is_registered(&self, caller: u64) -> (r: bool)
        requires
            self.wf(),
        ensures
            r <==> contains_owner(self@.users, caller),
    {
        self.find_user(caller).is_some()
    }

    /// Overwrite the cached balance of `caller`'s account with the balance
    /// the external ledger reported, logging the delta.
    pub fn sync_balance(&mut self, caller: u64, now: u64, ledger_balance: u64) -> (r: Result_)
        requires
            old(self).wf(),
        ensures
            final (self).wf(),
            final (self)@.ckbtc_ledger == old(self)@.ckbtc_ledger,
            match r {
                Result_::ok => {
                    &&& contains_owner(old(self)@.users, caller)
                    &&& final (self)@.users == old(self)@.users.update(
                        owner_index(old(self)@.users, caller),
                        synced_balance_update_spec(
                            account_of(old(self)@.users, caller),
                            now,
                            ledger_balance,
                        ),
                    )
                },
                Result_::err(e) => {
                    &&& e == SwitchError::NotRegistered
                    &&& !contains_owner(old(self)@.users, caller)
                    &&& final (self)@ == old(self)@
                },
            },
    {
        match self.find_user(caller) {
            None => Result_::err(SwitchError::NotRegistered),
            Some(i) => {
                let ghost users0 = self@.users;
                let mut a = self.users[i].clone();
                if ledger_balance != a.balance {
                    let kind = if ledger_balance > a.balance {
                        EventKind::Deposit
                    } else {
                        EventKind::BalanceSync
                    };
                    a.balance = ledger_balance;
                    push_log(
                        &mut a.transaction_history,
                        TransactionLog {
                            timestamp: now,
                            transaction_type: kind,
                            amount: Some(ledger_balance),
                        },
                    );
                }
                proof {
                    assert(a@ =~= synced_balance_update_spec(
                        account_of(users0, caller),
                        now,
                        ledger_balance,
                    ));
                }
                self.replace_account(i, a);
                Result_::ok
            },
        }
    }

    /// Acknowledge a deposit: accept the ledger's balance when it is at
    /// least the cached one, logging the growth; refuse when the ledger
    /// reads less than the cache.
    pub fn deposit(&mut self, caller: u64, now: u64, ledger_balance: u64) -> (r: Result_)
        requires
            old(self).wf(),
        ensures
            final (self).wf(),
            final (self)@.ckbtc_ledger == old(self)@.ckbtc_ledger,
            match r {
                Result_::ok => {
                    &&& contains_owner(old(self)@.users, caller)
                    &&& ledger_balance >= account_of(old(self)@.users, caller).balance
                    &&& final (self)@.users == old(self)@.users.update(
                        owner_index(old(self)@.users, caller),
                        deposit_update_spec(
                            account_of(old(self)@.users, caller),
                            now,
                            ledger_balance,
                        ),
                    )
                },
                Result_::err(e) => {
                    &&& final (self)@ == old(self)@
                    &&& (e == SwitchError::NotRegistered || e == SwitchError::LedgerBelowTracked)
                    &&& (e == SwitchError::NotRegistered <==> !contains_owner(
                        old(self)@.users,
                        caller,
                    ))
                    &&& (e == SwitchError::LedgerBelowTracked <==> contains_owner(
                        old(self)@.users,
                        caller,
                    ) && ledger_balance < account_of(old(self)@.users, caller).balance)
                },
            },
    {
        match self.find_user(caller) {
            None => Result_::err(SwitchError::NotRegistered),
            Some(i) => {
                let ghost users0 = self@.users;
                let mut a = self.users[i].clone();
                if ledger_balance < a.balance {
                    return Result_::err(SwitchError::LedgerBelowTracked);
                }
                if ledger_balance > a.balance {
                    let delta = ledger_balance - a.balance;
                    a.balance = ledger_balance;
                    push_log(
                        &mut a.transaction_history,
                        TransactionLog {
                            timestamp: now,
                            transaction_type: EventKind::Deposit,
                            amount: Some(delta),
                        },
                    );
                }
                proof {
                    assert(a@ =~= deposit_update_spec(
                        account_of(users0, caller),
                        now,
                        ledger_balance,
                    ));
                }
                self.replace_account(i, a);
                Result_::ok
            },
        }
    }

    /// Top the cached balance up without consulting the ledger; a
    /// development aid, kept faithful to the hosted behaviour.
    pub fn set_mock_balance(&mut self, caller: u64, now: u64, amount: u64) -> (r: Result_)
        requires
            old(self).wf(),
        ensures
            final (self).wf(),
            final (self)@.ckbtc_ledger == old(self)@.ckbtc_ledger,
            match r {
                Result_::ok => {
                    &&& contains_owner(old(self)@.users, caller)
                    &&& final (self)@.users == old(self)@.users.update(
                        owner_index(old(self)@.users, caller),
                        mock_balance_update_spec(account_of(old(self)@.users, caller), now, amount),
                    )
                },
                Result_::err(e) => {
                    &&& e == SwitchError::NotRegistered
                    &&& !contains_owner(old(self)@.users, caller)
                    &&& final (self)@ == old(self)@
                },
            },
    {
        match self.find_user(caller) {
            None => Result_::err(SwitchError::NotRegistered),
            Some(i) => {
                let ghost users0 = self@.users;
                let mut a = self.users[i].clone();
                a.balance = a.balance.saturating_add(amount);
                if amount > 0 {
                    push_log(
                        &mut a.transaction_history,
                        TransactionLog {
                            timestamp: now,
                            transaction_type: EventKind::MockDeposit,
                            amount: Some(amount),
                        },
                    );
                }
                proof {
                    assert(a@ =~= mock_balance_update_spec(account_of(users0, caller), now, amount));
                }
                self.replace_account(i, a);
                Result_::ok
            },
        }
    }
}

/// The log entry of a settings change.
pub open spec fn settings_log_spec(now: u64) -> TransactionLog {
    TransactionLog { timestamp: now, transaction_type: EventKind::SettingsUpdate, amount: None }
}

/// What a settings update does to an account. A new timeout interval
/// under which the account is not yet timed out at `now` also clears any
/// detected timeout, so that an account the machine would classify alive
/// never carries a marker. A new beneficiary replaces the whole
/// beneficiary list by that single recipient at one hundred percent.
pub open spec fn settings_update_spec(
    a: AccountView,
    now: u64,
    timeout: Option<u64>,
    beneficiary: Option<u64>,
) -> AccountView {
    let a1 = match timeout {
        Some(t) => AccountView {
            timeout_duration_seconds: t,
            timeout_detected_at: if crate::classify::elapsed_spec(now, a) < t {
                None
            } else {
                a.timeout_detected_at
            },
            ..a
        },
        None => a,
    };
    let a2 = match beneficiary {
        Some(b) => AccountView {
            beneficiary: b,
            beneficiaries: seq![
                BeneficiaryView { principal: b, percentage: 100, subaccount: None },
            ],
            ..a1
        },
        None => a1,
    };
    AccountView {
        transaction_history: push_log_spec(a2.transaction_history, settings_log_spec(now)),
        ..a2
    }
}

/// What a contestation-period change does to an account.
pub open spec fn contestation_update_spec(a: AccountView, now: u64, seconds: u64) -> AccountView {
    AccountView {
        contestation_period_seconds: seconds,
        transaction_history: push_log_spec(a.transaction_history, settings_log_spec(now)),
        ..a
    }
}

/// What adding a trusted party does to an account.
pub open spec fn add_trusted_update_spec(a: AccountView, now: u64, p: u64) -> AccountView {
    AccountView {
        trusted_parties: a.trusted_parties.push(p),
        transaction_history: push_log_spec(a.transaction_history, settings_log_spec(now)),
        ..a
    }
}

/// What removing a trusted party does to an account: the first occurrence
/// leaves the list.
pub open spec fn remove_trusted_update_spec(a: AccountView, now: u64, p: u64) -> AccountView {
    match a.trusted_parties.index_of_first(p) {
        Some(idx) => AccountView {
            trusted_parties: a.trusted_parties.remove(idx),
            transaction_history: push_log_spec(a.transaction_history, settings_log_spec(now)),
            ..a
        },
        None => a,
    }
}

/// What a cancellation does to an account: the detected timeout is
/// cleared — the heartbeat clock is deliberately not restarted — and the
/// event is logged.
pub open spec fn cancel_update_spec(a: AccountView, now: u64) -> AccountView {
    AccountView {
        timeout_detected_at: None,
        transaction_history: push_log_spec(
            a.transaction_history,
            TransactionLog {
                timestamp: now,
                transaction_type: EventKind::TimeoutCancelled,
                amount: None,
            },
        ),
        ..a
    }
}

/// Whether a cancellation by trusted party `caller` applies to `a`.
pub open spec fn trusted_cancel_applies(a: AccountView, caller: u64) -> bool {
    a.trusted_parties.contains(caller) && a.timeout_detected_at is Some
}

/// Linear scan for a value.
fn contains_u64(v: &Vec<u64>, x: u64) -> (r: bool)
    ensures
        r <==> v@.contains(x),
{
    let mut i: usize = 0;
    while i < v.len()
        invariant
            i <= v@.len(),
            forall|j: int| 0 <= j < i ==> v@[j] != x,
        decreases v@.len() - i,
    {
        if v[i] == x {
            return true;
        }
        i = i + 1;
    }
    false
}

/// Linear scan for the first occurrence of a value.
fn find_first_u64(v: &Vec<u64>, x: u64) -> (r: Option<usize>)
    ensures
        match r {
            Some(i) => {
                &&& i < v@.len()
                &&& v@[i as int] == x
                &&& v@.index_of_first(x) == Some(i as int)
            },
            None => {
                &&& !v@.contains(x)
                &&& v@.index_of_first(x) is None
            },
        },
{
    let mut i: usize = 0;
    while i < v.len()
        invariant
            i <= v@.len(),
            forall|j: int| 0 <= j < i ==> v@[j] != x,
        decreases v@.len() - i,
    {
        if v[i] == x {
            proof {
                v@.index_of_first_ensures(x);
                assert(v@.contains(x));
            }
            return Some(i);
        }
        i = i + 1;
    }
    proof {
        v@.index_of_first_ensures(x);
    }
    None
}

impl DeadManSwitchState {
    /// Change the timeout interval and/or the beneficiary. A zero interval
    /// is refused; a request that names neither is refused.
    pub fn update_settings(
        &mut self,
        caller: u64,
        now: u64,
        timeout_duration_seconds: Option<u64>,
        beneficiary: Option<u64>,
    ) -> (r: Result_)
        requires
            old(self).wf(),
        ensures
            final (self).wf(),
            final (self)@.ckbtc_ledger == old(self)@.ckbtc_ledger,
            match r {
                Result_::ok => {
                    &&& contains_owner(old(self)@.users, caller)
                    &&& (timeout_duration_seconds is Some || beneficiary is Some)
                    &&& timeout_duration_seconds != Some(0u64)
                    &&& final (self)@.users == old(self)@.users.update(
                        owner_index(old(self)@.users, caller),
                        settings_update_spec(
                            account_of(old(self)@.users, caller),
                            now,
                            timeout_duration_seconds,
                            beneficiary,
                        ),
                    )
                },
                Result_::err(e) => {
                    &&& final (self)@ == old(self)@
                    &&& (e == SwitchError::NotRegistered || e == SwitchError::ZeroTimeout
                        || e == SwitchError::NoChangesProvided)
                    &&& (e == SwitchError::NotRegistered <==> !contains_owner(
                        old(self)@.users,
                        caller,
                    ))
                    &&& (e == SwitchError::ZeroTimeout <==> contains_owner(old(self)@.users, caller)
                        && timeout_duration_seconds == Some(0u64))
                    &&& (e == SwitchError::NoChangesProvided <==> contains_owner(
                        old(self)@.users,
                        caller,
                    ) && timeout_duration_seconds is None && beneficiary is None)
                },
            },
    {
        match self.find_user(caller) {
            None => Result_::err(SwitchError::NotRegistered),
            Some(i) => {
                if timeout_duration_seconds == Some(0u64) {
                    return Result_::err(SwitchError::ZeroTimeout);
                }
                if timeout_duration_seconds.is_none() && beneficiary.is_none() {
                    return Result_::err(SwitchError::NoChangesProvided);
                }
                let ghost users0 = self@.users;
                let mut a = self.users[i].clone();
                if let Some(t) = timeout_duration_seconds {
                    if now.saturating_sub(a.last_heartbeat) < t {
                        a.timeout_detected_at = None;
                    }
                    a.timeout_duration_seconds = t;
                }
                if let Some(b) = beneficiary {
                    a.beneficiary = b;
                    let mut bs: Vec<Beneficiary> = Vec::new();
                    bs.push(Beneficiary { principal: b, percentage: 100, subaccount: None });
                    a.beneficiaries = bs;
                    proof {
                        crate::types::lemma_views_of_beneficiaries(a.beneficiaries@);
                    }
                }
                push_log(&mut a.transaction_history, TransactionLog {
                    timestamp: now,
                    transaction_type: EventKind::SettingsUpdate,
                    amount: None,
                });
                proof {
                    assert(a@ =~= settings_update_spec(
                        account_of(users0, caller),
                        now,
                        timeout_duration_seconds,
                        beneficiary,
                    ));
                }
                self.replace_account(i, a);
                Result_::ok
            },
        }
    }

    /// Change how long the account stays contestable after a detected
    /// timeout. Zero is allowed: no grace at all.
    pub fn update_contestation_period(&mut self, caller: u64, now: u64, seconds: u64) -> (r:
        Result_)
        requires
            old(self).wf(),
        ensures
            final (self).wf(),
            final (self)@.ckbtc_ledger == old(self)@.ckbtc_ledger,
            match r {
                Result_::ok => {
                    &&& contains_owner(old(self)@.users, caller)
                    &&& final (self)@.users == old(self)@.users.update(
                        owner_index(old(self)@.users, caller),
                        contestation_update_spec(account_of(old(self)@.users, caller), now, seconds),
                    )
                },
                Result_::err(e) => {
                    &&& e == SwitchError::NotRegistered
                    &&& !contains_owner(old(self)@.users, caller)
                    &&& final (self)@ == old(self)@
                },
            },
    {
        match self.find_user(caller) {
            None => Result_::err(SwitchError::NotRegistered),
            Some(i) => {
                let ghost users0 = self@.users;
                let mut a = self.users[i].clone();
                a.contestation_period_seconds = seconds;
                push_log(&mut a.transaction_history, settings_log_exec(now));
                proof {
                    assert(a@ =~= contestation_update_spec(account_of(users0, caller), now, seconds));
                }
                self.replace_account(i, a);
                Result_::ok
            },
        }
    }

    /// Authorize `trusted_party` to cancel a pending timeout on the
    /// caller's account.
    pub fn add_trusted_party(&mut self, caller: u64, now: u64, trusted_party: u64) -> (r: Result_)
        requires
            old(self).wf(),
        ensures
            final (self).wf(),
            final (self)@.ckbtc_ledger == old(self)@.ckbtc_ledger,
            match r {
                Result_::ok => {
                    &&& contains_owner(old(self)@.users, caller)
                    &&& !account_of(old(self)@.users, caller).trusted_parties.contains(
                        trusted_party,
                    )
                    &&& final (self)@.users == old(self)@.users.update(
                        owner_index(old(self)@.users, caller),
                        add_trusted_update_spec(
                            account_of(old(self)@.users, caller),
                            now,
                            trusted_party,
                        ),
                    )
                },
                Result_::err(e) => {
                    &&& final (self)@ == old(self)@
                    &&& (e == SwitchError::NotRegistered || e == SwitchError::TrustedPartyExists)
                    &&& (e == SwitchError::NotRegistered <==> !contains_owner(
                        old(self)@.users,
                        caller,
                    ))
                    &&& (e == SwitchError::TrustedPartyExists <==> contains_owner(
                        old(self)@.users,
                        caller,
                    ) && account_of(old(self)@.users, caller).trusted_parties.contains(
                        trusted_party,
                    ))
                },
            },
    {
        match self.find_user(caller) {
            None => Result_::err(SwitchError::NotRegistered),
            Some(i) => {
                let ghost users0 = self@.users;
                let mut a = self.users[i].clone();
                if contains_u64(&a.trusted_parties, trusted_party) {
                    return Result_::err(SwitchError::TrustedPartyExists);
                }
                a.trusted_parties.push(trusted_party);
                push_log(&mut a.transaction_history, settings_log_exec(now));
                proof {
                    assert(a@ =~= add_trusted_update_spec(
                        account_of(users0, caller),
                        now,
                        trusted_party,
                    ));
                }
                self.replace_account(i, a);
                Result_::ok
            },
        }
    }

    /// Withdraw `trusted_party`'s authorization again.
    pub fn remove_trusted_party(&mut self, caller: u64, now: u64, trusted_party: u64) -> (r:
        Result_)
        requires
            old(self).wf(),
        ensures
            final (self).wf(),
            final (self)@.ckbtc_ledger == old(self)@.ckbtc_ledger,
            match r {
                Result_::ok => {
                    &&& contains_owner(old(self)@.users, caller)
                    &&& account_of(old(self)@.users, caller).trusted_parties.contains(trusted_party)
                    &&& final (self)@.users == old(self)@.users.update(
                        owner_index(old(self)@.users, caller),
                        remove_trusted_update_spec(
                            account_of(old(self)@.users, caller),
                            now,
                            trusted_party,
                        ),
                    )
                },
                Result_::err(e) => {
                    &&& final (self)@ == old(self)@
                    &&& (e == SwitchError::NotRegistered || e == SwitchError::TrustedPartyNotFound)
                    &&& (e == SwitchError::NotRegistered <==> !contains_owner(
                        old(self)@.users,
                        caller,
                    ))
                    &&& (e == SwitchError::TrustedPartyNotFound <==> contains_owner(
                        old(self)@.users,
                        caller,
                    ) && !account_of(old(self)@.users, caller).trusted_parties.contains(
                        trusted_party,
                    ))
                },
            },
    {
        match self.find_user(caller) {
            None => Result_::err(SwitchError::NotRegistered),
            Some(i) => {
                let ghost users0 = self@.users;
                let mut a = self.users[i].clone();
                match find_first_u64(&a.trusted_parties, trusted_party) {
                    None => Result_::err(SwitchError::TrustedPartyNotFound),
                    Some(idx) => {
                        a.trusted_parties.remove(idx);
                        push_log(&mut a.transaction_history, settings_log_exec(now));
                        proof {
                            assert(a@ =~= remove_trusted_update_spec(
                                account_of(users0, caller),
                                now,
                                trusted_party,
                            ));
                        }
                        self.replace_account(i, a);
                        Result_::ok
                    },
                }
            },
        }
    }

    /// Cancel a pending timeout. A registered caller cancels on their own
    /// account, provided a timeout is actually pending. A caller with no
    /// account of their own acts as a trusted party: every account that
    /// lists them and has a pending timeout is cleared.
    pub fn cancel_timeout_transfer(&mut self, caller: u64, now: u64) -> (r: Result_)
        requires
            old(self).wf(),
        ensures
            final (self).wf(),
            final (self)@.ckbtc_ledger == old(self)@.ckbtc_ledger,
            contains_owner(old(self)@.users, caller) ==> match r {
                Result_::ok => {
                    &&& account_of(old(self)@.users, caller).timeout_detected_at is Some
                    &&& final (self)@.users == old(self)@.users.update(
                        owner_index(old(self)@.users, caller),
                        cancel_update_spec(account_of(old(self)@.users, caller), now),
                    )
                },
                Result_::err(e) => {
                    &&& e == SwitchError::NoActiveTimeout
                    &&& account_of(old(self)@.users, caller).timeout_detected_at is None
                    &&& final (self)@ == old(self)@
                },
            },
            !contains_owner(old(self)@.users, caller) ==> {
                &&& final (self)@.users.len() == old(self)@.users.len()
                &&& forall|j: int|
                    0 <= j < old(self)@.users.len() ==> final (self)@.users[j] == (
                    if trusted_cancel_applies(#[trigger] old(self)@.users[j], caller) {
                        cancel_update_spec(old(self)@.users[j], now)
                    } else {
                        old(self)@.users[j]
                    })
                &&& match r {
                    Result_::ok => exists|j: int|
                        0 <= j < old(self)@.users.len() && trusted_cancel_applies(
                            #[trigger] old(self)@.users[j],
                            caller,
                        ),
                    Result_::err(e) => {
                        &&& e == SwitchError::NotAuthorized
                        &&& forall|j: int|
                            0 <= j < old(self)@.users.len() ==> !trusted_cancel_applies(
                                #[trigger] old(self)@.users[j],
                                caller,
                            )
                    },
                }
            },
    {
        match self.find_user(caller) {
            Some(i) => {
                let ghost users0 = self@.users;
                let mut a = self.users[i].clone();
                if a.timeout_detected_at.is_some() {
                    a.timeout_detected_at = None;
                    push_log(&mut a.transaction_history, TransactionLog {
                        timestamp: now,
                        transaction_type: EventKind::TimeoutCancelled,
                        amount: None,
                    });
                    proof {
                        assert(a@ =~= cancel_update_spec(account_of(users0, caller), now));
                    }
                    self.replace_account(i, a);
                    Result_::ok
                } else {
                    Result_::err(SwitchError::NoActiveTimeout)
                }
            },
            None => {
                let ghost users0 = self@.users;
                let mut cancelled = false;
                let mut i: usize = 0;
                while i < self.users.len()
                    invariant
                        self.wf(),
                        i <= users0.len(),
                        self.users@.len() == users0.len(),
                        self@.users.len() == users0.len(),
                        self@.ckbtc_ledger == old(self)@.ckbtc_ledger,
                        forall|j: int|
                            0 <= j < i ==> self@.users[j] == (if trusted_cancel_applies(
                                #[trigger] users0[j],
                                caller,
                            ) {
                                cancel_update_spec(users0[j], now)
                            } else {
                                users0[j]
                            }),
                        forall|j: int| i <= j < users0.len() ==> self@.users[j] == users0[j],
                        cancelled <==> exists|j: int|
                            0 <= j < i && trusted_cancel_applies(#[trigger] users0[j], caller),
                    decreases self.users@.len() - i,
                {
                    proof {
                        lemma_views_of_users(self.users@);
                    }
                    let is_trusted = contains_u64(&self.users[i].trusted_parties, caller);
                    if is_trusted && self.users[i].timeout_detected_at.is_some() {
                        let mut a = self.users[i].clone();
                        a.timeout_detected_at = None;
                        push_log(&mut a.transaction_history, TransactionLog {
                            timestamp: now,
                            transaction_type: EventKind::TimeoutCancelled,
                            amount: None,
                        });
                        proof {
                            assert(trusted_cancel_applies(users0[i as int], caller));
                            assert(a@ =~= cancel_update_spec(users0[i as int], now));
                        }
                        self.replace_account(i, a);
                        cancelled = true;
                    }
                    proof {
                        lemma_views_of_users(self.users@);
                    }
                    i = i + 1;
                }
                if cancelled {
                    Result_::ok
                } else {
                    Result_::err(SwitchError::NotAuthorized)
                }
            },
        }
    }
}

/// What a completed withdrawal does to an account: the cached balance
/// shrinks by the transferred amount and the event is logged.
pub open spec fn withdraw_update_spec(a: AccountView, now: u64, amount: u64) -> AccountView
    recommends
        amount <= a.balance,
{
    AccountView {
        balance: (a.balance - amount) as u64,
        transaction_history: push_log_spec(
            a.transaction_history,
            TransactionLog {
                timestamp: now,
                transaction_type: EventKind::Withdrawal,
                amount: Some(amount),
            },
        ),
        ..a
    }
}

/// The balances of all accounts added up, as a mathematical value.
pub open spec fn sum_balances(users: Seq<AccountView>) -> int
    decreases users.len(),
{
    if users.len() == 0 {
        0
    } else {
        sum_balances(users.drop_last()) + users.last().balance
    }
}

/// The sum of balances is never negative.
pub proof fn lemma_sum_balances_nonneg(users: Seq<AccountView>)
    ensures
        sum_balances(users) >= 0,
    decreases users.len(),
{
    if users.len() > 0 {
        lemma_sum_balances_nonneg(users.drop_last());
    }
}

impl DeadManSwitchState {
    /// Whether a withdrawal of `amount` may go ahead for `caller`:
    /// the account must exist and its cached balance must cover the
    /// amount. Nothing is changed; the host performs the ledger transfer
    /// and then commits it with [`Self::apply_withdraw`].
    pub fn check_withdraw(&self, caller: u64, amount: u64) -> (r: Result_)
        requires
            self.wf(),
        ensures
            match r {
                Result_::ok => {
                    &&& contains_owner(self@.users, caller)
                    &&& account_of(self@.users, caller).balance >= amount
                },
                Result_::err(e) => {
                    &&& (e == SwitchError::NotRegistered || e == SwitchError::InsufficientBalance)
                    &&& (e == SwitchError::NotRegistered <==> !contains_owner(self@.users, caller))
                    &&& (e == SwitchError::InsufficientBalance <==> contains_owner(
                        self@.users,
                        caller,
                    ) && account_of(self@.users, caller).balance < amount)
                },
            },
    {
        match self.find_user(caller) {
            None => Result_::err(SwitchError::NotRegistered),
            Some(i) => {
                if self.users[i].balance < amount {
                    Result_::err(SwitchError::InsufficientBalance)
                } else {
                    Result_::ok
                }
            },
        }
    }

    /// Commit a withdrawal whose ledger transfer succeeded: decrement the
    /// cached balance and log the event. The balance is re-checked, so a
    /// commit that no longer fits the account is refused rather than
    /// miscounted.
    pub fn apply_withdraw(&mut self, caller: u64, now: u64, amount: u64) -> (r: Result_)
        requires
            old(self).wf(),
        ensures
            final (self).wf(),
            final (self)@.ckbtc_ledger == old(self)@.ckbtc_ledger,
            match r {
                Result_::ok => {
                    &&& contains_owner(old(self)@.users, caller)
                    &&& account_of(old(self)@.users, caller).balance >= amount
                    &&& final (self)@.users == old(self)@.users.update(
                        owner_index(old(self)@.users, caller),
                        withdraw_update_spec(account_of(old(self)@.users, caller), now, amount),
                    )
                },
                Result_::err(e) => {
                    &&& final (self)@ == old(self)@
                    &&& (e == SwitchError::NotRegistered || e == SwitchError::InsufficientBalance)
                    &&& (e == SwitchError::NotRegistered <==> !contains_owner(
                        old(self)@.users,
                        caller,
                    ))
                    &&& (e == SwitchError::InsufficientBalance <==> contains_owner(
                        old(self)@.users,
                        caller,
                    ) && account_of(old(self)@.users, caller).balance < amount)
                },
            },
    {
        match self.find_user(caller) {
            None => Result_::err(SwitchError::NotRegistered),
            Some(i) => {
                let ghost users0 = self@.users;
                let mut a = self.users[i].clone();
                if a.balance < amount {
                    return Result_::err(SwitchError::InsufficientBalance);
                }
                a.balance = a.balance - amount;
                push_log(&mut a.transaction_history, TransactionLog {
                    timestamp: now,
                    transaction_type: EventKind::Withdrawal,
                    amount: Some(amount),
                });
                proof {
                    assert(a@ =~= withdraw_update_spec(account_of(users0, caller), now, amount));
                }
                self.replace_account(i, a);
                Result_::ok
            },
        }
    }

    /// The caller's account, as registered.
    pub fn get_account_info(&self, caller: u64) -> (r: AccountInfoResult)
        requires
            self.wf(),
        ensures
            match r {
                AccountInfoResult::ok(a) => {
                    &&& contains_owner(self@.users, caller)
                    &&& a@ == account_of(self@.users, caller)
                },
                AccountInfoResult::err(e) => {
                    &&& e == SwitchError::NotRegistered
                    &&& !contains_owner(self@.users, caller)
                },
            },
    {
        match self.find_user(caller) {
            None => AccountInfoResult::err(SwitchError::NotRegistered),
            Some(i) => AccountInfoResult::ok(self.users[i].clone()),
        }
    }

    /// The caller's cached balance.
    pub fn get_user_balance(&self, caller: u64) -> (r: BalanceResult)
        requires
            self.wf(),
        ensures
            match r {
                BalanceResult::ok(b) => {
                    &&& contains_owner(self@.users, caller)
                    &&& b == account_of(self@.users, caller).balance
                },
                BalanceResult::err(e) => {
                    &&& e == SwitchError::NotRegistered
                    &&& !contains_owner(self@.users, caller)
                },
            },
    {
        match self.find_user(caller) {
            None => BalanceResult::err(SwitchError::NotRegistered),
            Some(i) => BalanceResult::ok(self.users[i].balance),
        }
    }

    /// The caller's event log.
    pub fn get_transaction_history(&self, caller: u64) -> (r: TransactionHistoryResult)
        requires
            self.wf(),
        ensures
            match r {
                TransactionHistoryResult::ok(h) => {
                    &&& contains_owner(self@.users, caller)
                    &&& h@ == account_of(self@.users, caller).transaction_history
                },
                TransactionHistoryResult::err(e) => {
                    &&& e == SwitchError::NotRegistered
                    &&& !contains_owner(self@.users, caller)
                },
            },
    {
        match self.find_user(caller) {
            None => TransactionHistoryResult::err(SwitchError::NotRegistered),
            Some(i) => {
                let a = self.users[i].clone();
                TransactionHistoryResult::ok(a.transaction_history)
            },
        }
    }

    /// Where the caller's account stands in the state machine at `now`.
    pub fn get_timeout_status(&self, caller: u64, now: u64) -> (r: TimeoutStatusResult)
        requires
            self.wf(),
        ensures
            match r {
                TimeoutStatusResult::ok(s) => {
                    &&& contains_owner(self@.users, caller)
                    &&& s == timeout_status_spec(now, account_of(self@.users, caller))
                },
                TimeoutStatusResult::err(e) => {
                    &&& e == SwitchError::NotRegistered
                    &&& !contains_owner(self@.users, caller)
                },
            },
    {
        match self.find_user(caller) {
            None => TimeoutStatusResult::err(SwitchError::NotRegistered),
            Some(i) => TimeoutStatusResult::ok(timeout_status(now, &self.users[i])),
        }
    }

    /// Every account, paired with its owner. Administrative; the hosted
    /// original exposes it without authentication, a known hardening gap.
    pub fn list_users(&self) -> (r: Vec<(u64, UserAccount)>)
        requires
            self.wf(),
        ensures
            r@.len() == self@.users.len(),
            forall|i: int|
                0 <= i < r@.len() ==> (#[trigger] r@[i]).0 == self@.users[i].principal && r@[i].1@
                    == self@.users[i],
    {
        proof {
            lemma_views_of_users(self.users@);
        }
        let mut out: Vec<(u64, UserAccount)> = Vec::new();
        let mut i: usize = 0;
        while i < self.users.len()
            invariant
                i <= self.users@.len(),
                self@.users.len() == self.users@.len(),
                forall|j: int| 0 <= j < self@.users.len() ==> self@.users[j] == self.users@[j]@,
                out@.len() == i,
                forall|j: int|
                    0 <= j < i ==> (#[trigger] out@[j]).0 == self@.users[j].principal && out@[j].1@
                        == self@.users[j],
            decreases self.users@.len() - i,
        {
            let a = self.users[i].clone();
            out.push((a.principal, a));
            i = i + 1;
        }
        out
    }

    /// All cached balances added up, clamped into `u64`; the fallback
    /// answer when the ledger itself cannot be asked.
    pub fn total_tracked_balance(&self) -> (r: u64)
        requires
            self.wf(),
        ensures
            r == saturate_u64(sum_balances(self@.users)),
    {
        proof {
            lemma_views_of_users(self.users@);
        }
        let mut total: u64 = 0;
        let mut i: usize = 0;
        while i < self.users.len()
            invariant
                i <= self.users@.len(),
                self@.users.len() == self.users@.len(),
                forall|j: int| 0 <= j < self@.users.len() ==> self@.users[j] == self.users@[j]@,
                total == saturate_u64(sum_balances(self@.users.take(i as int))),
            decreases self.users@.len() - i,
        {
            proof {
                lemma_sum_balances_nonneg(self@.users.take(i as int));
                assert(self@.users.take(i + 1).drop_last() =~= self@.users.take(i as int));
                assert(self@.users.take(i + 1).last() == self@.users[i as int]);
            }
            total = total.saturating_add(self.users[i].balance);
            i = i + 1;
        }
        proof {
            assert(self@.users.take(self@.users.len() as int) =~= self@.users);
        }
        total
    }

    /// The balance report of the whole custody account: the ledger's own
    /// answer when one was obtained, else the sum of cached balances.
    pub fn get_ckbtc_balance(&self, ledger_answer: Option<u64>) -> (r: BalanceResult)
        requires
            self.wf(),
        ensures
            match ledger_answer {
                Some(b) => r == BalanceResult::ok(b),
                None => r == BalanceResult::ok(saturate_u64(sum_balances(self@.users))),
            },
    {
        match ledger_answer {
            Some(b) => BalanceResult::ok(b),
            None => BalanceResult::ok(self.total_tracked_balance()),
        }
    }
}

/// The log entry of a settings change, as a value.
fn settings_log_exec(now: u64) -> (r: TransactionLog)
    ensures
        r == settings_log_spec(now),
{
    TransactionLog { timestamp: now, transaction_type: EventKind::SettingsUpdate, amount: None }
}

impl Default for DeadManSwitchState {
    /// A fresh store: no accounts, the ledger reference still unset (the
    /// anonymous identity stands for "no ledger configured").
    fn default() -> (s: Self)
        ensures
            s.wf(),
            s@.users.len() == 0,
            s@.ckbtc_ledger == crate::ANONYMOUS_PRINCIPAL,
    {
        let s = DeadManSwitchState { users: Vec::new(), ckbtc_ledger: crate::ANONYMOUS_PRINCIPAL };
        proof {
            lemma_views_of_users(s.users@);
        }
        s
    }
}

} // verus!
