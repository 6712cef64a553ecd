//! Laws of the state machine, proved once and for all: accounts the
//! machine would classify alive never carry a detection marker, the
//! scheduler pass is idempotent, and nothing is ever disbursed while the
//! contestation window is open.

use vstd::prelude::*;

use crate::classify::{classify_spec, elapsed_spec, grace_end_spec, Classification};
use crate::disburse::{due_accounts_spec, mark_timeout_spec};
use crate::state::{cancel_update_spec, fresh_account_spec, heartbeat_update_spec, settings_update_spec};
use crate::types::AccountView;

verus! {

/// An account whose heartbeats are current carries no detection marker.
pub open spec fn marker_consistent(a: AccountView, now: u64) -> bool {
    elapsed_spec(now, a) < a.timeout_duration_seconds ==> a.timeout_detected_at is None
}

/// [`marker_consistent`], over a whole store.
pub open spec fn markers_consistent(users: Seq<AccountView>, now: u64) -> bool {
    forall|i: int| 0 <= i < users.len() ==> marker_consistent(#[trigger] users[i], now)
}

/// An account without a marker is consistent at any instant; this covers
/// registration, heartbeats and cancellations, all of which leave the
/// marker clear.
pub proof fn lemma_cleared_marker_consistent(a: AccountView)
    requires
        a.timeout_detected_at is None,
    ensures
        forall|n: u64| marker_consistent(a, n),
{
}

/// Consistency survives the passage of time on an untouched account: once
/// the required interval has not elapsed, it can only elapse later, never
/// un-elapse.
pub proof fn lemma_marker_consistent_monotone(a: AccountView, n1: u64, n2: u64)
    requires
        marker_consistent(a, n1),
        n1 <= n2,
    ensures
        marker_consistent(a, n2),
{
}

/// The scheduler's marking step keeps consistency: it sets the marker
/// only on an account whose timeout has been reached.
pub proof fn lemma_mark_preserves_consistency(a: AccountView, now: u64)
    requires
        marker_consistent(a, now),
    ensures
        marker_consistent(mark_timeout_spec(a, now), now),
{
}

/// A whole scheduler pass keeps consistency, account by account. Together
/// with the heartbeat, cancellation and registration transitions all
/// leaving the marker clear, every reachable store satisfies
/// [`markers_consistent`].
pub proof fn lemma_tick_preserves_consistency(
    users: Seq<AccountView>,
    marked: Seq<AccountView>,
    now: u64,
)
    requires
        markers_consistent(users, now),
        marked.len() == users.len(),
        forall|i: int| 0 <= i < users.len() ==> marked[i] == mark_timeout_spec(#[trigger] users[i], now),
    ensures
        markers_consistent(marked, now),
{
    assert forall|i: int| 0 <= i < marked.len() implies marker_consistent(
        #[trigger] marked[i],
        now,
    ) by {
        assert(marked[i] == mark_timeout_spec(users[i], now));
    }
}

/// Replacing one account by a consistent one keeps the whole store
/// consistent; every boundary operation touches at most one account this
/// way.
pub proof fn lemma_update_preserves_consistency(
    users: Seq<AccountView>,
    i: int,
    a: AccountView,
    now: u64,
)
    requires
        markers_consistent(users, now),
        marker_consistent(a, now),
        0 <= i < users.len(),
    ensures
        markers_consistent(users.update(i, a), now),
{
    assert forall|j: int| 0 <= j < users.len() implies marker_consistent(
        #[trigger] users.update(i, a)[j],
        now,
    ) by {
        if j != i {
            assert(users.update(i, a)[j] == users[j]);
        }
    }
}

/// A settings update keeps consistency: when the new interval is not yet
/// elapsed at `now`, the update itself clears the marker.
pub proof fn lemma_settings_update_preserves_consistency(
    a: AccountView,
    now: u64,
    timeout: Option<u64>,
    beneficiary: Option<u64>,
)
    requires
        marker_consistent(a, now),
    ensures
        marker_consistent(settings_update_spec(a, now, timeout, beneficiary), now),
{
}

/// A heartbeat returns an account to consistency at every instant, from
/// any state at all: the abort-at-the-last-moment property.
pub proof fn lemma_heartbeat_restores_consistency(a: AccountView, now: u64)
    ensures
        forall|n: u64| marker_consistent(heartbeat_update_spec(a, now), n),
        a.timeout_duration_seconds > 0 ==> classify_spec(now, heartbeat_update_spec(a, now))
            == Classification::Alive,
{
}

/// A cancellation clears the marker, whatever state the account was in.
pub proof fn lemma_cancel_restores_consistency(a: AccountView, now: u64)
    ensures
        forall|n: u64| marker_consistent(cancel_update_spec(a, now), n),
{
}

/// A fresh registration is consistent at every instant.
pub proof fn lemma_fresh_account_consistent(
    caller: u64,
    now: u64,
    args: crate::types::RegisterArgs,
)
    ensures
        forall|n: u64| marker_consistent(fresh_account_spec(caller, now, args), n),
{
}

/// Classifying an account mutates nothing, so doing it twice at the same
/// instant gives the same state: the scheduler's marking step applied a
/// second time changes no marker and appends no log entry.
pub proof fn lemma_mark_timeout_idempotent(a: AccountView, now: u64)
    ensures
        mark_timeout_spec(mark_timeout_spec(a, now), now) == mark_timeout_spec(a, now),
{
}

/// Nothing is disbursable while `now` lies before the end of the grace
/// window.
pub proof fn lemma_no_disbursement_within_grace(a: AccountView, now: u64)
    requires
        (now as int) < grace_end_spec(a),
    ensures
        classify_spec(now, a) != Classification::Disbursable,
{
}

/// An account with no persisted marker is never disbursable: a detection
/// must first be persisted, and the contestation window then runs from
/// the observation instant.
pub proof fn lemma_unmarked_never_disbursable(a: AccountView, now: u64)
    requires
        a.timeout_detected_at is None,
    ensures
        classify_spec(now, a) != Classification::Disbursable,
{
}

/// Every snapshot a scheduler pass hands to the disbursement engine is
/// classified disbursable: its grace window has fully elapsed.
pub proof fn lemma_due_accounts_disbursable(users: Seq<AccountView>, now: u64)
    ensures
        forall|k: int|
            0 <= k < due_accounts_spec(users, now).len() ==> classify_spec(
                now,
                #[trigger] due_accounts_spec(users, now)[k],
            ) == Classification::Disbursable,
    decreases users.len(),
{
    if users.len() > 0 {
        lemma_due_accounts_disbursable(users.drop_last(), now);
    }
}

} // verus!
