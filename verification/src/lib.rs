//! A dead man's switch over a custodied token balance.
//!
//! An owner registers a timeout interval and a beneficiary. As long as the
//! owner keeps sending heartbeats, nothing happens. Once heartbeats stop for
//! longer than the interval, a grace (contestation) window opens during which
//! the owner or a trusted party can still cancel; if the window elapses
//! unchallenged, the balance is disbursed to the configured beneficiaries.
//!
//! The crate holds the pure, verified core: account state, the timeout and
//! grace-period state machine, the account store, and the disbursement
//! engine. The surrounding host (timers, authenticated callers, the actual
//! token ledger) drives these functions with plain values.

use vstd::prelude::*;

pub mod classify;
pub mod disburse;
pub mod laws;
pub mod results;
pub mod state;
pub mod types;

verus! {

/// Identity handle reserved for the anonymous (unauthenticated) caller.
///
/// Owner and beneficiary identities are opaque handles assigned by the
/// hosting environment; the library only compares them for equality.
pub const ANONYMOUS_PRINCIPAL: u64 = 0;

/// Default contestation window, in seconds: seven days.
pub const DEFAULT_CONTESTATION_SECONDS: u64 = 604800;

} // verus!
