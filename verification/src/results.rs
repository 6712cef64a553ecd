//! Result types of the boundary operations, with structured error kinds so
//! that callers can branch programmatically.

use vstd::prelude::*;

use crate::types::{TransactionLog, UserAccount};
use crate::classify::TimeoutStatus;

verus! {

/// Why an operation was refused.
#[derive(Clone, Copy, PartialEq, Eq, Debug)]
pub enum SwitchError {
    /// The anonymous identity may not register.
    AnonymousCaller,
    /// A timeout interval must be greater than zero.
    ZeroTimeout,
    /// The caller already has an account.
    AlreadyRegistered,
    /// The caller has no account.
    NotRegistered,
    /// The cached balance does not cover the requested amount.
    InsufficientBalance,
    /// There is no detected timeout to cancel.
    NoActiveTimeout,
    /// The caller is neither a registered owner nor a trusted party with a
    /// pending timeout to cancel.
    NotAuthorized,
    /// A settings update carried nothing to change.
    NoChangesProvided,
    /// The identity is already a trusted party.
    TrustedPartyExists,
    /// The identity is not among the trusted parties.
    TrustedPartyNotFound,
    /// The ledger reports less than the tracked balance.
    LedgerBelowTracked,
    /// The single disbursement or withdrawal transfer failed.
    TransferFailed,
    /// Every attempted transfer of a multi-beneficiary disbursement failed.
    AllTransfersFailed,
}

/// Outcome of an operation that returns no payload on success.
#[allow(non_camel_case_types)]
#[derive(Clone, Copy, PartialEq, Eq, Debug)]
pub enum Result_ {
    ok,
    err(SwitchError),
}

/// Acknowledgement of a recorded heartbeat.
#[derive(Clone, Copy, PartialEq, Eq, Debug)]
pub struct HeartbeatResponse {
    pub success: bool,
    /// Instant by which the next heartbeat is due.
    pub next_heartbeat_due: u64,
}

/// Outcome of a heartbeat.
#[allow(non_camel_case_types)]
#[derive(Clone, Copy, PartialEq, Eq, Debug)]
pub enum HeartbeatResult {
    ok(HeartbeatResponse),
    err(SwitchError),
}

/// Outcome of an account query.
#[allow(non_camel_case_types)]
#[derive(Debug)]
pub enum AccountInfoResult {
    ok(UserAccount),
    err(SwitchError),
}

/// Outcome of a balance query.
#[allow(non_camel_case_types)]
#[derive(Clone, Copy, PartialEq, Eq, Debug)]
pub enum BalanceResult {
    ok(u64),
    err(SwitchError),
}

/// Outcome of a timeout-status query.
#[allow(non_camel_case_types)]
#[derive(Clone, Copy, PartialEq, Eq, Debug)]
pub enum TimeoutStatusResult {
    ok(TimeoutStatus),
    err(SwitchError),
}

/// Outcome of a history query.
#[allow(non_camel_case_types)]
#[derive(Debug)]
pub enum TransactionHistoryResult {
    ok(Vec<TransactionLog>),
    err(SwitchError),
}

/// Outcome of a disbursement attempt.
#[derive(Clone, Copy, PartialEq, Eq, Debug)]
pub struct TransferResult {
    pub success: bool,
    /// Ledger receipt of the transfer; populated only on the
    /// single-beneficiary path, since a split has no unified receipt.
    pub block_index: Option<u64>,
    /// Total amount moved by the successful transfer legs.
    pub total_transferred: u64,
}

} // verus!
