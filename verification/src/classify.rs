//! The timeout and grace-period state machine: a pure classification of an
//! account at a given instant. It is deterministic for a fixed `(now,
//! account)` pair, safe to re-evaluate at will, and never cached.

use vstd::prelude::*;

use crate::types::{AccountView, UserAccount};

verus! {

/// The observable states of an account.
#[derive(Clone, Copy, PartialEq, Eq, Debug)]
pub enum Classification {
    /// Heartbeats are current.
    Alive,
    /// A timeout has been reached and the contestation window is open.
    GraceActive,
    /// The contestation window has elapsed unchallenged.
    Disbursable,
}

/// Seconds since the last heartbeat as observed at `now`; a clock reading
/// earlier than the last heartbeat counts as no elapsed time.
pub open spec fn elapsed_spec(now: u64, a: AccountView) -> int {
    if now >= a.last_heartbeat {
        now - a.last_heartbeat
    } else {
        0
    }
}

/// Whether the required interval between heartbeats has passed.
pub open spec fn timeout_reached_spec(now: u64, a: AccountView) -> bool {
    elapsed_spec(now, a) >= a.timeout_duration_seconds
}

/// The conceptual instant of timeout detection: the recorded marker or,
/// while none is set, the theoretical timeout instant. Falling back to the
/// theoretical instant makes the grace window deterministic regardless of
/// how often the scheduler happens to look.
pub open spec fn detected_at_spec(a: AccountView) -> int {
    match a.timeout_detected_at {
        Some(t) => t as int,
        None => a.last_heartbeat + a.timeout_duration_seconds,
    }
}

/// When the contestation window closes and the balance becomes
/// disbursable.
pub open spec fn grace_end_spec(a: AccountView) -> int {
    detected_at_spec(a) + a.contestation_period_seconds
}

/// The transition rule of the state machine. A timeout observed while no
/// marker is persisted yet is a fresh detection: it opens the contestation
/// window — the scheduler persists the marker at the observation
/// instant — and the account is contestable, never directly disbursable.
/// Once a marker is set, the window ends `contestation_period_seconds`
/// after it.
pub open spec fn classify_spec(now: u64, a: AccountView) -> Classification {
    if !timeout_reached_spec(now, a) {
        Classification::Alive
    } else {
        match a.timeout_detected_at {
            None => Classification::GraceActive,
            Some(_) => if (now as int) < grace_end_spec(a) {
                Classification::GraceActive
            } else {
                Classification::Disbursable
            },
        }
    }
}

/// Classify an account at `now`.
pub fn classify(now: u64, a: &UserAccount) -> (c: Classification)
    ensures
        c == classify_spec(now, a@),
{
    let elapsed = now.saturating_sub(a.last_heartbeat);
    if elapsed < a.timeout_duration_seconds {
        Classification::Alive
    } else {
        match a.timeout_detected_at {
            None => Classification::GraceActive,
            Some(t) => {
                let grace_end: u128 = t as u128 + a.contestation_period_seconds as u128;
                if (now as u128) < grace_end {
                    Classification::GraceActive
                } else {
                    Classification::Disbursable
                }
            },
        }
    }
}

/// Clamp a non-negative mathematical value into the `u64` range.
pub open spec fn saturate_u64(x: int) -> u64 {
    if x > u64::MAX {
        u64::MAX
    } else if x < 0 {
        0
    } else {
        x as u64
    }
}

/// A point-in-time report on an account's position in the state machine.
#[derive(Clone, Copy, PartialEq, Eq, Debug)]
pub struct TimeoutStatus {
    pub timeout_reached: bool,
    pub in_grace_period: bool,
    pub time_until_timeout: u64,
    pub time_until_transfer: u64,
    pub grace_period_end: u64,
    pub last_heartbeat: u64,
    pub timeout_duration: u64,
    pub contestation_period: u64,
}

/// The status report owed for an account at `now`. The reported window end
/// is clamped into `u64`; while no timeout is reached and no marker is
/// set, it reads zero.
pub open spec fn timeout_status_spec(now: u64, a: AccountView) -> TimeoutStatus {
    let reached = timeout_reached_spec(now, a);
    let window_end: int = match a.timeout_detected_at {
        Some(t) => t + a.contestation_period_seconds,
        None => if reached {
            a.last_heartbeat + a.timeout_duration_seconds + a.contestation_period_seconds
        } else {
            0
        },
    };
    let in_grace = reached && (now as int) < window_end;
    TimeoutStatus {
        timeout_reached: reached,
        in_grace_period: in_grace,
        time_until_timeout: if reached {
            0
        } else {
            (a.timeout_duration_seconds - elapsed_spec(now, a)) as u64
        },
        time_until_transfer: if in_grace {
            (saturate_u64(window_end) - now) as u64
        } else {
            0
        },
        grace_period_end: saturate_u64(window_end),
        last_heartbeat: a.last_heartbeat,
        timeout_duration: a.timeout_duration_seconds,
        contestation_period: a.contestation_period_seconds,
    }
}

/// Compute the status report for an account at `now`.
pub fn timeout_status(now: u64, a: &UserAccount) -> (s: TimeoutStatus)
    ensures
        s == timeout_status_spec(now, a@),
{
    let elapsed = now.saturating_sub(a.last_heartbeat);
    let reached = elapsed >= a.timeout_duration_seconds;
    let window_end_wide: u128 = match a.timeout_detected_at {
        Some(t) => t as u128 + a.contestation_period_seconds as u128,
        None => if reached {
            a.last_heartbeat as u128 + a.timeout_duration_seconds as u128
                + a.contestation_period_seconds as u128
        } else {
            0
        },
    };
    let window_end: u64 = if window_end_wide > u64::MAX as u128 {
        u64::MAX
    } else {
        window_end_wide as u64
    };
    let in_grace = reached && (now as u128) < window_end_wide;
    TimeoutStatus {
        timeout_reached: reached,
        in_grace_period: in_grace,
        time_until_timeout: if reached {
            0
        } else {
            a.timeout_duration_seconds - elapsed
        },
        time_until_transfer: if in_grace {
            window_end - now
        } else {
            0
        },
        grace_period_end: window_end,
        last_heartbeat: a.last_heartbeat,
        timeout_duration: a.timeout_duration_seconds,
        contestation_period: a.contestation_period_seconds,
    }
}

} // verus!
