//! The decisions of the periodic health check of one server.
use vstd::prelude::*;
use crate::types::{health_after_misses, compute_health_status, HealthStatus};

verus! {

/// Default health check interval in seconds.
pub const DEFAULT_HEALTH_CHECK_INTERVAL_SECS: u64 = 30;

/// What one ping attempt produced.
pub enum PingOutcome {
    /// The ping was answered after `latency_ms` milliseconds, at `at`.
    Answered { latency_ms: u64, at: std::time::Instant },
    /// The ping failed or timed out.
    Missed,
}

/// A change of health worth logging.
#[derive(Clone, Copy, PartialEq, Eq, Structural, Debug)]
pub enum HealthTransition {
    /// Nothing to report.
    Unchanged,
    /// A ping was answered after `after_misses` missed pings.
    Recovered { after_misses: u32 },
    /// The server has just become degraded.
    BecameDegraded,
    /// The server has just become failed.
    BecameFailed,
}

/// The state of the health check after one ping.
pub struct HealthUpdate {
    /// Consecutive missed pings so far.
    pub consecutive_misses: u32,
    /// The new health.
    pub health: HealthStatus,
    /// The change to log.
    pub transition: HealthTransition,
}

/// The health-check step: an answer resets the miss count and makes the
/// server healthy; a miss adds one to the count and moves the health as
/// `health_after_misses` says, reporting entry into `Degraded` or `Failed`.
pub open spec fn health_step(misses: u32, current: HealthStatus, outcome: PingOutcome) -> (u32, HealthStatus, HealthTransition) {
    match outcome {
        PingOutcome::Answered { latency_ms, at } => (
            0,
            HealthStatus::Healthy { latency_ms, last_checked: at },
            if misses > 0 { HealthTransition::Recovered { after_misses: misses } } else { HealthTransition::Unchanged },
        ),
        PingOutcome::Missed => {
            let m = (misses + 1) as u32;
            let next = health_after_misses(m, current);
            let t = if !(current is Degraded) && next is Degraded {
                HealthTransition::BecameDegraded
            } else if !(current is Failed) && next is Failed {
                HealthTransition::BecameFailed
            } else {
                HealthTransition::Unchanged
            };
            (m, next, t)
        },
    }
}

/// Decide the health after one ping attempt.
pub fn health_after_ping(misses: u32, current: &HealthStatus, outcome: PingOutcome) -> (u: HealthUpdate)
    requires
        misses < u32::MAX,
    ensures
        (u.consecutive_misses, u.health, u.transition) == health_step(misses, *current, outcome),
{
    match outcome {
        PingOutcome::Answered { latency_ms, at } => HealthUpdate {
            consecutive_misses: 0,
            health: HealthStatus::Healthy { latency_ms, last_checked: at },
            transition: if misses > 0 {
                HealthTransition::Recovered { after_misses: misses }
            } else {
                HealthTransition::Unchanged
            },
        },
        PingOutcome::Missed => {
            let m = misses + 1;
            let next = compute_health_status(m, current);
            let was_degraded = match current {
                HealthStatus::Degraded { .. } => true,
                _ => false,
            };
            let was_failed = match current {
                HealthStatus::Failed { .. } => true,
                _ => false,
            };
            let is_degraded = match &next {
                HealthStatus::Degraded { .. } => true,
                _ => false,
            };
            let is_failed = match &next {
                HealthStatus::Failed { .. } => true,
                _ => false,
            };
            let t = if !was_degraded && is_degraded {
                HealthTransition::BecameDegraded
            } else if !was_failed && is_failed {
                HealthTransition::BecameFailed
            } else {
                HealthTransition::Unchanged
            };
            HealthUpdate { consecutive_misses: m, health: next, transition: t }
        },
    }
}

/// The health after `k` consecutive missed pings, starting from `h` with no
/// misses.
pub open spec fn after_missed_pings(h: HealthStatus, k: nat) -> HealthStatus
    decreases k,
{
    if k == 0 {
        h
    } else {
        health_step((k - 1) as u32, after_missed_pings(h, (k - 1) as nat), PingOutcome::Missed).1
    }
}

/// A single missed ping changes nothing; from two consecutive misses on
/// the server is degraded, and from seven on it is failed, with the number
/// of misses recorded.
pub proof fn misses_degrade_then_fail(h: HealthStatus, k: nat)
    requires
        k < u32::MAX,
    ensures
        k < 2 ==> after_missed_pings(h, k) == h,
        2 <= k < 7 ==> (after_missed_pings(h, k) matches HealthStatus::Degraded { consecutive_misses, .. }
            && consecutive_misses == k),
        k >= 7 ==> after_missed_pings(h, k) == (HealthStatus::Failed { consecutive_misses: k as u32 }),
    decreases k,
{
    if k > 0 {
        misses_degrade_then_fail(h, (k - 1) as nat);
    }
}

/// An answered ping always makes the server healthy and clears the count.
pub proof fn answer_restores_health(misses: u32, current: HealthStatus, latency_ms: u64, at: std::time::Instant)
    ensures
        health_step(misses, current, PingOutcome::Answered { latency_ms, at }).0 == 0,
        health_step(misses, current, PingOutcome::Answered { latency_ms, at }).1 == (HealthStatus::Healthy {
            latency_ms,
            last_checked: at,
        }),
{
}

} // verus!
