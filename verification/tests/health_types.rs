use mcp_hub::mcp::health::{health_after_ping, HealthTransition, PingOutcome, DEFAULT_HEALTH_CHECK_INTERVAL_SECS};
use mcp_hub::types::{compute_health_status, format_uptime, HealthStatus};
use std::time::Instant;

#[test]
fn unknown_to_healthy_on_zero_misses() {
    let status: HealthStatus = HealthStatus::default();
    assert!(matches!(status, HealthStatus::Unknown));
    let healthy = HealthStatus::Healthy { latency_ms: 5, last_checked: Instant::now() };
    assert!(matches!(healthy, HealthStatus::Healthy { .. }));
}

#[test]
fn healthy_to_degraded_at_2_misses() {
    let current = HealthStatus::Healthy { latency_ms: 10, last_checked: Instant::now() };
    let next = compute_health_status(2, &current);
    assert!(
        matches!(next, HealthStatus::Degraded { consecutive_misses: 2, .. }),
        "Expected Degraded(2), got: {}",
        next.to_display_string()
    );
}

#[test]
fn degraded_stays_degraded_at_3_to_6_misses() {
    for misses in 3..=6 {
        let current = HealthStatus::Degraded { consecutive_misses: misses - 1, last_success: None };
        let next = compute_health_status(misses, &current);
        assert!(
            matches!(next, HealthStatus::Degraded { consecutive_misses, .. } if consecutive_misses == misses),
            "misses={misses}: Expected Degraded({misses}), got: {}",
            next.to_display_string()
        );
    }
}

#[test]
fn degraded_to_failed_at_7_misses() {
    let current = HealthStatus::Degraded { consecutive_misses: 6, last_success: None };
    let next = compute_health_status(7, &current);
    assert!(
        matches!(next, HealthStatus::Failed { consecutive_misses: 7 }),
        "Expected Failed(7), got: {}",
        next.to_display_string()
    );
}

#[test]
fn degraded_to_healthy_on_recovery() {
    let _was_degraded = HealthStatus::Degraded { consecutive_misses: 3, last_success: None };
    let recovered = HealthStatus::Healthy { latency_ms: 8, last_checked: Instant::now() };
    assert!(
        matches!(recovered, HealthStatus::Healthy { .. }),
        "Expected Healthy after recovery, got: {}",
        recovered.to_display_string()
    );
}

#[test]
fn failed_to_healthy_on_recovery() {
    let _was_failed = HealthStatus::Failed { consecutive_misses: 10 };
    let recovered = HealthStatus::Healthy { latency_ms: 12, last_checked: Instant::now() };
    assert!(
        matches!(recovered, HealthStatus::Healthy { .. }),
        "Expected Healthy after recovery from Failed, got: {}",
        recovered.to_display_string()
    );
}

#[test]
fn health_resets_to_unknown_on_restart() {
    let reset: HealthStatus = Default::default();
    assert!(
        matches!(reset, HealthStatus::Unknown),
        "Expected Unknown after reset, got: {}",
        reset.to_display_string()
    );
}

#[test]
fn format_uptime_zero() {
    assert_eq!(format_uptime(0), "00:00:00");
}

#[test]
fn format_uptime_59_secs() {
    assert_eq!(format_uptime(59), "00:00:59");
}

#[test]
fn format_uptime_one_hour() {
    assert_eq!(format_uptime(3600), "01:00:00");
}

#[test]
fn format_uptime_mixed() {
    assert_eq!(format_uptime(3661), "01:01:01");
}

#[test]
fn format_uptime_over_24h() {
    assert_eq!(format_uptime(90061), "25:01:01");
}

#[test]
fn display_unknown() {
    assert_eq!(HealthStatus::Unknown.to_display_string(), "unknown");
}

#[test]
fn display_healthy() {
    let status = HealthStatus::Healthy { latency_ms: 5, last_checked: Instant::now() };
    assert_eq!(status.to_display_string(), "healthy");
}

#[test]
fn display_degraded() {
    let status = HealthStatus::Degraded { consecutive_misses: 3, last_success: None };
    assert_eq!(status.to_display_string(), "degraded (3 missed)");
}

#[test]
fn display_failed() {
    let status = HealthStatus::Failed { consecutive_misses: 7 };
    assert_eq!(status.to_display_string(), "failed (7 missed)");
}

#[test]
fn default_health_check_interval_is_reasonable() {
    assert!(DEFAULT_HEALTH_CHECK_INTERVAL_SECS > 0);
    assert!(DEFAULT_HEALTH_CHECK_INTERVAL_SECS <= 300);
}

#[test]
fn ping_server_tests_require_unix() {}

// ── The health-check step ──────────────────────────────────────────────────

#[test]
fn single_miss_keeps_health_then_degrades_and_fails() {
    let t = Instant::now();
    let mut misses = 0u32;
    let mut health = HealthStatus::Healthy { latency_ms: 3, last_checked: t };
    let u = health_after_ping(misses, &health, PingOutcome::Missed);
    assert_eq!(u.consecutive_misses, 1);
    assert!(matches!(u.health, HealthStatus::Healthy { latency_ms: 3, .. }));
    assert_eq!(u.transition, HealthTransition::Unchanged);
    misses = u.consecutive_misses;
    health = u.health;

    let u = health_after_ping(misses, &health, PingOutcome::Missed);
    assert!(matches!(u.health, HealthStatus::Degraded { consecutive_misses: 2, last_success: Some(s) } if s == t));
    assert_eq!(u.transition, HealthTransition::BecameDegraded);
    misses = u.consecutive_misses;
    health = u.health;

    for expected in 3..=6u32 {
        let u = health_after_ping(misses, &health, PingOutcome::Missed);
        assert_eq!(u.consecutive_misses, expected);
        assert_eq!(u.transition, HealthTransition::Unchanged);
        misses = u.consecutive_misses;
        health = u.health;
    }
    let u = health_after_ping(misses, &health, PingOutcome::Missed);
    assert!(matches!(u.health, HealthStatus::Failed { consecutive_misses: 7 }));
    assert_eq!(u.transition, HealthTransition::BecameFailed);

    let later = Instant::now();
    let u = health_after_ping(7, &u.health, PingOutcome::Answered { latency_ms: 9, at: later });
    assert_eq!(u.consecutive_misses, 0);
    assert!(matches!(u.health, HealthStatus::Healthy { latency_ms: 9, .. }));
    assert_eq!(u.transition, HealthTransition::Recovered { after_misses: 7 });
}
