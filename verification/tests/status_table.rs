use std::io::IsTerminal;
use std::time::Instant;

use mcp_hub::output::{format_status_table, status_table_rows, status_table_text, CellColor};
use mcp_hub::control::status_entry;
use mcp_hub::types::{HealthStatus, ProcessState, ServerSnapshot};

fn running_healthy_snapshot() -> ServerSnapshot {
    ServerSnapshot {
        process_state: ProcessState::Running,
        health: HealthStatus::Healthy { latency_ms: 42, last_checked: Instant::now() },
        pid: Some(1234),
        uptime_since: Some(Instant::now() - std::time::Duration::from_secs(3661)),
        restart_count: 0,
        transport: "stdio".to_string(),
        ..ServerSnapshot::default()
    }
}

fn backoff_degraded_snapshot() -> ServerSnapshot {
    ServerSnapshot {
        process_state: ProcessState::Backoff {
            attempt: 3,
            until: Instant::now() + std::time::Duration::from_secs(10),
        },
        health: HealthStatus::Degraded { consecutive_misses: 3, last_success: None },
        pid: None,
        uptime_since: None,
        restart_count: 2,
        transport: "stdio".to_string(),
        ..ServerSnapshot::default()
    }
}

fn fatal_failed_snapshot() -> ServerSnapshot {
    ServerSnapshot {
        process_state: ProcessState::Fatal,
        health: HealthStatus::Failed { consecutive_misses: 7 },
        pid: None,
        uptime_since: None,
        restart_count: 5,
        transport: "stdio".to_string(),
        ..ServerSnapshot::default()
    }
}

#[test]
fn status_table_has_all_columns() {
    let servers = vec![
        ("alpha".to_string(), running_healthy_snapshot()),
        ("beta".to_string(), backoff_degraded_snapshot()),
    ];
    let output = format_status_table(&servers, false);
    assert!(output.contains("Name"), "Table must contain 'Name' header: {output}");
    assert!(output.contains("State"), "Table must contain 'State' header: {output}");
    assert!(output.contains("Health"), "Table must contain 'Health' header: {output}");
    assert!(output.contains("PID"), "Table must contain 'PID' header: {output}");
    assert!(output.contains("Uptime"), "Table must contain 'Uptime' header: {output}");
    assert!(output.contains("Restarts"), "Table must contain 'Restarts' header: {output}");
    assert!(output.contains("Transport"), "Table must contain 'Transport' header: {output}");
}

#[test]
fn status_table_running_healthy_server() {
    let servers = vec![("my-server".to_string(), running_healthy_snapshot())];
    let output = format_status_table(&servers, false);
    assert!(output.contains("my-server"), "Table must contain server name: {output}");
    assert!(output.contains("running"), "Table must contain 'running' state: {output}");
    assert!(output.contains("healthy"), "Table must contain 'healthy' health: {output}");
    assert!(output.contains("1234"), "Table must contain PID 1234: {output}");
    assert!(output.contains(':'), "Table must contain uptime in HH:MM:SS format: {output}");
    assert!(output.contains('0'), "Table must contain restart count 0: {output}");
    assert!(output.contains("stdio"), "Table must contain transport 'stdio': {output}");
}

#[test]
fn status_table_fatal_failed_server() {
    let servers = vec![("crashed".to_string(), fatal_failed_snapshot())];
    let output = format_status_table(&servers, false);
    assert!(output.contains("crashed"), "Table must contain server name: {output}");
    assert!(output.contains("fatal"), "Table must contain 'fatal' state: {output}");
    assert!(output.contains("failed"), "Table must contain 'failed' health: {output}");
    assert!(output.contains('-'), "Table must show '-' for missing PID: {output}");
    assert!(output.contains('5'), "Table must contain restart count 5: {output}");
}

#[test]
fn status_table_empty_servers() {
    let servers: Vec<(String, ServerSnapshot)> = vec![];
    let output = format_status_table(&servers, false);
    assert!(output.contains("Name"), "Empty table must still have header: {output}");
    assert!(output.contains("Health"), "Empty table must still have Health header: {output}");
}

#[test]
fn status_table_color_disabled() {
    let servers = vec![("srv".to_string(), running_healthy_snapshot())];
    let output = format_status_table(&servers, false);
    assert!(!output.is_empty(), "Table output must not be empty");
}

#[test]
fn status_table_color_enabled() {
    let servers = vec![("srv".to_string(), running_healthy_snapshot())];
    let output = format_status_table(&servers, true);
    assert!(!output.is_empty(), "Colored table output must not be empty");
}

#[test]
fn test_status_table_output_has_seven_columns() {
    let snapshot = ServerSnapshot {
        process_state: ProcessState::Running,
        health: HealthStatus::Healthy { latency_ms: 10, last_checked: Instant::now() },
        pid: Some(999),
        uptime_since: Some(Instant::now()),
        restart_count: 0,
        transport: "stdio".to_string(),
        ..ServerSnapshot::default()
    };
    let servers = vec![("test-server".to_string(), snapshot)];
    let output = format_status_table(&servers, false);
    let required_headers = ["Name", "State", "Health", "PID", "Uptime", "Restarts", "Transport"];
    for header in required_headers {
        assert!(output.contains(header), "Status table must contain column '{header}': {output}");
    }
}

#[test]
fn status_table_text_with_given_uptimes() {
    let servers = vec![
        ("github".to_string(), running_healthy_snapshot()),
        ("fs".to_string(), fatal_failed_snapshot()),
    ];
    let expected = "\
+--------+---------+-------------------+------+----------+----------+-----------+
| Name   | State   | Health            | PID  | Uptime   | Restarts | Transport |
+===============================================================================+
| github | running | healthy           | 1234 | 01:01:01 | 0        | stdio     |
|--------+---------+-------------------+------+----------+----------+-----------|
| fs     | fatal   | failed (7 missed) | -    | -        | 5        | stdio     |
+--------+---------+-------------------+------+----------+----------+-----------+";
    assert_eq!(status_table_text(&servers, &vec![Some(3661), None], false), expected);
}

#[test]
fn status_table_rows_colour_state_and_health() {
    let servers = vec![("db".to_string(), backoff_degraded_snapshot())];
    let rows = status_table_rows(&servers, &vec![None], true);
    assert_eq!(rows.len(), 1);
    assert_eq!(rows[0].len(), 7);
    assert_eq!(rows[0][0], ("db".to_string(), None));
    assert_eq!(rows[0][1], ("backoff (3)".to_string(), Some(CellColor::Yellow)));
    assert_eq!(rows[0][2], ("degraded (3 missed)".to_string(), Some(CellColor::Yellow)));
    assert_eq!(rows[0][3], ("-".to_string(), None));
    assert_eq!(rows[0][4], ("-".to_string(), None));
    assert_eq!(rows[0][5], ("2".to_string(), None));
    assert_eq!(rows[0][6], ("stdio".to_string(), None));
    let plain = status_table_rows(&servers, &vec![Some(59)], false);
    assert_eq!(plain[0][1], ("backoff (3)".to_string(), None));
    assert_eq!(plain[0][4], ("00:00:59".to_string(), None));
}

#[test]
fn snapshot_default_is_stopped_and_unknown() {
    let s = ServerSnapshot::default();
    assert!(matches!(s.process_state, ProcessState::Stopped));
    assert!(matches!(s.health, HealthStatus::Unknown));
    assert_eq!(s.pid, None);
    assert!(s.uptime_since.is_none());
    assert_eq!(s.restart_count, 0);
    assert_eq!(s.transport, "stdio");
    assert!(s.capabilities.tools.is_empty());
    assert!(s.capabilities.introspected_at.is_none());
}

#[test]
fn coloured_table_is_plain_off_a_terminal() {
    let servers = vec![("srv".to_string(), fatal_failed_snapshot())];
    let coloured = status_table_text(&servers, &vec![None], true);
    let plain = status_table_text(&servers, &vec![None], false);
    if std::io::stdout().is_terminal() {
        assert!(coloured.contains("srv"));
    } else {
        assert_eq!(coloured, plain);
    }
}

#[test]
fn status_entry_reports_the_snapshot() {
    let e = status_entry("db", &backoff_degraded_snapshot());
    assert_eq!(e.name, "db");
    assert_eq!(e.state, "backoff (3)");
    assert_eq!(e.health, "degraded (3 missed)");
    assert_eq!(e.pid, None);
    assert_eq!(e.restart_count, 2);
    assert_eq!(e.transport, "stdio");
    assert_eq!((e.tools, e.resources, e.prompts), (0, 0, 0));
}
