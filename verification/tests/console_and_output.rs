use mcp_hub::cli::{parse_console_line, ConsoleCommand};
use mcp_hub::output::{health_color, state_color, tracing_filter, CellColor};
use mcp_hub::types::{HealthStatus, ProcessState};
use mcp_hub::web::sse::{sse_log_markup, stream_accepts};
use mcp_hub::logs::{LogLine, LogTime};

fn is_restart(c: &Option<ConsoleCommand>, expected: &str) -> bool {
    matches!(c, Some(ConsoleCommand::Restart { name }) if name == expected)
}

#[test]
fn console_commands() {
    assert!(parse_console_line("   ").is_none());
    assert!(is_restart(&parse_console_line("restart  github  "), "github"));
    assert!(matches!(parse_console_line("restart  "), Some(ConsoleCommand::Unknown { .. })));
    assert!(matches!(parse_console_line("  restart x  "), Some(ConsoleCommand::Restart { name }) if name == "x"));
    assert!(matches!(parse_console_line(" status\n"), Some(ConsoleCommand::Status)));
    assert!(matches!(parse_console_line("logs"), Some(ConsoleCommand::LogsAll)));
    assert!(matches!(parse_console_line("logs  web "), Some(ConsoleCommand::LogsFor { name }) if name == "web"));
    assert!(matches!(parse_console_line("help"), Some(ConsoleCommand::Help)));
    assert!(matches!(parse_console_line("stats"), Some(ConsoleCommand::Unknown { input }) if input == "stats"));
}

#[test]
fn state_and_health_colors() {
    let b = ProcessState::Backoff { attempt: 3, until: std::time::Instant::now() };
    assert_eq!(b.to_display_string(), "backoff (3)");
    assert_eq!(state_color(&ProcessState::Running), CellColor::Green);
    assert_eq!(state_color(&b), CellColor::Yellow);
    assert_eq!(state_color(&ProcessState::Fatal), CellColor::Red);
    assert_eq!(state_color(&ProcessState::Stopped), CellColor::DarkGrey);
    assert!(ProcessState::Starting.is_settling());
    assert!(!ProcessState::Running.is_settling());
    assert_eq!(health_color(&HealthStatus::Unknown), CellColor::DarkGrey);
    assert_eq!(health_color(&HealthStatus::Failed { consecutive_misses: 7 }), CellColor::Red);
    assert_eq!(
        health_color(&HealthStatus::Degraded { consecutive_misses: 2, last_success: None }),
        CellColor::Yellow
    );
    assert_eq!(
        health_color(&HealthStatus::Healthy { latency_ms: 1, last_checked: std::time::Instant::now() }),
        CellColor::Green
    );
}

#[test]
fn tracing_levels() {
    assert_eq!(tracing_filter(0), "warn");
    assert_eq!(tracing_filter(1), "info");
    assert_eq!(tracing_filter(2), "debug");
    assert_eq!(tracing_filter(7), "debug");
}

#[test]
fn stream_markup_and_filter() {
    let line = LogLine {
        server: "web".to_string(),
        timestamp: LogTime { secs: 60, nanos: 5 },
        message: "ready".to_string(),
    };
    assert_eq!(
        sse_log_markup(&line),
        "<div class=\"log-line\"><span style=\"color: #569cd6;\">[web]</span> <span style=\"color: #808080;\">1970-01-01T00:01:00Z</span> ready</div>"
    );
    assert!(stream_accepts(&None, &line));
    assert!(stream_accepts(&Some("web".to_string()), &line));
    assert!(!stream_accepts(&Some("db".to_string()), &line));
}
