use std::hash::{BuildHasher, BuildHasherDefault, DefaultHasher};
use mcp_hub::logs::{color_for_hash, sorted_by_time, format_log_line, format_system_time, server_color, LogAggregator, LogBuffer, LogLine, LogTime, ServerColor};
use std::time::SystemTime;

fn now() -> LogTime {
    let d = SystemTime::now()
        .duration_since(SystemTime::UNIX_EPOCH)
        .unwrap_or_default();
    LogTime { secs: d.as_secs(), nanos: d.subsec_nanos() }
}

fn make_line(server: &str, message: &str) -> LogLine {
    LogLine { server: server.to_string(), timestamp: now(), message: message.to_string() }
}

fn make_line_with_offset(server: &str, message: &str, offset_secs: u64) -> LogLine {
    LogLine {
        server: server.to_string(),
        timestamp: LogTime { secs: 1_700_000_000 + offset_secs, nanos: 0 },
        message: message.to_string(),
    }
}

fn at(secs: u64) -> LogTime {
    LogTime { secs, nanos: 0 }
}

#[test]
fn push_within_capacity() {
    let mut buf = LogBuffer::new(10);
    for i in 0..5 {
        buf.push(make_line("srv", &format!("msg {i}")));
    }
    assert_eq!(buf.len(), 5);
}

#[test]
fn push_evicts_oldest_at_capacity() {
    let capacity = 5;
    let mut buf = LogBuffer::new(capacity);
    for i in 0..=(capacity as u32) {
        buf.push(make_line("srv", &format!("msg {i}")));
    }
    assert_eq!(buf.len(), capacity);
    let snap = buf.snapshot();
    let messages: Vec<&str> = snap.iter().map(|l| l.message.as_str()).collect();
    assert!(
        !messages.contains(&"msg 0"),
        "oldest line 'msg 0' should have been evicted; got: {messages:?}"
    );
    assert!(messages.contains(&"msg 5"), "newest line 'msg 5' should be present");
}

#[test]
fn push_many_over_capacity() {
    let capacity = 4;
    let mut buf = LogBuffer::new(capacity);
    for i in 0..(capacity * 2) as u32 {
        buf.push(make_line("srv", &format!("msg {i}")));
    }
    assert_eq!(buf.len(), capacity);
    let snap = buf.snapshot();
    let messages: Vec<&str> = snap.iter().map(|l| l.message.as_str()).collect();
    assert_eq!(messages, vec!["msg 4", "msg 5", "msg 6", "msg 7"]);
}

#[test]
fn snapshot_preserves_fifo_order() {
    let mut buf = LogBuffer::new(10);
    for letter in ["A", "B", "C"] {
        buf.push(make_line("srv", letter));
    }
    let snap = buf.snapshot();
    let messages: Vec<&str> = snap.iter().map(|l| l.message.as_str()).collect();
    assert_eq!(messages, vec!["A", "B", "C"]);
}

#[test]
fn snapshot_last_returns_tail() {
    let mut buf = LogBuffer::new(20);
    for i in 0..10u32 {
        buf.push(make_line("srv", &format!("msg {i}")));
    }
    let tail = buf.snapshot_last(3);
    let messages: Vec<&str> = tail.iter().map(|l| l.message.as_str()).collect();
    assert_eq!(messages, vec!["msg 7", "msg 8", "msg 9"]);
}

#[test]
fn aggregator_push_to_correct_server() {
    let names = vec!["a".to_string(), "b".to_string()];
    let mut agg = LogAggregator::new(&names, 10);
    agg.push("a", "hello from a".to_string(), now());
    agg.push("b", "hello from b".to_string(), now());
    agg.push("a", "second from a".to_string(), now());

    let buf_a = agg.get_buffer("a").expect("buffer 'a' should exist");
    let buf_b = agg.get_buffer("b").expect("buffer 'b' should exist");
    let snap_a = buf_a.snapshot();
    let snap_b = buf_b.snapshot();
    assert_eq!(snap_a.len(), 2, "buffer 'a' should have 2 lines");
    assert_eq!(snap_b.len(), 1, "buffer 'b' should have 1 line");
    assert!(snap_a.iter().all(|l| l.server == "a"), "all lines in 'a' buffer should have server='a'");
    assert!(snap_b.iter().all(|l| l.server == "b"), "all lines in 'b' buffer should have server='b'");
}

#[test]
fn aggregator_snapshot_all_merges_and_sorts() {
    let names = vec!["alpha".to_string(), "beta".to_string()];
    let mut agg = LogAggregator::new(&names, 20);
    agg.push("beta", "beta first".to_string(), at(1));
    agg.push("alpha", "alpha second".to_string(), at(2));
    agg.push("beta", "beta third".to_string(), at(3));

    let all = agg.snapshot_all();
    assert_eq!(all.len(), 3);
    assert_eq!(all[0].message, "beta first");
    assert_eq!(all[1].message, "alpha second");
    assert_eq!(all[2].message, "beta third");
}

#[test]
fn format_log_line_no_color() {
    let line = make_line_with_offset("my-server", "hello world", 0);
    let formatted = format_log_line(&line, false);
    assert!(formatted.contains("my-server"), "output should contain server name; got: {formatted}");
    assert!(formatted.contains('|'), "output should contain pipe separator; got: {formatted}");
    assert!(formatted.contains("hello world"), "output should contain message; got: {formatted}");
    assert!(
        formatted.contains('T') && formatted.contains('Z'),
        "output should contain ISO timestamp; got: {formatted}"
    );
}

#[test]
fn format_log_line_with_color() {
    let line = make_line_with_offset("my-server", "hello world", 0);
    let colored = format_log_line(&line, true);
    let plain = format_log_line(&line, false);
    assert!(
        colored.len() > plain.len(),
        "colored output should be longer than plain (ANSI codes); colored={}, plain={}",
        colored.len(),
        plain.len()
    );
}

#[test]
fn empty_buffer_snapshot() {
    let buf = LogBuffer::new(10);
    let snap = buf.snapshot();
    assert!(snap.is_empty(), "snapshot of empty buffer should be empty");
}

#[test]
fn snapshot_last_more_than_available() {
    let mut buf = LogBuffer::new(10);
    buf.push(make_line("s", "a"));
    buf.push(make_line("s", "b"));
    buf.push(make_line("s", "c"));
    let tail = buf.snapshot_last(100);
    assert_eq!(tail.len(), 3, "snapshot_last(100) should return all 3 available lines");
}

// ── Exact formats ──────────────────────────────────────────────────────────

#[test]
fn log_line_exact_format() {
    let line = make_line_with_offset("my-server", "hello world", 0);
    assert_eq!(format_log_line(&line, false), "my-server | 2023-11-14T22:13:20Z hello world");
    let colored = format_log_line(&line, true);
    assert!(colored.starts_with("\x1b["));
    assert!(colored.ends_with("my-server\x1b[39m | 2023-11-14T22:13:20Z hello world"));
}

#[test]
fn system_time_formats() {
    assert_eq!(format_system_time(at(0)), "1970-01-01T00:00:00Z");
    assert_eq!(format_system_time(at(86_399)), "1970-01-01T23:59:59Z");
    assert_eq!(format_system_time(at(951_782_400)), "2000-02-29T00:00:00Z");
    assert_eq!(format_system_time(at(1_709_251_199)), "2024-02-29T23:59:59Z");
    assert_eq!(format_system_time(at(253_402_300_799)), "9999-12-31T23:59:59Z");
    assert_eq!(format_system_time(at(253_402_300_800)), "10000-01-01T00:00:00Z");
}

#[test]
fn system_time_day_count_wraps_like_32_bit_arithmetic() {
    // 2^31 days after the epoch: the day number reads as -2^31.
    let secs = 2_147_483_648u64 * 86_400;
    let expected_days: i64 = -2_147_483_648;
    let formatted = format_system_time(at(secs));
    assert!(formatted.starts_with('-'), "day {expected_days} lies before year zero: {formatted}");
    assert!(formatted.ends_with("T00:00:00Z"));
}

#[test]
fn buffer_of_capacity_zero_keeps_newest_line() {
    let mut buf = LogBuffer::new(0);
    buf.push(make_line("s", "a"));
    buf.push(make_line("s", "b"));
    let snap = buf.snapshot();
    assert_eq!(snap.len(), 1);
    assert_eq!(snap[0].message, "b");
}

#[test]
fn aggregator_ties_keep_registration_order() {
    let names = vec!["a".to_string(), "b".to_string(), "a".to_string()];
    let mut agg = LogAggregator::new(&names, 5);
    assert_eq!(agg.server_names(), vec!["a".to_string(), "b".to_string()]);
    agg.push("b", "b1".to_string(), at(5));
    agg.push("a", "a1".to_string(), at(5));
    agg.push("a", "a0".to_string(), at(4));
    agg.push("zzz", "dropped".to_string(), at(1));
    let all = agg.snapshot_all();
    let messages: Vec<&str> = all.iter().map(|l| l.message.as_str()).collect();
    assert_eq!(messages, vec!["a0", "a1", "b1"]);
}

#[test]
fn recent_lines_for_server_and_all() {
    let names = vec!["a".to_string(), "b".to_string()];
    let mut agg = LogAggregator::new(&names, 5);
    agg.push("a", "one".to_string(), at(0));
    agg.push("b", "two".to_string(), at(60));
    agg.push("a", "three".to_string(), at(120));
    assert_eq!(
        agg.recent_lines(Some("a"), 1, false),
        Ok(vec!["a | 1970-01-01T00:02:00Z three".to_string()])
    );
    assert_eq!(
        agg.recent_lines(None, 2, false),
        Ok(vec![
            "b | 1970-01-01T00:01:00Z two".to_string(),
            "a | 1970-01-01T00:02:00Z three".to_string(),
        ])
    );
    assert_eq!(agg.recent_lines(Some("c"), 10, false), Err("Unknown server: 'c'".to_string()));
}

#[test]
fn server_colour_follows_the_default_hash() {
    for name in ["my-server", "github", "fs", ""] {
        let h = BuildHasherDefault::<DefaultHasher>::default().hash_one(name);
        assert_eq!(server_color(name), color_for_hash(h));
        assert_eq!(server_color(name), server_color(name));
    }
    assert_eq!(color_for_hash(0), ServerColor::Cyan);
    assert_eq!(color_for_hash(7), ServerColor::Green);
    assert_eq!(color_for_hash(11), ServerColor::BrightCyan);
    let line = make_line_with_offset("my-server", "hello world", 0);
    let code = match server_color("my-server") {
        ServerColor::Cyan => "36",
        ServerColor::Green => "32",
        ServerColor::Yellow => "33",
        ServerColor::Magenta => "35",
        ServerColor::Blue => "34",
        ServerColor::BrightCyan => "96",
    };
    assert_eq!(
        format_log_line(&line, true),
        format!("\x1b[{code}mmy-server\x1b[39m | 2023-11-14T22:13:20Z hello world")
    );
}

#[test]
fn daemon_logs_answer_for_all_servers() {
    let mut agg = LogAggregator::new(&vec!["a".to_string()], 10);
    agg.push("a", "one".to_string(), at(1));
    agg.push("a", "two".to_string(), at(2));
    agg.push("a", "three".to_string(), at(3));
    assert_eq!(
        agg.recent_lines(None, 2, false),
        Ok(vec![
            "a | 1970-01-01T00:00:02Z two".to_string(),
            "a | 1970-01-01T00:00:03Z three".to_string(),
        ])
    );
}

#[test]
fn merged_timeline_is_stable_for_equal_times() {
    let lines = vec![
        LogLine { server: "x".to_string(), timestamp: at(7), message: "first".to_string() },
        LogLine { server: "y".to_string(), timestamp: at(3), message: "early".to_string() },
        LogLine { server: "z".to_string(), timestamp: at(7), message: "second".to_string() },
        LogLine { server: "w".to_string(), timestamp: at(7), message: "third".to_string() },
    ];
    let sorted = sorted_by_time(lines);
    let messages: Vec<&str> = sorted.iter().map(|l| l.message.as_str()).collect();
    assert_eq!(messages, vec!["early", "first", "second", "third"]);
}

#[test]
fn far_future_times_are_stored_and_shown() {
    let far = at((i32::MAX as u64) * 86_400);
    let text = format_system_time(far);
    assert!(text.starts_with('-'), "the 32-bit day arithmetic wraps: {text}");
    assert!(text.ends_with("T00:00:00Z"));
    let mut agg = LogAggregator::new(&vec!["a".to_string()], 4);
    agg.push("a", "late".to_string(), far);
    let lines = agg.recent_lines(Some("a"), 10, false).unwrap();
    assert_eq!(lines, vec![format!("a | {text} late")]);
}
