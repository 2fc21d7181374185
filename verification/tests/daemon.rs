use mcp_hub::control::DaemonResponse;
use mcp_hub::daemon::{stale_cleanup, PidProbe, StaleCleanup};

#[test]
fn daemon_response_constructors() {
    let resp = DaemonResponse::success(serde_json::Value::String("test".to_string()));
    assert!(resp.ok, "success response should have ok=true");
    assert!(resp.data.is_some(), "success response should have data");
    assert!(resp.error.is_none(), "success response should not have error");

    let resp = DaemonResponse::ok_empty();
    assert!(resp.ok, "ok_empty response should have ok=true");
    assert!(resp.data.is_none(), "ok_empty response should have no data");
    assert!(resp.error.is_none(), "ok_empty response should have no error");

    let resp = DaemonResponse::err("fail".to_string());
    assert!(!resp.ok, "error response should have ok=false");
    assert!(resp.data.is_none(), "error response should have no data");
    assert_eq!(resp.error.as_deref(), Some("fail"), "error response should contain the error message");
}

#[test]
fn stale_file_cleanup_decisions() {
    let both = StaleCleanup { remove_socket: true, remove_pid_file: true };
    assert_eq!(stale_cleanup(Some(PidProbe::Dead), false), both);
    assert_eq!(stale_cleanup(Some(PidProbe::Failed), false), both);
    assert_eq!(
        stale_cleanup(Some(PidProbe::Alive), true),
        StaleCleanup { remove_socket: true, remove_pid_file: false }
    );
    assert_eq!(stale_cleanup(None, true), StaleCleanup { remove_socket: true, remove_pid_file: false });
    assert_eq!(stale_cleanup(None, false), StaleCleanup { remove_socket: false, remove_pid_file: false });
}
