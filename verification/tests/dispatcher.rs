use mcp_hub::mcp::dispatcher::{IdAllocator, PendingRequests};
use mcp_hub::mcp::protocol::{
    initialize_outcome, initialize_request, list_payload, list_requests, InitializeFailure, ServerCapabilities, prompts_list_request, resources_list_request, tools_list_request, JsonRpcNotification,
    JsonRpcResponse, ListSkip, PingRequest,
};

#[test]
fn id_allocator_starts_at_one() {
    let mut alloc = IdAllocator::new();
    assert_eq!(alloc.next_id(), 1, "first ID should be 1");
}

#[test]
fn id_allocator_increments_monotonically() {
    let mut alloc = IdAllocator::new();
    let ids: Vec<u64> = (0..5).map(|_| alloc.next_id()).collect();
    assert_eq!(ids, vec![1, 2, 3, 4, 5], "IDs should increment by 1");
}

#[test]
fn id_allocator_default_matches_new() {
    let mut alloc = IdAllocator::default();
    assert_eq!(alloc.next_id(), 1, "default() should start at 1");
}

#[test]
fn dispatcher_tests_require_unix() {}

#[test]
fn introspection_tests_require_unix() {}

#[test]
fn request_constructors() {
    let p = PingRequest::new(42);
    assert_eq!((p.jsonrpc, p.method, p.id), ("2.0", "ping", 42));
    let p = PingRequest::new(u64::MAX);
    assert_eq!(p.id, u64::MAX);
    let n = JsonRpcNotification::initialized();
    assert_eq!((n.jsonrpc, n.method), ("2.0", "notifications/initialized"));
    let t = tools_list_request(10);
    assert_eq!((t.jsonrpc, t.method, t.id, t.params.is_none()), ("2.0", "tools/list", 10, true));
    let r = resources_list_request(20);
    assert_eq!((r.method, r.id), ("resources/list", 20));
    let r = prompts_list_request(30);
    assert_eq!((r.method, r.id), ("prompts/list", 30));
}

#[test]
fn list_payload_paths() {
    assert_eq!(list_payload(None).err(), Some(ListSkip::NotDeclared));
    assert_eq!(
        list_payload(Some(Err("timed out".to_string()))).err(),
        Some(ListSkip::RequestFailed { message: "timed out".to_string() })
    );
    let v = serde_json::Value::Bool(true);
    let with_error = JsonRpcResponse { id: 1, result: Some(v.clone()), error: Some(v.clone()) };
    assert_eq!(list_payload(Some(Ok(with_error))).err(), Some(ListSkip::ErrorResponse));
    let empty = JsonRpcResponse { id: 1, result: None, error: None };
    assert_eq!(list_payload(Some(Ok(empty))).err(), Some(ListSkip::EmptyResult));
    let ok = JsonRpcResponse { id: 1, result: Some(v.clone()), error: None };
    assert_eq!(list_payload(Some(Ok(ok))).ok(), Some(v));
}

#[test]
fn initialize_request_fields() {
    let req = initialize_request(1);
    assert_eq!(req.jsonrpc, "2.0");
    assert_eq!(req.method, "initialize");
    assert_eq!(req.id, 1);
    let params = req.params.expect("initialize carries params");
    assert_eq!(params.protocol_version, "2024-11-05");
    assert_eq!(params.client_info.name, "mcp-hub");
    assert_eq!(params.client_info.version, "0.1.0");
    assert!(params.capabilities.as_object().map_or(false, |m| m.is_empty()));
    assert_ne!(initialize_request(1).id, initialize_request(2).id);
}

#[test]
fn pending_requests_hand_each_response_over_once() {
    let mut pending: PendingRequests<&str> = PendingRequests::new();
    assert_eq!(pending.len(), 0);
    assert_eq!(pending.register(1, "ping"), None);
    assert_eq!(pending.register(2, "tools"), None);
    assert_eq!(pending.len(), 2);
    assert_eq!(pending.take(1), Some("ping"));
    assert_eq!(pending.take(1), None);
    assert_eq!(pending.register(2, "again"), Some("tools"));
    assert_eq!(pending.len(), 1);
    assert_eq!(pending.take(3), None);
    pending.clear();
    assert_eq!(pending.len(), 0);
    assert_eq!(pending.take(2), None);
}

#[test]
fn ids_run_in_sequence_over_many_calls() {
    let mut alloc = IdAllocator::new();
    for k in 1..=1000u64 {
        assert_eq!(alloc.next_id(), k);
    }
}

#[test]
fn initialize_outcome_prefers_result_then_error() {
    let with_result = JsonRpcResponse { id: 1, result: Some(serde_json::Value::Bool(true)), error: Some(serde_json::Value::Null) };
    assert!(matches!(initialize_outcome(with_result), Ok(serde_json::Value::Bool(true))));
    let with_error = JsonRpcResponse { id: 1, result: None, error: Some(serde_json::Value::from("boom")) };
    assert!(matches!(
        initialize_outcome(with_error),
        Err(InitializeFailure::ErrorResponse { error }) if error == serde_json::Value::from("boom")
    ));
    let empty = JsonRpcResponse { id: 1, result: None, error: None };
    assert!(matches!(initialize_outcome(empty), Err(InitializeFailure::Empty)));
}

#[test]
fn list_requests_follow_declared_capabilities() {
    let caps = ServerCapabilities {
        tools: Some(serde_json::Value::Object(serde_json::Map::new())),
        resources: None,
        prompts: Some(serde_json::Value::Bool(true)),
    };
    let r = list_requests(&caps, 7, 8, 9);
    let tools = r.tools.expect("tools declared");
    assert_eq!((tools.method, tools.id, tools.jsonrpc), ("tools/list", 7, "2.0"));
    assert!(tools.params.is_none());
    assert!(r.resources.is_none());
    let prompts = r.prompts.expect("prompts declared");
    assert_eq!((prompts.method, prompts.id), ("prompts/list", 9));
    let none = list_requests(&ServerCapabilities { tools: None, resources: None, prompts: None }, 1, 2, 3);
    assert!(none.tools.is_none() && none.resources.is_none() && none.prompts.is_none());
}
