//! The daemon's control protocol: requests, responses, and the entries of
//! its status answer.
use vstd::prelude::*;
use crate::types::{health_text, process_state_text, ServerSnapshot};

verus! {

/// A request sent to the daemon via the control socket.
pub enum DaemonRequest {
    /// Return the current status of all managed servers.
    Status,
    /// Stop all servers and shut the daemon down.
    Stop,
    /// Restart the named server.
    Restart { name: String },
    /// Return recent log lines, of one server or of all.
    Logs { server: Option<String>, lines: usize },
    /// Reload the config file and apply changes without restarting.
    Reload,
}

/// A response returned by the daemon for a single request.
pub struct DaemonResponse {
    /// `true` when the request was handled successfully.
    pub ok: bool,
    /// Response payload.
    pub data: Option<serde_json::Value>,
    /// Human-readable error message.
    pub error: Option<String>,
}

impl DaemonResponse {
    /// Successful response with a JSON payload.
    pub fn success(data: serde_json::Value) -> (r: DaemonResponse)
        ensures
            r.ok,
            r.data == Some(data),
            r.error is None,
    {
        DaemonResponse { ok: true, data: Some(data), error: None }
    }

    /// Successful response with no payload.
    pub fn ok_empty() -> (r: DaemonResponse)
        ensures
            r.ok,
            r.data is None,
            r.error is None,
    {
        DaemonResponse { ok: true, data: None, error: None }
    }

    /// Error response with a human-readable message.
    pub fn err(message: String) -> (r: DaemonResponse)
        ensures
            !r.ok,
            r.data is None,
            r.error == Some(message),
    {
        DaemonResponse { ok: false, data: None, error: Some(message) }
    }
}

/// One server's entry in the daemon's status answer.
pub struct StatusEntry {
    pub name: String,
    pub state: String,
    pub health: String,
    pub pid: Option<u32>,
    pub restart_count: u32,
    pub transport: String,
    /// Number of tools, resources and prompts found by introspection.
    pub tools: usize,
    pub resources: usize,
    pub prompts: usize,
}

/// The status entry of the server `name` as its snapshot shows it.
pub fn status_entry(name: &str, s: &ServerSnapshot) -> (e: StatusEntry)
    ensures
        e.name@ == name@,
        e.state@ == process_state_text(s.process_state),
        e.health@ == health_text(s.health),
        e.pid == s.pid,
        e.restart_count == s.restart_count,
        e.transport@ == s.transport@,
        e.tools == s.capabilities.tools@.len(),
        e.resources == s.capabilities.resources@.len(),
        e.prompts == s.capabilities.prompts@.len(),
{
    StatusEntry {
        name: String::from_str(name),
        state: s.process_state.to_display_string(),
        health: s.health.to_display_string(),
        pid: s.pid,
        restart_count: s.restart_count,
        transport: s.transport.clone(),
        tools: s.capabilities.tools.len(),
        resources: s.capabilities.resources.len(),
        prompts: s.capabilities.prompts.len(),
    }
}

} // verus!
