//! Data shown by the dashboard pages and the `/health` endpoint.
use vstd::prelude::*;

verus! {

/// Summary data for a single server card on the Status page.
pub struct ServerCardData {
    pub name: String,
    pub process_state: String,
    pub health: String,
    pub pid: Option<u32>,
    pub uptime: String,
    pub restart_count: u32,
    pub transport: String,
    pub tool_count: usize,
}

/// Per-server entry of the `/health` response.
pub struct ServerHealthEntry {
    pub name: String,
    pub state: String,
    pub health: String,
}

/// Response body of `GET /health`.
pub struct HealthResponse {
    pub status: &'static str,
    pub servers: Vec<ServerHealthEntry>,
}

/// The Status tab (`/`).
pub struct StatusPage {
    pub active_tab: &'static str,
    pub total_count: usize,
    pub healthy_count: usize,
    pub servers: Vec<ServerCardData>,
}

/// The Tools tab (`/tools`).
pub struct ToolsPage {
    pub active_tab: &'static str,
    pub total_count: usize,
    pub servers: Vec<ServerCardData>,
}

/// The Logs tab (`/logs`).
pub struct LogsPage {
    pub active_tab: &'static str,
}

} // verus!
