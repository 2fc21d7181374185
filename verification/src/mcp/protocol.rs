//! JSON-RPC 2.0 message types exchanged with MCP servers.
use vstd::prelude::*;

verus! {

/// An arbitrary JSON value, carried through unchanged (`serde_json::Value`).
#[verifier::external_type_specification]
#[verifier::external_body]
pub struct ExJsonValue(serde_json::Value);

/// JSON-RPC 2.0 request with typed params.
pub struct JsonRpcRequest<T> {
    pub jsonrpc: &'static str,
    pub method: &'static str,
    pub id: u64,
    pub params: Option<T>,
}

/// JSON-RPC 2.0 notification (no `id`: no response is expected).
pub struct JsonRpcNotification {
    pub jsonrpc: &'static str,
    pub method: &'static str,
}

impl JsonRpcNotification {
    /// The `notifications/initialized` notification sent after a successful
    /// `initialize` handshake.
    pub fn initialized() -> (n: JsonRpcNotification)
        ensures
            n.jsonrpc@ == "2.0"@,
            n.method@ == "notifications/initialized"@,
    {
        JsonRpcNotification { jsonrpc: "2.0", method: "notifications/initialized" }
    }
}

/// JSON-RPC 2.0 `ping` request used for health checking.
pub struct PingRequest {
    pub jsonrpc: &'static str,
    pub method: &'static str,
    pub id: u64,
}

impl PingRequest {
    /// A `ping` request with the given id.
    pub fn new(id: u64) -> (p: PingRequest)
        ensures
            p.jsonrpc@ == "2.0"@,
            p.method@ == "ping"@,
            p.id == id,
    {
        PingRequest { jsonrpc: "2.0", method: "ping", id }
    }
}

/// JSON-RPC 2.0 response.
pub struct JsonRpcResponse {
    pub id: u64,
    pub result: Option<serde_json::Value>,
    pub error: Option<serde_json::Value>,
}

/// Params of the MCP `initialize` request.
pub struct InitializeParams {
    pub protocol_version: String,
    pub capabilities: serde_json::Value,
    pub client_info: ClientInfo,
}

/// Identifies this MCP client to the server during `initialize`.
pub struct ClientInfo {
    pub name: String,
    pub version: String,
}

/// Result of a successful `initialize` response.
pub struct InitializeResult {
    pub protocol_version: String,
    pub capabilities: ServerCapabilities,
    pub server_info: Option<ServerInfo>,
}

/// The capability families advertised by an MCP server.
pub struct ServerCapabilities {
    pub tools: Option<serde_json::Value>,
    pub resources: Option<serde_json::Value>,
    pub prompts: Option<serde_json::Value>,
}

/// Human-readable identity of an MCP server.
pub struct ServerInfo {
    pub name: String,
    pub version: Option<String>,
}

/// Result of a `tools/list` response.
pub struct ToolsListResult {
    pub tools: Vec<McpTool>,
}

/// A tool exposed by an MCP server.
#[derive(Clone, Debug)]
pub struct McpTool {
    pub name: String,
    pub description: Option<String>,
    pub input_schema: Option<serde_json::Value>,
}

/// Result of a `resources/list` response.
pub struct ResourcesListResult {
    pub resources: Vec<McpResource>,
}

/// A resource exposed by an MCP server.
#[derive(Clone, Debug)]
pub struct McpResource {
    pub uri: String,
    pub name: String,
    pub description: Option<String>,
    pub mime_type: Option<String>,
}

/// Result of a `prompts/list` response.
pub struct PromptsListResult {
    pub prompts: Vec<McpPrompt>,
}

/// A prompt template exposed by an MCP server.
#[derive(Clone, Debug)]
pub struct McpPrompt {
    pub name: String,
    pub description: Option<String>,
    pub arguments: Option<Vec<PromptArgument>>,
}

/// An argument accepted by a prompt template.
#[derive(Clone, Debug)]
pub struct PromptArgument {
    pub name: String,
    pub description: Option<String>,
    pub required: Option<bool>,
}

/// The JSON object whose members are these names with these string
/// values, a later member replacing an earlier one of the same name.
pub uninterp spec fn json_string_object(members: Seq<(Seq<char>, Seq<char>)>) -> serde_json::Value;

/// Builds a new `serde_json::Map`, inserts each member in order as a
/// `Value::String` (`Map::insert` replaces an earlier value of the same
/// name), and wraps the map in `Value::Object`; the value depends on the
/// members alone.
#[verifier::external_body]
fn json_object_of_strings(members: &Vec<(String, String)>) -> (v: serde_json::Value)
    ensures
        v == json_string_object(members@.map_values(|m: (String, String)| (m.0@, m.1@))),
{
    let mut map = serde_json::Map::new();
    for (name, value) in members {
        map.insert(name.clone(), serde_json::Value::String(value.clone()));
    }
    serde_json::Value::Object(map)
}

/// The MCP `initialize` request: protocol version `2024-11-05`, no client
/// capabilities (`{}`), and the client `mcp-hub` with its version.
pub fn initialize_request(id: u64) -> (r: JsonRpcRequest<InitializeParams>)
    ensures
        r.jsonrpc@ == "2.0"@,
        r.method@ == "initialize"@,
        r.id == id,
        r.params matches Some(p) && p.protocol_version@ == "2024-11-05"@ && p.client_info.name@
            == "mcp-hub"@ && p.client_info.version@ == "0.1.0"@ && p.capabilities == json_string_object(
            Seq::empty(),
        ),
{
    let no_members: Vec<(String, String)> = Vec::new();
    let capabilities = json_object_of_strings(&no_members);
    assert(no_members@.map_values(|m: (String, String)| (m.0@, m.1@)) =~= Seq::<(Seq<char>, Seq<char>)>::empty());
    JsonRpcRequest {
        jsonrpc: "2.0",
        method: "initialize",
        id,
        params: Some(InitializeParams {
            protocol_version: String::from_str("2024-11-05"),
            capabilities,
            client_info: ClientInfo {
                name: String::from_str("mcp-hub"),
                version: String::from_str("0.1.0"),
            },
        }),
    }
}

/// The list requests to send after `initialize`: one per capability family
/// the server declared.
pub struct ListRequests {
    pub tools: Option<JsonRpcRequest<()>>,
    pub resources: Option<JsonRpcRequest<()>>,
    pub prompts: Option<JsonRpcRequest<()>>,
}

/// `tools/list`, `resources/list` and `prompts/list` requests with the
/// given ids, each only when the server declared that family.
pub fn list_requests(caps: &ServerCapabilities, tools_id: u64, resources_id: u64, prompts_id: u64) -> (r: ListRequests)
    ensures
        match r.tools {
            Some(q) => caps.tools is Some && plain_request(q, "tools/list"@, tools_id),
            None => caps.tools is None,
        },
        match r.resources {
            Some(q) => caps.resources is Some && plain_request(q, "resources/list"@, resources_id),
            None => caps.resources is None,
        },
        match r.prompts {
            Some(q) => caps.prompts is Some && plain_request(q, "prompts/list"@, prompts_id),
            None => caps.prompts is None,
        },
{
    ListRequests {
        tools: if caps.tools.is_some() { Some(tools_list_request(tools_id)) } else { None },
        resources: if caps.resources.is_some() { Some(resources_list_request(resources_id)) } else { None },
        prompts: if caps.prompts.is_some() { Some(prompts_list_request(prompts_id)) } else { None },
    }
}

/// Why an `initialize` response carries no result.
pub enum InitializeFailure {
    /// The server answered with this error.
    ErrorResponse { error: serde_json::Value },
    /// The server answered with neither result nor error.
    Empty,
}

/// The result of an `initialize` response, to be read as the server's
/// capabilities: the result when there is one; otherwise the server's
/// error, or `Empty` when it sent neither.
pub fn initialize_outcome(response: JsonRpcResponse) -> (r: Result<serde_json::Value, InitializeFailure>)
    ensures
        match response.result {
            Some(v) => r == Ok::<serde_json::Value, InitializeFailure>(v),
            None => match response.error {
                Some(e) => r == Err::<serde_json::Value, InitializeFailure>(InitializeFailure::ErrorResponse { error: e }),
                None => r == Err::<serde_json::Value, InitializeFailure>(InitializeFailure::Empty),
            },
        },
{
    match response.result {
        Some(v) => Ok(v),
        None => match response.error {
            Some(e) => Err(InitializeFailure::ErrorResponse { error: e }),
            None => Err(InitializeFailure::Empty),
        },
    }
}

pub open spec fn plain_request(r: JsonRpcRequest<()>, method: Seq<char>, id: u64) -> bool {
    r.jsonrpc@ == "2.0"@ && r.method@ == method && r.id == id && r.params is None
}

/// Build a `tools/list` request.
pub fn tools_list_request(id: u64) -> (r: JsonRpcRequest<()>)
    ensures
        plain_request(r, "tools/list"@, id),
{
    JsonRpcRequest { jsonrpc: "2.0", method: "tools/list", id, params: None }
}

/// Build a `resources/list` request.
pub fn resources_list_request(id: u64) -> (r: JsonRpcRequest<()>)
    ensures
        plain_request(r, "resources/list"@, id),
{
    JsonRpcRequest { jsonrpc: "2.0", method: "resources/list", id, params: None }
}

/// Build a `prompts/list` request.
pub fn prompts_list_request(id: u64) -> (r: JsonRpcRequest<()>)
    ensures
        plain_request(r, "prompts/list"@, id),
{
    JsonRpcRequest { jsonrpc: "2.0", method: "prompts/list", id, params: None }
}

/// Why a capability list yields no entries.
#[derive(Clone, Debug, PartialEq, Eq)]
pub enum ListSkip {
    /// The server did not declare the capability; no request was sent.
    NotDeclared,
    /// The request failed (timeout or I/O error), with its message.
    RequestFailed { message: String },
    /// The server answered with an error.
    ErrorResponse,
    /// The server answered with neither result nor error.
    EmptyResult,
}

/// The payload of a list response to be decoded, or why there is none:
/// an undeclared capability, a failed request, an error response, or a
/// response without result.
pub fn list_payload(outcome: Option<Result<JsonRpcResponse, String>>) -> (r: Result<
    serde_json::Value,
    ListSkip,
>)
    ensures
        match outcome {
            None => r == Err::<serde_json::Value, ListSkip>(ListSkip::NotDeclared),
            Some(Err(m)) => r matches Err(ListSkip::RequestFailed { message }) && message@ == m@,
            Some(Ok(resp)) => if resp.error is Some {
                r == Err::<serde_json::Value, ListSkip>(ListSkip::ErrorResponse)
            } else {
                match resp.result {
                    None => r == Err::<serde_json::Value, ListSkip>(ListSkip::EmptyResult),
                    Some(v) => r == Ok::<serde_json::Value, ListSkip>(v),
                }
            },
        },
{
    match outcome {
        None => Err(ListSkip::NotDeclared),
        Some(Err(m)) => Err(ListSkip::RequestFailed { message: m }),
        Some(Ok(resp)) => {
            if resp.error.is_some() {
                Err(ListSkip::ErrorResponse)
            } else {
                match resp.result {
                    None => Err(ListSkip::EmptyResult),
                    Some(v) => Ok(v),
                }
            }
        },
    }
}

} // verus!
