//! The MCP client side: JSON-RPC message types, request ids, and the rules
//! of the periodic health check.
pub mod dispatcher;
pub mod health;
pub mod protocol;
