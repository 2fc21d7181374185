//! A process manager for MCP servers: configuration checking, restart
//! supervision decisions, health tracking, log buffering and the text
//! formats the hub produces, each stated and proved with Verus.
pub mod calendar;
pub mod cli;
pub mod config;
pub mod control;
pub mod daemon;
pub mod env_expand;
pub mod init;
pub mod logs;
pub mod mcp;
pub mod outline;
pub mod output;
pub mod supervisor;
pub mod text;
pub mod types;
pub mod web;
