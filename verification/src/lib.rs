//! Runtime core of an MCP server that exposes the Allegro REST API as tools.

pub mod auth;
pub mod cli;
pub mod config;
pub mod dispatcher;
pub mod http;
pub mod http_server;
pub mod json;
pub mod login;
pub mod resilience;
pub mod schema;
pub mod server;
pub mod text;
pub mod time;
pub mod tool_registry;
