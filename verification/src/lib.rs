//! Verified core of the generic MCP command adapter.

pub mod auth;
pub mod config;
pub mod config_schema;
pub mod error;
pub mod executor;
pub mod json;
pub mod oidc;
pub mod server;
pub mod service;
pub mod shell;
pub mod text;
pub mod tools;
pub mod transport;
