//! MCP traffic: action classification and capture, log capture, the proxy's
//! per-connection decisions, and environment expansion for server launches.

pub mod agent;
pub mod ring;
pub mod logs;
pub mod proxy;
pub mod strmap;
pub mod connection;
pub mod expand;
pub mod lifecycle;
