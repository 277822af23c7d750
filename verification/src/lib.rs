pub mod commands;
pub mod db;
pub mod error;
pub mod ids;
pub mod json;
pub mod json_decode;
pub mod lowercase;
pub mod mcp;
pub mod security;
pub mod session;
pub mod text;
