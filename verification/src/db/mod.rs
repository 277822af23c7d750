//! Records of installed servers and their permission grants.

pub mod columns;
pub mod models;
pub mod permissions;
