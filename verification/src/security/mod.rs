//! Permissions, the runtime approval registry, and sandbox profiles.

pub mod approvals;
pub mod permissions;
pub mod sandbox;
