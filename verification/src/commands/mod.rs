//! What the desktop commands compute, apart from their I/O.

pub mod approvals;
pub mod sessions;
pub mod system;
