//! The update subsystem: versions, the local update record, and the check.

pub mod version;
pub mod state;
pub mod checker;
