//! GitHub integration: release records and the releases API.

pub mod client;
pub mod release;
