//! A branch-based release workflow library: canonical branch naming, per-branch
//! changelog documents with validation, rendering and aggregation, and the
//! decision logic of the start/review branch lifecycle.

pub mod args;
pub mod branch;
pub mod changelog;
pub mod error;
pub mod server;
pub mod text;
pub mod work;
