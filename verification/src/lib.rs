//! Named Antigravity subscription accounts: where their credential files live
//! and what they hold, and how an account's per-model quota is asked for and
//! read.
//!
//! Everything here computes on plain values. The caller reads the environment,
//! lists directories, writes files and sends requests.

pub mod json;
pub mod shared;
pub mod store;
pub mod text;
pub mod usage;
