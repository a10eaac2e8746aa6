//! Token-based access-control gateway core.
//!
//! An incoming token is checked against an identity backend (a remote
//! directory or a local line-oriented record file), the outcome is recorded
//! in an append-only audit log, and a notification is owed to an external
//! collaborator on successful access.  This crate holds the verified logic:
//! the persisted line formats, the backends' decision rules, the audit
//! queries, and the per-request orchestration.  File and network I/O live
//! outside, in the surrounding application.

pub mod client;
pub mod history;
pub mod identity;
pub mod server;
pub mod text;
