//! The history mutation and reconciliation engine of a desktop Git client.
//!
//! The library decides; the caller performs. Each workflow (interactive
//! rebase, pull by merge or rebase, push, stash) is a function from what the
//! object store reports to what is asked of it next and what the user is
//! told, with a contract that says exactly which.

pub mod branch;
pub mod branch_list;
pub mod commits;
pub mod conflict;
pub mod diff;
pub mod oid;
pub mod pull;
pub mod push;
pub mod rebase_plan;
pub mod rebase_session;
pub mod repo;
pub mod stash;
pub mod status;
pub mod store;
pub mod text;
