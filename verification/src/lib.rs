//! Core logic of a reporting utility that audits where a given filename
//! appears across the repositories of a code host, and who last touched it.
//!
//! The library holds everything that can be stated and proved: configuration
//! validation and endpoint derivation, the paginated-search bookkeeping with
//! its duplicate-free target set, the defensive unwrapping of the
//! commit-lookup response tree, and the formatting of result lines. The
//! surrounding binary performs the HTTP calls and hands the results to these
//! functions as plain values.

pub mod commit;
pub mod config;
pub mod present;
pub mod query;
pub mod repo_info;
pub mod search;
pub mod text;
