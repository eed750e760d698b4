//! Deduplicating fault tracker: turns a stream of runtime fault reports into a
//! stable set of incidents, one operator notification per distinct fault
//! signature.
//!
//! A diagnostic text is hashed into a fingerprint; the incident store keeps one
//! record per fingerprint with its occurrence count and the reference of the
//! externally hosted notification; the coordinator drives the
//! create-or-increment protocol, including the reconciliation step for two
//! concurrent first occurrences; the retriever serves the stored diagnostic
//! back for a notification reference.

use vstd::prelude::*;

pub mod fingerprint;
pub mod laws;
pub mod render;
pub mod report;
pub mod retrieve;
pub mod store;

verus! {

/// The library's fault classification: an expected, user-facing condition
/// that never enters aggregation, or an unexpected fault carrying its
/// description.
#[derive(Debug)]
pub enum Error {
    GuildOnly,
    Unexpected(String),
}

} // verus!
