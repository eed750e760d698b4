//! The detail retriever: the read-only path that serves an incident's full
//! diagnostic on demand, given the notification reference an operator acted
//! on.

use vstd::prelude::*;
use crate::store::IncidentStore;
use crate::store::diagnostic_for_ref;
use crate::store::ref_known;

verus! {

/// The result of a detail retrieval. Absence is a defined result, never an
/// error.
pub enum Retrieval {
    /// The stored diagnostic, packaged as a named downloadable artifact.
    Artifact { filename: String, contents: Vec<u8> },
    /// No incident's notification carries the requested reference.
    Absent,
}

/// Look up the full diagnostic stored for the incident whose notification
/// carries `notification_ref` and package it as a downloadable artifact, or
/// report that no incident does.
pub fn retrieve(store: &IncidentStore, notification_ref: u64) -> (r: Retrieval)
    requires
        store.wf(),
    ensures
        match r {
            Retrieval::Artifact { filename, contents } => {
                &&& ref_known(store@, notification_ref)
                &&& contents@ == diagnostic_for_ref(store@, notification_ref)
                &&& filename@ == "traceback.txt"@
            },
            Retrieval::Absent => !ref_known(store@, notification_ref),
        },
{
    match store.lookup_diagnostic(notification_ref) {
        Some(contents) => Retrieval::Artifact {
            filename: String::from_str("traceback.txt"),
            contents,
        },
        None => Retrieval::Absent,
    }
}

} // verus!
