//! The aggregation coordinator: one reported fault occurrence, from
//! diagnostic text to a created or updated incident.
//!
//! A report runs in two phases around the notification sink's I/O, which the
//! host performs between them. `begin_report` fingerprints the diagnostic and
//! tries the increment path: if the incident exists, the occurrence is
//! recorded at once and the host only edits the existing notification's
//! footer. Otherwise the host publishes a freshly rendered notification
//! speculatively and hands its reference to `finish_report`, the atomic
//! upsert: either this caller's insert won and its notification is live, or a
//! concurrent reporter created the incident first, the occurrence was counted
//! against the winner's incident, and this caller's orphaned notification
//! must be deleted. No lock is held anywhere: the store's upsert is the sole
//! serialization point, so no occurrence is ever lost.

use vstd::prelude::*;
use crate::fingerprint::fingerprint;
use crate::fingerprint::sha256_of;
use crate::render::footer_text;
use crate::render::occurrence_footer;
use crate::store::IncidentStore;
use crate::store::IncrementOutcome;
use crate::store::RecordOutcome;
use crate::store::increment;
use crate::store::occ;
use crate::store::ref_known;
use crate::store::upsert;

verus! {

/// What the first phase of a report decided.
pub enum ReportPhase {
    /// An incident already existed: its count was incremented; the caller
    /// must edit the incident's notification, replacing the footer with
    /// `footer`, which states the new count. No new notification is created.
    Existing { notification_ref: u64, occurrences: u64, footer: String },
    /// No incident exists yet for `fingerprint`: the caller should publish a
    /// rendered notification and pass its reference to `finish_report`.
    New { fingerprint: Vec<u8> },
    /// The stored count has reached the machine limit; nothing was recorded.
    Saturated,
}

/// Fingerprint the diagnostic and try the increment path.
pub fn begin_report(store: &mut IncidentStore, diagnostic: &Vec<u8>) -> (r: ReportPhase)
    requires
        old(store).wf(),
    ensures
        final(store).wf(),
        match r {
            ReportPhase::Existing { notification_ref, occurrences, footer } => {
                &&& old(store)@.contains_key(sha256_of(diagnostic@))
                &&& final(store)@ == increment(old(store)@, sha256_of(diagnostic@))
                &&& occurrences as nat == occ(old(store)@, sha256_of(diagnostic@)) + 1
                &&& notification_ref == old(store)@[sha256_of(diagnostic@)].notification_ref
                &&& footer@ == footer_text(occurrences as nat)
            },
            ReportPhase::New { fingerprint } => {
                &&& !old(store)@.contains_key(sha256_of(diagnostic@))
                &&& final(store)@ == old(store)@
                &&& fingerprint@ == sha256_of(diagnostic@)
            },
            ReportPhase::Saturated => {
                &&& final(store)@ == old(store)@
                &&& occ(old(store)@, sha256_of(diagnostic@)) == u64::MAX
            },
        },
{
    let fp = fingerprint(diagnostic);
    match store.try_increment(&fp) {
        IncrementOutcome::Incremented { notification_ref, occurrences } => {
            let footer = occurrence_footer(occurrences);
            ReportPhase::Existing { notification_ref, occurrences, footer }
        },
        IncrementOutcome::NotFound => ReportPhase::New { fingerprint: fp },
        IncrementOutcome::Saturated => ReportPhase::Saturated,
    }
}

/// How the second phase of a first-occurrence report resolved.
pub enum ReportResolution {
    /// This caller's insert won the race: its candidate notification is the
    /// incident's live notification.
    Created { notification_ref: u64 },
    /// A concurrent reporter created the incident first. The occurrence was
    /// still recorded — against the winner's incident, whose notification is
    /// `authoritative_ref` — and the caller must delete its orphaned
    /// notification `orphan_ref`, which no incident references.
    LostRace { authoritative_ref: u64, orphan_ref: u64, occurrences: u64 },
    /// The stored count has reached the machine limit; nothing was recorded.
    Saturated,
}

/// Complete a first-occurrence report: the atomic create-or-increment with
/// the speculatively published notification as candidate. The candidate
/// reference was just issued by the sink, so it is fresh.
pub fn finish_report(store: &mut IncidentStore, fingerprint: &Vec<u8>, diagnostic: &Vec<u8>, candidate_ref: u64) -> (r: ReportResolution)
    requires
        old(store).wf(),
        !ref_known(old(store)@, candidate_ref),
    ensures
        final(store).wf(),
        match r {
            ReportResolution::Created { notification_ref } => {
                &&& !old(store)@.contains_key(fingerprint@)
                &&& final(store)@ == upsert(old(store)@, fingerprint@, diagnostic@, candidate_ref)
                &&& notification_ref == candidate_ref
                &&& occ(final(store)@, fingerprint@) == 1
            },
            ReportResolution::LostRace { authoritative_ref, orphan_ref, occurrences } => {
                &&& old(store)@.contains_key(fingerprint@)
                &&& final(store)@ == upsert(old(store)@, fingerprint@, diagnostic@, candidate_ref)
                &&& authoritative_ref == old(store)@[fingerprint@].notification_ref
                &&& orphan_ref == candidate_ref
                &&& occurrences as nat == occ(old(store)@, fingerprint@) + 1
                &&& !ref_known(final(store)@, candidate_ref)
            },
            ReportResolution::Saturated => {
                &&& final(store)@ == old(store)@
                &&& occ(old(store)@, fingerprint@) == u64::MAX
            },
        },
{
    match store.record_occurrence(fingerprint, diagnostic, candidate_ref) {
        RecordOutcome::Recorded { notification_ref, occurrences, is_new } => {
            if is_new {
                ReportResolution::Created { notification_ref }
            } else {
                proof {
                    assert forall|fp2: Seq<u8>| #[trigger] store@.contains_key(fp2)
                        implies store@[fp2].notification_ref != candidate_ref by {
                        if fp2 == fingerprint@ {
                            assert(old(store)@.contains_key(fp2));
                            assert(store@[fp2].notification_ref
                                == old(store)@[fp2].notification_ref);
                        } else {
                            assert(old(store)@.contains_key(fp2));
                            assert(store@[fp2] == old(store)@[fp2]);
                        }
                    }
                    assert(!ref_known(store@, candidate_ref));
                }
                ReportResolution::LostRace {
                    authoritative_ref: notification_ref,
                    orphan_ref: candidate_ref,
                    occurrences,
                }
            }
        },
        RecordOutcome::Saturated => ReportResolution::Saturated,
    }
}

} // verus!
