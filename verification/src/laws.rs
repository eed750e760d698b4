//! The guarantees the store's create-or-increment protocol gives across
//! whole histories of reports.
//!
//! Any number of report calls may be in flight at once, but every one of
//! them lands at the store's atomic upsert, its sole serialization point.
//! A history of concurrent reports is therefore some serial order of upsert
//! transitions, and the laws here hold for every such order.

use vstd::prelude::*;
use crate::store::IncidentMap;
use crate::store::increment;
use crate::store::occ;
use crate::store::ref_known;
use crate::store::diagnostic_for_ref;
use crate::store::refs_unique;
use crate::store::upsert;

verus! {

/// One report call as the store serializes it: the fingerprint the
/// diagnostic resolved to, the diagnostic bytes, and the candidate
/// notification reference the reporter offered.
pub struct ReportEvent {
    pub fingerprint: Seq<u8>,
    pub diagnostic: Seq<u8>,
    pub candidate: u64,
}

/// The store's state after a history of reports has been applied in order.
pub open spec fn apply_reports(m: IncidentMap, evs: Seq<ReportEvent>) -> IncidentMap
    decreases evs.len(),
{
    if evs.len() == 0 {
        m
    } else {
        upsert(
            apply_reports(m, evs.drop_last()),
            evs.last().fingerprint,
            evs.last().diagnostic,
            evs.last().candidate,
        )
    }
}

/// How many reports of a history resolved to the fingerprint `fp`.
pub open spec fn matching_reports(evs: Seq<ReportEvent>, fp: Seq<u8>) -> nat
    decreases evs.len(),
{
    if evs.len() == 0 {
        0
    } else {
        matching_reports(evs.drop_last(), fp) + (if evs.last().fingerprint == fp {
            1nat
        } else {
            0nat
        })
    }
}

/// No occurrence is ever lost and none is double-counted: across any history
/// of reports, in whatever order the store serialized them, the count
/// recorded for a fingerprint grows by exactly the number of reports that
/// resolved to it.
pub proof fn lemma_occurrences_counted(m: IncidentMap, evs: Seq<ReportEvent>, fp: Seq<u8>)
    ensures
        occ(apply_reports(m, evs), fp) == occ(m, fp) + matching_reports(evs, fp),
    decreases evs.len(),
{
    if evs.len() > 0 {
        lemma_occurrences_counted(m, evs.drop_last(), fp);
    }
}

/// A sequence of reports with identical diagnostic text — hence, the
/// fingerprinter being deterministic, one shared fingerprint — leaves the
/// incident's count at exactly the length of the sequence, regardless of
/// interleaving, when the store started without the incident.
pub proof fn lemma_identical_reports_counted(m: IncidentMap, evs: Seq<ReportEvent>, fp: Seq<u8>)
    requires
        !m.contains_key(fp),
        forall|i: int| 0 <= i < evs.len() ==> (#[trigger] evs[i]).fingerprint == fp,
    ensures
        occ(apply_reports(m, evs), fp) == evs.len(),
    decreases evs.len(),
{
    lemma_occurrences_counted(m, evs, fp);
    lemma_matching_all(evs, fp);
}

proof fn lemma_matching_all(evs: Seq<ReportEvent>, fp: Seq<u8>)
    requires
        forall|i: int| 0 <= i < evs.len() ==> (#[trigger] evs[i]).fingerprint == fp,
    ensures
        matching_reports(evs, fp) == evs.len(),
    decreases evs.len(),
{
    if evs.len() > 0 {
        let t = evs.drop_last();
        assert(forall|i: int| 0 <= i < t.len() ==> (#[trigger] t[i]).fingerprint == fp);
        lemma_matching_all(t, fp);
    }
}

/// Two reports whose diagnostic texts differ and whose fingerprints
/// therefore differ (a digest collision is excluded by hypothesis) create
/// two distinct incidents, each carrying its own reporter's notification
/// with count 1.
pub proof fn lemma_distinct_faults_distinct_incidents(m: IncidentMap, e1: ReportEvent, e2: ReportEvent)
    requires
        e1.fingerprint != e2.fingerprint,
        !m.contains_key(e1.fingerprint),
        !m.contains_key(e2.fingerprint),
    ensures
        ({
            let m2 = apply_reports(m, seq![e1, e2]);
            &&& m2.contains_key(e1.fingerprint)
            &&& m2.contains_key(e2.fingerprint)
            &&& m2[e1.fingerprint].notification_ref == e1.candidate
            &&& m2[e2.fingerprint].notification_ref == e2.candidate
            &&& m2[e1.fingerprint].occurrences == 1
            &&& m2[e2.fingerprint].occurrences == 1
        }),
{
    let evs = seq![e1, e2];
    assert(evs.last() == e2);
    assert(evs.drop_last() =~= seq![e1]);
    assert(seq![e1].last() == e1);
    assert(seq![e1].drop_last() =~= Seq::<ReportEvent>::empty());
    assert(apply_reports(m, Seq::<ReportEvent>::empty()) == m);
    let m1 = upsert(m, e1.fingerprint, e1.diagnostic, e1.candidate);
    assert(apply_reports(m, seq![e1]) == m1);
    assert(apply_reports(m, evs) == upsert(m1, e2.fingerprint, e2.diagnostic, e2.candidate));
}

/// The create-race: two reports of the same, previously unseen fingerprint
/// run concurrently and both take the create path. Whichever upsert lands
/// first wins: the incident carries the winner's notification and a count of
/// 2; the loser's upsert reports the incident as not new, so the loser
/// deletes its orphaned notification, which no incident references. Exactly
/// one notification survives.
pub proof fn lemma_concurrent_first_reports(m: IncidentMap, fp: Seq<u8>, d1: Seq<u8>, d2: Seq<u8>, c1: u64, c2: u64)
    requires
        !m.contains_key(fp),
        !ref_known(m, c2),
        c1 != c2,
    ensures
        ({
            let m1 = upsert(m, fp, d1, c1);
            let m2 = upsert(m1, fp, d2, c2);
            &&& m1.contains_key(fp)
            &&& m2[fp].notification_ref == c1
            &&& m2[fp].occurrences == 2
            &&& ref_known(m2, c1)
            &&& !ref_known(m2, c2)
        }),
{
    let m1 = upsert(m, fp, d1, c1);
    let m2 = upsert(m1, fp, d2, c2);
    assert(m2.contains_key(fp) && m2[fp].notification_ref == c1);
    assert forall|fp2: Seq<u8>| #[trigger] m2.contains_key(fp2)
        implies m2[fp2].notification_ref != c2 by {
        if fp2 != fp {
            assert(m.contains_key(fp2));
            assert(m2[fp2] == m[fp2]);
        }
    }
    assert(!ref_known(m2, c2));
}

/// Retrieval after creation: once a report has created an incident whose
/// live notification is `c`, looking `c` up yields exactly the diagnostic
/// passed to that first occurrence.
pub proof fn lemma_retrieve_first_occurrence(m: IncidentMap, fp: Seq<u8>, d: Seq<u8>, c: u64)
    requires
        !m.contains_key(fp),
        !ref_known(m, c),
    ensures
        ref_known(upsert(m, fp, d, c), c),
        diagnostic_for_ref(upsert(m, fp, d, c), c) == d,
{
    let m2 = upsert(m, fp, d, c);
    assert(m2.contains_key(fp) && m2[fp].notification_ref == c);
    let w = choose|w: Seq<u8>| #[trigger] m2.contains_key(w) && m2[w].notification_ref == c;
    if w != fp {
        assert(m.contains_key(w));
        assert(m2[w] == m[w]);
    }
}

/// Retrieval is stable across later occurrences: incrementing an incident
/// neither moves its notification nor changes the diagnostic served for it.
/// Together with the previous law, any successful report whose live
/// notification is `c` serves the first occurrence's diagnostic, byte for
/// byte. Notification references must be unique, as the store keeps them.
pub proof fn lemma_retrieve_after_increment(m: IncidentMap, fp: Seq<u8>, c: u64)
    requires
        refs_unique(m),
        m.contains_key(fp),
        m[fp].notification_ref == c,
    ensures
        ref_known(increment(m, fp), c),
        diagnostic_for_ref(increment(m, fp), c) == m[fp].diagnostic,
{
    let m2 = increment(m, fp);
    assert(m2.contains_key(fp) && m2[fp].notification_ref == c);
    let w = choose|w: Seq<u8>| #[trigger] m2.contains_key(w) && m2[w].notification_ref == c;
    if w != fp {
        assert(m.contains_key(w));
        assert(m2[w] == m[w]);
        assert(m[w].notification_ref == m[fp].notification_ref);
    }
}

} // verus!
