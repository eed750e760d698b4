//! The incident store: a durable mapping from fingerprint to incident record.
//!
//! One incident exists per fingerprint. The store's single mutation point is
//! the atomic create-or-increment operation [`IncidentStore::record_occurrence`]:
//! insert a fresh record with count 1, or increment the existing record and
//! return its authoritative notification reference. Because every occurrence
//! is recorded through that one indivisible operation, no count is ever lost,
//! however concurrent reporters interleave; the store is the sole
//! serialization point.

use vstd::prelude::*;
use vstd::slice::slice_to_vec;

verus! {

/// Spec-level snapshot of one incident: the full diagnostic bytes, the
/// reference of the notification that represents the incident, and how many
/// occurrences have resolved to it.
pub struct IncidentModel {
    pub diagnostic: Seq<u8>,
    pub notification_ref: u64,
    pub occurrences: nat,
}

/// The store's abstract state: one incident per fingerprint.
pub type IncidentMap = Map<Seq<u8>, IncidentModel>;

/// Occurrence count recorded for `fp`, zero when no incident exists.
pub open spec fn occ(m: IncidentMap, fp: Seq<u8>) -> nat {
    if m.contains_key(fp) {
        m[fp].occurrences
    } else {
        0
    }
}

/// Some incident's notification carries the reference `nref`.
pub open spec fn ref_known(m: IncidentMap, nref: u64) -> bool {
    exists|fp: Seq<u8>| #[trigger] m.contains_key(fp) && m[fp].notification_ref == nref
}

/// The diagnostic of the incident whose notification carries `nref`
/// (meaningful when `ref_known` holds and references are unique).
pub open spec fn diagnostic_for_ref(m: IncidentMap, nref: u64) -> Seq<u8> {
    let fp = choose|fp: Seq<u8>| #[trigger] m.contains_key(fp) && m[fp].notification_ref == nref;
    m[fp].diagnostic
}

/// No two incidents share a notification reference.
pub open spec fn refs_unique(m: IncidentMap) -> bool {
    forall|fp1: Seq<u8>, fp2: Seq<u8>|
        #![trigger m.contains_key(fp1), m.contains_key(fp2)]
        m.contains_key(fp1) && m.contains_key(fp2)
            && m[fp1].notification_ref == m[fp2].notification_ref ==> fp1 == fp2
}

/// One more occurrence of an incident that already exists.
pub open spec fn increment(m: IncidentMap, fp: Seq<u8>) -> IncidentMap {
    m.insert(
        fp,
        IncidentModel {
            diagnostic: m[fp].diagnostic,
            notification_ref: m[fp].notification_ref,
            occurrences: (m[fp].occurrences + 1) as nat,
        },
    )
}

/// A first occurrence: a fresh incident with count 1 whose notification is
/// the candidate the reporter just published.
pub open spec fn fresh_incident(diagnostic: Seq<u8>, nref: u64) -> IncidentModel {
    IncidentModel { diagnostic, notification_ref: nref, occurrences: 1 }
}

/// The atomic create-or-increment transition: what one successful
/// `record_occurrence` does to the store's state.
pub open spec fn upsert(m: IncidentMap, fp: Seq<u8>, diagnostic: Seq<u8>, candidate: u64) -> IncidentMap {
    if m.contains_key(fp) {
        increment(m, fp)
    } else {
        m.insert(fp, fresh_incident(diagnostic, candidate))
    }
}

struct Incident {
    fingerprint: Vec<u8>,
    diagnostic: Vec<u8>,
    notification_ref: u64,
    occurrence_count: u64,
}

spec fn model_of(inc: Incident) -> IncidentModel {
    IncidentModel {
        diagnostic: inc.diagnostic@,
        notification_ref: inc.notification_ref,
        occurrences: inc.occurrence_count as nat,
    }
}

spec fn map_of(s: Seq<Incident>) -> IncidentMap
    decreases s.len(),
{
    if s.len() == 0 {
        Map::empty()
    } else {
        map_of(s.drop_last()).insert(s.last().fingerprint@, model_of(s.last()))
    }
}

spec fn fps_unique(s: Seq<Incident>) -> bool {
    forall|i: int, j: int|
        #![trigger s[i], s[j]]
        0 <= i < j < s.len() ==> s[i].fingerprint@ != s[j].fingerprint@
}

spec fn refs_unique_seq(s: Seq<Incident>) -> bool {
    forall|i: int, j: int|
        #![trigger s[i], s[j]]
        0 <= i < j < s.len() ==> s[i].notification_ref != s[j].notification_ref
}

spec fn counts_positive(s: Seq<Incident>) -> bool {
    forall|i: int| 0 <= i < s.len() ==> #[trigger] s[i].occurrence_count >= 1
}

spec fn has_fp(s: Seq<Incident>, fp: Seq<u8>) -> bool {
    exists|i: int| 0 <= i < s.len() && (#[trigger] s[i]).fingerprint@ == fp
}

spec fn has_ref(s: Seq<Incident>, nref: u64) -> bool {
    exists|i: int| 0 <= i < s.len() && (#[trigger] s[i]).notification_ref == nref
}

proof fn lemma_map_of_contains(s: Seq<Incident>, fp: Seq<u8>)
    ensures
        map_of(s).contains_key(fp) <==> has_fp(s, fp),
    decreases s.len(),
{
    if s.len() > 0 {
        let t = s.drop_last();
        lemma_map_of_contains(t, fp);
        if s.last().fingerprint@ == fp {
            assert((s[s.len() - 1]).fingerprint@ == fp);
        } else {
            if map_of(s).contains_key(fp) {
                let i = choose|i: int| 0 <= i < t.len() && (#[trigger] t[i]).fingerprint@ == fp;
                assert((s[i]).fingerprint@ == fp);
            }
            if has_fp(s, fp) {
                let i = choose|i: int| 0 <= i < s.len() && (#[trigger] s[i]).fingerprint@ == fp;
                assert(i < s.len() - 1);
                assert((t[i]).fingerprint@ == fp);
            }
        }
    }
}

proof fn lemma_fps_unique_prefix(s: Seq<Incident>)
    requires
        fps_unique(s),
        s.len() > 0,
    ensures
        fps_unique(s.drop_last()),
        refs_unique_seq(s) ==> refs_unique_seq(s.drop_last()),
{
    let t = s.drop_last();
    assert forall|i: int, j: int|
        #![trigger t[i], t[j]]
        0 <= i < j < t.len() implies t[i].fingerprint@ != t[j].fingerprint@ by {
        assert(t[i] == s[i]);
        assert(t[j] == s[j]);
    }
    if refs_unique_seq(s) {
        assert forall|i: int, j: int|
            #![trigger t[i], t[j]]
            0 <= i < j < t.len() implies t[i].notification_ref != t[j].notification_ref by {
            assert(t[i] == s[i]);
            assert(t[j] == s[j]);
        }
    }
}

proof fn lemma_map_of_index(s: Seq<Incident>, i: int)
    requires
        fps_unique(s),
        0 <= i < s.len(),
    ensures
        map_of(s).contains_key(s[i].fingerprint@),
        map_of(s)[s[i].fingerprint@] == model_of(s[i]),
    decreases s.len(),
{
    let t = s.drop_last();
    if i == s.len() - 1 {
        assert(s.last() == s[i]);
    } else {
        lemma_fps_unique_prefix(s);
        assert(t[i] == s[i]);
        lemma_map_of_index(t, i);
        assert(s.last().fingerprint@ != s[i].fingerprint@);
    }
}

proof fn lemma_map_of_update(s: Seq<Incident>, i: int, x: Incident)
    requires
        fps_unique(s),
        0 <= i < s.len(),
        x.fingerprint@ == s[i].fingerprint@,
    ensures
        map_of(s.update(i, x)) == map_of(s).insert(x.fingerprint@, model_of(x)),
    decreases s.len(),
{
    let t = s.update(i, x);
    if i == s.len() - 1 {
        assert(t.drop_last() =~= s.drop_last());
        assert(t.last() == x);
        assert(map_of(t) =~= map_of(s).insert(x.fingerprint@, model_of(x)));
    } else {
        lemma_fps_unique_prefix(s);
        assert(t.drop_last() =~= s.drop_last().update(i, x));
        lemma_map_of_update(s.drop_last(), i, x);
        assert(t.last() == s.last());
        assert(s.last().fingerprint@ != x.fingerprint@);
        assert(map_of(t) =~= map_of(s).insert(x.fingerprint@, model_of(x)));
    }
}

proof fn lemma_ref_known_iff(s: Seq<Incident>, nref: u64)
    requires
        fps_unique(s),
    ensures
        ref_known(map_of(s), nref) <==> has_ref(s, nref),
{
    let m = map_of(s);
    if ref_known(m, nref) {
        let fp = choose|fp: Seq<u8>| #[trigger] m.contains_key(fp) && m[fp].notification_ref == nref;
        lemma_map_of_contains(s, fp);
        let i = choose|i: int| 0 <= i < s.len() && (#[trigger] s[i]).fingerprint@ == fp;
        lemma_map_of_index(s, i);
        assert((s[i]).notification_ref == nref);
    }
    if has_ref(s, nref) {
        let i = choose|i: int| 0 <= i < s.len() && (#[trigger] s[i]).notification_ref == nref;
        lemma_map_of_index(s, i);
        assert(m.contains_key(s[i].fingerprint@) && m[s[i].fingerprint@].notification_ref == nref);
    }
}

proof fn lemma_diag_for_ref(s: Seq<Incident>, i: int)
    requires
        fps_unique(s),
        refs_unique_seq(s),
        0 <= i < s.len(),
    ensures
        ref_known(map_of(s), s[i].notification_ref),
        diagnostic_for_ref(map_of(s), s[i].notification_ref) == s[i].diagnostic@,
{
    let m = map_of(s);
    let nref = s[i].notification_ref;
    lemma_map_of_index(s, i);
    assert(m.contains_key(s[i].fingerprint@) && m[s[i].fingerprint@].notification_ref == nref);
    let fp = choose|fp: Seq<u8>| #[trigger] m.contains_key(fp) && m[fp].notification_ref == nref;
    lemma_map_of_contains(s, fp);
    let j = choose|j: int| 0 <= j < s.len() && (#[trigger] s[j]).fingerprint@ == fp;
    lemma_map_of_index(s, j);
    assert((s[j]).notification_ref == nref);
    if i != j {
        assert(s[i].notification_ref != s[j].notification_ref);
    }
    assert(j == i);
}

/// The durable incident store, keyed by fingerprint.
pub struct IncidentStore {
    incidents: Vec<Incident>,
}

impl View for IncidentStore {
    type V = IncidentMap;

    closed spec fn view(&self) -> IncidentMap {
        map_of(self.incidents@)
    }
}

/// Result of the atomic create-or-increment operation.
pub enum RecordOutcome {
    /// The occurrence was recorded. `notification_ref` is the authoritative
    /// reference (the existing incident's, or the caller's candidate for a
    /// fresh incident); `occurrences` is the count after this occurrence;
    /// `is_new` says whether this call created the incident.
    Recorded { notification_ref: u64, occurrences: u64, is_new: bool },
    /// The incident's count has reached the machine limit; nothing changed.
    Saturated,
}

/// Result of the increment-only path taken when a reporter first asks
/// whether the incident already exists.
pub enum IncrementOutcome {
    /// The incident exists; its count was incremented.
    Incremented { notification_ref: u64, occurrences: u64 },
    /// No incident exists for this fingerprint; nothing changed.
    NotFound,
    /// The incident's count has reached the machine limit; nothing changed.
    Saturated,
}

fn bytes_eq(a: &Vec<u8>, b: &Vec<u8>) -> (r: bool)
    ensures
        r <==> a@ == b@,
{
    if a.len() != b.len() {
        return false;
    }
    let n = a.len();
    let mut i: usize = 0;
    while i < n
        invariant
            i <= n,
            n == a@.len(),
            a@.len() == b@.len(),
            forall|k: int| 0 <= k < i ==> a@[k] == b@[k],
        decreases n - i,
    {
        if a[i] != b[i] {
            return false;
        }
        i += 1;
    }
    proof {
        assert(a@ =~= b@);
    }
    true
}

impl IncidentStore {
    /// The representation invariant: fingerprints unique (at most one
    /// incident per fingerprint), notification references unique (a
    /// notification never points at two incidents), every count at least 1.
    pub closed spec fn wf(self) -> bool {
        &&& fps_unique(self.incidents@)
        &&& refs_unique_seq(self.incidents@)
        &&& counts_positive(self.incidents@)
    }

    /// What the representation invariant yields at the abstract level:
    /// notification references are unique across incidents, and every
    /// recorded count lies between 1 and the machine limit.
    pub proof fn lemma_wf_view(self)
        requires
            self.wf(),
        ensures
            refs_unique(self@),
            forall|fp: Seq<u8>| #[trigger] self@.contains_key(fp)
                ==> 1 <= self@[fp].occurrences <= u64::MAX,
    {
        let s = self.incidents@;
        let m = map_of(s);
        assert forall|fp1: Seq<u8>, fp2: Seq<u8>|
            #![trigger m.contains_key(fp1), m.contains_key(fp2)]
            m.contains_key(fp1) && m.contains_key(fp2)
                && m[fp1].notification_ref == m[fp2].notification_ref implies fp1 == fp2 by {
            lemma_map_of_contains(s, fp1);
            lemma_map_of_contains(s, fp2);
            let i = choose|i: int| 0 <= i < s.len() && (#[trigger] s[i]).fingerprint@ == fp1;
            let j = choose|j: int| 0 <= j < s.len() && (#[trigger] s[j]).fingerprint@ == fp2;
            lemma_map_of_index(s, i);
            lemma_map_of_index(s, j);
            if i != j {
                assert(s[i].notification_ref != s[j].notification_ref);
            }
        }
        assert forall|fp: Seq<u8>| #[trigger] m.contains_key(fp)
            implies 1 <= m[fp].occurrences <= u64::MAX by {
            lemma_map_of_contains(s, fp);
            let i = choose|i: int| 0 <= i < s.len() && (#[trigger] s[i]).fingerprint@ == fp;
            lemma_map_of_index(s, i);
            assert(s[i].occurrence_count >= 1);
        }
    }

    /// An empty store: no incidents at all.
    pub fn new() -> (s: IncidentStore)
        ensures
            s.wf(),
            s@ == Map::<Seq<u8>, IncidentModel>::empty(),
    {
        let s = IncidentStore { incidents: Vec::new() };
        proof {
            assert(s@ =~= Map::<Seq<u8>, IncidentModel>::empty());
        }
        s
    }

    fn find_fingerprint(&self, fp: &Vec<u8>) -> (r: Option<usize>)
        ensures
            match r {
                Some(i) => i < self.incidents@.len() && self.incidents@[i as int].fingerprint@ == fp@,
                None => !has_fp(self.incidents@, fp@),
            },
    {
        let n = self.incidents.len();
        let mut i: usize = 0;
        while i < n
            invariant
                i <= n,
                n == self.incidents@.len(),
                forall|k: int| 0 <= k < i ==> (#[trigger] self.incidents@[k]).fingerprint@ != fp@,
            decreases n - i,
        {
            if bytes_eq(&self.incidents[i].fingerprint, fp) {
                return Some(i);
            }
            i += 1;
        }
        None
    }

    fn find_ref(&self, nref: u64) -> (r: Option<usize>)
        ensures
            match r {
                Some(i) => i < self.incidents@.len() && self.incidents@[i as int].notification_ref == nref,
                None => !has_ref(self.incidents@, nref),
            },
    {
        let n = self.incidents.len();
        let mut i: usize = 0;
        while i < n
            invariant
                i <= n,
                n == self.incidents@.len(),
                forall|k: int| 0 <= k < i ==> (#[trigger] self.incidents@[k]).notification_ref != nref,
            decreases n - i,
        {
            if self.incidents[i].notification_ref == nref {
                return Some(i);
            }
            i += 1;
        }
        None
    }

    /// The atomic create-or-increment upsert: if no incident exists
    /// for the fingerprint, insert one with this diagnostic and the caller's
    /// candidate notification reference, count 1; otherwise increment the
    /// existing incident and return its own notification reference, ignoring
    /// the candidate. The candidate must be fresh (notification references
    /// are sink-issued and unique) unless the incident already exists, in
    /// which case the candidate is ignored.
    pub fn record_occurrence(&mut self, fingerprint: &Vec<u8>, diagnostic: &Vec<u8>, candidate_ref: u64) -> (r: RecordOutcome)
        requires
            old(self).wf(),
            old(self)@.contains_key(fingerprint@) || !ref_known(old(self)@, candidate_ref),
        ensures
            final(self).wf(),
            match r {
                RecordOutcome::Recorded { notification_ref, occurrences, is_new } => {
                    &&& final(self)@ == upsert(old(self)@, fingerprint@, diagnostic@, candidate_ref)
                    &&& is_new == !old(self)@.contains_key(fingerprint@)
                    &&& occurrences as nat == occ(old(self)@, fingerprint@) + 1
                    &&& notification_ref == (if is_new {
                        candidate_ref
                    } else {
                        old(self)@[fingerprint@].notification_ref
                    })
                },
                RecordOutcome::Saturated => {
                    &&& final(self)@ == old(self)@
                    &&& occ(old(self)@, fingerprint@) == u64::MAX
                },
            },
    {
        match self.find_fingerprint(fingerprint) {
            Some(i) => {
                proof {
                    lemma_map_of_index(self.incidents@, i as int);
                }
                let count = self.incidents[i].occurrence_count;
                let nref = self.incidents[i].notification_ref;
                if count == u64::MAX {
                    RecordOutcome::Saturated
                } else {
                    let ghost s0 = self.incidents@;
                    self.incidents[i].occurrence_count = count + 1;
                    proof {
                        let s1 = self.incidents@;
                        assert(s1 == s0.update(i as int, s1[i as int]));
                        assert(s1[i as int].fingerprint@ == s0[i as int].fingerprint@);
                        lemma_map_of_update(s0, i as int, s1[i as int]);
                        assert(self@ =~= upsert(old(self)@, fingerprint@, diagnostic@, candidate_ref));
                        assert forall|a: int, b: int|
                            #![trigger s1[a], s1[b]]
                            0 <= a < b < s1.len() implies s1[a].fingerprint@ != s1[b].fingerprint@
                                && s1[a].notification_ref != s1[b].notification_ref by {
                            assert(s0[a].fingerprint@ != s0[b].fingerprint@);
                            assert(s0[a].notification_ref != s0[b].notification_ref);
                        }
                    }
                    RecordOutcome::Recorded {
                        notification_ref: nref,
                        occurrences: count + 1,
                        is_new: false,
                    }
                }
            },
            None => {
                proof {
                    lemma_map_of_contains(self.incidents@, fingerprint@);
                    lemma_ref_known_iff(self.incidents@, candidate_ref);
                }
                let ghost s0 = self.incidents@;
                let inc = Incident {
                    fingerprint: slice_to_vec(fingerprint.as_slice()),
                    diagnostic: slice_to_vec(diagnostic.as_slice()),
                    notification_ref: candidate_ref,
                    occurrence_count: 1,
                };
                self.incidents.push(inc);
                proof {
                    let s1 = self.incidents@;
                    assert(s1.drop_last() =~= s0);
                    assert(self@ =~= upsert(old(self)@, fingerprint@, diagnostic@, candidate_ref));
                    assert forall|a: int, b: int|
                        #![trigger s1[a], s1[b]]
                        0 <= a < b < s1.len() implies s1[a].fingerprint@ != s1[b].fingerprint@
                            && s1[a].notification_ref != s1[b].notification_ref by {
                        if b < s1.len() - 1 {
                            assert(s0[a].fingerprint@ != s0[b].fingerprint@);
                            assert(s0[a].notification_ref != s0[b].notification_ref);
                        } else {
                            assert(s1[b] == inc);
                            assert(s1[a] == s0[a]);
                            assert(!has_fp(s0, fingerprint@));
                            assert(!has_ref(s0, candidate_ref));
                        }
                    }
                }
                RecordOutcome::Recorded {
                    notification_ref: candidate_ref,
                    occurrences: 1,
                    is_new: true,
                }
            },
        }
    }

    /// The increment-only read-modify path a reporter tries first: if an
    /// incident exists for the fingerprint, increment its count and return
    /// its notification reference and new count; otherwise change nothing.
    pub fn try_increment(&mut self, fingerprint: &Vec<u8>) -> (r: IncrementOutcome)
        requires
            old(self).wf(),
        ensures
            final(self).wf(),
            match r {
                IncrementOutcome::Incremented { notification_ref, occurrences } => {
                    &&& old(self)@.contains_key(fingerprint@)
                    &&& final(self)@ == increment(old(self)@, fingerprint@)
                    &&& occurrences as nat == occ(old(self)@, fingerprint@) + 1
                    &&& notification_ref == old(self)@[fingerprint@].notification_ref
                },
                IncrementOutcome::NotFound => {
                    &&& !old(self)@.contains_key(fingerprint@)
                    &&& final(self)@ == old(self)@
                },
                IncrementOutcome::Saturated => {
                    &&& final(self)@ == old(self)@
                    &&& occ(old(self)@, fingerprint@) == u64::MAX
                },
            },
    {
        match self.find_fingerprint(fingerprint) {
            Some(i) => {
                proof {
                    lemma_map_of_index(self.incidents@, i as int);
                }
                let count = self.incidents[i].occurrence_count;
                let nref = self.incidents[i].notification_ref;
                if count == u64::MAX {
                    IncrementOutcome::Saturated
                } else {
                    let ghost s0 = self.incidents@;
                    self.incidents[i].occurrence_count = count + 1;
                    proof {
                        let s1 = self.incidents@;
                        assert(s1 == s0.update(i as int, s1[i as int]));
                        assert(s1[i as int].fingerprint@ == s0[i as int].fingerprint@);
                        lemma_map_of_update(s0, i as int, s1[i as int]);
                        assert(self@ =~= increment(old(self)@, fingerprint@));
                        assert forall|a: int, b: int|
                            #![trigger s1[a], s1[b]]
                            0 <= a < b < s1.len() implies s1[a].fingerprint@ != s1[b].fingerprint@
                                && s1[a].notification_ref != s1[b].notification_ref by {
                            assert(s0[a].fingerprint@ != s0[b].fingerprint@);
                            assert(s0[a].notification_ref != s0[b].notification_ref);
                        }
                    }
                    IncrementOutcome::Incremented { notification_ref: nref, occurrences: count + 1 }
                }
            },
            None => {
                proof {
                    lemma_map_of_contains(self.incidents@, fingerprint@);
                }
                IncrementOutcome::NotFound
            },
        }
    }

    /// The read-only point lookup: the stored diagnostic of the
    /// incident whose notification carries `notification_ref`, or `None`
    /// when no incident does. Never an error: absence is a defined result.
    pub fn lookup_diagnostic(&self, notification_ref: u64) -> (r: Option<Vec<u8>>)
        requires
            self.wf(),
        ensures
            match r {
                Some(d) => ref_known(self@, notification_ref)
                    && d@ == diagnostic_for_ref(self@, notification_ref),
                None => !ref_known(self@, notification_ref),
            },
    {
        match self.find_ref(notification_ref) {
            Some(i) => {
                proof {
                    lemma_diag_for_ref(self.incidents@, i as int);
                }
                Some(slice_to_vec(self.incidents[i].diagnostic.as_slice()))
            },
            None => {
                proof {
                    lemma_ref_known_iff(self.incidents@, notification_ref);
                }
                None
            },
        }
    }

    /// Whether some incident's notification already carries `nref`; lets a
    /// caller check a candidate reference for freshness before the upsert.
    pub fn notification_known(&self, nref: u64) -> (r: bool)
        requires
            self.wf(),
        ensures
            r == ref_known(self@, nref),
    {
        proof {
            lemma_ref_known_iff(self.incidents@, nref);
        }
        match self.find_ref(nref) {
            Some(_) => true,
            None => false,
        }
    }

    /// The count recorded for a fingerprint, zero when no incident exists.
    pub fn occurrence_count(&self, fingerprint: &Vec<u8>) -> (r: u64)
        requires
            self.wf(),
        ensures
            r as nat == occ(self@, fingerprint@),
    {
        match self.find_fingerprint(fingerprint) {
            Some(i) => {
                proof {
                    lemma_map_of_index(self.incidents@, i as int);
                }
                self.incidents[i].occurrence_count
            },
            None => {
                proof {
                    lemma_map_of_contains(self.incidents@, fingerprint@);
                }
                0
            },
        }
    }
}

} // verus!
