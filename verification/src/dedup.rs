use vstd::prelude::*;
use crate::ids::Uri;

verus! {

/// How the processing of a recorded activity id ended. A record whose
/// processing is still underway, or ended in rejection, reads `Rejected`:
/// only `Applied` and `Duplicate` bar a later attempt, so that a legitimate
/// retry can succeed once a blocking condition clears, while an applied
/// activity is never applied twice.
#[derive(Clone, Copy, PartialEq, Eq, Structural, Debug)]
pub enum Outcome {
    Applied,
    Rejected,
    Duplicate,
}

/// One dedup entry: the activity id, when it was first seen, and how its
/// processing ended. Never mutated after insertion except to update the
/// outcome.
#[derive(Clone, Copy, PartialEq, Eq, Structural, Debug)]
pub struct ProcessingRecord {
    pub activity_id: Uri,
    pub first_seen: u64,
    pub outcome: Outcome,
}

/// Whether some record for this id stands in the sequence.
pub open spec fn has_rec(s: Seq<ProcessingRecord>, id: Uri) -> bool {
    exists|j: int| 0 <= j < s.len() && s[j].activity_id == id
}

/// Whether a record for this id bars re-application: it was applied, or it
/// was itself the duplicate of an applied one.
pub open spec fn blocked(s: Seq<ProcessingRecord>, id: Uri) -> bool {
    exists|j: int|
        0 <= j < s.len() && s[j].activity_id == id && (s[j].outcome is Applied || s[j].outcome
            is Duplicate)
}

/// The index of the record for `id`; meaningful only under `has_rec`, and
/// unique under the store invariant.
pub open spec fn rec_index(s: Seq<ProcessingRecord>, id: Uri) -> int {
    choose|j: int| 0 <= j < s.len() && s[j].activity_id == id
}

/// What admitting an id does to the record sequence: a fresh record
/// (outcome `Rejected` until processing completes) where none stands,
/// nothing where one does.
pub open spec fn mark_spec(s: Seq<ProcessingRecord>, id: Uri, now: u64) -> Seq<
    ProcessingRecord,
> {
    if has_rec(s, id) {
        s
    } else {
        s.push(ProcessingRecord { activity_id: id, first_seen: now, outcome: Outcome::Rejected })
    }
}

/// What recording an outcome does: the outcome of the record for `id`, and
/// nothing else, changes.
pub open spec fn set_outcome_spec(s: Seq<ProcessingRecord>, id: Uri, outcome: Outcome) -> Seq<
    ProcessingRecord,
> {
    s.update(
        rec_index(s, id),
        ProcessingRecord { activity_id: id, first_seen: s[rec_index(s, id)].first_seen, outcome },
    )
}

/// The Activity Deduplication Store: records which activity ids have been
/// processed, giving at-most-once application over an at-least-once
/// transport. The engine runs its check-and-insert as one atomic step
/// against storage; this value is the engine's view of that table.
pub struct DedupStore {
    pub recs: Vec<ProcessingRecord>,
}

/// Answer of the atomic check-and-insert.
#[derive(Clone, Copy, PartialEq, Eq, Structural, Debug)]
pub enum MarkResult {
    Inserted,
    AlreadyPresent,
}

impl DedupStore {
    /// At most one record per activity id.
    pub open spec fn wf(self) -> bool {
        forall|i: int, j: int|
            0 <= i < j < self.recs@.len() ==> self.recs@[i].activity_id
                != self.recs@[j].activity_id
    }

    /// An empty store.
    pub fn new() -> (r: DedupStore)
        ensures
            r.wf(),
            r.recs@ =~= Seq::<ProcessingRecord>::empty(),
    {
        DedupStore { recs: Vec::new() }
    }

    /// Index of the record for this id, if one stands.
    pub fn find(&self, id: Uri) -> (r: Option<usize>)
        ensures
            match r {
                Some(i) => i < self.recs@.len() && self.recs@[i as int].activity_id == id,
                None => !has_rec(self.recs@, id),
            },
    {
        let mut i: usize = 0;
        while i < self.recs.len()
            invariant
                i <= self.recs@.len(),
                forall|j: int| 0 <= j < i ==> self.recs@[j].activity_id != id,
            decreases self.recs@.len() - i,
        {
            if self.recs[i].activity_id == id {
                return Some(i);
            }
            i = i + 1;
        }
        None
    }

    /// Atomic check-and-insert. `AlreadyPresent` exactly when the id is
    /// barred (applied before); the store is then unchanged and the caller
    /// short-circuits with success. Otherwise the id is admitted for
    /// processing: a fresh record (outcome `Rejected` until processing
    /// completes) is inserted if none stood, and a standing rejected record
    /// is left for this attempt to update.
    pub fn mark_if_new(&mut self, id: Uri, now: u64) -> (r: MarkResult)
        requires
            old(self).wf(),
        ensures
            final(self).wf(),
            final(self).recs@ == mark_spec(old(self).recs@, id, now),
            r == MarkResult::AlreadyPresent <==> blocked(old(self).recs@, id),
            has_rec(final(self).recs@, id),
            blocked(final(self).recs@, id) == blocked(old(self).recs@, id),
    {
        match self.find(id) {
            Some(i) => {
                let rec = self.recs[i];
                match rec.outcome {
                    Outcome::Rejected => MarkResult::Inserted,
                    _ => {
                        assert(blocked(self.recs@, id));
                        MarkResult::AlreadyPresent
                    },
                }
            },
            None => {
                let rec = ProcessingRecord {
                    activity_id: id,
                    first_seen: now,
                    outcome: Outcome::Rejected,
                };
                self.recs.push(rec);
                assert(self.recs@[old(self).recs@.len() as int].activity_id == id);
                assert(has_rec(self.recs@, id));
                MarkResult::Inserted
            },
        }
    }

    /// Record how processing of an admitted id ended: the outcome of its
    /// record, and nothing else, changes.
    pub fn set_outcome(&mut self, id: Uri, outcome: Outcome)
        requires
            old(self).wf(),
            has_rec(old(self).recs@, id),
        ensures
            final(self).wf(),
            final(self).recs@ == set_outcome_spec(old(self).recs@, id, outcome),
            has_rec(final(self).recs@, id),
            blocked(final(self).recs@, id) == (outcome is Applied || outcome is Duplicate),
    {
        match self.find(id) {
            Some(i) => {
                let first_seen = self.recs[i].first_seen;
                self.recs.set(
                    i,
                    ProcessingRecord { activity_id: id, first_seen, outcome },
                );
                proof {
                    let ghost k = rec_index(old(self).recs@, id);
                    assert(0 <= k < old(self).recs@.len() && old(self).recs@[k].activity_id
                        == id);
                    assert(k == i as int);
                    assert(self.recs@[k].activity_id == id);
                    assert forall|j: int|
                        0 <= j < self.recs@.len() && self.recs@[j].activity_id == id implies j
                        == k by {
                        if j != k {
                            assert(old(self).recs@[j].activity_id == id);
                        }
                    }
                }
            },
            None => {
                // The caller owes a standing record for this id.
                assert(false);
            },
        }
    }
}

} // verus!
