//! Trace deletion jobs and append-only tombstone/audit semantics.
use vstd::prelude::*;
use crate::text::{trim, is_blank, str_eq};

verus! {

/// Audit record of one trace deletion.
#[derive(Debug, Clone, PartialEq, Eq)]
pub struct TraceTombstone {
    pub trace_id: String,
    pub deleted_at: String,
    pub actor: String,
    pub reason: String,
}

/// Durable work item consumed by the deletion worker.
#[derive(Debug, Clone, PartialEq, Eq)]
pub struct DeletionJob {
    pub trace_id: String,
    pub tombstone: TraceTombstone,
}

#[derive(Debug, Clone, Copy, PartialEq, Eq, Structural)]
pub enum DeletionError {
    EmptyTrace,
    EmptyActor,
    EmptyTimestamp,
    AlreadyDeleted,
}

/// The tombstone recorded for a trace in an append-only log, if any.
pub open spec fn record_for(log: Seq<TraceTombstone>, trace_id: Seq<char>) -> Option<
    TraceTombstone,
>
    decreases log.len(),
{
    if log.len() == 0 {
        None
    } else if log[0].trace_id@ == trace_id {
        Some(log[0])
    } else {
        record_for(log.drop_first(), trace_id)
    }
}

/// The verdict on recording `tombstone` in a log.
pub open spec fn deletion_verdict(log: Seq<TraceTombstone>, tombstone: TraceTombstone) -> Result<
    (),
    DeletionError,
> {
    if trim(tombstone.trace_id@).len() == 0 {
        Err(DeletionError::EmptyTrace)
    } else if trim(tombstone.actor@).len() == 0 {
        Err(DeletionError::EmptyActor)
    } else if trim(tombstone.deleted_at@).len() == 0 {
        Err(DeletionError::EmptyTimestamp)
    } else if record_for(log, tombstone.trace_id@) is Some {
        Err(DeletionError::AlreadyDeleted)
    } else {
        Ok(())
    }
}

/// Append-only record of trace tombstones, at most one per trace.
#[derive(Debug)]
pub struct DeletionLedger {
    tombstones: Vec<TraceTombstone>,
}

/// No trace id occurs twice in the log.
pub open spec fn unique_traces(log: Seq<TraceTombstone>) -> bool {
    forall|i: int, j: int|
        0 <= i < log.len() && 0 <= j < log.len() && i != j ==> log[i].trace_id@
            != log[j].trace_id@
}

proof fn lemma_record_for(log: Seq<TraceTombstone>, trace_id: Seq<char>)
    ensures
        match record_for(log, trace_id) {
            Some(t) => exists|i: int|
                0 <= i < log.len() && log[i] == t && t.trace_id@ == trace_id && forall|j: int|
                    0 <= j < i ==> log[j].trace_id@ != trace_id,
            None => forall|i: int| 0 <= i < log.len() ==> log[i].trace_id@ != trace_id,
        },
    decreases log.len(),
{
    if log.len() > 0 && log[0].trace_id@ != trace_id {
        let rest = log.drop_first();
        lemma_record_for(rest, trace_id);
        match record_for(rest, trace_id) {
            Some(t) => {
                let i = choose|i: int|
                    0 <= i < rest.len() && rest[i] == t && t.trace_id@ == trace_id && forall|j: int|
                        0 <= j < i ==> rest[j].trace_id@ != trace_id;
                assert(log[i + 1] == t);
                assert forall|j: int| 0 <= j < i + 1 implies log[j].trace_id@ != trace_id by {
                    if j > 0 {
                        assert(log[j] == rest[j - 1]);
                    }
                }
            },
            None => {
                assert forall|i: int| 0 <= i < log.len() implies log[i].trace_id@ != trace_id by {
                    if i > 0 {
                        assert(log[i] == rest[i - 1]);
                    }
                }
            },
        }
    } else if log.len() > 0 {
        assert(log[0].trace_id@ == trace_id);
    }
}

/// Appending a tombstone for a trace the log does not hold keeps every
/// recorded tombstone and records the new one.
pub proof fn lemma_record_for_push(log: Seq<TraceTombstone>, t: TraceTombstone, trace_id: Seq<char>)
    requires
        record_for(log, t.trace_id@) is None,
    ensures
        record_for(log.push(t), trace_id) == (if trace_id == t.trace_id@ {
            Some(t)
        } else {
            record_for(log, trace_id)
        }),
    decreases log.len(),
{
    if log.len() == 0 {
        assert(log.push(t).drop_first() =~= Seq::<TraceTombstone>::empty());
    } else {
        assert(log.push(t)[0] == log[0]);
        assert(log.push(t).drop_first() =~= log.drop_first().push(t));
        if log[0].trace_id@ != trace_id {
            if log[0].trace_id@ != t.trace_id@ {
                lemma_record_for_push(log.drop_first(), t, trace_id);
            }
        }
    }
}

impl DeletionLedger {
    #[verifier::type_invariant]
    spec fn well_formed(self) -> bool {
        unique_traces(self.tombstones@)
    }

    /// The tombstones in the order they were recorded.
    pub closed spec fn log(self) -> Seq<TraceTombstone> {
        self.tombstones@
    }

    /// An empty ledger.
    pub fn new() -> (ledger: Self)
        ensures
            ledger.log() == Seq::<TraceTombstone>::empty(),
    {
        DeletionLedger { tombstones: Vec::new() }
    }

    /// Records a tombstone once; later requests cannot resurrect the trace.
    pub fn delete(&mut self, tombstone: TraceTombstone) -> (r: Result<(), DeletionError>)
        ensures
            r == deletion_verdict(old(self).log(), tombstone),
            r is Ok ==> final(self).log() == old(self).log().push(tombstone),
            r is Err ==> final(self).log() == old(self).log(),
    {
        proof {
            use_type_invariant(&*self);
        }
        if is_blank(tombstone.trace_id.as_str()) {
            return Err(DeletionError::EmptyTrace);
        }
        if is_blank(tombstone.actor.as_str()) {
            return Err(DeletionError::EmptyActor);
        }
        if is_blank(tombstone.deleted_at.as_str()) {
            return Err(DeletionError::EmptyTimestamp);
        }
        if self.is_deleted(tombstone.trace_id.as_str()) {
            return Err(DeletionError::AlreadyDeleted);
        }
        proof {
            lemma_record_for(self.tombstones@, tombstone.trace_id@);
            let pushed = self.tombstones@.push(tombstone);
            assert forall|i: int, j: int|
                0 <= i < pushed.len() && 0 <= j < pushed.len() && i != j implies pushed[i].trace_id@
                != pushed[j].trace_id@ by {
                if i < self.tombstones@.len() && j < self.tombstones@.len() {
                    assert(pushed[i] == self.tombstones@[i]);
                    assert(pushed[j] == self.tombstones@[j]);
                }
            }
        }
        let mut tombstones: Vec<TraceTombstone> = Vec::new();
        std::mem::swap(&mut tombstones, &mut self.tombstones);
        tombstones.push(tombstone);
        self.tombstones = tombstones;
        Ok(())
    }

    fn position(&self, trace_id: &str) -> (r: Option<usize>)
        ensures
            match record_for(self.log(), trace_id@) {
                Some(t) => r matches Some(i) && i < self.log().len() && self.log()[i as int] == t,
                None => r is None,
            },
    {
        proof {
            lemma_record_for(self.tombstones@, trace_id@);
        }
        let mut i: usize = 0;
        while i < self.tombstones.len()
            invariant
                i <= self.tombstones@.len(),
                forall|j: int| 0 <= j < i ==> self.tombstones@[j].trace_id@ != trace_id@,
            decreases self.tombstones@.len() - i,
        {
            if str_eq(self.tombstones[i].trace_id.as_str(), trace_id) {
                proof {
                    lemma_record_for(self.tombstones@, trace_id@);
                    match record_for(self.tombstones@, trace_id@) {
                        Some(t) => {
                            let k = choose|k: int|
                                0 <= k < self.tombstones@.len() && self.tombstones@[k] == t
                                    && t.trace_id@ == trace_id@ && forall|j: int|
                                    0 <= j < k ==> self.tombstones@[j].trace_id@ != trace_id@;
                            if k < i {
                            } else if k > i {
                            }
                        },
                        None => {},
                    }
                }
                return Some(i);
            }
            i = i + 1;
        }
        None
    }

    /// Whether a tombstone exists for the trace.
    pub fn is_deleted(&self, trace_id: &str) -> (r: bool)
        ensures
            r == (record_for(self.log(), trace_id@) is Some),
    {
        self.position(trace_id).is_some()
    }

    /// The tombstone recorded for the trace, if any.
    pub fn audit(&self, trace_id: &str) -> (r: Option<&TraceTombstone>)
        ensures
            match record_for(self.log(), trace_id@) {
                Some(t) => r matches Some(found) && *found == t,
                None => r is None,
            },
    {
        match self.position(trace_id) {
            Some(i) => Some(&self.tombstones[i]),
            None => None,
        }
    }
}

impl Default for DeletionLedger {
    fn default() -> (ledger: Self)
        ensures
            ledger.log() == Seq::<TraceTombstone>::empty(),
    {
        DeletionLedger::new()
    }
}

/// Applies one deletion job to the append-only ledger.
pub fn execute_deletion_job(ledger: &mut DeletionLedger, job: DeletionJob) -> (r: Result<
    (),
    DeletionError,
>)
    ensures
        r == deletion_verdict(old(ledger).log(), job.tombstone),
        r is Ok ==> final(ledger).log() == old(ledger).log().push(job.tombstone),
        r is Err ==> final(ledger).log() == old(ledger).log(),
{
    ledger.delete(job.tombstone)
}

/// Deletion is permanent: once a trace has a tombstone, any later deletion
/// request leaves that tombstone in place, and a second request for the same
/// trace is refused as `AlreadyDeleted`.
pub proof fn tombstones_are_permanent(
    log: Seq<TraceTombstone>,
    request: TraceTombstone,
    trace_id: Seq<char>,
)
    requires
        record_for(log, trace_id) is Some,
    ensures
        deletion_verdict(log, request) is Ok ==> record_for(log.push(request), trace_id)
            == record_for(log, trace_id),
        request.trace_id@ == trace_id ==> deletion_verdict(log, request) is Err,
        request.trace_id@ == trace_id && trim(request.trace_id@).len() != 0 && trim(
            request.actor@,
        ).len() != 0 && trim(request.deleted_at@).len() != 0 ==> deletion_verdict(log, request)
            == Err::<(), DeletionError>(DeletionError::AlreadyDeleted),
{
    if deletion_verdict(log, request) is Ok {
        lemma_record_for_push(log, request, trace_id);
    }
}

/// A successful deletion hides the trace: it is reported deleted and its
/// audit record is the tombstone that was submitted.
pub proof fn deletion_is_recorded(log: Seq<TraceTombstone>, request: TraceTombstone)
    requires
        deletion_verdict(log, request) is Ok,
    ensures
        record_for(log.push(request), request.trace_id@) == Some(request),
{
    lemma_record_for_push(log, request, request.trace_id@);
}

/// The log after a sequence of deletion requests, each applied as `delete`
/// applies it: recorded when its verdict is `Ok`, ignored otherwise.
pub open spec fn after_deletions(log: Seq<TraceTombstone>, requests: Seq<TraceTombstone>) -> Seq<
    TraceTombstone,
>
    decreases requests.len(),
{
    if requests.len() == 0 {
        log
    } else {
        let before = after_deletions(log, requests.drop_last());
        if deletion_verdict(before, requests.last()) is Ok {
            before.push(requests.last())
        } else {
            before
        }
    }
}

/// A deleted trace cannot be resurrected: after a successful deletion, any
/// later sequence of deletion requests, successful or not, leaves the trace
/// deleted with the tombstone that was submitted.
pub proof fn deletion_survives_any_later_requests(
    log: Seq<TraceTombstone>,
    tombstone: TraceTombstone,
    later: Seq<TraceTombstone>,
)
    requires
        deletion_verdict(log, tombstone) is Ok,
    ensures
        record_for(after_deletions(log.push(tombstone), later), tombstone.trace_id@) == Some(tombstone),
    decreases later.len(),
{
    if later.len() == 0 {
        deletion_is_recorded(log, tombstone);
    } else {
        deletion_survives_any_later_requests(log, tombstone, later.drop_last());
        let before = after_deletions(log.push(tombstone), later.drop_last());
        tombstones_are_permanent(before, later.last(), tombstone.trace_id@);
    }
}

} // verus!
