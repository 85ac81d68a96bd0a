//! Append-only recommendation disposition read/write semantics.
use vstd::prelude::*;
use crate::text::{trim, is_blank, str_eq, byte_len, utf8_len};

verus! {

/// User decision recorded for an advisory recommendation.
#[derive(Debug, Clone, Copy, PartialEq, Eq, Structural)]
pub enum RecommendationDisposition {
    Accepted,
    Rejected,
    Implemented,
    NotApplicable,
}

/// One immutable audit entry. A new decision appends another entry.
#[derive(Debug, Clone, PartialEq, Eq)]
pub struct DispositionRecord {
    pub disposition_id: String,
    pub recommendation_id: String,
    pub disposition: RecommendationDisposition,
    pub reason: Option<String>,
    pub recorded_at: String,
    pub actor: String,
}

/// Validation failure before persistence.
#[derive(Debug, Clone, Copy, PartialEq, Eq, Structural)]
pub enum DispositionError {
    EmptyActor,
    EmptyTimestamp,
    ReasonTooLong,
    DuplicateDispositionId,
}

impl DispositionError {
    /// The human-readable explanation of the error.
    pub fn message(&self) -> (m: &'static str)
        ensures
            m@ == match self {
                DispositionError::EmptyActor => "actor must not be empty"@,
                DispositionError::EmptyTimestamp => "recorded_at must not be empty"@,
                DispositionError::ReasonTooLong => "reason exceeds the 1,000-byte limit"@,
                DispositionError::DuplicateDispositionId => "disposition_id already exists in history"@,
            },
    {
        match self {
            DispositionError::EmptyActor => "actor must not be empty",
            DispositionError::EmptyTimestamp => "recorded_at must not be empty",
            DispositionError::ReasonTooLong => "reason exceeds the 1,000-byte limit",
            DispositionError::DuplicateDispositionId => "disposition_id already exists in history",
        }
    }
}

/// The verdict on appending `record` to `history`.
pub open spec fn append_verdict(history: Seq<DispositionRecord>, record: DispositionRecord) -> Result<
    (),
    DispositionError,
> {
    if trim(record.actor@).len() == 0 {
        Err(DispositionError::EmptyActor)
    } else if trim(record.recorded_at@).len() == 0 {
        Err(DispositionError::EmptyTimestamp)
    } else if record.reason matches Some(reason) && byte_len(reason@) > 1000 {
        Err(DispositionError::ReasonTooLong)
    } else if exists|i: int|
        0 <= i < history.len() && #[trigger] history[i].disposition_id@
            == record.disposition_id@ {
        Err(DispositionError::DuplicateDispositionId)
    } else {
        Ok(())
    }
}

/// The most recently appended entry for a recommendation.
pub open spec fn latest_for(history: Seq<DispositionRecord>, recommendation_id: Seq<char>) -> Option<
    DispositionRecord,
>
    decreases history.len(),
{
    if history.len() == 0 {
        None
    } else if history.last().recommendation_id@ == recommendation_id {
        Some(history.last())
    } else {
        latest_for(history.drop_last(), recommendation_id)
    }
}

/// Validates and appends one disposition without rewriting prior history.
pub fn append_disposition(history: &mut Vec<DispositionRecord>, record: DispositionRecord) -> (r:
    Result<(), DispositionError>)
    ensures
        r == append_verdict(old(history)@, record),
        r is Ok ==> final(history)@ == old(history)@.push(record),
        r is Err ==> final(history)@ == old(history)@,
{
    if is_blank(record.actor.as_str()) {
        return Err(DispositionError::EmptyActor);
    }
    if is_blank(record.recorded_at.as_str()) {
        return Err(DispositionError::EmptyTimestamp);
    }
    match &record.reason {
        Some(reason) => {
            if utf8_len(reason.as_str()) > 1000 {
                return Err(DispositionError::ReasonTooLong);
            }
        },
        None => {},
    }
    let mut i: usize = 0;
    while i < history.len()
        invariant
            i <= history@.len(),
            history@ == old(history)@,
            trim(record.actor@).len() != 0,
            trim(record.recorded_at@).len() != 0,
            !(record.reason matches Some(reason) && byte_len(reason@) > 1000),
            forall|j: int|
                0 <= j < i ==> history@[j].disposition_id@ != record.disposition_id@,
        decreases history@.len() - i,
    {
        if str_eq(history[i].disposition_id.as_str(), record.disposition_id.as_str()) {
            assert(history@[i as int].disposition_id@ == record.disposition_id@);
            return Err(DispositionError::DuplicateDispositionId);
        }
        i = i + 1;
    }
    assert(!(exists|j: int|
        0 <= j < history@.len() && #[trigger] history@[j].disposition_id@
            == record.disposition_id@));
    history.push(record);
    Ok(())
}

/// Returns the most recently appended decision for a recommendation.
pub fn latest_disposition<'a>(history: &'a [DispositionRecord], recommendation_id: &str) -> (r:
    Option<&'a DispositionRecord>)
    ensures
        match latest_for(history@, recommendation_id@) {
            Some(d) => r matches Some(found) && *found == d,
            None => r is None,
        },
{
    let mut i: usize = history.len();
    assert(history@.subrange(0, history@.len() as int) == history@);
    while i > 0
        invariant
            i <= history@.len(),
            latest_for(history@, recommendation_id@) == latest_for(
                history@.subrange(0, i as int),
                recommendation_id@,
            ),
        decreases i,
    {
        let ghost prefix = history@.subrange(0, i as int);
        assert(prefix.last() == history@[i - 1]);
        assert(prefix.drop_last() == history@.subrange(0, i - 1));
        if str_eq(history[i - 1].recommendation_id.as_str(), recommendation_id) {
            return Some(&history[i - 1]);
        }
        i = i - 1;
        assert(latest_for(prefix, recommendation_id@) == latest_for(
            history@.subrange(0, i as int),
            recommendation_id@,
        ));
    }
    None
}

/// After a successful append, the latest decision for that recommendation is
/// the appended one, and the latest decision of every other recommendation
/// is unchanged.
pub proof fn appended_disposition_is_latest(
    history: Seq<DispositionRecord>,
    record: DispositionRecord,
    other: Seq<char>,
)
    ensures
        latest_for(history.push(record), record.recommendation_id@) == Some(record),
        other != record.recommendation_id@ ==> latest_for(history.push(record), other)
            == latest_for(history, other),
{
    assert(history.push(record).drop_last() == history);
}

} // verus!
