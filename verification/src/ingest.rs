//! Admission rules of the event ingestion endpoint.
use vstd::prelude::*;
use crate::json::{JsonValue, member_text, get_text};
use crate::ids::{parse_uuid, uuid_parse, new_v7};
use crate::instant::{OffsetInstant, parse_rfc3339, rfc3339_parse, well_ranged, julian_day, local_julian_day};
use crate::digest::{sha256, sha256_digest};
use crate::text::{str_eq, owned};

verus! {

/// Most events accepted in one batch.
pub const MAX_EVENTS_PER_BATCH: usize = 1_000;

/// Largest compressed request body, in bytes.
pub const MAX_COMPRESSED_BODY_BYTES: usize = 256 * 1024;

/// Largest decompressed request body, in bytes.
pub const MAX_DECOMPRESSED_BODY_BYTES: usize = 2 * 1024 * 1024;

/// Requests admitted per one-second window.
pub const MAX_REQUESTS_PER_SECOND: u32 = 100;

/// Requests served at the same time.
pub const MAX_CONCURRENT_REQUESTS: usize = 64;

/// Field names that must never reach durable storage.
pub open spec fn prohibited_key(key: Seq<char>) -> bool {
    ||| key == "private_key"@
    ||| key == "seed_phrase"@
    ||| key == "signed_transaction_bytes"@
    ||| key == "raw_transaction"@
    ||| key == "authorization"@
    ||| key == "cookie"@
    ||| key == "set_cookie"@
    ||| key == "headers"@
    ||| key == "metadata"@
    ||| key == "endpoint_url"@
    ||| key == "rpc_url"@
}

/// Whether a field name is one that must never be stored.
pub fn is_prohibited_key(key: &str) -> (b: bool)
    ensures
        b == prohibited_key(key@),
{
    str_eq(key, "private_key") || str_eq(key, "seed_phrase") || str_eq(
        key,
        "signed_transaction_bytes",
    ) || str_eq(key, "raw_transaction") || str_eq(key, "authorization") || str_eq(key, "cookie")
        || str_eq(key, "set_cookie") || str_eq(key, "headers") || str_eq(key, "metadata")
        || str_eq(key, "endpoint_url") || str_eq(key, "rpc_url")
}

/// Some object, at any depth of `value`, has a prohibited member name.
pub open spec fn has_prohibited_key(value: JsonValue) -> bool
    decreases value,
{
    match value {
        JsonValue::Object(members) => exists|i: int|
            0 <= i < members.len() && (prohibited_key(#[trigger] members[i].0@) || has_prohibited_key(
                members[i].1,
            )),
        JsonValue::Array(items) => exists|i: int|
            0 <= i < items.len() && has_prohibited_key(#[trigger] items[i]),
        _ => false,
    }
}

/// Searches a value, at every depth, for a prohibited member name.
pub fn contains_prohibited_key(value: &JsonValue) -> (b: bool)
    ensures
        b == has_prohibited_key(*value),
    decreases value,
{
    match value {
        JsonValue::Object(members) => {
            let mut i: usize = 0;
            while i < members.len()
                invariant
                    i <= members@.len(),
                    *value == JsonValue::Object(*members),
                    forall|j: int|
                        #![trigger members@[j]]
                        0 <= j < i ==> !prohibited_key(members@[j].0@) && !has_prohibited_key(
                            members@[j].1,
                        ),
                decreases members@.len() - i,
            {
                if is_prohibited_key(members[i].0.as_str()) {
                    assert((*value)->Object_0 == *members);
                    assert(prohibited_key(members[i as int].0@));
                    return true;
                }
                proof {
                    assert((*value)->Object_0 == *members);
                    assert(decreases_to!(*value => (*value)->Object_0));
                    assert(decreases_to!(*members => members[i as int]));
                    assert(decreases_to!(*value => members[i as int].1));
                }
                if contains_prohibited_key(&members[i].1) {
                    assert((*value)->Object_0 == *members);
                    assert(has_prohibited_key(members[i as int].1));
                    return true;
                }
                i = i + 1;
            }
            false
        },
        JsonValue::Array(items) => {
            let mut i: usize = 0;
            while i < items.len()
                invariant
                    i <= items@.len(),
                    *value == JsonValue::Array(*items),
                    forall|j: int| 0 <= j < i ==> !has_prohibited_key(#[trigger] items@[j]),
                decreases items@.len() - i,
            {
                proof {
                    assert((*value)->Array_0 == *items);
                    assert(decreases_to!(*value => (*value)->Array_0));
                    assert(decreases_to!(*items => items[i as int]));
                    assert(decreases_to!(*value => items[i as int]));
                }
                if contains_prohibited_key(&items[i]) {
                    assert((*value)->Array_0 == *items);
                    assert(has_prohibited_key(items[i as int]));
                    return true;
                }
                i = i + 1;
            }
            false
        },
        _ => false,
    }
}

/// Why a batch, or one of its events, was not admitted.
#[derive(Debug, Clone, Copy, PartialEq, Eq, Structural)]
pub enum IngestError {
    EmptyBatch,
    BatchTooLarge,
    InvalidEvent,
    PrivacyViolation,
    InvalidBatchId,
    InvalidEventId,
    InvalidProjectId,
    ProjectForbidden,
    InvalidEnvironmentId,
    InvalidOccurredAt,
}

impl IngestError {
    /// The HTTP status answered for the error.
    pub fn status(&self) -> (code: u16)
        ensures
            code == match self {
                IngestError::BatchTooLarge => 413u16,
                IngestError::ProjectForbidden => 403u16,
                _ => 400u16,
            },
    {
        match self {
            IngestError::BatchTooLarge => 413,
            IngestError::ProjectForbidden => 403,
            _ => 400,
        }
    }

    /// The machine-readable error code of the response body.
    pub fn code(&self) -> (c: &'static str)
        ensures
            c@ == match self {
                IngestError::EmptyBatch => "empty_batch"@,
                IngestError::BatchTooLarge => "batch_too_large"@,
                IngestError::InvalidEvent => "invalid_event"@,
                IngestError::PrivacyViolation => "privacy_violation"@,
                IngestError::InvalidBatchId => "invalid_batch_id"@,
                IngestError::InvalidEventId => "invalid_event_id"@,
                IngestError::InvalidProjectId => "invalid_project_id"@,
                IngestError::ProjectForbidden => "project_forbidden"@,
                IngestError::InvalidEnvironmentId => "invalid_environment_id"@,
                IngestError::InvalidOccurredAt => "invalid_occurred_at"@,
            },
    {
        match self {
            IngestError::EmptyBatch => "empty_batch",
            IngestError::BatchTooLarge => "batch_too_large",
            IngestError::InvalidEvent => "invalid_event",
            IngestError::PrivacyViolation => "privacy_violation",
            IngestError::InvalidBatchId => "invalid_batch_id",
            IngestError::InvalidEventId => "invalid_event_id",
            IngestError::InvalidProjectId => "invalid_project_id",
            IngestError::ProjectForbidden => "project_forbidden",
            IngestError::InvalidEnvironmentId => "invalid_environment_id",
            IngestError::InvalidOccurredAt => "invalid_occurred_at",
        }
    }

    /// The human-readable message of the response body.
    pub fn message(&self) -> (m: &'static str)
        ensures
            m@ == match self {
                IngestError::EmptyBatch => "events must not be empty"@,
                IngestError::BatchTooLarge => "events exceeds batch limit"@,
                IngestError::InvalidEvent => "batch contains an invalid event"@,
                IngestError::PrivacyViolation => "event contains a prohibited field"@,
                IngestError::InvalidBatchId => "batch_id must be a UUID"@,
                IngestError::InvalidEventId => "event_id must be a UUID"@,
                IngestError::InvalidProjectId => "project_id must be a UUID"@,
                IngestError::ProjectForbidden => "token cannot ingest for this project"@,
                IngestError::InvalidEnvironmentId => "environment_id must be a UUID"@,
                IngestError::InvalidOccurredAt => "occurred_at must be RFC3339"@,
            },
    {
        match self {
            IngestError::EmptyBatch => "events must not be empty",
            IngestError::BatchTooLarge => "events exceeds batch limit",
            IngestError::InvalidEvent => "batch contains an invalid event",
            IngestError::PrivacyViolation => "event contains a prohibited field",
            IngestError::InvalidBatchId => "batch_id must be a UUID",
            IngestError::InvalidEventId => "event_id must be a UUID",
            IngestError::InvalidProjectId => "project_id must be a UUID",
            IngestError::ProjectForbidden => "token cannot ingest for this project",
            IngestError::InvalidEnvironmentId => "environment_id must be a UUID",
            IngestError::InvalidOccurredAt => "occurred_at must be RFC3339",
        }
    }
}

/// The schema version and event type an event declares, or the code of the
/// first thing missing from it.
pub open spec fn event_header(event: JsonValue) -> Result<(Seq<char>, Seq<char>), Seq<char>> {
    if !(event is Object) {
        Err("event_not_object"@)
    } else if member_text(event, "schema_version"@) is None {
        Err("missing_schema_version"@)
    } else if member_text(event, "event_type"@) is None {
        Err("missing_event_type"@)
    } else {
        Ok((member_text(event, "schema_version"@)->0, member_text(event, "event_type"@)->0))
    }
}

/// Reads the schema version and event type of an event, which the protocol
/// compatibility check then judges.
pub fn read_event_header(event: &JsonValue) -> (r: Result<(&str, &str), &'static str>)
    ensures
        match event_header(*event) {
            Ok((version, kind)) => r matches Ok((v, k)) && v@ == version && k@ == kind,
            Err(code) => r matches Err(c) && c@ == code,
        },
{
    match event {
        JsonValue::Object(_) => {},
        _ => {
            return Err("event_not_object");
        },
    }
    let version = match get_text(event, "schema_version") {
        Some(v) => v,
        None => {
            return Err("missing_schema_version");
        },
    };
    let kind = match get_text(event, "event_type") {
        Some(k) => k,
        None => {
            return Err("missing_event_type");
        },
    };
    Ok((version, kind))
}

/// An event is valid when its header is complete and the protocol accepts it.
pub open spec fn event_valid(event: JsonValue, compatible: bool) -> bool {
    event_header(event) is Ok && compatible
}

/// The verdict on a batch before anything is stored. `compatible[i]` is the
/// protocol's verdict on the header of event `i`.
pub open spec fn batch_verdict(events: Seq<JsonValue>, compatible: Seq<bool>) -> Result<(), IngestError> {
    if events.len() == 0 {
        Err(IngestError::EmptyBatch)
    } else if events.len() > MAX_EVENTS_PER_BATCH {
        Err(IngestError::BatchTooLarge)
    } else if exists|i: int| 0 <= i < events.len() && !event_valid(#[trigger] events[i], compatible[i]) {
        Err(IngestError::InvalidEvent)
    } else if exists|i: int| 0 <= i < events.len() && has_prohibited_key(#[trigger] events[i]) {
        Err(IngestError::PrivacyViolation)
    } else {
        Ok(())
    }
}

/// Checks a batch: not empty, within the size limit, every event valid, and
/// no prohibited field anywhere.
pub fn check_batch(events: &Vec<JsonValue>, compatible: &Vec<bool>) -> (r: Result<(), IngestError>)
    requires
        compatible@.len() == events@.len(),
    ensures
        r == batch_verdict(events@, compatible@),
{
    if events.len() == 0 {
        return Err(IngestError::EmptyBatch);
    }
    if events.len() > MAX_EVENTS_PER_BATCH {
        return Err(IngestError::BatchTooLarge);
    }
    let mut i: usize = 0;
    while i < events.len()
        invariant
            i <= events@.len(),
            0 < events@.len() <= MAX_EVENTS_PER_BATCH,
            compatible@.len() == events@.len(),
            forall|j: int| 0 <= j < i ==> event_valid(#[trigger] events@[j], compatible@[j]),
        decreases events@.len() - i,
    {
        let valid = read_event_header(&events[i]).is_ok() && compatible[i];
        if !valid {
            assert(!event_valid(events@[i as int], compatible@[i as int]));
            return Err(IngestError::InvalidEvent);
        }
        i = i + 1;
    }
    let mut k: usize = 0;
    while k < events.len()
        invariant
            k <= events@.len(),
            0 < events@.len() <= MAX_EVENTS_PER_BATCH,
            compatible@.len() == events@.len(),
            forall|j: int| 0 <= j < events@.len() ==> event_valid(#[trigger] events@[j], compatible@[j]),
            forall|j: int| 0 <= j < k ==> !has_prohibited_key(#[trigger] events@[j]),
        decreases events@.len() - k,
    {
        if contains_prohibited_key(&events[k]) {
            assert(has_prohibited_key(events@[k as int]));
            return Err(IngestError::PrivacyViolation);
        }
        k = k + 1;
    }
    Ok(())
}

/// The status code of a durable ingestion: `200` when the whole batch had
/// been stored before, `202` when anything new was accepted.
pub fn ingest_status(inserted: usize, duplicates: usize) -> (code: u16)
    ensures
        code == (if inserted == 0 && duplicates > 0 { 200u16 } else { 202u16 }),
{
    if inserted == 0 && duplicates > 0 {
        200
    } else {
        202
    }
}

/// The body of a successful ingestion response.
#[derive(Debug, Clone, Copy, PartialEq, Eq, Structural)]
pub struct IngestAccepted {
    pub accepted: usize,
    pub duplicate: usize,
}

/// Maps durable ingestion counters to the response's status and body.
pub fn ingest_response(inserted: usize, duplicates: usize) -> (r: (u16, IngestAccepted))
    ensures
        r.0 == (if inserted == 0 && duplicates > 0 { 200u16 } else { 202u16 }),
        r.1 == (IngestAccepted { accepted: inserted, duplicate: duplicates }),
{
    (ingest_status(inserted, duplicates), IngestAccepted { accepted: inserted, duplicate: duplicates })
}

/// The identifier written as text in member `key`, if it parses as a UUID.
pub open spec fn uuid_member(event: JsonValue, key: Seq<char>) -> Option<u128> {
    match member_text(event, key) {
        Some(text) => uuid_parse(text),
        None => None,
    }
}

/// The instant written in member `occurred_at`, if it parses as RFC 3339.
pub open spec fn occurred_member(event: JsonValue) -> Option<(i128, i32)> {
    match member_text(event, "occurred_at"@) {
        Some(text) => rfc3339_parse(text),
        None => None,
    }
}

/// The event type text, empty where the event has none.
pub open spec fn event_type_text(event: JsonValue) -> Seq<char> {
    match member_text(event, "event_type"@) {
        Some(text) => text,
        None => Seq::empty(),
    }
}

/// The identities an event must carry to be stored, checked in order: event,
/// project (which must be the caller's own where the caller is bound to one),
/// environment, and the time it occurred.
pub open spec fn durable_verdict(event: JsonValue, principal: Option<u128>) -> Result<
    (u128, u128, u128, (i128, i32)),
    IngestError,
> {
    match uuid_member(event, "event_id"@) {
        None => Err(IngestError::InvalidEventId),
        Some(event_id) => match uuid_member(event, "project_id"@) {
            None => Err(IngestError::InvalidProjectId),
            Some(project_id) => if principal matches Some(p) && p != project_id {
                Err(IngestError::ProjectForbidden)
            } else {
                match uuid_member(event, "environment_id"@) {
                    None => Err(IngestError::InvalidEnvironmentId),
                    Some(environment_id) => match occurred_member(event) {
                        None => Err(IngestError::InvalidOccurredAt),
                        Some(at) => Ok((event_id, project_id, environment_id, at)),
                    },
                }
            },
        },
    }
}

/// One event as it is written to durable storage.
#[derive(Debug, Clone, PartialEq, Eq)]
pub struct DurableEvent {
    pub event_id: u128,
    pub project_id: u128,
    pub environment_id: u128,
    pub trace_id: Option<u128>,
    pub event_type: String,
    pub occurred_at: OffsetInstant,
    /// The calendar day (Julian day number) of the raw-event partition.
    pub partition_day: i128,
    /// SHA-256 of the event's serialized payload.
    pub payload_hash: [u8; 32],
}

/// The stored form of `event`, given the verdict's identities.
pub open spec fn durable_matches(
    d: DurableEvent,
    event: JsonValue,
    payload: Seq<u8>,
    ids: (u128, u128, u128, (i128, i32)),
) -> bool {
    &&& d.event_id == ids.0
    &&& d.project_id == ids.1
    &&& d.environment_id == ids.2
    &&& d.occurred_at == (OffsetInstant { unix_nanos: ids.3.0, offset_seconds: ids.3.1 })
    &&& d.trace_id == uuid_member(event, "trace_id"@)
    &&& d.event_type@ == event_type_text(event)
    &&& d.partition_day == local_julian_day(d.occurred_at)
    &&& d.payload_hash@ == sha256(payload)
}

fn uuid_of(event: &JsonValue, key: &str) -> (r: Option<u128>)
    ensures
        r == uuid_member(*event, key@),
{
    match get_text(event, key) {
        Some(text) => parse_uuid(text),
        None => None,
    }
}

/// Reads the stored form of one admitted event. `payload` is the event's
/// serialized JSON, whose digest is kept.
pub fn durable_event(event: &JsonValue, payload: &[u8], principal: Option<u128>) -> (r: Result<
    DurableEvent,
    IngestError,
>)
    ensures
        match durable_verdict(*event, principal) {
            Ok(ids) => r matches Ok(d) && durable_matches(d, *event, payload@, ids),
            Err(e) => r == Err::<DurableEvent, IngestError>(e),
        },
{
    let event_id = match uuid_of(event, "event_id") {
        Some(id) => id,
        None => {
            return Err(IngestError::InvalidEventId);
        },
    };
    let project_id = match uuid_of(event, "project_id") {
        Some(id) => id,
        None => {
            return Err(IngestError::InvalidProjectId);
        },
    };
    match principal {
        Some(p) => {
            if p != project_id {
                return Err(IngestError::ProjectForbidden);
            }
        },
        None => {},
    }
    let environment_id = match uuid_of(event, "environment_id") {
        Some(id) => id,
        None => {
            return Err(IngestError::InvalidEnvironmentId);
        },
    };
    let occurred_at = match get_text(event, "occurred_at") {
        Some(text) => match parse_rfc3339(text) {
            Some(t) => t,
            None => {
                return Err(IngestError::InvalidOccurredAt);
            },
        },
        None => {
            return Err(IngestError::InvalidOccurredAt);
        },
    };
    let event_type = match get_text(event, "event_type") {
        Some(text) => owned(text),
        None => String::new(),
    };
    let partition_day = julian_day(occurred_at);
    Ok(
        DurableEvent {
            event_id,
            project_id,
            environment_id,
            trace_id: uuid_of(event, "trace_id"),
            event_type,
            occurred_at,
            partition_day,
            payload_hash: sha256_digest(payload),
        },
    )
}

/// Reads the stored form of every event of an admitted batch; the first event
/// that cannot be stored decides the error. `payloads[i]` is the serialized
/// JSON of event `i`.
pub fn durable_batch(events: &Vec<JsonValue>, payloads: &Vec<Vec<u8>>, principal: Option<u128>) -> (r:
    Result<Vec<DurableEvent>, IngestError>)
    requires
        payloads@.len() == events@.len(),
    ensures
        r is Ok <==> forall|i: int|
            0 <= i < events@.len() ==> durable_verdict(#[trigger] events@[i], principal) is Ok,
        r matches Ok(v) ==> v@.len() == events@.len() && forall|i: int|
            0 <= i < events@.len() ==> durable_matches(
                #[trigger] v@[i],
                events@[i],
                payloads@[i]@,
                durable_verdict(events@[i], principal)->Ok_0,
            ),
        r matches Err(e) ==> exists|i: int|
            0 <= i < events@.len() && durable_verdict(#[trigger] events@[i], principal) == Err::<
                (u128, u128, u128, (i128, i32)),
                IngestError,
            >(e) && forall|j: int| 0 <= j < i ==> durable_verdict(events@[j], principal) is Ok,
{
    let mut out: Vec<DurableEvent> = Vec::new();
    let mut i: usize = 0;
    while i < events.len()
        invariant
            i <= events@.len(),
            payloads@.len() == events@.len(),
            out@.len() == i,
            forall|j: int| 0 <= j < i ==> durable_verdict(#[trigger] events@[j], principal) is Ok,
            forall|j: int|
                0 <= j < i ==> durable_matches(
                    #[trigger] out@[j],
                    events@[j],
                    payloads@[j]@,
                    durable_verdict(events@[j], principal)->Ok_0,
                ),
        decreases events@.len() - i,
    {
        match durable_event(&events[i], payloads[i].as_slice(), principal) {
            Ok(d) => {
                out.push(d);
            },
            Err(e) => {
                assert(durable_verdict(events@[i as int], principal) == Err::<
                    (u128, u128, u128, (i128, i32)),
                    IngestError,
                >(e));
                return Err(e);
            },
        }
        i = i + 1;
    }
    Ok(out)
}

/// The identity of a batch: the UUID the client gave, or a fresh one.
pub fn batch_identity(batch_id: Option<&str>) -> (r: Result<u128, IngestError>)
    ensures
        match batch_id {
            Some(text) => match uuid_parse(text@) {
                Some(id) => r == Ok::<u128, IngestError>(id),
                None => r == Err::<u128, IngestError>(IngestError::InvalidBatchId),
            },
            None => r is Ok,
        },
{
    match batch_id {
        Some(text) => match parse_uuid(text) {
            Some(id) => Ok(id),
            None => Err(IngestError::InvalidBatchId),
        },
        None => Ok(new_v7()),
    }
}

/// For each stored event, whether it is the first of the batch for its trace;
/// each such trace has its projection refreshed once.
pub fn first_of_trace(events: &Vec<DurableEvent>) -> (flags: Vec<bool>)
    ensures
        flags@.len() == events@.len(),
        forall|i: int|
            0 <= i < events@.len() ==> #[trigger] flags@[i] == (events@[i].trace_id is Some
                && forall|j: int| 0 <= j < i ==> events@[j].trace_id != events@[i].trace_id),
{
    let mut flags: Vec<bool> = Vec::new();
    let mut i: usize = 0;
    while i < events.len()
        invariant
            i <= events@.len(),
            flags@.len() == i,
            forall|k: int|
                0 <= k < i ==> #[trigger] flags@[k] == (events@[k].trace_id is Some && forall|j: int|
                    0 <= j < k ==> events@[j].trace_id != events@[k].trace_id),
        decreases events@.len() - i,
    {
        let first = match events[i].trace_id {
            Some(t) => {
                let mut seen = false;
                let mut j: usize = 0;
                while j < i
                    invariant
                        j <= i < events@.len(),
                        events@[i as int].trace_id == Some(t),
                        seen <==> exists|m: int| 0 <= m < j && events@[m].trace_id == Some(t),
                    decreases i - j,
                {
                    if events[j].trace_id == Some(t) {
                        seen = true;
                    }
                    j = j + 1;
                }
                !seen
            },
            None => false,
        };
        flags.push(first);
        i = i + 1;
    }
    flags
}

/// Privacy screening covers every event of a batch: an admitted batch holds
/// only valid events and no prohibited key in any of them; an event with a
/// prohibited key, at whatever position, keeps the batch out, and a batch
/// within the size limit whose events are all valid is then refused for
/// privacy.
pub proof fn every_event_is_screened(events: Seq<JsonValue>, compatible: Seq<bool>)
    requires
        compatible.len() == events.len(),
    ensures
        batch_verdict(events, compatible) is Ok ==> 0 < events.len() <= MAX_EVENTS_PER_BATCH
            && forall|i: int| 0 <= i < events.len() ==> !has_prohibited_key(#[trigger] events[i])
            && event_valid(events[i], compatible[i]),
        forall|i: int| 0 <= i < events.len() && #[trigger] has_prohibited_key(events[i])
            ==> batch_verdict(events, compatible) is Err,
        forall|i: int| 0 <= i < events.len() && #[trigger] has_prohibited_key(events[i])
            && events.len() <= MAX_EVENTS_PER_BATCH && (forall|j: int| 0 <= j < events.len()
            ==> event_valid(#[trigger] events[j], compatible[j])) ==> batch_verdict(events, compatible)
            == Err::<(), IngestError>(IngestError::PrivacyViolation),
        events.len() == 0 ==> batch_verdict(events, compatible) == Err::<(), IngestError>(IngestError::EmptyBatch),
        events.len() > MAX_EVENTS_PER_BATCH ==> batch_verdict(events, compatible) == Err::<(), IngestError>(
            IngestError::BatchTooLarge,
        ),
        forall|i: int| 0 <= i < events.len() && events.len() <= MAX_EVENTS_PER_BATCH && !event_valid(
            #[trigger] events[i],
            compatible[i],
        ) ==> batch_verdict(events, compatible) == Err::<(), IngestError>(IngestError::InvalidEvent),
        0 < events.len() <= MAX_EVENTS_PER_BATCH && (forall|i: int| 0 <= i < events.len() ==> event_valid(
            #[trigger] events[i],
            compatible[i],
        ) && !has_prohibited_key(events[i])) ==> batch_verdict(events, compatible) is Ok,
{
}

/// A prohibited member name is found at any depth: as a member of an
/// object, inside a member's value, or inside an array item.
pub proof fn prohibited_keys_are_found_at_any_depth(value: JsonValue)
    ensures
        value matches JsonValue::Object(members) ==> forall|i: int| 0 <= i < members@.len() && (
        prohibited_key(#[trigger] members@[i].0@) || has_prohibited_key(members@[i].1)) ==> has_prohibited_key(value),
        value matches JsonValue::Array(items) ==> forall|i: int| 0 <= i < items@.len() && has_prohibited_key(
            #[trigger] items@[i],
        ) ==> has_prohibited_key(value),
        !(value is Object || value is Array) ==> !has_prohibited_key(value),
{
}

} // verus!
