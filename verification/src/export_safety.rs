//! Redaction and secret scanning of exported documents.
use vstd::prelude::*;
use crate::json::JsonValue;
use crate::text::{starts_with, contains, occurs_at, byte_len, str_eq, str_starts_with, str_contains, utf8_len, owned};

verus! {

/// Field names whose values never leave the system.
pub open spec fn sensitive_key(key: Seq<char>) -> bool {
    ||| key == "private_key"@
    ||| key == "seed_phrase"@
    ||| key == "signed_transaction_bytes"@
    ||| key == "raw_transaction"@
    ||| key == "authorization"@
    ||| key == "cookie"@
    ||| key == "set_cookie"@
    ||| key == "rpc_url"@
    ||| key == "endpoint_url"@
}

/// Whether a field's value must never leave the system.
pub fn is_sensitive_key(key: &str) -> (b: bool)
    ensures
        b == sensitive_key(key@),
{
    str_eq(key, "private_key") || str_eq(key, "seed_phrase") || str_eq(key, "signed_transaction_bytes")
        || str_eq(key, "raw_transaction") || str_eq(key, "authorization") || str_eq(key, "cookie")
        || str_eq(key, "set_cookie") || str_eq(key, "rpc_url") || str_eq(key, "endpoint_url")
}

/// The placeholder written in place of a sensitive value.
pub open spec fn placeholder() -> Seq<char> {
    "[redacted]"@
}

/// The value is the redaction placeholder.
pub open spec fn is_placeholder(value: JsonValue) -> bool {
    value matches JsonValue::String(s) && s@ == placeholder()
}

/// A finding of the scan: a sensitive field not yet redacted, a bearer
/// credential, a PEM block, or an oversized string, at any depth.
pub open spec fn has_secret(value: JsonValue) -> bool
    decreases value,
{
    match value {
        JsonValue::Object(members) => exists|i: int|
            #![trigger members[i]]
            0 <= i < members.len() && ((sensitive_key(members[i].0@) && !is_placeholder(members[i].1))
                || has_secret(members[i].1)),
        JsonValue::Array(items) => exists|i: int| #![trigger items[i]] 0 <= i < items.len() && has_secret(items[i]),
        JsonValue::String(text) => starts_with(text@, "Bearer "@) || contains(text@, "-----BEGIN"@)
            || byte_len(text@) > 5000,
        _ => false,
    }
}

/// The outcome of a scan.
#[derive(Debug, Clone, Copy, PartialEq, Eq, Structural)]
pub enum SecretScanResult {
    Clean,
    Findings,
}

fn is_placeholder_value(value: &JsonValue) -> (b: bool)
    ensures
        b == is_placeholder(*value),
{
    match value {
        JsonValue::String(s) => str_eq(s.as_str(), "[redacted]"),
        _ => false,
    }
}

/// Whether a document holds secret material anywhere.
pub fn contains_secret(value: &JsonValue) -> (b: bool)
    ensures
        b == has_secret(*value),
    decreases value,
{
    match value {
        JsonValue::Object(members) => {
            let mut i: usize = 0;
            while i < members.len()
                invariant
                    i <= members@.len(),
                    *value == JsonValue::Object(*members),
                    forall|j: int|
                        #![trigger members@[j]]
                        0 <= j < i ==> !((sensitive_key(members@[j].0@) && !is_placeholder(members@[j].1))
                            || has_secret(members@[j].1)),
                decreases members@.len() - i,
            {
                if is_sensitive_key(members[i].0.as_str()) && !is_placeholder_value(&members[i].1) {
                    assert((*value)->Object_0 == *members);
                    assert(sensitive_key(members[i as int].0@) && !is_placeholder(members[i as int].1));
                    return true;
                }
                proof {
                    assert((*value)->Object_0 == *members);
                    assert(decreases_to!(*value => (*value)->Object_0));
                    assert(decreases_to!(*members => members[i as int]));
                    assert(decreases_to!(*value => members[i as int].1));
                }
                if contains_secret(&members[i].1) {
                    assert((*value)->Object_0 == *members);
                    assert(has_secret(members[i as int].1));
                    return true;
                }
                i = i + 1;
            }
            false
        },
        JsonValue::Array(items) => {
            let mut i: usize = 0;
            while i < items.len()
                invariant
                    i <= items@.len(),
                    *value == JsonValue::Array(*items),
                    forall|j: int| #![trigger items@[j]] 0 <= j < i ==> !has_secret(items@[j]),
                decreases items@.len() - i,
            {
                proof {
                    assert((*value)->Array_0 == *items);
                    assert(decreases_to!(*value => (*value)->Array_0));
                    assert(decreases_to!(*items => items[i as int]));
                    assert(decreases_to!(*value => items[i as int]));
                }
                if contains_secret(&items[i]) {
                    assert((*value)->Array_0 == *items);
                    assert(has_secret(items[i as int]));
                    return true;
                }
                i = i + 1;
            }
            false
        },
        JsonValue::String(text) => str_starts_with(text.as_str(), "Bearer ") || str_contains(
            text.as_str(),
            "-----BEGIN",
        ) || utf8_len(text.as_str()) > 5000,
        _ => false,
    }
}

/// Scans keys and strings for credential-bearing material.
pub fn scan_export(value: &JsonValue) -> (r: SecretScanResult)
    ensures
        r == (if has_secret(*value) {
            SecretScanResult::Findings
        } else {
            SecretScanResult::Clean
        }),
{
    if contains_secret(value) {
        SecretScanResult::Findings
    } else {
        SecretScanResult::Clean
    }
}

/// `out` is `value` with every sensitive field's value replaced by the
/// placeholder, at every depth, and nothing else changed.
pub open spec fn redaction_of(out: JsonValue, value: JsonValue) -> bool
    decreases value,
{
    match value {
        JsonValue::Object(members) => out matches JsonValue::Object(out_members) && out_members.len()
            == members.len() && forall|i: int|
            #![trigger members[i]]
            0 <= i < members.len() ==> out_members[i].0@ == members[i].0@ && if sensitive_key(
                members[i].0@,
            ) {
                is_placeholder(out_members[i].1)
            } else {
                redaction_of(out_members[i].1, members[i].1)
            },
        JsonValue::Array(items) => out matches JsonValue::Array(out_items) && out_items.len()
            == items.len() && forall|i: int|
            #![trigger items[i]]
            0 <= i < items.len() ==> redaction_of(out_items[i], items[i]),
        _ => out == value,
    }
}

/// Redacts a document by value.
pub fn redacted(value: JsonValue) -> (out: JsonValue)
    ensures
        redaction_of(out, value),
    decreases value,
{
    let ghost original = value;
    match value {
        JsonValue::Object(members) => {
            let ghost old_members = members@;
            let mut rest = members;
            let mut out: Vec<(String, JsonValue)> = Vec::new();
            while rest.len() > 0
                invariant
                    original == value,
                    original == JsonValue::Object(members),
                    old_members == members@,
                    out@.len() + rest@.len() == old_members.len(),
                    rest@ == old_members.subrange(out@.len() as int, old_members.len() as int),
                    forall|i: int|
                        #![trigger old_members[i]]
                        0 <= i < out@.len() ==> out@[i].0@ == old_members[i].0@ && if sensitive_key(
                            old_members[i].0@,
                        ) {
                            is_placeholder(out@[i].1)
                        } else {
                            redaction_of(out@[i].1, old_members[i].1)
                        },
                decreases rest@.len(),
            {
                let ghost k = out@.len() as int;
                assert(rest@[0] == old_members[k]);
                let (key, child) = rest.remove(0);
                assert(rest@ == old_members.subrange(k + 1, old_members.len() as int));
                if is_sensitive_key(key.as_str()) {
                    out.push((key, JsonValue::String(owned("[redacted]"))));
                } else {
                    proof {
                        assert(original->Object_0 == members);
                        assert(decreases_to!(original => original->Object_0));
                        assert(decreases_to!(members => members[k]));
                        assert(members[k] == old_members[k]);
                        assert(decreases_to!(original => old_members[k].1));
                        assert(child == old_members[k].1);
                        assert(decreases_to!(original => child));
                    }
                    let child_out = redacted(child);
                    out.push((key, child_out));
                }
            }
            let result = JsonValue::Object(out);
            proof {
                assert(result->Object_0 == out);
            }
            result
        },
        JsonValue::Array(items) => {
            let ghost old_items = items@;
            let mut rest = items;
            let mut out: Vec<JsonValue> = Vec::new();
            while rest.len() > 0
                invariant
                    original == value,
                    original == JsonValue::Array(items),
                    old_items == items@,
                    out@.len() + rest@.len() == old_items.len(),
                    rest@ == old_items.subrange(out@.len() as int, old_items.len() as int),
                    forall|i: int|
                        #![trigger old_items[i]]
                        0 <= i < out@.len() ==> redaction_of(out@[i], old_items[i]),
                decreases rest@.len(),
            {
                let ghost k = out@.len() as int;
                assert(rest@[0] == old_items[k]);
                let child = rest.remove(0);
                assert(rest@ == old_items.subrange(k + 1, old_items.len() as int));
                proof {
                    assert(original->Array_0 == items);
                    assert(decreases_to!(original => original->Array_0));
                    assert(decreases_to!(items => items[k]));
                    assert(decreases_to!(original => old_items[k]));
                    assert(child == old_items[k]);
                    assert(decreases_to!(original => child));
                }
                let child_out = redacted(child);
                out.push(child_out);
            }
            let result = JsonValue::Array(out);
            proof {
                assert(result->Array_0 == out);
            }
            result
        },
        other => other,
    }
}

/// Replaces the values of sensitive fields, at every depth, by the
/// placeholder, keeping the document's shape.
pub fn redact_export(value: &mut JsonValue)
    ensures
        redaction_of(*final(value), *old(value)),
{
    let mut taken = JsonValue::Null;
    std::mem::swap(&mut taken, value);
    let out = redacted(taken);
    *value = out;
}

/// After redaction no sensitive field holds anything but the placeholder.
pub open spec fn sensitive_fields_redacted(value: JsonValue) -> bool
    decreases value,
{
    match value {
        JsonValue::Object(members) => forall|i: int|
            #![trigger members[i]]
            0 <= i < members.len() ==> (sensitive_key(members[i].0@) ==> is_placeholder(members[i].1))
                && sensitive_fields_redacted(members[i].1),
        JsonValue::Array(items) => forall|i: int|
            #![trigger items[i]]
            0 <= i < items.len() ==> sensitive_fields_redacted(items[i]),
        _ => true,
    }
}

/// Redaction leaves no sensitive field unredacted, at any depth.
pub proof fn redaction_clears_sensitive_fields(out: JsonValue, value: JsonValue)
    requires
        redaction_of(out, value),
    ensures
        sensitive_fields_redacted(out),
    decreases value,
{
    match value {
        JsonValue::Object(members) => {
            let out_members = out->Object_0;
            assert forall|i: int|
                #![trigger out_members[i]]
                0 <= i < out_members.len() implies (sensitive_key(out_members[i].0@) ==> is_placeholder(
                out_members[i].1,
            )) && sensitive_fields_redacted(out_members[i].1) by {
                assert(members[i].0@ == out_members[i].0@);
                if sensitive_key(members[i].0@) {
                    assert(is_placeholder(out_members[i].1));
                } else {
                    assert(decreases_to!(value => members));
                    assert(decreases_to!(members => members[i]));
                    redaction_clears_sensitive_fields(out_members[i].1, members[i].1);
                }
            }
        },
        JsonValue::Array(items) => {
            let out_items = out->Array_0;
            assert forall|i: int|
                #![trigger out_items[i]]
                0 <= i < out_items.len() implies sensitive_fields_redacted(out_items[i]) by {
                assert(decreases_to!(value => items));
                assert(decreases_to!(items => items[i]));
                redaction_clears_sensitive_fields(out_items[i], items[i]);
            }
        },
        _ => {},
    }
}

/// A string is a finding when a PEM block starts anywhere in it, when it
/// starts with `Bearer `, or when it is over 5000 bytes long.
pub proof fn secret_strings_are_found(text: String, i: int)
    ensures
        0 <= i && i + 10 <= text@.len() && text@.subrange(i, i + 10) == "-----BEGIN"@ ==> has_secret(
            JsonValue::String(text),
        ),
        7 <= text@.len() && text@.subrange(0, 7) == "Bearer "@ ==> has_secret(JsonValue::String(text)),
        byte_len(text@) > 5000 ==> has_secret(JsonValue::String(text)),
        !(exists|k: int| 0 <= k && k + 10 <= text@.len() && #[trigger] text@.subrange(k, k + 10) == "-----BEGIN"@)
            && !(7 <= text@.len() && text@.subrange(0, 7) == "Bearer "@) && byte_len(text@) <= 5000 ==> !has_secret(
            JsonValue::String(text),
        ),
{
    reveal_strlit("-----BEGIN");
    reveal_strlit("Bearer ");
    if 0 <= i && i + 10 <= text@.len() && text@.subrange(i, i + 10) == "-----BEGIN"@ {
        assert(occurs_at(text@, "-----BEGIN"@, i));
    }
    if contains(text@, "-----BEGIN"@) {
        let k = choose|k: int| occurs_at(text@, "-----BEGIN"@, k);
        assert(text@.subrange(k, k + 10) == "-----BEGIN"@);
    }
}

/// A finding at any depth is a finding of the whole document: under any
/// member of an object, under any item of an array, and any sensitive member
/// whose value is not the placeholder.
pub proof fn findings_at_any_depth(value: JsonValue)
    ensures
        value matches JsonValue::Object(members) ==> forall|i: int| 0 <= i < members@.len() && (
        has_secret(#[trigger] members@[i].1) || (sensitive_key(members@[i].0@) && !is_placeholder(
            members@[i].1,
        ))) ==> has_secret(value),
        value matches JsonValue::Array(items) ==> forall|i: int| 0 <= i < items@.len() && has_secret(
            #[trigger] items@[i],
        ) ==> has_secret(value),
        !has_secret(JsonValue::Null),
        forall|b: bool| !#[trigger] has_secret(JsonValue::Bool(b)),
        forall|n: String| !#[trigger] has_secret(JsonValue::Number(n)),
{
}

} // verus!
