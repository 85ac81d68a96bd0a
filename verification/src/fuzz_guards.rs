//! Structural bounds on untrusted JSON, checked before any schema work.
use vstd::prelude::*;
use crate::json::JsonValue;

verus! {

/// Deepest nesting accepted.
pub const MAX_JSON_DEPTH: usize = 32;

/// Most items in one array.
pub const MAX_ARRAY_ITEMS: usize = 1_000;

/// Most members in one object.
pub const MAX_OBJECT_KEYS: usize = 1_000;

/// The structural bound a document breaks.
#[derive(Debug, Clone, Copy, PartialEq, Eq, Structural)]
pub enum ShapeError {
    TooDeep,
    TooManyArrayItems,
    TooManyObjectKeys,
}

/// The verdict on `value` found at nesting `depth`: the nesting bound, then
/// the container's size, then each child in order, the first failure winning.
pub open spec fn shape_verdict(value: JsonValue, depth: int) -> Result<(), ShapeError>
    decreases value, 1int, 0int,
{
    if depth > MAX_JSON_DEPTH {
        Err(ShapeError::TooDeep)
    } else {
        match value {
            JsonValue::Array(items) => if items.len() > MAX_ARRAY_ITEMS {
                Err(ShapeError::TooManyArrayItems)
            } else {
                children_verdict(value, depth, 0)
            },
            JsonValue::Object(members) => if members.len() > MAX_OBJECT_KEYS {
                Err(ShapeError::TooManyObjectKeys)
            } else {
                children_verdict(value, depth, 0)
            },
            _ => Ok(()),
        }
    }
}

/// The number of children of a container.
pub open spec fn child_count(value: JsonValue) -> int {
    match value {
        JsonValue::Array(items) => items.len() as int,
        JsonValue::Object(members) => members.len() as int,
        _ => 0,
    }
}

/// The verdict on the children of a container from the `k`-th on.
pub open spec fn children_verdict(value: JsonValue, depth: int, k: int) -> Result<(), ShapeError>
    decreases value, 0int, child_count(value) - k,
{
    if 0 <= k < child_count(value) {
        let child = match value {
            JsonValue::Array(items) => items[k],
            JsonValue::Object(members) => members[k].1,
            _ => value,
        };
        proof {
            match value {
                JsonValue::Array(items) => {
                    assert(decreases_to!(value => items));
                    assert(decreases_to!(items => items[k]));
                },
                JsonValue::Object(members) => {
                    assert(decreases_to!(value => members));
                    assert(decreases_to!(members => members[k]));
                },
                _ => {},
            }
        }
        match shape_verdict(child, depth + 1) {
            Err(e) => Err(e),
            Ok(()) => children_verdict(value, depth, k + 1),
        }
    } else {
        Ok(())
    }
}

/// Checks `value`, found at nesting `depth`, against the structural bounds.
pub fn walk(value: &JsonValue, depth: usize) -> (r: Result<(), ShapeError>)
    requires
        depth <= MAX_JSON_DEPTH + 1,
    ensures
        r == shape_verdict(*value, depth as int),
    decreases value,
{
    if depth > MAX_JSON_DEPTH {
        return Err(ShapeError::TooDeep);
    }
    match value {
        JsonValue::Array(items) => {
            if items.len() > MAX_ARRAY_ITEMS {
                return Err(ShapeError::TooManyArrayItems);
            }
            let mut i: usize = 0;
            while i < items.len()
                invariant
                    depth <= MAX_JSON_DEPTH,
                    i <= items@.len() <= MAX_ARRAY_ITEMS,
                    *value == JsonValue::Array(*items),
                    children_verdict(*value, depth as int, 0) == children_verdict(*value, depth as int, i as int),
                decreases items@.len() - i,
            {
                proof {
                    assert((*value)->Array_0 == *items);
                    assert(decreases_to!(*value => (*value)->Array_0));
                    assert(decreases_to!(*items => items[i as int]));
                    assert(decreases_to!(*value => items[i as int]));
                }
                let verdict = walk(&items[i], depth + 1);
                assert(child_count(*value) == items@.len());
                if verdict.is_err() {
                    return verdict;
                }
                i = i + 1;
            }
            assert(child_count(*value) == items@.len());
            Ok(())
        },
        JsonValue::Object(members) => {
            if members.len() > MAX_OBJECT_KEYS {
                return Err(ShapeError::TooManyObjectKeys);
            }
            let mut i: usize = 0;
            while i < members.len()
                invariant
                    depth <= MAX_JSON_DEPTH,
                    i <= members@.len() <= MAX_OBJECT_KEYS,
                    *value == JsonValue::Object(*members),
                    children_verdict(*value, depth as int, 0) == children_verdict(*value, depth as int, i as int),
                decreases members@.len() - i,
            {
                proof {
                    assert((*value)->Object_0 == *members);
                    assert(decreases_to!(*value => (*value)->Object_0));
                    assert(decreases_to!(*members => members[i as int]));
                    assert(decreases_to!(*value => members[i as int].1));
                }
                let verdict = walk(&members[i].1, depth + 1);
                assert(child_count(*value) == members@.len());
                if verdict.is_err() {
                    return verdict;
                }
                i = i + 1;
            }
            assert(child_count(*value) == members@.len());
            Ok(())
        },
        _ => Ok(()),
    }
}

/// Validates the structural bounds of a whole document.
pub fn validate_shape(value: &JsonValue) -> (r: Result<(), ShapeError>)
    ensures
        r == shape_verdict(*value, 0),
{
    walk(value, 0)
}

} // verus!
