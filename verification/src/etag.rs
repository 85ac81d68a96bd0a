//! Conditional-read semantics tied to monotonic projection versions.
use vstd::prelude::*;
use crate::numeric::{decimal, push_decimal, lemma_radix_digits_injective, lemma_radix_digits_shape};
use crate::text::{push_text, trim, trim_start, trim_end, is_ws, trim_str, str_eq};

verus! {

/// Metadata returned with a projection-backed response.
#[derive(Debug, Clone, PartialEq, Eq)]
pub struct ProjectionVersion {
    pub projection_version: u64,
    pub etag: String,
}

/// Result of evaluating an `If-None-Match` request header.
#[derive(Debug, Clone, Copy, PartialEq, Eq, Structural)]
pub enum ConditionalRead {
    NotModified,
    Modified,
}

/// The strong, quoted ETag of a projection version: `"projection-<version>"`.
pub open spec fn etag_text(version: nat) -> Seq<char> {
    seq!['"'] + "projection-"@ + decimal(version) + seq!['"']
}

/// Creates a strong, quoted ETag whose only input is the projection version.
pub fn etag_for(projection_version: u64) -> (etag: String)
    ensures
        etag@ == etag_text(projection_version as nat),
{
    let mut etag = String::new();
    push_text(&mut etag, "\"");
    push_text(&mut etag, "projection-");
    push_decimal(&mut etag, projection_version);
    push_text(&mut etag, "\"");
    proof {
        reveal_strlit("\"");
    }
    assert(etag@ == etag_text(projection_version as nat));
    etag
}

/// Builds response metadata for a projection version.
pub fn projection_version(version: u64) -> (v: ProjectionVersion)
    ensures
        v.projection_version == version,
        v.etag@ == etag_text(version as nat),
{
    ProjectionVersion { projection_version: version, etag: etag_for(version) }
}

/// Whether an `If-None-Match` value names the current projection version.
pub open spec fn matches_current(projection_version: nat, if_none_match: Option<Seq<char>>) -> bool {
    match if_none_match {
        Some(candidate) => trim(candidate) == etag_text(projection_version),
        None => false,
    }
}

/// Returns `NotModified` only for an exact current ETag match.
pub fn conditional_read(projection_version: u64, if_none_match: Option<&str>) -> (r: ConditionalRead)
    ensures
        r == (if matches_current(
            projection_version as nat,
            match if_none_match {
                Some(c) => Some(c@),
                None => None,
            },
        ) {
            ConditionalRead::NotModified
        } else {
            ConditionalRead::Modified
        }),
{
    match if_none_match {
        Some(candidate) => {
            let etag = etag_for(projection_version);
            if str_eq(trim_str(candidate), etag.as_str()) {
                ConditionalRead::NotModified
            } else {
                ConditionalRead::Modified
            }
        },
        None => ConditionalRead::Modified,
    }
}

/// The ETag of a version is stable and distinct versions get distinct ETags.
pub proof fn etag_identifies_version(a: nat, b: nat)
    ensures
        (etag_text(a) == etag_text(b)) <==> (a == b),
{
    if etag_text(a) == etag_text(b) {
        let p = seq!['"'] + "projection-"@;
        let q = seq!['"'];
        let x = decimal(a);
        let y = decimal(b);
        assert(etag_text(a) == p + x + q);
        assert(etag_text(b) == p + y + q);
        assert((p + x + q).len() == (p + y + q).len());
        assert(x.len() == y.len());
        assert forall|i: int| 0 <= i < x.len() implies x[i] == y[i] by {
            assert((p + x + q)[p.len() + i] == x[i]);
            assert((p + y + q)[p.len() + i] == y[i]);
        }
        assert(x =~= y);
        lemma_radix_digits_injective(a, b, 10);
    }
}

/// A version's ETag has no surrounding whitespace, so it survives trimming.
pub proof fn etag_is_trimmed(version: nat)
    ensures
        trim(etag_text(version)) == etag_text(version),
{
    let e = etag_text(version);
    assert(e[0] == '"');
    assert(e.last() == '"');
    assert(!is_ws('"'));
    assert(trim_start(e) == e);
    assert(trim_end(e) == e);
}

/// Presenting the current ETag is answered with `NotModified`; an ETag of
/// any other version is answered with `Modified`.
pub proof fn current_etag_is_not_modified(version: nat, presented: nat)
    ensures
        matches_current(version, Some(etag_text(presented))) <==> version == presented,
{
    etag_is_trimmed(presented);
    etag_identifies_version(presented, version);
}

} // verus!
