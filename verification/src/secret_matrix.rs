//! Secret scanning across every output surface.
use vstd::prelude::*;
use crate::json::JsonValue;
use crate::export_safety::{has_secret, contains_secret};

verus! {

/// A surface whose payload holds secret material.
#[derive(Debug, Clone, PartialEq, Eq)]
pub struct SurfaceFinding {
    pub surface: String,
}

/// The names of the surfaces with findings, in the given order.
pub open spec fn surfaces_with_findings(surfaces: Seq<(String, JsonValue)>) -> Seq<Seq<char>>
    decreases surfaces.len(),
{
    if surfaces.len() == 0 {
        Seq::empty()
    } else {
        let rest = surfaces_with_findings(surfaces.drop_last());
        if has_secret(surfaces.last().1) {
            rest.push(surfaces.last().0@)
        } else {
            rest
        }
    }
}

/// Scans a representative payload of every surface and names the surfaces
/// that leak.
pub fn scan_secret_matrix(surfaces: Vec<(String, JsonValue)>) -> (findings: Vec<SurfaceFinding>)
    ensures
        findings@.len() == surfaces_with_findings(surfaces@).len(),
        forall|k: int|
            0 <= k < findings@.len() ==> #[trigger] findings@[k].surface@ == surfaces_with_findings(
                surfaces@,
            )[k],
{
    let ghost all = surfaces@;
    let mut rest = surfaces;
    let mut findings: Vec<SurfaceFinding> = Vec::new();
    let mut done: usize = 0;
    let total = rest.len();
    while rest.len() > 0
        invariant
            all.len() == total,
            done + rest@.len() == all.len(),
            rest@ == all.subrange(done as int, all.len() as int),
            findings@.len() == surfaces_with_findings(all.subrange(0, done as int)).len(),
            forall|k: int|
                0 <= k < findings@.len() ==> #[trigger] findings@[k].surface@ == surfaces_with_findings(
                    all.subrange(0, done as int),
                )[k],
        decreases rest@.len(),
    {
        assert(rest@[0] == all[done as int]);
        let (surface, payload) = rest.remove(0);
        proof {
            let next = all.subrange(0, done + 1);
            assert(next.drop_last() == all.subrange(0, done as int));
            assert(next.last() == all[done as int]);
            assert(rest@ == all.subrange(done + 1, all.len() as int));
        }
        if contains_secret(&payload) {
            findings.push(SurfaceFinding { surface });
        }
        done = done + 1;
    }
    assert(all.subrange(0, all.len() as int) == all);
    findings
}

} // verus!
