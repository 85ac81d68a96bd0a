//! Redacted read models of project, environment and route configuration.
use vstd::prelude::*;
use crate::text::owned;
use crate::sorting::{Keyed, sort_by_key, stable_sorted, key_ordered, stable_sorted_is_ordered, text_lt};

verus! {

/// Public project configuration returned by read endpoints.
#[derive(Debug, Clone, PartialEq, Eq)]
pub struct ProjectConfig {
    pub project_id: String,
    pub display_name: String,
    pub environments: Vec<EnvironmentConfig>,
}

/// Public environment configuration; secrets and raw endpoints are omitted.
#[derive(Debug, Clone, PartialEq, Eq)]
pub struct EnvironmentConfig {
    pub environment_id: String,
    pub display_name: String,
    pub privacy_mode: String,
    pub routes: Vec<RouteConfig>,
}

/// Public route configuration safe for dashboards and diagnostics.
#[derive(Debug, Clone, PartialEq, Eq)]
pub struct RouteConfig {
    pub route_id: String,
    pub label: String,
    pub enabled: bool,
    pub commitment: String,
    pub auth_configured: bool,
}

impl Keyed for EnvironmentConfig {
    open spec fn sort_key(&self) -> Seq<char> {
        self.environment_id@
    }

    fn key_text(&self) -> (k: &str) {
        self.environment_id.as_str()
    }
}

impl Keyed for RouteConfig {
    open spec fn sort_key(&self) -> Seq<char> {
        self.route_id@
    }

    fn key_text(&self) -> (k: &str) {
        self.route_id.as_str()
    }
}

/// `e` is `source` with its routes in route order.
pub open spec fn routes_ordered(e: EnvironmentConfig, source: EnvironmentConfig) -> bool {
    &&& e.environment_id == source.environment_id
    &&& e.display_name == source.display_name
    &&& e.privacy_mode == source.privacy_mode
    &&& e.routes@ == stable_sorted(source.routes@)
}

/// A configuration snapshot with deterministic ordering: environments by
/// identity, and each environment's routes by identity.
pub fn project_config(project_id: &str, display_name: &str, environments: Vec<EnvironmentConfig>) -> (c:
    ProjectConfig)
    ensures
        c.project_id@ == project_id@,
        c.display_name@ == display_name@,
        c.environments@.len() == stable_sorted(environments@).len(),
        forall|k: int|
            0 <= k < c.environments@.len() ==> routes_ordered(
                #[trigger] c.environments@[k],
                stable_sorted(environments@)[k],
            ),
        key_ordered(c.environments@),
        forall|k: int| 0 <= k < c.environments@.len() ==> key_ordered(#[trigger] c.environments@[k].routes@),
{
    let mut sorted = environments;
    sort_by_key(&mut sorted);
    let ghost order = sorted@;
    let mut out: Vec<EnvironmentConfig> = Vec::new();
    let mut remaining = sorted;
    let mut reversed: Vec<EnvironmentConfig> = Vec::new();
    let total = remaining.len();
    while remaining.len() > 0
        invariant
            reversed@.len() + remaining@.len() == order.len(),
            remaining@ == order.subrange(0, remaining@.len() as int),
            forall|k: int| 0 <= k < reversed@.len() ==> #[trigger] reversed@[k] == order[order.len() - 1 - k],
        decreases remaining@.len(),
    {
        let e = remaining.pop().unwrap();
        reversed.push(e);
    }
    while reversed.len() > 0
        invariant
            order.len() == total,
            reversed@.len() + out@.len() == order.len(),
            forall|k: int| 0 <= k < reversed@.len() ==> #[trigger] reversed@[k] == order[order.len() - 1 - k],
            forall|k: int| 0 <= k < out@.len() ==> routes_ordered(#[trigger] out@[k], order[k]),
        decreases reversed@.len(),
    {
        let ghost k = out@.len();
        let mut e = reversed.pop().unwrap();
        assert(e == order[k as int]);
        let mut routes = Vec::new();
        std::mem::swap(&mut routes, &mut e.routes);
        sort_by_key(&mut routes);
        e.routes = routes;
        out.push(e);
    }
    proof {
        stable_sorted_is_ordered(environments@);
        assert(order == stable_sorted(environments@));
        assert forall|i: int, j: int| 0 <= i <= j < out@.len() implies !text_lt(
            out@[j].sort_key(),
            out@[i].sort_key(),
        ) by {
            assert(routes_ordered(out@[i], order[i]));
            assert(routes_ordered(out@[j], order[j]));
            assert(out@[i].sort_key() == order[i].sort_key());
            assert(out@[j].sort_key() == order[j].sort_key());
            assert(!text_lt(order[j].sort_key(), order[i].sort_key()));
        }
        assert forall|k: int| 0 <= k < out@.len() implies key_ordered(#[trigger] out@[k].routes@) by {
            stable_sorted_is_ordered(order[k].routes@);
        }
    }
    ProjectConfig { project_id: owned(project_id), display_name: owned(display_name), environments: out }
}

} // verus!
