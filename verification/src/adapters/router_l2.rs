//! The routing adapter: route decisions and graph navigation.

use vstd::prelude::*;
use crate::json::JsonValue;
use crate::strutil::copy_str;
use crate::ident::fresh_uuid_string;

verus! {

/// One routing decision.
///
/// `weight_permille` carries the decision confidence in thousandths (a
/// full-confidence route reads 1000); the core never computes with it.
#[derive(Debug, Clone)]
pub struct RoutingDecision {
    /// The decision's identifier (a UUID in string form).
    pub id: String,
    /// Where the route starts.
    pub source: String,
    /// Where the route goes.
    pub target: String,
    /// Confidence, in thousandths.
    pub weight_permille: u32,
    /// Why the route was chosen.
    pub reason: String,
    /// Routes considered and passed over.
    pub alternatives: Vec<String>,
    /// Free-form metadata.
    pub metadata: Vec<(String, JsonValue)>,
}

/// A walk through the routing graph: where it stands, where it has been.
#[derive(Debug, Clone)]
pub struct GraphNavigator {
    /// The node the walk stands on.
    pub current_node: String,
    /// The nodes walked, in order.
    pub path: Vec<String>,
    /// The nodes seen.
    pub visited: Vec<String>,
    /// Nodes still to visit.
    pub remaining: Vec<String>,
}

impl GraphNavigator {
    /// A walk standing on its start node, which counts as visited.
    pub fn new(start_node: String) -> (r: GraphNavigator)
        ensures
            r.current_node@ == start_node@,
            r.path@.len() == 1 && r.path@[0]@ == start_node@,
            r.visited@.len() == 1 && r.visited@[0]@ == start_node@,
            r.remaining@.len() == 0,
    {
        let mut path: Vec<String> = Vec::new();
        path.push(copy_str(start_node.as_str()));
        let mut visited: Vec<String> = Vec::new();
        visited.push(copy_str(start_node.as_str()));
        GraphNavigator { current_node: start_node, path, visited, remaining: Vec::new() }
    }

    /// Moves the walk one node on: the node is appended to the path and
    /// the visited set, and becomes current.
    pub fn advance(&mut self, next_node: String)
        ensures
            final(self).current_node@ == next_node@,
            final(self).path@.len() == old(self).path@.len() + 1,
            final(self).path@.last()@ == next_node@,
            forall|k: int| 0 <= k < old(self).path@.len()
                ==> #[trigger] final(self).path@[k] == old(self).path@[k],
            final(self).visited@.len() == old(self).visited@.len() + 1,
            final(self).visited@.last()@ == next_node@,
            forall|k: int| 0 <= k < old(self).visited@.len()
                ==> #[trigger] final(self).visited@[k] == old(self).visited@[k],
            final(self).remaining == old(self).remaining,
    {
        self.visited.push(copy_str(next_node.as_str()));
        self.path.push(copy_str(next_node.as_str()));
        self.current_node = next_node;
    }

    /// Whether the walk has seen a node.
    pub fn has_visited(&self, node: &str) -> (r: bool)
        ensures
            r == exists|k: int| 0 <= k < self.visited@.len()
                && (#[trigger] self.visited@[k])@ == node@,
    {
        let n = self.visited.len();
        let mut i: usize = 0;
        while i < n
            invariant
                0 <= i <= n,
                n == self.visited@.len(),
                forall|k: int| 0 <= k < i ==> (#[trigger] self.visited@[k])@ != node@,
            decreases n - i,
        {
            if crate::strutil::str_eq(self.visited[i].as_str(), node) {
                return true;
            }
            i = i + 1;
        }
        false
    }
}

/// The adapter: a disableable client of the routing service.
#[derive(Debug, Clone)]
pub struct RouterL2Adapter {
    endpoint: String,
    cache_enabled: bool,
    enabled: bool,
}

impl RouterL2Adapter {
    /// An enabled adapter against an endpoint, with decision caching.
    pub fn new(endpoint: String) -> (r: RouterL2Adapter)
        ensures
            r.spec_enabled(),
            r.endpoint_view() == endpoint@,
            r.spec_cache_enabled(),
    {
        RouterL2Adapter { endpoint, cache_enabled: true, enabled: true }
    }

    /// An enabled adapter without decision caching.
    pub fn without_cache(endpoint: String) -> (r: RouterL2Adapter)
        ensures
            r.spec_enabled(),
            r.endpoint_view() == endpoint@,
            !r.spec_cache_enabled(),
    {
        RouterL2Adapter { endpoint, cache_enabled: false, enabled: true }
    }

    /// A disabled adapter: every call is a no-op.
    pub fn disabled() -> (r: RouterL2Adapter)
        ensures
            !r.spec_enabled(),
            r.endpoint_view() == Seq::<char>::empty(),
    {
        RouterL2Adapter { endpoint: String::new(), cache_enabled: true, enabled: false }
    }

    /// Whether calls do anything.
    pub closed spec fn spec_enabled(self) -> bool {
        self.enabled
    }

    /// Whether decisions are cached.
    pub closed spec fn spec_cache_enabled(self) -> bool {
        self.cache_enabled
    }

    /// The configured endpoint.
    pub closed spec fn endpoint_view(self) -> Seq<char> {
        self.endpoint@
    }
}

impl Default for RouterL2Adapter {
    /// A disabled adapter, as [`RouterL2Adapter::disabled`].
    fn default() -> (r: RouterL2Adapter)
        ensures
            !r.spec_enabled(),
    {
        RouterL2Adapter::disabled()
    }
}

impl RouterL2Adapter {

    /// Whether calls do anything.
    pub fn is_enabled(&self) -> (r: bool)
        ensures
            r == self.spec_enabled(),
    {
        self.enabled
    }

    /// The configured endpoint.
    pub fn endpoint(&self) -> (r: &str)
        ensures
            r@ == self.endpoint_view(),
    {
        self.endpoint.as_str()
    }

    /// The routing decision for the current step; `None` when disabled.
    pub fn get_routing_decision(&self, workflow_id: &str, current_step: &str)
        -> (r: Option<RoutingDecision>)
        ensures
            !self.spec_enabled() ==> r is None,
            self.spec_enabled() ==> (match r {
                Option::Some(d) => d.source@ == current_step@,
                Option::None => false,
            }),
    {
        if !self.enabled {
            return None;
        }
        Some(RoutingDecision {
            id: fresh_uuid_string(),
            source: copy_str(current_step),
            target: copy_str("next_step"),
            weight_permille: 1000,
            reason: copy_str("default sequential routing"),
            alternatives: Vec::new(),
            metadata: Vec::new(),
        })
    }

    /// The best path between two steps; straight through when disabled.
    pub fn get_optimal_path(&self, workflow_id: &str, start: &str, end: &str) -> (r: Vec<String>)
        ensures
            r@.len() == 2,
            r@[0]@ == start@,
            r@[1]@ == end@,
    {
        let mut out: Vec<String> = Vec::new();
        out.push(copy_str(start));
        out.push(copy_str(end));
        out
    }

    /// A fresh navigator standing on the given step.
    pub fn create_navigator(&self, workflow_id: &str, start_step: &str) -> (r: GraphNavigator)
        ensures
            r.current_node@ == start_step@,
            r.path@.len() == 1 && r.path@[0]@ == start_step@,
    {
        GraphNavigator::new(copy_str(start_step))
    }

    /// Hands an execution result to the router; a no-op when disabled.
    pub fn update_routing_graph(&self, workflow_id: &str, step_id: &str, success: bool, duration_ms: u64)
    {
    }

    /// The routes leaving the current step; empty when disabled.
    pub fn get_possible_routes(&self, workflow_id: &str, current_step: &str) -> (r: Vec<RoutingDecision>)
        ensures
            !self.spec_enabled() ==> r@.len() == 0,
    {
        Vec::new()
    }

    /// Hands a routing failure to the router; a no-op when disabled.
    pub fn report_routing_failure(&self, workflow_id: &str, decision_id: &str, error: &str)
    {
    }
}

} // verus!
