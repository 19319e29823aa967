//! DAG construction over a workflow's dependency graph.
//!
//! Builds an adjacency index keyed by step position, checks that every
//! dependency references a declared step, and runs Kahn's algorithm to
//! produce a topological order, tie-breaking equally-ready steps by
//! declaration order. When nodes remain unemitted, the leftover subgraph
//! holds a cycle; a walk along unemitted predecessors recovers a witness
//! path whose first and last ids are equal.

use vstd::prelude::*;
use vstd::seq_lib::*;
use vstd::set_lib::*;
use crate::workflow::{Workflow, Step, spec_ids_unique, spec_declares};
use crate::errors::OrchestratorError;
use crate::strutil::str_eq;

verus! {

/// `from` stands directly before `to`: the step with id `to` declares a
/// dependency on the step with id `from`.
pub open spec fn spec_dep_edge(steps: Seq<Step>, from: Seq<char>, to: Seq<char>) -> bool {
    exists|i: int, k: int|
        0 <= i < steps.len() && 0 <= k < steps[i].depends_on@.len()
            && steps[i].id@ == to && steps[i].depends_on@[k]@ == from
}

/// A dependency-respecting order of all step ids: as long as the step
/// list, free of repetition, made of declared ids, and such that every
/// edge points forward.
pub open spec fn spec_is_topo_order(steps: Seq<Step>, order: Seq<Seq<char>>) -> bool {
    &&& order.len() == steps.len()
    &&& forall|a: int, b: int| 0 <= a < b < order.len() ==> order[a] != order[b]
    &&& forall|a: int| 0 <= a < order.len() ==> spec_declares(steps, #[trigger] order[a])
    &&& forall|a: int, b: int|
        0 <= a < order.len() && 0 <= b < order.len()
            && spec_dep_edge(steps, order[a], order[b]) ==> a < b
}

/// A closed walk along dependency edges: at least one edge, each pair of
/// neighbours an edge, first and last id equal.
pub open spec fn spec_is_cycle_path(steps: Seq<Step>, path: Seq<Seq<char>>) -> bool {
    &&& path.len() >= 2
    &&& path[0] == path[path.len() - 1]
    &&& forall|k: int| 0 <= k < path.len() - 1 ==> spec_dep_edge(steps, #[trigger] path[k], path[k + 1])
}

/// The graph invariants that DAG construction itself checks: unique step
/// ids and every dependency declared.
pub open spec fn spec_dag_schema_ok(steps: Seq<Step>) -> bool {
    &&& spec_ids_unique(steps)
    &&& forall|i: int, k: int|
        0 <= i < steps.len() && 0 <= k < steps[i].depends_on@.len()
            ==> spec_declares(steps, #[trigger] steps[i].depends_on@[k]@)
}

/// Some position before `k` of `t` holds the node index `p`.
pub open spec fn spec_emitted_before(t: Seq<usize>, k: int, p: usize) -> bool {
    exists|k2: int| 0 <= k2 < k && t[k2] == p
}

/// Whether node `i` is ready at position `k` of an emission order: not
/// yet emitted, every predecessor already emitted.
pub open spec fn spec_ready_at(preds: Seq<Vec<usize>>, t: Seq<usize>, k: int, i: int) -> bool {
    &&& 0 <= i < preds.len()
    &&& !spec_emitted_before(t, k, i as usize)
    &&& forall|c: int| 0 <= c < preds[i]@.len()
        ==> spec_emitted_before(t, k, #[trigger] preds[i]@[c])
}

/// A Kahn order with declaration-order tie-breaking: every position holds
/// the least node index that is ready there (node indices are declaration
/// positions).
pub open spec fn spec_kahn_min_order(preds: Seq<Vec<usize>>, t: Seq<usize>) -> bool {
    forall|k: int| 0 <= k < t.len() ==> spec_ready_at(preds, t, k, #[trigger] t[k] as int)
        && (forall|j: int| 0 <= j < t[k] ==> !spec_ready_at(preds, t, k, j))
}

/// Appending to an order changes no readiness at earlier positions.
proof fn lemma_ready_at_push(preds: Seq<Vec<usize>>, t0: Seq<usize>, x: usize, k: int)
    requires
        0 <= k <= t0.len(),
    ensures
        forall|p: usize| #[trigger] spec_emitted_before(t0.push(x), k, p)
            == spec_emitted_before(t0, k, p),
        forall|i: int| #[trigger] spec_ready_at(preds, t0.push(x), k, i)
            == spec_ready_at(preds, t0, k, i),
{
    assert forall|p: usize| #[trigger] spec_emitted_before(t0.push(x), k, p)
        == spec_emitted_before(t0, k, p) by {
        if spec_emitted_before(t0.push(x), k, p) {
            let k2 = choose|k2: int| 0 <= k2 < k && t0.push(x)[k2] == p;
            assert(t0[k2] == p);
        }
        if spec_emitted_before(t0, k, p) {
            let k2 = choose|k2: int| 0 <= k2 < k && t0[k2] == p;
            assert(t0.push(x)[k2] == p);
        }
    }
}

/// The dependency graph of a workflow, with a topological order.
pub struct WorkflowDAG {
    /// Step ids, in declaration order (position = node index).
    pub nodes: Vec<String>,
    /// For each node, the node indices of its dependencies.
    pub preds: Vec<Vec<usize>>,
    /// For each node, the node indices of the steps depending on it.
    pub succs: Vec<Vec<usize>>,
    /// Node indices in topological order.
    pub topo: Vec<usize>,
    /// Step ids in topological order (the ids of `topo`).
    pub order: Vec<String>,
}

impl WorkflowDAG {
    /// The structural invariant of a built DAG.
    pub open spec fn wf(self) -> bool {
        let n = self.nodes@.len();
        &&& self.preds@.len() == n
        &&& self.succs@.len() == n
        &&& self.topo@.len() == n
        &&& self.order@.len() == n
        &&& forall|i: int, k: int|
            0 <= i < n && 0 <= k < self.preds@[i]@.len() ==> #[trigger] self.preds@[i]@[k] < n
        &&& forall|i: int, k: int|
            0 <= i < n && 0 <= k < self.succs@[i]@.len() ==> #[trigger] self.succs@[i]@[k] < n
        &&& forall|k: int| 0 <= k < n ==> #[trigger] self.topo@[k] < n
        &&& forall|a: int, b: int| 0 <= a < b < n ==> self.topo@[a] != self.topo@[b]
        &&& forall|k: int| 0 <= k < n ==> #[trigger] self.order@[k]@ == self.nodes@[self.topo@[k] as int]@
        &&& forall|k: int, c: int|
            0 <= k < n && 0 <= c < self.preds@[self.topo@[k] as int]@.len()
                ==> spec_emitted_before(self.topo@, k, #[trigger] self.preds@[self.topo@[k] as int]@[c])
        &&& spec_kahn_min_order(self.preds@, self.topo@)
    }

    /// How the DAG mirrors its workflow: node ids are the step ids in
    /// declaration order, and predecessor indices are exactly the
    /// `depends_on` entries.
    pub open spec fn matches(self, steps: Seq<Step>) -> bool {
        let n = self.nodes@.len();
        &&& n == steps.len()
        &&& forall|i: int| 0 <= i < n ==> #[trigger] self.nodes@[i]@ == steps[i].id@
        &&& forall|i: int| 0 <= i < n
            ==> #[trigger] self.preds@[i]@.len() == steps[i].depends_on@.len()
        &&& forall|i: int, k: int|
            0 <= i < n && 0 <= k < steps[i].depends_on@.len()
                ==> self.nodes@[#[trigger] self.preds@[i]@[k] as int]@ == steps[i].depends_on@[k]@
    }

    /// The step ids in topological order, as a sequence of views.
    pub open spec fn order_views(self) -> Seq<Seq<char>> {
        Seq::new(self.order@.len(), |k: int| self.order@[k]@)
    }
}

/// Position of an id among the nodes, if any.
fn index_of_id(nodes: &Vec<String>, id: &str) -> (r: Option<usize>)
    ensures
        match r {
            Some(j) => 0 <= j < nodes@.len() && nodes@[j as int]@ == id@,
            None => forall|j: int| 0 <= j < nodes@.len() ==> nodes@[j]@ != id@,
        },
{
    let n = nodes.len();
    let mut i: usize = 0;
    while i < n
        invariant
            0 <= i <= n,
            n == nodes@.len(),
            forall|j: int| 0 <= j < i ==> nodes@[j]@ != id@,
        decreases n - i,
    {
        if str_eq(nodes[i].as_str(), id) {
            return Some(i);
        }
        i = i + 1;
    }
    None
}

/// Whether all of a node's predecessors are emitted.
fn all_preds_emitted(pred_row: &Vec<usize>, emitted: &Vec<bool>) -> (r: bool)
    requires
        forall|k: int| 0 <= k < pred_row@.len() ==> #[trigger] pred_row@[k] < emitted@.len(),
    ensures
        r == forall|k: int| 0 <= k < pred_row@.len() ==> emitted@[#[trigger] pred_row@[k] as int],
{
    let m = pred_row.len();
    let mut k: usize = 0;
    while k < m
        invariant
            0 <= k <= m,
            m == pred_row@.len(),
            forall|c: int| 0 <= c < pred_row@.len() ==> #[trigger] pred_row@[c] < emitted@.len(),
            forall|c: int| 0 <= c < k ==> emitted@[#[trigger] pred_row@[c] as int],
        decreases m - k,
    {
        if !emitted[pred_row[k]] {
            return false;
        }
        k = k + 1;
    }
    true
}

/// Whether a node index occurs in a list.
fn contains_index(v: &Vec<usize>, x: usize) -> (r: bool)
    ensures
        r == v@.contains(x),
{
    let n = v.len();
    let mut i: usize = 0;
    while i < n
        invariant
            0 <= i <= n,
            n == v@.len(),
            forall|k: int| 0 <= k < i ==> v@[k] != x,
        decreases n - i,
    {
        if v[i] == x {
            assert(v@[i as int] == x);
            return true;
        }
        i = i + 1;
    }
    false
}

/// When fewer than `n` distinct nodes are emitted, some node is not.
proof fn lemma_unemitted_exists(topo: Seq<usize>, emitted: Seq<bool>, n: int)
    requires
        0 <= n <= usize::MAX,
        emitted.len() == n,
        topo.len() < n,
        forall|k: int| 0 <= k < topo.len() ==> #[trigger] topo[k] < n,
        forall|a: int, b: int| 0 <= a < b < topo.len() ==> topo[a] != topo[b],
        forall|v: int| 0 <= v < n ==> (#[trigger] emitted[v] <==> topo.contains(v as usize)),
    ensures
        exists|v: int| 0 <= v < n && !(#[trigger] emitted[v]),
{
    if forall|v: int| 0 <= v < n ==> #[trigger] emitted[v] {
        let ti = topo.map_values(|x: usize| x as int);
        assert(ti.no_duplicates());
        ti.unique_seq_to_set();
        lemma_int_range(0, n);
        assert(set_int_range(0, n).subset_of(ti.to_set())) by {
            assert forall|x: int| set_int_range(0, n).contains(x)
                implies ti.to_set().contains(x) by {
                assert(emitted[x]);
                assert(topo.contains(x as usize));
                let k = choose|k: int| 0 <= k < topo.len() && topo[k] == x as usize;
                assert(ti[k] == x);
            }
        }
        lemma_len_subset(set_int_range(0, n), ti.to_set());
        assert(ti.len() >= n);
        assert(false);
    }
}

/// A sequence of `n` distinct indices below `n` holds every index below `n`.
proof fn lemma_distinct_bounded_is_full(s: Seq<usize>, n: int, v: usize)
    requires
        s.len() == n,
        forall|k: int| 0 <= k < s.len() ==> #[trigger] s[k] < n,
        forall|a: int, b: int| 0 <= a < b < s.len() ==> s[a] != s[b],
        0 <= v < n,
    ensures
        s.contains(v),
{
    let si = s.map_values(|x: usize| x as int);
    assert(si.no_duplicates());
    si.unique_seq_to_set();
    let range = set_int_range(0, n);
    lemma_int_range(0, n);
    assert(si.to_set().subset_of(range)) by {
        assert forall|x: int| si.to_set().contains(x) implies range.contains(x) by {
            let k = choose|k: int| 0 <= k < si.len() && si[k] == x;
            assert(s[k] < n);
        }
    }
    lemma_subset_equality(si.to_set(), range);
    assert(si.to_set() =~= range);
    assert(range.contains(v as int));
    let k = choose|k: int| 0 <= k < si.len() && si[k] == v as int;
    assert(s[k] == v);
}

/// Emitting a ready node keeps every invariant of the emission order.
proof fn lemma_kahn_push(
    preds: Seq<Vec<usize>>,
    n: int,
    t0: Seq<usize>,
    e0: Seq<bool>,
    i: usize,
    t1: Seq<usize>,
    e1: Seq<bool>,
)
    requires
        0 <= n <= usize::MAX,
        preds.len() == n,
        e0.len() == n,
        0 <= (i as int) < n,
        t1 == t0.push(i),
        e1 == e0.update(i as int, true),
        !e0[i as int],
        forall|c: int| 0 <= c < preds[i as int]@.len()
            ==> e0[#[trigger] preds[i as int]@[c] as int],
        forall|a: int, k: int|
            0 <= a < n && 0 <= k < preds[a]@.len() ==> #[trigger] preds[a]@[k] < n,
        forall|k: int| 0 <= k < t0.len() ==> #[trigger] t0[k] < n,
        forall|a: int, b: int| 0 <= a < b < t0.len() ==> t0[a] != t0[b],
        forall|v: int| 0 <= v < n ==> (#[trigger] e0[v] <==> t0.contains(v as usize)),
        forall|k: int, c: int|
            0 <= k < t0.len() && 0 <= c < preds[t0[k] as int]@.len()
                ==> spec_emitted_before(t0, k, #[trigger] preds[t0[k] as int]@[c]),
        spec_kahn_min_order(preds, t0),
        forall|j: int| 0 <= j < i && !e0[j]
            ==> exists|c: int| 0 <= c < preds[j]@.len() && !e0[preds[j]@[c] as int],
    ensures
        forall|k: int| 0 <= k < t1.len() ==> #[trigger] t1[k] < n,
        forall|a: int, b: int| 0 <= a < b < t1.len() ==> t1[a] != t1[b],
        forall|v: int| 0 <= v < n ==> (#[trigger] e1[v] <==> t1.contains(v as usize)),
        forall|k: int, c: int|
            0 <= k < t1.len() && 0 <= c < preds[t1[k] as int]@.len()
                ==> spec_emitted_before(t1, k, #[trigger] preds[t1[k] as int]@[c]),
        spec_kahn_min_order(preds, t1),
{
    assert forall|a: int, b: int| 0 <= a < b < t1.len() implies t1[a] != t1[b] by {
        if b == t0.len() {
            // the new entry was unemitted, so it is not among the old ones
            if t1[a] == i {
                assert(t0[a] == i);
                assert(t0.contains(i));
            }
        }
    }
    assert forall|v: int| 0 <= v < n
        implies (e1[v] <==> t1.contains(#[trigger] (v as usize))) by {
        if v == i as int {
            assert(t1[t0.len() as int] == i);
            assert(e1[v]);
        } else {
            assert(e1[v] == e0[v]);
            if e0[v] {
                assert(t0.contains(v as usize));
                let k = choose|k: int| 0 <= k < t0.len() && t0[k] == v as usize;
                assert(t1[k] == v as usize);
            } else {
                if t1.contains(v as usize) {
                    let k = choose|k: int| 0 <= k < t1.len() && t1[k] == v as usize;
                    if k < t0.len() {
                        assert(t0[k] == v as usize);
                        assert(t0.contains(v as usize));
                        assert(false);
                    } else {
                        assert(t1[k] == i);
                        assert(false);
                    }
                }
            }
        }
    }
    assert forall|k: int, c: int|
        0 <= k < t1.len() && 0 <= c < preds[t1[k] as int]@.len()
        implies spec_emitted_before(t1, k, #[trigger] preds[t1[k] as int]@[c]) by {
        if k < t0.len() {
            assert(t1[k] == t0[k]);
            assert(0 <= k < t0.len() && 0 <= c < preds[t0[k] as int]@.len());
            assert(spec_emitted_before(t0, k, preds[t0[k] as int]@[c]));
            let k2 = choose|k2: int| 0 <= k2 < k && t0[k2] == preds[t0[k] as int]@[c];
            assert(t1[k2] == preds[t1[k] as int]@[c]);
        } else {
            // the new entry: all its predecessors were already emitted,
            // hence stand earlier in the order
            assert(t1[k] == i);
            let p = preds[i as int]@[c];
            assert(e0[p as int]);
            assert(t0.contains(p));
            let k2 = choose|k2: int| 0 <= k2 < t0.len() && t0[k2] == p;
            assert(t1[k2] == p);
        }
    }
    // the declaration-order tie-break: earlier positions keep their
    // least-ready picks, and the new position picks the least ready node
    assert forall|k: int| 0 <= k < t1.len()
        implies spec_ready_at(preds, t1, k, #[trigger] t1[k] as int)
            && (forall|j: int| 0 <= j < t1[k] ==> !spec_ready_at(preds, t1, k, j)) by {
        lemma_ready_at_push(preds, t0, i, k);
        if k < t0.len() {
            assert(t1[k] == t0[k]);
            assert(spec_ready_at(preds, t0, k, t0[k] as int));
        } else {
            // the fresh position: `i` is ready, and everything below `i`
            // is either emitted or still blocked on a predecessor
            assert(t1[k] == i);
            assert(spec_ready_at(preds, t1, k, i as int)) by {
                if spec_emitted_before(t1, k, i) {
                    let k2 = choose|k2: int| 0 <= k2 < k && t1[k2] == i;
                    assert(t0[k2] == i);
                    assert(t0.contains(i));
                }
                assert forall|c: int| 0 <= c < preds[i as int]@.len()
                    implies spec_emitted_before(t1, k, #[trigger] preds[i as int]@[c]) by {
                    let p = preds[i as int]@[c];
                    assert(e0[p as int]);
                    assert(t0.contains(p));
                    let k2 = choose|k2: int| 0 <= k2 < t0.len() && t0[k2] == p;
                    assert(t1[k2] == p);
                }
            }
            assert forall|j: int| 0 <= j < t1[k] implies !spec_ready_at(preds, t1, k, j) by {
                if e0[j] {
                    assert(t0.contains(j as usize));
                    let k2 = choose|k2: int| 0 <= k2 < t0.len() && t0[k2] == j as usize;
                    assert(t1[k2] == j as usize);
                    assert(spec_emitted_before(t1, k, j as usize));
                } else {
                    let c = choose|c: int|
                        0 <= c < preds[j]@.len() && !e0[preds[j]@[c] as int];
                    if spec_emitted_before(t1, k, preds[j]@[c]) {
                        let k2 = choose|k2: int| 0 <= k2 < k && t1[k2] == preds[j]@[c];
                        assert(t0[k2] == preds[j]@[c]);
                        assert(t0.contains(preds[j]@[c]));
                    }
                }
            }
        }
    }
}

/// One pass of Kahn's algorithm over an index graph: emits ready nodes in
/// declaration order until done or stuck.
///
/// Returns the emitted order and the emission flags. When the order is
/// short of `n`, every unemitted node still has an unemitted predecessor:
/// the leftover subgraph holds a cycle.
#[verifier::rlimit(60)]
fn kahn_topo(preds: &Vec<Vec<usize>>, n: usize) -> (r: (Vec<usize>, Vec<bool>))
    requires
        preds@.len() == n,
        forall|a: int, k: int|
            0 <= a < n && 0 <= k < preds@[a]@.len() ==> #[trigger] preds@[a]@[k] < n,
    ensures
        ({
            let topo = r.0@;
            let emitted = r.1@;
            &&& emitted.len() == n
            &&& topo.len() <= n
            &&& forall|k: int| 0 <= k < topo.len() ==> #[trigger] topo[k] < n
            &&& forall|a: int, b: int| 0 <= a < b < topo.len() ==> topo[a] != topo[b]
            &&& forall|v: int| 0 <= v < n ==> (#[trigger] emitted[v] <==> topo.contains(v as usize))
            &&& forall|k: int, c: int|
                0 <= k < topo.len() && 0 <= c < preds@[topo[k] as int]@.len()
                    ==> spec_emitted_before(topo, k, #[trigger] preds@[topo[k] as int]@[c])
            &&& spec_kahn_min_order(preds@, topo)
            &&& topo.len() < n ==> forall|v: int|
                0 <= v < n && !emitted[v]
                    ==> exists|c: int|
                        0 <= c < preds@[v]@.len() && !emitted[preds@[v]@[c] as int]
        }),
{
    let mut emitted: Vec<bool> = Vec::new();
    let mut i: usize = 0;
    while i < n
        invariant
            0 <= i <= n,
            emitted@.len() == i,
            forall|k: int| 0 <= k < i ==> !(#[trigger] emitted@[k]),
        decreases n - i,
    {
        emitted.push(false);
        i = i + 1;
    }
    let mut topo: Vec<usize> = Vec::new();
    let mut stuck = false;
    while !stuck && topo.len() < n
        invariant
            preds@.len() == n,
            emitted@.len() == n,
            topo@.len() <= n,
            forall|a: int, k: int|
                0 <= a < n && 0 <= k < preds@[a]@.len() ==> #[trigger] preds@[a]@[k] < n,
            forall|k: int| 0 <= k < topo@.len() ==> #[trigger] topo@[k] < n,
            forall|a: int, b: int| 0 <= a < b < topo@.len() ==> topo@[a] != topo@[b],
            forall|v: int| 0 <= v < n
                ==> (#[trigger] emitted@[v] <==> topo@.contains(v as usize)),
            forall|k: int, c: int|
                0 <= k < topo@.len() && 0 <= c < preds@[topo@[k] as int]@.len()
                    ==> spec_emitted_before(topo@, k, #[trigger] preds@[topo@[k] as int]@[c]),
            spec_kahn_min_order(preds@, topo@),
            stuck ==> forall|v: int|
                0 <= v < n && !emitted@[v]
                    ==> exists|c: int|
                        0 <= c < preds@[v]@.len() && !emitted@[preds@[v]@[c] as int],
        decreases n - topo.len() + if stuck { 0int } else { 1int },
    {
        // One scan for the first unemitted node whose predecessors are all
        // emitted.
        let mut found = false;
        let mut i: usize = 0;
        while i < n && !found
            invariant
                0 <= i <= n,
                preds@.len() == n,
                emitted@.len() == n,
                forall|a: int, k: int|
                    0 <= a < n && 0 <= k < preds@[a]@.len() ==> #[trigger] preds@[a]@[k] < n,
                forall|v: int|
                    0 <= v < i && !emitted@[v]
                        ==> exists|c: int|
                            0 <= c < preds@[v]@.len() && !emitted@[preds@[v]@[c] as int],
                found ==> 0 <= (i as int) < n && !emitted@[i as int]
                    && (forall|c: int| 0 <= c < preds@[i as int]@.len()
                        ==> emitted@[#[trigger] preds@[i as int]@[c] as int]),
            decreases n - i + if found { 0int } else { 1int },
        {
            if !emitted[i] && all_preds_emitted(&preds[i], &emitted) {
                found = true;
            } else {
                i = i + 1;
            }
        }
        if found {
            let ghost t0 = topo@;
            let ghost e0 = emitted@;
            topo.push(i);
            emitted.set(i, true);
            proof {
                lemma_kahn_push(preds@, n as int, t0, e0, i, topo@, emitted@);
            }
        } else {
            stuck = true;
        }
    }
    proof {
        if !stuck && topo@.len() < n {
            assert(false);
        }
        if topo@.len() < n {
            assert(stuck);
        }
    }
    (topo, emitted)
}

/// Recovers a closed dependency path from a stuck Kahn state: starting
/// from an unemitted node, walk unemitted predecessors until a node
/// repeats, then cut the closed stretch out and reverse it.
#[verifier::rlimit(60)]
fn find_cycle_path(
    w: &Workflow,
    nodes: &Vec<String>,
    preds: &Vec<Vec<usize>>,
    emitted: &Vec<bool>,
) -> (r: Vec<String>)
    requires
        ({
            let n = w.steps@.len();
            &&& nodes@.len() == n
            &&& preds@.len() == n
            &&& emitted@.len() == n
            &&& forall|k: int| 0 <= k < n ==> #[trigger] nodes@[k]@ == w.steps@[k].id@
            &&& forall|a: int, k: int|
                0 <= a < n && 0 <= k < preds@[a]@.len() ==> #[trigger] preds@[a]@[k] < n
            &&& forall|a: int| 0 <= a < n
                ==> #[trigger] preds@[a]@.len() == w.steps@[a].depends_on@.len()
            &&& forall|a: int, k: int|
                0 <= a < n && 0 <= k < w.steps@[a].depends_on@.len()
                    ==> nodes@[#[trigger] preds@[a]@[k] as int]@ == w.steps@[a].depends_on@[k]@
            &&& forall|v: int|
                0 <= v < n && !emitted@[v]
                    ==> exists|c: int|
                        0 <= c < preds@[v]@.len() && !emitted@[preds@[v]@[c] as int]
            &&& exists|v: int| 0 <= v < n && !(#[trigger] emitted@[v])
        }),
    ensures
        spec_is_cycle_path(w.steps@, Seq::new(r@.len(), |k: int| r@[k]@)),
{
    let n = nodes.len();
    // first unemitted node
    let mut u: usize = 0;
    let mut found_u = false;
    let mut i: usize = 0;
    while i < n && !found_u
        invariant
            0 <= i <= n,
            n == nodes@.len(),
            emitted@.len() == n,
            !found_u ==> forall|v: int| 0 <= v < i ==> #[trigger] emitted@[v],
            exists|v: int| 0 <= v < n && !(#[trigger] emitted@[v]),
            found_u ==> 0 <= (u as int) < n && !emitted@[u as int],
        decreases n - i + if found_u { 0int } else { 1int },
    {
        if !emitted[i] {
            u = i;
            found_u = true;
        } else {
            i = i + 1;
        }
    }
    proof {
        if !found_u {
            let v = choose|v: int| 0 <= v < n && !emitted@[v];
            assert(emitted@[v]);
        }
    }

    // walk: each unemitted node has an unemitted predecessor
    let mut visited: Vec<usize> = Vec::new();
    loop
        invariant
            n == nodes@.len(),
            n == w.steps@.len(),
            preds@.len() == n,
            emitted@.len() == n,
            forall|k: int| 0 <= k < n ==> #[trigger] nodes@[k]@ == w.steps@[k].id@,
            forall|a: int, k: int|
                0 <= a < n && 0 <= k < preds@[a]@.len() ==> #[trigger] preds@[a]@[k] < n,
            forall|a: int| 0 <= a < n ==> #[trigger] preds@[a]@.len() == w.steps@[a].depends_on@.len(),
            forall|a: int, k: int|
                0 <= a < n && 0 <= k < w.steps@[a].depends_on@.len()
                    ==> nodes@[#[trigger] preds@[a]@[k] as int]@ == w.steps@[a].depends_on@[k]@,
            forall|v: int|
                0 <= v < n && !emitted@[v]
                    ==> exists|c: int|
                        0 <= c < preds@[v]@.len() && !emitted@[preds@[v]@[c] as int],
            0 <= (u as int) < n,
            !emitted@[u as int],
            visited@.len() <= n,
            forall|k: int| 0 <= k < visited@.len() ==> #[trigger] visited@[k] < n,
            forall|k: int| 0 <= k < visited@.len() ==> !emitted@[#[trigger] visited@[k] as int],
            forall|a: int, b: int| 0 <= a < b < visited@.len() ==> visited@[a] != visited@[b],
            forall|k: int|
                0 <= k < visited@.len() - 1
                    ==> preds@[visited@[k] as int]@.contains(#[trigger] visited@[k + 1]),
            visited@.len() > 0 ==> preds@[visited@[visited@.len() - 1] as int]@.contains(u),
        decreases n - visited.len(),
    {
        if contains_index(&visited, u) {
            // u closes a cycle; cut it out and reverse it
            let mut j: usize = 0;
            let m = visited.len();
            let mut found_j = false;
            while j < m && !found_j
                invariant
                    0 <= j <= m,
                    m == visited@.len(),
                    visited@.contains(u),
                    forall|k: int| 0 <= k < j ==> visited@[k] != u,
                    found_j ==> 0 <= (j as int) < m && visited@[j as int] == u,
                decreases m - j + if found_j { 0int } else { 1int },
            {
                if visited[j] == u {
                    found_j = true;
                } else {
                    j = j + 1;
                }
            }
            proof {
                if !found_j {
                    let k = choose|k: int| 0 <= k < visited@.len() && visited@[k] == u;
                    assert(visited@[k] != u);
                }
            }
            // witness path: u, visited[m-1], ..., visited[j]
            let mut path: Vec<String> = Vec::new();
            path.push(nodes[u].clone());
            let mut t = m;
            while t > j
                invariant
                    j <= t <= m,
                    m == visited@.len(),
                    0 <= j < m,
                    n == nodes@.len(),
                    n == w.steps@.len(),
                    visited@[j as int] == u,
                    0 <= (u as int) < n,
                    forall|k: int| 0 <= k < n ==> #[trigger] nodes@[k]@ == w.steps@[k].id@,
                    forall|k: int| 0 <= k < visited@.len() ==> #[trigger] visited@[k] < n,
                    forall|k: int|
                        0 <= k < visited@.len() - 1
                            ==> preds@[visited@[k] as int]@.contains(#[trigger] visited@[k + 1]),
                    preds@[visited@[m - 1] as int]@.contains(u),
                    forall|a: int| 0 <= a < n
                        ==> #[trigger] preds@[a]@.len() == w.steps@[a].depends_on@.len(),
                    forall|a: int, k: int|
                        0 <= a < n && 0 <= k < w.steps@[a].depends_on@.len()
                            ==> nodes@[#[trigger] preds@[a]@[k] as int]@ == w.steps@[a].depends_on@[k]@,
                    preds@.len() == n,
                    forall|a: int, k: int|
                        0 <= a < n && 0 <= k < preds@[a]@.len() ==> #[trigger] preds@[a]@[k] < n,
                    path@.len() == m - t + 1,
                    path@[0]@ == nodes@[u as int]@,
                    forall|k: int| 1 <= k < path@.len()
                        ==> #[trigger] path@[k]@ == nodes@[visited@[m - k] as int]@,
                    forall|k: int| 0 <= k < path@.len() - 1
                        ==> spec_dep_edge(w.steps@, #[trigger] path@[k]@, path@[k + 1]@),
                decreases t,
            {
                let prev = visited[t - 1];
                path.push(nodes[prev].clone());
                proof {
                    // the new last pair is an edge: prev's dependent is the
                    // previous path element
                    let pl = path@.len();
                    if t == m {
                        // edge (u, visited[m-1]): u in preds[visited[m-1]]
                        let row = preds@[visited@[m - 1] as int]@;
                        let c = choose|c: int| 0 <= c < row.len() && row[c] == u;
                        assert(w.steps@[visited@[m - 1] as int].depends_on@[c]@
                            == nodes@[u as int]@);
                        assert(spec_dep_edge(w.steps@, path@[pl - 2]@, path@[pl - 1]@));
                    } else {
                        // edge (visited[t], visited[t-1])
                        let row = preds@[visited@[t - 1] as int]@;
                        assert(preds@[visited@[(t - 1) as int] as int]@.contains(
                            visited@[(t - 1) as int + 1]));
                        assert(row.contains(visited@[t as int]));
                        let c = choose|c: int| 0 <= c < row.len() && row[c] == visited@[t as int];
                        assert(w.steps@[visited@[t - 1] as int].depends_on@[c]@
                            == nodes@[visited@[t as int] as int]@);
                        assert(path@[pl - 2]@ == nodes@[visited@[m - (pl - 2)] as int]@);
                        assert(m - (pl - 2) == t);
                        assert(spec_dep_edge(w.steps@, path@[pl - 2]@, path@[pl - 1]@));
                    }
                }
                t = t - 1;
            }
            proof {
                let pv = Seq::new(path@.len(), |k: int| path@[k]@);
                assert(path@.len() == m - j + 1);
                assert(path@[path@.len() - 1]@ == nodes@[visited@[j as int] as int]@);
                assert(pv[0] == pv[pv.len() - 1]);
                assert(path@.len() >= 2);
                assert forall|k: int| 0 <= k < pv.len() - 1
                    implies spec_dep_edge(w.steps@, #[trigger] pv[k], pv[k + 1]) by {
                    assert(spec_dep_edge(w.steps@, path@[k]@, path@[k + 1]@));
                }
                assert(spec_is_cycle_path(w.steps@, pv));
            }
            return path;
        }
        // extend the walk with an unemitted predecessor of u
        proof {
            if visited@.len() == n {
                lemma_distinct_bounded_is_full(visited@, n as int, u);
                assert(visited@.contains(u));
                assert(false);
            }
        }
        visited.push(u);
        // find an unemitted predecessor
        let row_len = preds[u].len();
        let mut c: usize = 0;
        let mut next: usize = 0;
        let mut found_next = false;
        while c < row_len && !found_next
            invariant
                0 <= c <= row_len,
                0 <= (u as int) < n,
                preds@.len() == n,
                emitted@.len() == n,
                row_len == preds@[u as int]@.len(),
                forall|a: int, k: int|
                    0 <= a < n && 0 <= k < preds@[a]@.len() ==> #[trigger] preds@[a]@[k] < n,
                !found_next ==> forall|k: int|
                    0 <= k < c ==> emitted@[#[trigger] preds@[u as int]@[k] as int],
                found_next ==> preds@[u as int]@.contains(next)
                    && (next as int) < n && !emitted@[next as int],
            decreases row_len - c + if found_next { 0int } else { 1int },
        {
            let p = preds[u][c];
            if !emitted[p] {
                next = p;
                found_next = true;
                proof {
                    assert(preds@[u as int]@[c as int] == p);
                }
            } else {
                c = c + 1;
            }
        }
        proof {
            if !found_next {
                let cc = choose|cc: int|
                    0 <= cc < preds@[u as int]@.len()
                        && !emitted@[preds@[u as int]@[cc] as int];
                assert(emitted@[preds@[u as int]@[cc] as int]);
            }
        }
        u = next;
    }
}

/// Builds the dependency graph of a workflow and a topological order over
/// it, or reports why none exists.
///
/// With unique ids and declared dependencies, the result is either a DAG
/// whose order is a topological sort of the dependency graph, or a
/// `CycleDetected` carrying a closed dependency path (first and last ids
/// equal). `InvalidDag` is returned exactly when ids repeat or a
/// dependency is undeclared.
#[verifier::rlimit(80)]
pub fn dag_from_workflow(w: &Workflow) -> (r: Result<WorkflowDAG, OrchestratorError>)
    ensures
        match r {
            Ok(d) => {
                &&& spec_dag_schema_ok(w.steps@)
                &&& d.wf()
                &&& d.matches(w.steps@)
                &&& spec_is_topo_order(w.steps@, d.order_views())
            },
            Err(e) => match e {
                OrchestratorError::InvalidDag(_) => !spec_dag_schema_ok(w.steps@),
                OrchestratorError::CycleDetected(p) => {
                    &&& spec_dag_schema_ok(w.steps@)
                    &&& spec_is_cycle_path(w.steps@, Seq::new(p@.len(), |k: int| p@[k]@))
                },
                _ => false,
            },
        },
{
    let n = w.steps.len();

    // Node ids, in declaration order.
    let mut nodes: Vec<String> = Vec::new();
    let mut i: usize = 0;
    while i < n
        invariant
            0 <= i <= n,
            n == w.steps@.len(),
            nodes@.len() == i,
            forall|k: int| 0 <= k < i ==> #[trigger] nodes@[k]@ == w.steps@[k].id@,
        decreases n - i,
    {
        nodes.push(w.steps[i].id.clone());
        i = i + 1;
    }

    // Unique ids.
    let mut i: usize = 0;
    while i < n
        invariant
            0 <= i <= n,
            n == w.steps@.len(),
            nodes@.len() == n,
            forall|k: int| 0 <= k < n ==> #[trigger] nodes@[k]@ == w.steps@[k].id@,
            forall|a: int, b: int| 0 <= a < b < i ==> w.steps@[a].id@ != w.steps@[b].id@,
        decreases n - i,
    {
        let mut j: usize = 0;
        while j < i
            invariant
                0 <= j <= i < n,
                n == w.steps@.len(),
                nodes@.len() == n,
                forall|k: int| 0 <= k < n ==> #[trigger] nodes@[k]@ == w.steps@[k].id@,
                forall|b: int| 0 <= b < j ==> w.steps@[b].id@ != w.steps@[i as int].id@,
            decreases i - j,
        {
            if str_eq(nodes[j].as_str(), nodes[i].as_str()) {
                return Err(OrchestratorError::InvalidDag(crate::strutil::copy_str(
                    "duplicate step id",
                )));
            }
            j = j + 1;
        }
        i = i + 1;
    }

    // Predecessor index rows: position k of row i is the node index of
    // depends_on entry k of step i.
    let mut preds: Vec<Vec<usize>> = Vec::new();
    let mut i: usize = 0;
    while i < n
        invariant
            0 <= i <= n,
            n == w.steps@.len(),
            nodes@.len() == n,
            forall|k: int| 0 <= k < n ==> #[trigger] nodes@[k]@ == w.steps@[k].id@,
            preds@.len() == i,
            forall|a: int, k: int|
                0 <= a < i && 0 <= k < preds@[a]@.len() ==> #[trigger] preds@[a]@[k] < n,
            forall|a: int| 0 <= a < i ==> #[trigger] preds@[a]@.len() == w.steps@[a].depends_on@.len(),
            forall|a: int, k: int|
                0 <= a < i && 0 <= k < w.steps@[a].depends_on@.len()
                    ==> nodes@[#[trigger] preds@[a]@[k] as int]@ == w.steps@[a].depends_on@[k]@,
        decreases n - i,
    {
        let dn = w.steps[i].depends_on.len();
        let mut row: Vec<usize> = Vec::new();
        let mut k: usize = 0;
        while k < dn
            invariant
                0 <= k <= dn,
                0 <= i < n,
                n == w.steps@.len(),
                nodes@.len() == n,
                forall|c: int| 0 <= c < n ==> #[trigger] nodes@[c]@ == w.steps@[c].id@,
                dn == w.steps@[i as int].depends_on@.len(),
                row@.len() == k,
                forall|c: int| 0 <= c < k ==> #[trigger] row@[c] < n,
                forall|c: int|
                    0 <= c < k
                        ==> nodes@[#[trigger] row@[c] as int]@ == w.steps@[i as int].depends_on@[c]@,
            decreases dn - k,
        {
            match index_of_id(&nodes, w.steps[i].depends_on[k].as_str()) {
                Some(j) => {
                    row.push(j);
                },
                None => {
                    proof {
                        let dep = w.steps@[i as int].depends_on@[k as int]@;
                        if spec_declares(w.steps@, dep) {
                            let j = choose|j: int| 0 <= j < w.steps@.len() && w.steps@[j].id@ == dep;
                            assert(nodes@[j]@ == dep);
                        }
                    }
                    return Err(OrchestratorError::InvalidDag(crate::strutil::copy_str(
                        "dependency on undeclared step",
                    )));
                },
            }
            k = k + 1;
        }
        preds.push(row);
        i = i + 1;
    }

    proof {
        assert(spec_dag_schema_ok(w.steps@)) by {
            assert forall|a: int, k: int|
                0 <= a < w.steps@.len() && 0 <= k < w.steps@[a].depends_on@.len()
                implies spec_declares(w.steps@, #[trigger] w.steps@[a].depends_on@[k]@) by {
                let j = preds@[a]@[k] as int;
                assert(w.steps@[j].id@ == w.steps@[a].depends_on@[k]@);
            }
        }
    }

    // Successor rows, inverted from the predecessor rows.
    let mut succs: Vec<Vec<usize>> = Vec::new();
    let mut i: usize = 0;
    while i < n
        invariant
            0 <= i <= n,
            succs@.len() == i,
            forall|a: int| 0 <= a < i ==> #[trigger] succs@[a]@.len() == 0,
        decreases n - i,
    {
        succs.push(Vec::new());
        i = i + 1;
    }
    let mut i: usize = 0;
    while i < n
        invariant
            0 <= i <= n,
            n == w.steps@.len(),
            preds@.len() == n,
            succs@.len() == n,
            forall|a: int, k: int|
                0 <= a < n && 0 <= k < preds@[a]@.len() ==> #[trigger] preds@[a]@[k] < n,
            forall|a: int, k: int|
                0 <= a < n && 0 <= k < succs@[a]@.len() ==> #[trigger] succs@[a]@[k] < n,
        decreases n - i,
    {
        let m = preds[i].len();
        let mut k: usize = 0;
        while k < m
            invariant
                0 <= k <= m,
                0 <= i < n,
                n == w.steps@.len(),
                preds@.len() == n,
                succs@.len() == n,
                m == preds@[i as int]@.len(),
                forall|a: int, c: int|
                    0 <= a < n && 0 <= c < preds@[a]@.len() ==> #[trigger] preds@[a]@[c] < n,
                forall|a: int, c: int|
                    0 <= a < n && 0 <= c < succs@[a]@.len() ==> #[trigger] succs@[a]@[c] < n,
            decreases m - k,
        {
            let p = preds[i][k];
            let mut row = succs[p].clone();
            row.push(i);
            succs[p] = row;
            k = k + 1;
        }
        i = i + 1;
    }

    // Kahn's algorithm, tie-breaking ready nodes by declaration order.
    let (topo, emitted) = kahn_topo(&preds, n);

    if topo.len() < n {
        proof {
            lemma_unemitted_exists(topo@, emitted@, n as int);
        }
        let path = find_cycle_path(w, &nodes, &preds, &emitted);
        return Err(OrchestratorError::CycleDetected(path));
    }


    // All nodes emitted: map the index order to ids.
    let mut order: Vec<String> = Vec::new();
    let mut k: usize = 0;
    while k < n
        invariant
            0 <= k <= n,
            n == w.steps@.len(),
            nodes@.len() == n,
            topo@.len() == n,
            forall|c: int| 0 <= c < n ==> #[trigger] topo@[c] < n,
            order@.len() == k,
            forall|c: int| 0 <= c < k ==> #[trigger] order@[c]@ == nodes@[topo@[c] as int]@,
        decreases n - k,
    {
        order.push(nodes[topo[k]].clone());
        k = k + 1;
    }

    let d = WorkflowDAG { nodes, preds, succs, topo, order };
    proof {
        assert(d.wf());
        assert(d.matches(w.steps@));
        // the id order is a topological order
        let ov = d.order_views();
        assert(ov.len() == w.steps@.len());
        assert forall|a: int, b: int| 0 <= a < b < ov.len() implies ov[a] != ov[b] by {
            let ia = d.topo@[a] as int;
            let ib = d.topo@[b] as int;
            assert(d.topo@[a] != d.topo@[b]);
            assert(spec_ids_unique(w.steps@));
            if ia < ib {
                assert(w.steps@[ia].id@ != w.steps@[ib].id@);
            } else {
                assert(w.steps@[ib].id@ != w.steps@[ia].id@);
            }
        }
        assert forall|a: int| 0 <= a < ov.len() implies spec_declares(w.steps@, #[trigger] ov[a]) by {
            let ia = d.topo@[a] as int;
            assert(w.steps@[ia].id@ == ov[a]);
        }
        assert forall|a: int, b: int|
            0 <= a < ov.len() && 0 <= b < ov.len() && spec_dep_edge(w.steps@, ov[a], ov[b])
            implies a < b by {
            let (i2, k2) = choose|i2: int, k2: int|
                0 <= i2 < w.steps@.len() && 0 <= k2 < w.steps@[i2].depends_on@.len()
                    && w.steps@[i2].id@ == ov[b] && w.steps@[i2].depends_on@[k2]@ == ov[a];
            let ib = d.topo@[b] as int;
            // unique ids force i2 == topo[b]
            assert(w.steps@[ib].id@ == ov[b]);
            assert(i2 == ib) by {
                if i2 != ib {
                    if i2 < ib {
                        assert(w.steps@[i2].id@ != w.steps@[ib].id@);
                    } else {
                        assert(w.steps@[ib].id@ != w.steps@[i2].id@);
                    }
                }
            }
            // the dependency is some predecessor index of node ib
            let p = d.preds@[ib]@[k2];
            assert(d.nodes@[p as int]@ == w.steps@[ib].depends_on@[k2]@);
            // that predecessor appears earlier in topo
            let k3 = choose|k3: int| 0 <= k3 < b && d.topo@[k3] == d.preds@[ib]@[k2];
            // ov[k3] == ov[a], and ov has no duplicates, so k3 == a
            assert(ov[k3] == d.nodes@[p as int]@);
            assert(ov[k3] == ov[a]);
            if k3 != a {
                if k3 < a {
                    assert(ov[k3] != ov[a]);
                } else {
                    assert(ov[a] != ov[k3]);
                }
            }
            assert(a == k3);
        }
        assert(spec_is_topo_order(w.steps@, ov));
    }
    Ok(d)
}

/// A topological order over all the steps contains every declared id.
pub proof fn lemma_topo_order_contains_declared(steps: Seq<Step>, order: Seq<Seq<char>>, id: Seq<char>)
    requires
        spec_ids_unique(steps),
        spec_is_topo_order(steps, order),
        spec_declares(steps, id),
    ensures
        order.contains(id),
{
    let ids = Seq::new(steps.len(), |i: int| steps[i].id@);
    assert(ids.no_duplicates());
    ids.unique_seq_to_set();
    order.unique_seq_to_set();
    assert(order.no_duplicates());
    assert(order.to_set().subset_of(ids.to_set())) by {
        assert forall|x: Seq<char>| order.to_set().contains(x) implies ids.to_set().contains(x) by {
            let a = choose|a: int| 0 <= a < order.len() && order[a] == x;
            assert(spec_declares(steps, order[a]));
            let i = choose|i: int| 0 <= i < steps.len() && steps[i].id@ == x;
            assert(ids[i] == x);
        }
    }
    lemma_subset_equality(order.to_set(), ids.to_set());
    assert(order.to_set() =~= ids.to_set());
    let i = choose|i: int| 0 <= i < steps.len() && steps[i].id@ == id;
    assert(ids[i] == id);
    assert(ids.to_set().contains(id));
}

/// A graph with a topological order over all its steps has no dependency
/// cycle: positions rise strictly along a cycle's edges, yet a cycle's
/// ends share one id.
pub proof fn lemma_topo_order_excludes_cycle(steps: Seq<Step>, order: Seq<Seq<char>>)
    requires
        spec_ids_unique(steps),
        spec_is_topo_order(steps, order),
    ensures
        forall|path: Seq<Seq<char>>| !#[trigger] spec_is_cycle_path(steps, path),
{
    assert forall|path: Seq<Seq<char>>| !#[trigger] spec_is_cycle_path(steps, path) by {
        if spec_is_cycle_path(steps, path) {
            // every node of the path is the target of some edge, so it is a
            // declared id and stands in the order
            assert forall|k: int| 0 <= k < path.len() implies order.contains(#[trigger] path[k]) by {
                if k == 0 {
                    assert(spec_dep_edge(steps, path[path.len() - 2], path[path.len() - 1]));
                    assert(spec_declares(steps, path[path.len() - 1]));
                    assert(path[0] == path[path.len() - 1]);
                    lemma_topo_order_contains_declared(steps, order, path[0]);
                } else {
                    assert(spec_dep_edge(steps, path[k - 1], path[k]));
                    assert(spec_declares(steps, path[k]));
                    lemma_topo_order_contains_declared(steps, order, path[k]);
                }
            }
            let pos = |id: Seq<char>| choose|a: int| 0 <= a < order.len() && order[a] == id;
            assert forall|k: int| 0 <= k < path.len() - 1
                implies #[trigger] pos(path[k]) < pos(path[k + 1]) by {
                assert(order.contains(path[k]));
                assert(order.contains(path[k + 1]));
                let a = pos(path[k]);
                let b = pos(path[k + 1]);
                assert(0 <= a < order.len() && order[a] == path[k]);
                assert(0 <= b < order.len() && order[b] == path[k + 1]);
                assert(spec_dep_edge(steps, order[a], order[b]));
            }
            lemma_path_positions_rise(path, pos, 0, path.len() - 1);
            assert(pos(path[0]) < pos(path[path.len() - 1]));
            assert(path[0] == path[path.len() - 1]);
        }
    }
}

proof fn lemma_path_positions_rise(path: Seq<Seq<char>>, pos: spec_fn(Seq<char>) -> int, a: int, b: int)
    requires
        0 <= a < b < path.len(),
        forall|k: int| 0 <= k < path.len() - 1 ==> #[trigger] pos(path[k]) < pos(path[k + 1]),
    ensures
        pos(path[a]) < pos(path[b]),
    decreases b - a,
{
    if a + 1 == b {
    } else {
        lemma_path_positions_rise(path, pos, a, b - 1);
        assert(pos(path[b - 1]) < pos(path[b]));
    }
}

/// Every dependency stands strictly before its dependent in a topological
/// order: a dispatch that follows the order has each predecessor at a
/// terminal status before the steps depending on it begin.
pub proof fn lemma_dependencies_dispatched_first(
    steps: Seq<Step>,
    order: Seq<Seq<char>>,
    i: int,
    k: int,
)
    requires
        spec_dag_schema_ok(steps),
        spec_is_topo_order(steps, order),
        0 <= i < steps.len(),
        0 <= k < steps[i].depends_on@.len(),
    ensures
        exists|a: int, b: int|
            0 <= a < b < order.len()
                && order[a] == steps[i].depends_on@[k]@
                && order[b] == steps[i].id@,
{
    let dep = steps[i].depends_on@[k]@;
    let id = steps[i].id@;
    lemma_topo_order_contains_declared(steps, order, dep);
    lemma_topo_order_contains_declared(steps, order, id);
    let a = choose|a: int| 0 <= a < order.len() && order[a] == dep;
    let b = choose|b: int| 0 <= b < order.len() && order[b] == id;
    assert(spec_dep_edge(steps, order[a], order[b]));
    assert(a < b);
}

impl WorkflowDAG {
    /// The step ids in a dependency-respecting execution order.
    pub fn execution_order(&self) -> (r: Vec<String>)
        ensures
            r@ == self.order@,
    {
        let n = self.order.len();
        let mut out: Vec<String> = Vec::new();
        let mut i: usize = 0;
        while i < n
            invariant
                0 <= i <= n,
                n == self.order@.len(),
                out@.len() == i,
                forall|k: int| 0 <= k < i ==> #[trigger] out@[k] == self.order@[k],
            decreases n - i,
        {
            out.push(self.order[i].clone());
            i = i + 1;
        }
        proof {
            assert(out@ =~= self.order@);
        }
        out
    }

    /// The ids of the steps the given node index depends on.
    pub fn predecessors_of(&self, i: usize) -> (r: Vec<String>)
        requires
            self.wf(),
            i < self.nodes@.len(),
        ensures
            r@.len() == self.preds@[i as int]@.len(),
            forall|k: int| 0 <= k < r@.len()
                ==> #[trigger] r@[k]@ == self.nodes@[self.preds@[i as int]@[k] as int]@,
    {
        let row_len = self.preds[i].len();
        let mut out: Vec<String> = Vec::new();
        let mut k: usize = 0;
        while k < row_len
            invariant
                0 <= k <= row_len,
                self.wf(),
                (i as int) < self.nodes@.len(),
                row_len == self.preds@[i as int]@.len(),
                out@.len() == k,
                forall|c: int| 0 <= c < k
                    ==> #[trigger] out@[c]@ == self.nodes@[self.preds@[i as int]@[c] as int]@,
            decreases row_len - k,
        {
            out.push(self.nodes[self.preds[i][k]].clone());
            k = k + 1;
        }
        out
    }

    /// The ids of the steps depending on the given node index.
    pub fn successors_of(&self, i: usize) -> (r: Vec<String>)
        requires
            self.wf(),
            i < self.nodes@.len(),
        ensures
            r@.len() == self.succs@[i as int]@.len(),
            forall|k: int| 0 <= k < r@.len()
                ==> #[trigger] r@[k]@ == self.nodes@[self.succs@[i as int]@[k] as int]@,
    {
        let row_len = self.succs[i].len();
        let mut out: Vec<String> = Vec::new();
        let mut k: usize = 0;
        while k < row_len
            invariant
                0 <= k <= row_len,
                self.wf(),
                (i as int) < self.nodes@.len(),
                row_len == self.succs@[i as int]@.len(),
                out@.len() == k,
                forall|c: int| 0 <= c < k
                    ==> #[trigger] out@[c]@ == self.nodes@[self.succs@[i as int]@[c] as int]@,
            decreases row_len - k,
        {
            out.push(self.nodes[self.succs[i][k]].clone());
            k = k + 1;
        }
        out
    }
}

} // verus!
