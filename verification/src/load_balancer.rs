//! Health-aware round-robin selection over a fixed set of upstream nodes.
//!
//! Selection advances a rotation cursor on every attempt and scans at most
//! one full cycle from there, returning the first node eligible at the given
//! time. Forwarding splits in two: selection decides which node to call, and
//! completion feeds the transport's outcome back into that node's breaker.
//! The transport call itself happens outside the core, between the two.

use crate::types::{CallOutcome, GatewayError, RpcResponse, UpstreamConfig};
use crate::types::{spec_call_result, spec_outcome_success};
use crate::upstream::{NodeCondition, UpstreamNode};
use vstd::prelude::*;

verus! {

/// The position `offset` steps after `start` in a rotation over `n` places,
/// for `start < n` and `offset < n`.
pub open spec fn wrap_index(start: int, offset: int, n: int) -> int {
    if start + offset < n {
        start + offset
    } else {
        start + offset - n
    }
}

/// The index of the first node eligible at time `now`, scanning rotation
/// order from `start`, beginning at the given `offset` into the scan; or
/// nothing once the scan has covered the whole cycle.
pub open spec fn spec_first_eligible(
    nodes: Seq<UpstreamNode>,
    start: int,
    offset: int,
    now: u64,
) -> Option<int>
    decreases nodes.len() - offset,
{
    if offset < 0 || offset >= nodes.len() {
        None
    } else {
        let idx = wrap_index(start, offset, nodes.len() as int);
        if nodes[idx].spec_is_healthy(now) {
            Some(idx)
        } else {
            spec_first_eligible(nodes, start, offset + 1, now)
        }
    }
}

/// Distributes requests across multiple upstream RPC nodes, skipping nodes
/// whose breaker is open.
#[derive(Debug)]
pub struct LoadBalancer {
    /// The fixed, ordered set of upstream nodes.
    pub nodes: Vec<UpstreamNode>,
    /// Rotation cursor for round-robin selection; stays below the node count
    /// whenever the set is non-empty.
    pub next_index: usize,
}

impl LoadBalancer {
    /// The balancer's invariant: the cursor is in range and every node's
    /// breaker invariant holds.
    pub open spec fn wf(&self) -> bool {
        &&& (self.nodes.len() > 0 ==> self.next_index < self.nodes.len())
        &&& (forall|i: int| 0 <= i < self.nodes.len() ==> (#[trigger] self.nodes[i]).wf())
    }

    /// Builds one node per configuration entry, all initially healthy, with
    /// the rotation cursor at zero.
    pub fn new(configs: Vec<UpstreamConfig>) -> (r: LoadBalancer)
        ensures
            r.wf(),
            r.next_index == 0,
            r.nodes.len() == configs.len(),
            forall|i: int|
                0 <= i < configs.len() ==> {
                    &&& (#[trigger] r.nodes[i]).config == configs@[i]
                    &&& r.nodes[i].health_status == NodeCondition::Healthy
                    &&& r.nodes[i].last_failure_time is None
                    &&& r.nodes[i].consecutive_failures == 0
                },
    {
        let ghost orig = configs@;
        let mut configs = configs;
        let mut nodes: Vec<UpstreamNode> = Vec::new();
        while configs.len() > 0
            invariant
                nodes@.len() + configs@.len() == orig.len(),
                configs@ == orig.skip(nodes@.len() as int),
                forall|i: int|
                    0 <= i < nodes@.len() ==> {
                        &&& (#[trigger] nodes@[i]).config == orig[i]
                        &&& nodes@[i].health_status == NodeCondition::Healthy
                        &&& nodes@[i].last_failure_time is None
                        &&& nodes@[i].consecutive_failures == 0
                        &&& nodes@[i].wf()
                    },
            decreases configs.len(),
        {
            let ghost prev = configs@;
            let c = configs.remove(0);
            assert(prev.skip(1) =~= orig.skip(nodes@.len() as int + 1));
            nodes.push(UpstreamNode::new(c));
        }
        LoadBalancer { nodes, next_index: 0 }
    }

    /// Advances the rotation cursor by one (wrapping over the node count)
    /// and returns the index of the first node in rotation order, starting
    /// at the cursor's prior position, that is eligible at time `now`; or
    /// nothing, when no node is eligible or the set is empty. Selection
    /// reads the nodes and moves only the cursor.
    #[verifier::loop_isolation(false)]
    pub fn choose_healthy_node(&mut self, now: u64) -> (r: Option<usize>)
        requires
            old(self).wf(),
        ensures
            final(self).wf(),
            final(self).nodes == old(self).nodes,
            old(self).nodes.len() == 0 ==> *final(self) == *old(self),
            old(self).nodes.len() > 0 ==> final(self).next_index as int == wrap_index(
                old(self).next_index as int,
                1,
                old(self).nodes.len() as int,
            ),
            r is None <==> (forall|i: int|
                0 <= i < old(self).nodes.len() ==> !(#[trigger] old(self).nodes[i]).spec_is_healthy(
                    now,
                )),
            match r {
                Some(chosen) => chosen < old(self).nodes.len() && old(
                    self,
                ).nodes[chosen as int].spec_is_healthy(now) && spec_first_eligible(
                    old(self).nodes@,
                    old(self).next_index as int,
                    0,
                    now,
                ) == Some(chosen as int),
                None => spec_first_eligible(
                    old(self).nodes@,
                    old(self).next_index as int,
                    0,
                    now,
                ) is None,
            },
    {
        let n = self.nodes.len();
        if n == 0 {
            return None;
        }
        let start = self.next_index;
        self.next_index = if start + 1 == n {
            0
        } else {
            start + 1
        };
        let mut idx = start;
        let mut j: usize = 0;
        while j < n
            invariant
                self.nodes.len() == n,
                n > 0,
                start < n,
                j <= n,
                idx as int == wrap_index(start as int, j as int, n as int),
                forall|jj: int|
                    0 <= jj < j ==> !self.nodes[#[trigger] wrap_index(
                        start as int,
                        jj,
                        n as int,
                    )].spec_is_healthy(now),
                spec_first_eligible(self.nodes@, start as int, 0, now) == spec_first_eligible(
                    self.nodes@,
                    start as int,
                    j as int,
                    now,
                ),
            decreases n - j,
        {
            if self.nodes[idx].is_healthy(now) {
                proof {
                    assert(spec_first_eligible(self.nodes@, start as int, j as int, now) == Some(
                        idx as int,
                    ));
                }
                return Some(idx);
            }
            proof {
                assert(spec_first_eligible(self.nodes@, start as int, j as int, now)
                    == spec_first_eligible(self.nodes@, start as int, j as int + 1, now));
            }
            idx = if idx + 1 == n {
                0
            } else {
                idx + 1
            };
            j = j + 1;
        }
        proof {
            assert forall|i: int| 0 <= i < n implies !(#[trigger] self.nodes[i]).spec_is_healthy(
                now,
            ) by {
                let jj = if i >= start {
                    i - start
                } else {
                    i + n - start
                };
                assert(i == wrap_index(start as int, jj, n as int));
            }
        }
        None
    }

    /// Selects a node for one forwarded request: the chosen node's index, or
    /// the routing error when no node is eligible. Failing to select touches
    /// no node's breaker state.
    pub fn begin_forward(&mut self, now: u64) -> (r: Result<usize, GatewayError>)
        requires
            old(self).wf(),
        ensures
            final(self).wf(),
            final(self).nodes == old(self).nodes,
            old(self).nodes.len() == 0 ==> *final(self) == *old(self),
            old(self).nodes.len() > 0 ==> final(self).next_index as int == wrap_index(
                old(self).next_index as int,
                1,
                old(self).nodes.len() as int,
            ),
            r is Err <==> (forall|i: int|
                0 <= i < old(self).nodes.len() ==> !(#[trigger] old(self).nodes[i]).spec_is_healthy(
                    now,
                )),
            match r {
                Ok(chosen) => chosen < old(self).nodes.len() && old(
                    self,
                ).nodes[chosen as int].spec_is_healthy(now) && spec_first_eligible(
                    old(self).nodes@,
                    old(self).next_index as int,
                    0,
                    now,
                ) == Some(chosen as int),
                Err(e) => e matches GatewayError::NoHealthyNode && spec_first_eligible(
                    old(self).nodes@,
                    old(self).next_index as int,
                    0,
                    now,
                ) is None,
            },
    {
        match self.choose_healthy_node(now) {
            Some(idx) => Ok(idx),
            None => Err(GatewayError::NoHealthyNode),
        }
    }

    /// Feeds the transport's outcome for a call against node `idx` into that
    /// node's breaker and surfaces the result to the caller. Only the chosen
    /// node changes.
    pub fn complete_forward(&mut self, idx: usize, outcome: CallOutcome, now: u64) -> (r: Result<
        RpcResponse,
        GatewayError,
    >)
        requires
            old(self).wf(),
            idx < old(self).nodes.len(),
            old(self).nodes[idx as int].consecutive_failures < usize::MAX,
        ensures
            final(self).wf(),
            final(self).next_index == old(self).next_index,
            r == spec_call_result(outcome),
            spec_outcome_success(outcome) ==> final(self).nodes@ == old(self).nodes@.update(
                idx as int,
                old(self).nodes@[idx as int].spec_after_success(),
            ),
            !spec_outcome_success(outcome) ==> final(self).nodes@ == old(self).nodes@.update(
                idx as int,
                old(self).nodes@[idx as int].spec_after_failure(now),
            ),
    {
        let mut node = self.nodes.remove(idx);
        let r = node.complete_call(outcome, now);
        self.nodes.insert(idx, node);
        proof {
            assert(final(self).nodes@ =~= old(self).nodes@.update(idx as int, node));
        }
        r
    }

    /// The condition a node's status reports: its label as characters.
    pub open spec fn spec_status_label(c: NodeCondition) -> Seq<char> {
        if c == NodeCondition::Healthy {
            "HEALTHY"@
        } else {
            "UNHEALTHY"@
        }
    }

    /// A point-in-time snapshot: every node's name and its current declared
    /// condition, in node order, with no side effects.
    pub fn get_nodes_status(&self) -> (r: Vec<(String, String)>)
        ensures
            r@.len() == self.nodes.len(),
            forall|i: int|
                0 <= i < self.nodes.len() ==> {
                    &&& (#[trigger] r@[i]).0@ == self.nodes[i].config.name@
                    &&& r@[i].1@ == Self::spec_status_label(self.nodes[i].health_status)
                },
    {
        let mut r: Vec<(String, String)> = Vec::new();
        let mut i: usize = 0;
        while i < self.nodes.len()
            invariant
                i <= self.nodes.len(),
                r@.len() == i,
                forall|k: int|
                    0 <= k < i ==> {
                        &&& (#[trigger] r@[k]).0@ == self.nodes[k].config.name@
                        &&& r@[k].1@ == Self::spec_status_label(self.nodes[k].health_status)
                    },
            decreases self.nodes.len() - i,
        {
            let name = self.nodes[i].config.name.clone();
            let label = match self.nodes[i].get_status() {
                NodeCondition::Healthy => String::from_str("HEALTHY"),
                NodeCondition::Unhealthy => String::from_str("UNHEALTHY"),
            };
            r.push((name, label));
            i = i + 1;
        }
        r
    }
}

} // verus!
