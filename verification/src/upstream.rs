//! Upstream RPC node management with a circuit breaker.
//!
//! Each node tracks its own condition and trips open after consecutive
//! failures, so traffic stops reaching a failing backend. All transitions are
//! plain functions of the prior state, the outcome, and the current time (in
//! milliseconds), so each one is stated and proved exactly.

use crate::types::{CallOutcome, GatewayError, RpcResponse, UpstreamConfig};
use crate::types::{spec_call_result, spec_outcome_success};
use vstd::prelude::*;

verus! {

/// Consecutive failures at which the circuit opens.
pub const MAX_CONSECUTIVE_FAILURES: usize = 3;

/// How long (in milliseconds) an unhealthy node waits before it becomes
/// eligible for a trial call again.
pub const COOLDOWN_MILLIS: u64 = 60000;

/// Health status of an upstream RPC node.
#[derive(Debug, Clone, Copy, PartialEq, Eq, Structural)]
pub enum NodeCondition {
    /// Node is operational and accepting requests.
    Healthy,
    /// Node has exceeded the failure threshold and is temporarily disabled.
    Unhealthy,
}

/// One upstream RPC node: its configuration and its circuit-breaker state.
#[derive(Debug)]
pub struct UpstreamNode {
    /// Configuration containing node name and URL.
    pub config: UpstreamConfig,
    /// Current declared condition of the node.
    pub health_status: NodeCondition,
    /// When (in milliseconds) the breaker tripped; present exactly while the
    /// node is unhealthy.
    pub last_failure_time: Option<u64>,
    /// Count of consecutive failures.
    pub consecutive_failures: usize,
}

impl UpstreamNode {
    /// The breaker's invariant: the failure timestamp is present exactly
    /// while the node is unhealthy, the counter stays under the threshold
    /// while it is healthy, and reached it when the breaker tripped.
    pub open spec fn wf(&self) -> bool {
        &&& (self.health_status == NodeCondition::Unhealthy <==> self.last_failure_time is Some)
        &&& (self.health_status == NodeCondition::Healthy ==> self.consecutive_failures
            < MAX_CONSECUTIVE_FAILURES)
        &&& (self.health_status == NodeCondition::Unhealthy ==> self.consecutive_failures
            >= MAX_CONSECUTIVE_FAILURES)
    }

    /// Whether the node may receive traffic at time `now`: it is healthy, or
    /// it is unhealthy and the cooldown has fully elapsed since the breaker
    /// tripped.
    pub open spec fn spec_is_healthy(&self, now: u64) -> bool {
        match self.health_status {
            NodeCondition::Healthy => true,
            NodeCondition::Unhealthy => match self.last_failure_time {
                Some(t) => now >= t + COOLDOWN_MILLIS,
                None => false,
            },
        }
    }

    /// The state after one recorded failure at time `now`: the counter grows
    /// by one, and the breaker trips (condition unhealthy, timestamp stamped
    /// at `now`) exactly when that brings a healthy node to the threshold.
    pub open spec fn spec_after_failure(self, now: u64) -> UpstreamNode {
        if self.health_status == NodeCondition::Healthy && self.consecutive_failures + 1
            >= MAX_CONSECUTIVE_FAILURES {
            UpstreamNode {
                config: self.config,
                health_status: NodeCondition::Unhealthy,
                last_failure_time: Some(now),
                consecutive_failures: (self.consecutive_failures + 1) as usize,
            }
        } else {
            UpstreamNode {
                config: self.config,
                health_status: self.health_status,
                last_failure_time: self.last_failure_time,
                consecutive_failures: (self.consecutive_failures + 1) as usize,
            }
        }
    }

    /// The state after one recorded success: the counter resets, and an
    /// unhealthy node returns to healthy with its failure timestamp cleared.
    pub open spec fn spec_after_success(self) -> UpstreamNode {
        UpstreamNode {
            config: self.config,
            health_status: NodeCondition::Healthy,
            last_failure_time: if self.health_status == NodeCondition::Unhealthy {
                None
            } else {
                self.last_failure_time
            },
            consecutive_failures: 0,
        }
    }

    /// Creates a node in the initial state: healthy, zero failures, no
    /// failure timestamp.
    pub fn new(config: UpstreamConfig) -> (r: UpstreamNode)
        ensures
            r.config == config,
            r.health_status == NodeCondition::Healthy,
            r.last_failure_time is None,
            r.consecutive_failures == 0,
            r.wf(),
    {
        UpstreamNode {
            config,
            health_status: NodeCondition::Healthy,
            last_failure_time: None,
            consecutive_failures: 0,
        }
    }

    /// Whether the node is eligible for traffic at time `now`. Reading this
    /// never changes the stored state: an unhealthy node whose cooldown has
    /// elapsed becomes selectable, but stays declared unhealthy until an
    /// actual outcome is recorded.
    pub fn is_healthy(&self, now: u64) -> (r: bool)
        ensures
            r == self.spec_is_healthy(now),
    {
        match self.health_status {
            NodeCondition::Healthy => true,
            NodeCondition::Unhealthy => {
                match self.last_failure_time {
                    Some(t) => now >= COOLDOWN_MILLIS && now - COOLDOWN_MILLIS >= t,
                    None => false,
                }
            },
        }
    }

    /// Records a failed call at time `now`.
    pub fn record_failure(&mut self, now: u64)
        requires
            old(self).consecutive_failures < usize::MAX,
        ensures
            *final(self) == old(self).spec_after_failure(now),
            old(self).wf() ==> final(self).wf(),
    {
        self.consecutive_failures = self.consecutive_failures + 1;
        if self.consecutive_failures >= MAX_CONSECUTIVE_FAILURES {
            if self.health_status == NodeCondition::Healthy {
                self.health_status = NodeCondition::Unhealthy;
                self.last_failure_time = Some(now);
            }
        }
    }

    /// Records a successful call.
    pub fn record_success(&mut self)
        ensures
            *final(self) == old(self).spec_after_success(),
            old(self).wf() ==> final(self).wf(),
    {
        self.consecutive_failures = 0;
        if self.health_status == NodeCondition::Unhealthy {
            self.health_status = NodeCondition::Healthy;
            self.last_failure_time = None;
        }
    }

    /// Feeds one transport outcome into the breaker and surfaces the result:
    /// the clean response on success, the describing error otherwise.
    pub fn complete_call(&mut self, outcome: CallOutcome, now: u64) -> (r: Result<
        RpcResponse,
        GatewayError,
    >)
        requires
            old(self).consecutive_failures < usize::MAX,
        ensures
            r == spec_call_result(outcome),
            spec_outcome_success(outcome) ==> *final(self) == old(self).spec_after_success(),
            !spec_outcome_success(outcome) ==> *final(self) == old(self).spec_after_failure(now),
            old(self).wf() ==> final(self).wf(),
    {
        match outcome {
            CallOutcome::TransportError(m) => {
                self.record_failure(now);
                Err(GatewayError::TransportFailure(m))
            },
            CallOutcome::Timeout(m) => {
                self.record_failure(now);
                Err(GatewayError::TimeoutFailure(m))
            },
            CallOutcome::HttpStatus(c) => {
                self.record_failure(now);
                Err(GatewayError::UpstreamStatusFailure(c))
            },
            CallOutcome::ParseError(m) => {
                self.record_failure(now);
                Err(GatewayError::TransportFailure(m))
            },
            CallOutcome::Response(resp) => {
                match resp.error {
                    Some(e) => {
                        self.record_failure(now);
                        Err(GatewayError::RpcProtocolFailure(e))
                    },
                    None => {
                        self.record_success();
                        Ok(resp)
                    },
                }
            },
        }
    }

    /// Records a failure, as a real failed call would.
    pub fn force_mark_failure(&mut self, now: u64)
        requires
            old(self).consecutive_failures < usize::MAX,
        ensures
            *final(self) == old(self).spec_after_failure(now),
            old(self).wf() ==> final(self).wf(),
    {
        self.record_failure(now);
    }

    /// Records a success, as a real successful call would.
    pub fn force_mark_success(&mut self)
        ensures
            *final(self) == old(self).spec_after_success(),
            old(self).wf() ==> final(self).wf(),
    {
        self.record_success();
    }

    /// The node's configured name.
    pub fn get_name(&self) -> (r: &str)
        ensures
            r@ == self.config.name@,
    {
        self.config.name.as_str()
    }

    /// The node's current declared condition.
    pub fn get_status(&self) -> (r: NodeCondition)
        ensures
            r == self.health_status,
    {
        self.health_status
    }

    /// The current consecutive-failure count.
    pub fn get_consecutive_failures(&self) -> (r: usize)
        ensures
            r == self.consecutive_failures,
    {
        self.consecutive_failures
    }

    /// The state after `count` recorded failures in a row, all at time `now`.
    pub open spec fn spec_after_failures(self, count: nat, now: u64) -> UpstreamNode
        decreases count,
    {
        if count == 0 {
            self
        } else {
            self.spec_after_failures((count - 1) as nat, now).spec_after_failure(now)
        }
    }
}

/// Recorded failures open the circuit exactly at the threshold: a healthy
/// node stays healthy while its counter is below the failure threshold, and
/// the failure that brings the counter to the threshold trips the breaker,
/// setting the failure timestamp at that moment.
pub proof fn lemma_threshold_opens_circuit(n: UpstreamNode, count: nat, now: u64)
    requires
        n.health_status == NodeCondition::Healthy,
        n.consecutive_failures + count <= MAX_CONSECUTIVE_FAILURES,
    ensures
        n.consecutive_failures + count < MAX_CONSECUTIVE_FAILURES ==> {
            let r = n.spec_after_failures(count, now);
            &&& r.health_status == NodeCondition::Healthy
            &&& r.consecutive_failures == n.consecutive_failures + count
            &&& r.last_failure_time == n.last_failure_time
        },
        n.consecutive_failures + count == MAX_CONSECUTIVE_FAILURES && count > 0 ==> {
            let r = n.spec_after_failures(count, now);
            &&& r.health_status == NodeCondition::Unhealthy
            &&& r.consecutive_failures == MAX_CONSECUTIVE_FAILURES
            &&& r.last_failure_time == Some(now)
        },
    decreases count,
{
    if count > 0 {
        lemma_threshold_opens_circuit(n, (count - 1) as nat, now);
    }
}

} // verus!
