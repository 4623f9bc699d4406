//! The network of the nodes: whether a tenant can get around the cluster's
//! network by way of the machines under it.

use super::probes::{
    create_host_network_pod, create_node_marker_pod, host_network_pod, node_marker_pod,
    NODE_MARKER_PORT,
};
use super::sweep::{
    candidate_node_addresses, candidates, fresh_attempt, new_attempt, sweep_addresses, sweep_step,
    AttemptView, NodePortAttempt, Sweep, SweepView,
};
use super::verdicts::{at_most, at_most_of};
use crate::cluster::{
    chores_before, reply_views, ClusterReply, ClusterReplyView, ClusterRequest, ClusterRequestView,
    ClusterStep, ClusterStepView, Progress, ProgressView, Side,
};
use crate::control_plane::experiment::pair_views;
use crate::control_plane::names::{fresh_marker, is_marker_with};
use crate::isolation::{CrossTenantResult, CrossTenantView, IsolationLevel, IsolationView};
use crate::text::{chars_of, join, joined, joined4, separated, string_from};
use vstd::prelude::*;
use vstd::string::*;

verus! {

/// A marker for the node network test that no earlier run has used.
pub fn fresh_node_marker() -> (r: String)
    ensures
        is_marker_with(r@, "TENANT1_NODE_MARKER_"@),
{
    fresh_marker("TENANT1_NODE_MARKER_")
}

/// How much of a test has to be taken away again.
#[derive(Debug, Clone, Copy, PartialEq, Eq, Structural)]
pub enum NodeCleanup {
    Nothing,
    MarkerPod,
    /// Both pods, without waiting for them to be gone.
    BothPods,
    /// Both pods, and waiting for them to be gone.
    Everything,
}

/// A result, and what has to be taken away before it is given.
#[derive(Debug)]
pub struct NodeConclusion {
    pub result: CrossTenantResult,
    pub cleanup: NodeCleanup,
}

/// What a conclusion says.
pub struct NodeConclusionView {
    pub result: CrossTenantView,
    pub cleanup: NodeCleanup,
}

impl View for NodeConclusion {
    type V = NodeConclusionView;

    open spec fn view(&self) -> NodeConclusionView {
        NodeConclusionView { result: self.result@, cleanup: self.cleanup }
    }
}

/// The requests that take away what the test left.
pub open spec fn node_chores(cleanup: NodeCleanup) -> Seq<ClusterRequestView> {
    let marker = ClusterRequestView::DeletePod {
        side: Side::Victim,
        name: "node-marker-service"@,
    };
    let probe = ClusterRequestView::DeletePod {
        side: Side::Intruder,
        name: "node-network-probe"@,
    };
    match cleanup {
        NodeCleanup::Nothing => seq![],
        NodeCleanup::MarkerPod => seq![marker],
        NodeCleanup::BothPods => seq![marker, probe],
        NodeCleanup::Everything => seq![
            marker,
            probe,
            ClusterRequestView::AwaitPodDeletion {
                side: Side::Victim,
                name: "node-marker-service"@,
            },
            ClusterRequestView::AwaitPodDeletion {
                side: Side::Intruder,
                name: "node-network-probe"@,
            },
        ],
    }
}

/// A conclusion without a finding.
pub open spec fn node_undetermined(details: Seq<char>, cleanup: NodeCleanup) -> NodeConclusionView {
    NodeConclusionView {
        result: CrossTenantView { isolation: IsolationView::Unknown, autonomy: false, details },
        cleanup,
    }
}

/// What it means that the second tenant could not place its pod: a refusal tells
/// it that a restriction exists; any other failure tells nothing.
pub open spec fn node_refused(reply: ClusterReplyView) -> NodeConclusionView {
    match reply.refusal() {
        Some(why) => NodeConclusionView {
            result: CrossTenantView {
                isolation: IsolationView::Soft(
                    "Tenant2 may not place a pod on the node network: "@ + why,
                ),
                autonomy: false,
                details:
                    "Tenant2 was refused a hostNetwork pod, so it never attempted to reach tenant1 over the node network — "@
                    + why,
            },
            cleanup: NodeCleanup::MarkerPod,
        },
        None => node_undetermined(
            "Tenant2's hostNetwork pod could not be created, and not because a policy refused it: "@
                + reply.error(),
            NodeCleanup::MarkerPod,
        ),
    }
}

/// What the sweep of the node's addresses stands for.
pub open spec fn node_verdict(attempt: AttemptView) -> CrossTenantView {
    let trace = separated(attempt.trace, "; "@);
    match attempt.hit {
        Some(address) => CrossTenantView {
            isolation: IsolationView::NoIsolation,
            autonomy: true,
            details: "Tenant2 read tenant1's marker over the node network at "@ + address
                + ":31337 - the infrastructure network is shared and can be used to bypass cluster network isolation. Attempts: "@
                + trace,
        },
        None => if attempt.exec_failed && !attempt.answered {
            CrossTenantView {
                isolation: IsolationView::Unknown,
                autonomy: false,
                details:
                    "Tenant2's node-network probe could not be run, so nothing was measured. Attempts: "@
                    + trace,
            }
        } else {
            match attempt.unexpected {
                Some(response) => CrossTenantView {
                    isolation: IsolationView::Soft("Partial infrastructure sharing detected"@),
                    autonomy: true,
                    details:
                        "Tenant2 reached something on port 31337 but received an unexpected response: '"@
                        + at_most(response, 100)
                        + "' - may indicate a different service or NAT/proxy in between. Attempts: "@
                        + trace,
                },
                None => CrossTenantView {
                    isolation: IsolationView::Hard,
                    autonomy: true,
                    details:
                        "Tenant2 cannot reach tenant1's node service on port 31337 from the node network - the infrastructure network is not shared between them. Attempts: "@
                        + trace,
                },
            }
        },
    }
}

/// The sweep of the node's addresses.
pub open spec fn node_sweep(
    marker: Seq<char>,
    addresses: Seq<(Seq<char>, Seq<char>)>,
) -> SweepView {
    SweepView {
        side: Side::Intruder,
        pod: "node-network-probe"@,
        route: "tenant2's node network"@,
        targets: addresses,
        port: 31337,
        marker,
    }
}

/// The second tenant's part: its pod on the node's network, the sweep, and the
/// verdict.
pub open spec fn node_probe_step(
    marker: Seq<char>,
    addresses: Seq<(Seq<char>, Seq<char>)>,
    log: Seq<ClusterReplyView>,
    at: int,
) -> ProgressView<NodeConclusionView> {
    let side = Side::Intruder;
    let name = "node-network-probe"@;
    if log.len() <= at {
        ProgressView::Ask(ClusterRequestView::CreatePod { side, pod: host_network_pod(name) })
    } else if log[at].failed() {
        ProgressView::Got(node_refused(log[at]), at + 1)
    } else if log.len() == at + 1 {
        ProgressView::Ask(ClusterRequestView::AwaitReady { side, name })
    } else if log[at + 1].failed() {
        ProgressView::Got(
            node_undetermined(
                "Tenant2's hostNetwork pod was admitted but never became ready, so the node network was never probed: "@
                    + log[at + 1].error(),
                NodeCleanup::BothPods,
            ),
            at + 2,
        )
    } else {
        match sweep_step(
            node_sweep(marker, addresses),
            log,
            fresh_attempt(true),
            seq![],
            0,
            0,
            at + 2,
        ) {
            ProgressView::Ask(request) => ProgressView::Ask(request),
            ProgressView::Stuck(error, at) => ProgressView::Stuck(error, at),
            ProgressView::Got(attempt, at) => ProgressView::Got(
                NodeConclusionView {
                    result: node_verdict(attempt),
                    cleanup: NodeCleanup::Everything,
                },
                at,
            ),
        }
    }
}

/// The test up to its conclusion: the first tenant serves a marker on a port of
/// its node, and the second looks for it from the node's network.
pub open spec fn node_body(marker: Seq<char>, log: Seq<ClusterReplyView>) -> ProgressView<
    NodeConclusionView,
> {
    let side = Side::Victim;
    let name = "node-marker-service"@;
    if log.len() == 0 {
        ProgressView::Ask(
            ClusterRequestView::CreatePod {
                side,
                pod: node_marker_pod(name, marker, 31337i32),
            },
        )
    } else if log[0].failed() {
        ProgressView::Got(
            node_undetermined(
                "Tenant1 could not place a hostNetwork pod to serve the marker, so nothing was planted for tenant2 to look for: "@
                    + log[0].error(),
                NodeCleanup::Nothing,
            ),
            1,
        )
    } else if log.len() == 1 {
        ProgressView::Ask(ClusterRequestView::AwaitReady { side, name })
    } else if log[1].failed() {
        ProgressView::Got(
            node_undetermined(
                "Tenant1 marker pod failed to start: "@ + log[1].error(),
                NodeCleanup::MarkerPod,
            ),
            2,
        )
    } else {
        match candidates(side, name, true, log, 2) {
            ProgressView::Ask(request) => ProgressView::Ask(request),
            ProgressView::Stuck(error, at) => ProgressView::Stuck(error, at),
            ProgressView::Got(addresses, at) => if addresses.len() == 0 {
                ProgressView::Got(
                    node_undetermined(
                        "Could not determine any node address for the infrastructure network test"@,
                        NodeCleanup::MarkerPod,
                    ),
                    at,
                )
            } else {
                node_probe_step(marker, addresses, log, at)
            },
        }
    }
}

/// The node network test: its conclusion, and before that is given the cleaning
/// up it calls for.
pub open spec fn node_step(marker: Seq<char>, log: Seq<ClusterReplyView>) -> ClusterStepView<
    CrossTenantView,
> {
    match node_body(marker, log) {
        ProgressView::Ask(request) => ClusterStepView::Ask(request),
        ProgressView::Stuck(error, _) => ClusterStepView::Abort(error),
        ProgressView::Got(conclusion, at) => chores_before(
            node_chores(conclusion.cleanup),
            log.len() - at,
            ClusterStepView::Done(conclusion.result),
        ),
    }
}

/// A conclusion without a finding.
fn conclude(details: String, cleanup: NodeCleanup) -> (r: NodeConclusion)
    ensures
        r@ == node_undetermined(details@, cleanup),
{
    NodeConclusion {
        result: CrossTenantResult {
            isolation: IsolationLevel::Unknown,
            autonomy: false,
            details,
        },
        cleanup,
    }
}

/// What it means that the second tenant could not place its pod.
fn conclude_refused(reply: &ClusterReply) -> (r: NodeConclusion)
    ensures
        r@ == node_refused(reply@),
{
    match reply.refusal() {
        Some(why) => NodeConclusion {
            result: CrossTenantResult {
                isolation: IsolationLevel::Soft(
                    joined("Tenant2 may not place a pod on the node network: ", &why),
                ),
                autonomy: false,
                details: joined(
                    "Tenant2 was refused a hostNetwork pod, so it never attempted to reach tenant1 over the node network — ",
                    &why,
                ),
            },
            cleanup: NodeCleanup::MarkerPod,
        },
        None => conclude(
            joined(
                "Tenant2's hostNetwork pod could not be created, and not because a policy refused it: ",
                &reply.error(),
            ),
            NodeCleanup::MarkerPod,
        ),
    }
}

/// Judges the sweep of the node's addresses.
pub fn judge_node_network(attempt: &NodePortAttempt) -> (r: CrossTenantResult)
    ensures
        r@ == node_verdict(attempt@),
{
    let trace = join(&attempt.trace, "; ");
    if let Some(address) = &attempt.hit {
        return CrossTenantResult {
            isolation: IsolationLevel::NoIsolation,
            autonomy: true,
            details: joined4(
                "Tenant2 read tenant1's marker over the node network at ",
                address,
                ":31337 - the infrastructure network is shared and can be used to bypass cluster network isolation. Attempts: ",
                &trace,
            ),
        };
    }
    if attempt.exec_failed && !attempt.answered {
        return CrossTenantResult {
            isolation: IsolationLevel::Unknown,
            autonomy: false,
            details: joined(
                "Tenant2's node-network probe could not be run, so nothing was measured. Attempts: ",
                &trace,
            ),
        };
    }
    if let Some(response) = &attempt.unexpected {
        return CrossTenantResult {
            isolation: IsolationLevel::soft("Partial infrastructure sharing detected"),
            autonomy: true,
            details: joined4(
                "Tenant2 reached something on port 31337 but received an unexpected response: '",
                &at_most_of(&chars_of(response), 100),
                "' - may indicate a different service or NAT/proxy in between. Attempts: ",
                &trace,
            ),
        };
    }
    CrossTenantResult {
        isolation: IsolationLevel::Hard,
        autonomy: true,
        details: joined(
            "Tenant2 cannot reach tenant1's node service on port 31337 from the node network - the infrastructure network is not shared between them. Attempts: ",
            &trace,
        ),
    }
}

/// The second tenant's part.
fn probe_node_network(
    marker: &str,
    addresses: &Vec<(String, String)>,
    log: &Vec<ClusterReply>,
    at: usize,
) -> (r: Progress<NodeConclusion>)
    requires
        at <= log.len(),
    ensures
        r@ == node_probe_step(marker@, pair_views(addresses@), reply_views(log@), at as int),
        r matches Progress::Got(_, at) ==> at <= log.len(),
        !(r is Stuck),
{
    let side = Side::Intruder;
    let name = "node-network-probe";
    let count: usize = log.len() - at;
    if count == 0 {
        return Progress::Ask(
            ClusterRequest::CreatePod { side, pod: create_host_network_pod(name) },
        );
    }
    if log[at].failed() {
        return Progress::Got(conclude_refused(&log[at]), at + 1);
    }
    if count == 1 {
        return Progress::Ask(ClusterRequest::AwaitReady { side, name: string_from(name) });
    }
    if log[at + 1].failed() {
        let details = joined(
            "Tenant2's hostNetwork pod was admitted but never became ready, so the node network was never probed: ",
            &log[at + 1].error(),
        );
        return Progress::Got(conclude(details, NodeCleanup::BothPods), at + 2);
    }
    let sweep = Sweep {
        side,
        pod: name,
        route: "tenant2's node network",
        targets: addresses,
        port: NODE_MARKER_PORT,
        marker,
    };
    match sweep_addresses(&sweep, log, new_attempt(true), at + 2) {
        Progress::Ask(request) => Progress::Ask(request),
        Progress::Stuck(error, at) => Progress::Stuck(error, at),
        Progress::Got(attempt, at) => Progress::Got(
            NodeConclusion {
                result: judge_node_network(&attempt),
                cleanup: NodeCleanup::Everything,
            },
            at,
        ),
    }
}

/// The test up to its conclusion.
fn run_to_conclusion(marker: &str, log: &Vec<ClusterReply>) -> (r: Progress<NodeConclusion>)
    ensures
        r@ == node_body(marker@, reply_views(log@)),
        r matches Progress::Got(_, at) ==> at <= log.len(),
        !(r is Stuck),
{
    let side = Side::Victim;
    let name = "node-marker-service";
    if log.len() == 0 {
        return Progress::Ask(
            ClusterRequest::CreatePod {
                side,
                pod: create_node_marker_pod(name, marker, NODE_MARKER_PORT),
            },
        );
    }
    if log[0].failed() {
        let details = joined(
            "Tenant1 could not place a hostNetwork pod to serve the marker, so nothing was planted for tenant2 to look for: ",
            &log[0].error(),
        );
        return Progress::Got(conclude(details, NodeCleanup::Nothing), 1);
    }
    if log.len() == 1 {
        return Progress::Ask(ClusterRequest::AwaitReady { side, name: string_from(name) });
    }
    if log[1].failed() {
        let details = joined("Tenant1 marker pod failed to start: ", &log[1].error());
        return Progress::Got(conclude(details, NodeCleanup::MarkerPod), 2);
    }
    match candidate_node_addresses(side, name, true, log, 2) {
        Progress::Ask(request) => Progress::Ask(request),
        Progress::Stuck(error, at) => Progress::Stuck(error, at),
        Progress::Got(addresses, at) => if addresses.len() == 0 {
            let details = string_from(
                "Could not determine any node address for the infrastructure network test",
            );
            Progress::Got(conclude(details, NodeCleanup::MarkerPod), at)
        } else {
            probe_node_network(marker, &addresses, log, at)
        },
    }
}

/// The request that takes away what the test left, of which `done` are behind.
fn clean_up(cleanup: NodeCleanup, done: usize) -> (r: Option<ClusterRequest>)
    ensures
        match r {
            Some(request) => done < node_chores(cleanup).len() && request@ == node_chores(
                cleanup,
            )[done as int],
            None => done >= node_chores(cleanup).len(),
        },
{
    let marker = string_from("node-marker-service");
    let probe = string_from("node-network-probe");
    let count: usize = match cleanup {
        NodeCleanup::Nothing => 0,
        NodeCleanup::MarkerPod => 1,
        NodeCleanup::BothPods => 2,
        NodeCleanup::Everything => 4,
    };
    if done >= count {
        None
    } else if done == 0 {
        Some(ClusterRequest::DeletePod { side: Side::Victim, name: marker })
    } else if done == 1 {
        Some(ClusterRequest::DeletePod { side: Side::Intruder, name: probe })
    } else if done == 2 {
        Some(ClusterRequest::AwaitPodDeletion { side: Side::Victim, name: marker })
    } else {
        Some(ClusterRequest::AwaitPodDeletion { side: Side::Intruder, name: probe })
    }
}

/// Tests whether the second tenant can read the first tenant's marker over the
/// nodes' network: the step after the replies so far.
pub fn test_node_network_isolation(marker: &str, log: &Vec<ClusterReply>) -> (r: ClusterStep<
    CrossTenantResult,
>)
    ensures
        r@ == node_step(marker@, reply_views(log@)),
{
    match run_to_conclusion(marker, log) {
        Progress::Ask(request) => ClusterStep::Ask(request),
        Progress::Stuck(error, at) => ClusterStep::Abort(error),
        Progress::Got(conclusion, at) => match clean_up(conclusion.cleanup, log.len() - at) {
            Some(request) => ClusterStep::Ask(request),
            None => ClusterStep::Done(conclusion.result),
        },
    }
}

/// A refused pod is never read as full isolation: hard is for an operation that
/// ran and found what a lone tenant would see.
pub proof fn a_refused_node_probe_is_not_isolation(reply: ClusterReplyView)
    ensures
        !(node_refused(reply).result.isolation is Hard),
        !(node_refused(reply).result.isolation is NoIsolation),
        (node_refused(reply).result.isolation is Soft) == (reply.refusal() is Some),
{
}

/// The node's network is read as isolated only where the probe was able to ask
/// and nothing answered, and as breached exactly where the marker was read.
pub proof fn node_verdicts_need_evidence(attempt: AttemptView)
    ensures
        (node_verdict(attempt).isolation is NoIsolation) == (attempt.hit is Some),
        node_verdict(attempt).isolation is Hard ==> attempt.unexpected is None && (
        attempt.exec_failed ==> attempt.answered),
{
}

}
