//! Two tenants and one node port: whether the second can reach what the first
//! exposes.

use super::probes::{
    create_network_multitool_pod, create_nodeport_marker_pod, create_nodeport_service_with_selector,
    create_nodeport_service_with_selector_view, multitool_pod, nodeport_marker_pod,
};
use super::sweep::{
    await_serving, candidate_node_addresses, candidates, marker_is_being_served, probe_marker_from,
    probe_step, AttemptView, NodePortAttempt, Sweep, SweepView,
};
use super::verdicts::{at_most, at_most_of};
use crate::cluster::{
    chores_before, reply_views, ClusterReply, ClusterReplyView, ClusterRequest, ClusterRequestView,
    ClusterStep, ClusterStepView, Progress, ProgressView, Side,
};
use crate::control_plane::experiment::{pair_views, text_view};
use crate::control_plane::names::{fresh_marker, is_marker_with};
use crate::isolation::{CrossTenantResult, CrossTenantView, IsolationLevel, IsolationView};
use crate::text::{
    chars_of, has_text, join, joined, joined3, joined4, occurs_at, separated, string_from,
};
use vstd::prelude::*;
use vstd::string::*;

verus! {

/// One run of the test: a marker of each tenant that the other cannot guess, and
/// the two namespaces.
#[derive(Debug)]
pub struct NodePortTest {
    pub marker: String,
    pub own_marker: String,
    pub first_namespace: String,
    pub second_namespace: String,
}

/// What a run says.
pub struct NodePortView {
    pub marker: Seq<char>,
    pub own_marker: Seq<char>,
    pub first_namespace: Seq<char>,
    pub second_namespace: Seq<char>,
}

impl View for NodePortTest {
    type V = NodePortView;

    open spec fn view(&self) -> NodePortView {
        NodePortView {
            marker: self.marker@,
            own_marker: self.own_marker@,
            first_namespace: self.first_namespace@,
            second_namespace: self.second_namespace@,
        }
    }
}

impl NodePortTest {
    /// A run in the two namespaces, with markers that no earlier run has used.
    pub fn new(first_namespace: &str, second_namespace: &str) -> (r: NodePortTest)
        ensures
            is_marker_with(r@.marker, "TENANT1_NODEPORT_MARKER_"@),
            is_marker_with(r@.own_marker, "TENANT2_NODEPORT_MARKER_"@),
            r@.first_namespace == first_namespace@,
            r@.second_namespace == second_namespace@,
    {
        NodePortTest {
            marker: fresh_marker("TENANT1_NODEPORT_MARKER_"),
            own_marker: fresh_marker("TENANT2_NODEPORT_MARKER_"),
            first_namespace: string_from(first_namespace),
            second_namespace: string_from(second_namespace),
        }
    }
}

/// How much of a test has to be taken away again.
#[derive(Debug, Clone, Copy, PartialEq, Eq, Structural)]
pub enum Cleanup {
    Nothing,
    MarkerPod,
    Everything,
}

/// A result, and what has to be taken away before it is given.
#[derive(Debug)]
pub struct Conclusion {
    pub result: CrossTenantResult,
    pub cleanup: Cleanup,
}

/// What a conclusion says.
pub struct ConclusionView {
    pub result: CrossTenantView,
    pub cleanup: Cleanup,
}

impl View for Conclusion {
    type V = ConclusionView;

    open spec fn view(&self) -> ConclusionView {
        ConclusionView { result: self.result@, cleanup: self.cleanup }
    }
}

/// The requests that take away what the test left.
pub open spec fn nodeport_chores(cleanup: Cleanup) -> Seq<ClusterRequestView> {
    let first = Side::Victim;
    let second = Side::Intruder;
    match cleanup {
        Cleanup::Nothing => seq![],
        Cleanup::MarkerPod => seq![
            ClusterRequestView::DeletePod { side: first, name: "nodeport-marker-pod"@ },
        ],
        Cleanup::Everything => seq![
            ClusterRequestView::DeleteService { side: first, name: "autonomy-test-service"@ },
            ClusterRequestView::DeletePod { side: first, name: "nodeport-marker-pod"@ },
            ClusterRequestView::DeleteService { side: second, name: "autonomy-test-service"@ },
            ClusterRequestView::DeletePod { side: second, name: "nodeport-probe"@ },
            ClusterRequestView::DeletePod { side: second, name: "nodeport-marker-pod-t2"@ },
            ClusterRequestView::AwaitServiceDeletion {
                side: first,
                name: "autonomy-test-service"@,
            },
            ClusterRequestView::AwaitPodDeletion { side: first, name: "nodeport-marker-pod"@ },
            ClusterRequestView::AwaitPodDeletion { side: second, name: "nodeport-probe"@ },
            ClusterRequestView::AwaitPodDeletion {
                side: second,
                name: "nodeport-marker-pod-t2"@,
            },
        ],
    }
}

/// A conclusion without a finding.
pub open spec fn undetermined(
    autonomy: bool,
    details: Seq<char>,
    cleanup: Cleanup,
) -> ConclusionView {
    ConclusionView {
        result: CrossTenantView { isolation: IsolationView::Unknown, autonomy, details },
        cleanup,
    }
}

/// Nothing was ever asked of the node port: the probe could not be placed, or
/// no command could be run in it and nothing else answered.
pub open spec fn never_probed(attempt: AttemptView) -> bool {
    attempt.hit is None && (!attempt.placed || (attempt.exec_failed && !attempt.answered))
}

/// What the attempt stands for, the strongest finding first: a marker that was
/// read is a breach performed; a port that could not be claimed discloses the
/// other tenant; another answer proves nothing either way; and silence is
/// isolation only where the second tenant could reach a node port of its own.
pub open spec fn nodeport_verdict(
    collision: Option<Seq<char>>,
    control: Option<bool>,
    attempt: AttemptView,
) -> CrossTenantView {
    let trace = separated(attempt.trace, "; "@);
    if never_probed(attempt) {
        CrossTenantView {
            isolation: IsolationView::Unknown,
            autonomy: true,
            details:
                "The NodePort was never actually probed from tenant2, so nothing was measured — "@
                + trace,
        }
    } else {
        match (attempt.hit, collision, attempt.unexpected) {
            (Some(address), _, _) => CrossTenantView {
                isolation: IsolationView::NoIsolation,
                autonomy: true,
                details: "Tenant2 read tenant1's marker at "@ + address
                    + ":30080 from an ordinary pod on its own network - NodePort traffic is not isolated between tenants. "@
                    + if collision is Some {
                    "The tenants also share one NodePort space."@
                } else {
                    "Both tenants hold the same NodePort number independently."@
                },
            },
            (None, Some(why), _) => CrossTenantView {
                isolation: IsolationView::Soft(
                    "Tenant2 cannot hold NodePort 30080 while tenant1 does"@,
                ),
                autonomy: true,
                details:
                    "Tenants share one NodePort space: tenant2 was refused port 30080 because tenant1 holds it, which tells it another tenant is there, though it could not reach tenant1's service — "@
                    + why + ". Attempts: "@ + trace,
            },
            (None, None, Some(response)) => CrossTenantView {
                isolation: IsolationView::Soft(
                    "Something other than tenant1's service answered on the shared port number"@,
                ),
                autonomy: true,
                details:
                    "Tenant2 reached an endpoint on port 30080 but received an unexpected response: '"@
                    + at_most(response, 100)
                    + "' - a different service or a proxy in between. Attempts: "@ + trace,
            },
            (None, None, None) => if control == Some(false) {
                CrossTenantView {
                    isolation: IsolationView::Unknown,
                    autonomy: true,
                    details:
                        "Tenant2 could not reach its own NodePort 30080 by its own node's address, so it could not have reached tenant1's either and nothing was measured. Attempts: "@
                        + trace,
                }
            } else {
                CrossTenantView {
                    isolation: IsolationView::Hard,
                    autonomy: true,
                    details:
                        "Both tenants hold NodePort 30080 independently, tenant2 can reach its own by node address, and tenant1's does not answer it - NodePort traffic is isolated. Attempts: "@
                        + trace,
                }
            },
        }
    }
}

/// The probe of the second tenant's own node port.
pub open spec fn own_sweep(
    test: NodePortView,
    addresses: Seq<(Seq<char>, Seq<char>)>,
) -> SweepView {
    SweepView {
        side: Side::Intruder,
        pod: "nodeport-selftest"@,
        route: "tenant2's own NodePort"@,
        targets: addresses,
        port: 30080,
        marker: test.own_marker,
    }
}

/// The probe of the first tenant's node port.
pub open spec fn cross_sweep(
    test: NodePortView,
    addresses: Seq<(Seq<char>, Seq<char>)>,
) -> SweepView {
    SweepView {
        side: Side::Intruder,
        pod: "nodeport-probe"@,
        route: "tenant2's pod network"@,
        targets: addresses,
        port: 30080,
        marker: test.marker,
    }
}

/// The control: whether the second tenant can reach a node port that it owns.
/// Without the port there is nothing to control.
pub open spec fn control_step(
    test: NodePortView,
    collision: Option<Seq<char>>,
    log: Seq<ClusterReplyView>,
    at: int,
) -> ProgressView<Option<bool>> {
    let pod = "nodeport-marker-pod-t2"@;
    if collision is Some {
        ProgressView::Got(None, at)
    } else {
        match candidates(Side::Intruder, pod, false, log, at) {
            ProgressView::Ask(request) => ProgressView::Ask(request),
            ProgressView::Stuck(error, at) => ProgressView::Stuck(error, at),
            ProgressView::Got(own, at) => if own.len() == 0 {
                ProgressView::Got(Some(false), at)
            } else {
                match await_serving(Side::Intruder, pod, test.own_marker, log, 0, at) {
                    ProgressView::Ask(request) => ProgressView::Ask(request),
                    ProgressView::Stuck(error, at) => ProgressView::Stuck(error, at),
                    ProgressView::Got(serving, at) => if !serving {
                        ProgressView::Got(Some(false), at)
                    } else {
                        match probe_step(
                            multitool_pod("nodeport-selftest"@),
                            own_sweep(test, own),
                            log,
                            at,
                        ) {
                            ProgressView::Ask(request) => ProgressView::Ask(request),
                            ProgressView::Stuck(error, at) => ProgressView::Stuck(error, at),
                            ProgressView::Got(attempt, at) => ProgressView::Got(
                                Some(attempt.hit is Some),
                                at,
                            ),
                        }
                    },
                }
            },
        }
    }
}

/// The control, the probe and the verdict, once the addresses are known.
pub open spec fn reach_step(
    test: NodePortView,
    collision: Option<Seq<char>>,
    addresses: Seq<(Seq<char>, Seq<char>)>,
    log: Seq<ClusterReplyView>,
    at: int,
) -> ProgressView<ConclusionView> {
    match control_step(test, collision, log, at) {
        ProgressView::Ask(request) => ProgressView::Ask(request),
        ProgressView::Stuck(error, at) => ProgressView::Stuck(error, at),
        ProgressView::Got(control, at) => match probe_step(
            multitool_pod("nodeport-probe"@),
            cross_sweep(test, addresses),
            log,
            at,
        ) {
            ProgressView::Ask(request) => ProgressView::Ask(request),
            ProgressView::Stuck(error, at) => ProgressView::Stuck(error, at),
            ProgressView::Got(attempt, at) => ProgressView::Got(
                ConclusionView {
                    result: nodeport_verdict(collision, control, attempt),
                    cleanup: Cleanup::Everything,
                },
                at,
            ),
        },
    }
}

/// The service on the node port, in front of a tenant's marker pod.
pub open spec fn marker_service(side: Side, namespace: Seq<char>) -> ClusterRequestView {
    ClusterRequestView::CreateService {
        side,
        manifest: create_nodeport_service_with_selector_view(
            namespace,
            "autonomy-test-service"@,
            30080,
            "nodeport-marker"@,
        ).manifest,
    }
}

/// The second tenant's claim to the same port, with a marker of its own behind
/// it, and what follows.
pub open spec fn claim_step(test: NodePortView, log: Seq<ClusterReplyView>, at: int) -> ProgressView<
    ConclusionView,
> {
    if log.len() <= at {
        ProgressView::Ask(
            ClusterRequestView::CreatePod {
                side: Side::Intruder,
                pod: nodeport_marker_pod("nodeport-marker-pod-t2"@, test.own_marker),
            },
        )
    } else if log.len() == at + 1 {
        ProgressView::Ask(marker_service(Side::Intruder, test.second_namespace))
    } else {
        let collision = if log[at + 1].failed() {
            Some(log[at + 1].error())
        } else {
            None
        };
        match candidates(Side::Victim, "nodeport-marker-pod"@, false, log, at + 2) {
            ProgressView::Ask(request) => ProgressView::Ask(request),
            ProgressView::Stuck(error, at) => ProgressView::Stuck(error, at),
            ProgressView::Got(addresses, at) => if addresses.len() == 0 {
                ProgressView::Got(
                    undetermined(
                        true,
                        "Could not determine any node address for the NodePort test"@,
                        Cleanup::Everything,
                    ),
                    at,
                )
            } else {
                reach_step(test, collision, addresses, log, at)
            },
        }
    }
}

/// The test up to its conclusion: the first tenant serves its marker on the
/// node port, and it is confirmed that it does; the second claims the same port
/// and probes.
pub open spec fn nodeport_body(test: NodePortView, log: Seq<ClusterReplyView>) -> ProgressView<
    ConclusionView,
> {
    let side = Side::Victim;
    if log.len() == 0 {
        ProgressView::Ask(
            ClusterRequestView::CreatePod {
                side,
                pod: nodeport_marker_pod("nodeport-marker-pod"@, test.marker),
            },
        )
    } else if log[0].failed() {
        ProgressView::Got(
            undetermined(
                false,
                "Could not create marker pod in tenant1: Some("@ + log[0].debug() + ")"@,
                Cleanup::Nothing,
            ),
            1,
        )
    } else if log.len() == 1 {
        ProgressView::Ask(
            ClusterRequestView::AwaitReady { side, name: "nodeport-marker-pod"@ },
        )
    } else if log[1].failed() {
        ProgressView::Got(
            undetermined(
                false,
                "Tenant1 marker pod failed to start: "@ + log[1].error(),
                Cleanup::MarkerPod,
            ),
            2,
        )
    } else if log.len() == 2 {
        ProgressView::Ask(marker_service(side, test.first_namespace))
    } else if log[2].failed() {
        ProgressView::Got(
            undetermined(
                false,
                "Could not create NodePort service in tenant1: Some("@ + log[2].debug() + ")"@,
                Cleanup::MarkerPod,
            ),
            3,
        )
    } else {
        match await_serving(side, "nodeport-marker-pod"@, test.marker, log, 0, 3) {
            ProgressView::Ask(request) => ProgressView::Ask(request),
            ProgressView::Stuck(error, at) => ProgressView::Stuck(error, at),
            ProgressView::Got(serving, at) => if serving {
                claim_step(test, log, at)
            } else {
                ProgressView::Got(
                    undetermined(
                        true,
                        "Tenant1's NodePort service never began serving its marker, so tenant2 finding nothing proves nothing about isolation"@,
                        Cleanup::Everything,
                    ),
                    at,
                )
            },
        }
    }
}

/// The node port test: its conclusion, and before that is given the cleaning up
/// it calls for.
pub open spec fn nodeport_step(test: NodePortView, log: Seq<ClusterReplyView>) -> ClusterStepView<
    CrossTenantView,
> {
    match nodeport_body(test, log) {
        ProgressView::Ask(request) => ClusterStepView::Ask(request),
        ProgressView::Stuck(error, _) => ClusterStepView::Abort(error),
        ProgressView::Got(conclusion, at) => chores_before(
            nodeport_chores(conclusion.cleanup),
            log.len() - at,
            ClusterStepView::Done(conclusion.result),
        ),
    }
}

/// Judges the attempt.
pub fn judge_nodeport(
    collision: &Option<String>,
    control: Option<bool>,
    attempt: &NodePortAttempt,
) -> (r: CrossTenantResult)
    ensures
        r@ == nodeport_verdict(text_view(*collision), control, attempt@),
{
    let trace = join(&attempt.trace, "; ");
    if attempt.hit.is_none() && (!attempt.placed || (attempt.exec_failed && !attempt.answered)) {
        return CrossTenantResult {
            isolation: IsolationLevel::Unknown,
            autonomy: true,
            details: joined(
                "The NodePort was never actually probed from tenant2, so nothing was measured — ",
                &trace,
            ),
        };
    }
    if let Some(address) = &attempt.hit {
        let ports = if collision.is_some() {
            "The tenants also share one NodePort space."
        } else {
            "Both tenants hold the same NodePort number independently."
        };
        return CrossTenantResult {
            isolation: IsolationLevel::NoIsolation,
            autonomy: true,
            details: joined4(
                "Tenant2 read tenant1's marker at ",
                address,
                ":30080 from an ordinary pod on its own network - NodePort traffic is not isolated between tenants. ",
                ports,
            ),
        };
    }
    if let Some(why) = collision {
        return CrossTenantResult {
            isolation: IsolationLevel::soft(
                "Tenant2 cannot hold NodePort 30080 while tenant1 does",
            ),
            autonomy: true,
            details: joined4(
                "Tenants share one NodePort space: tenant2 was refused port 30080 because tenant1 holds it, which tells it another tenant is there, though it could not reach tenant1's service — ",
                why,
                ". Attempts: ",
                &trace,
            ),
        };
    }
    if let Some(response) = &attempt.unexpected {
        return CrossTenantResult {
            isolation: IsolationLevel::soft(
                "Something other than tenant1's service answered on the shared port number",
            ),
            autonomy: true,
            details: joined4(
                "Tenant2 reached an endpoint on port 30080 but received an unexpected response: '",
                &at_most_of(&chars_of(response), 100),
                "' - a different service or a proxy in between. Attempts: ",
                &trace,
            ),
        };
    }
    if let Some(false) = control {
        return CrossTenantResult {
            isolation: IsolationLevel::Unknown,
            autonomy: true,
            details: joined(
                "Tenant2 could not reach its own NodePort 30080 by its own node's address, so it could not have reached tenant1's either and nothing was measured. Attempts: ",
                &trace,
            ),
        };
    }
    CrossTenantResult {
        isolation: IsolationLevel::Hard,
        autonomy: true,
        details: joined(
            "Both tenants hold NodePort 30080 independently, tenant2 can reach its own by node address, and tenant1's does not answer it - NodePort traffic is isolated. Attempts: ",
            &trace,
        ),
    }
}

/// What the control has come to.
pub open spec fn control_view(progress: Progress<Option<bool>>) -> ProgressView<Option<bool>> {
    match progress {
        Progress::Ask(request) => ProgressView::Ask(request@),
        Progress::Got(control, at) => ProgressView::Got(control, at as int),
        Progress::Stuck(error, at) => ProgressView::Stuck(error@, at as int),
    }
}

/// Whether the second tenant can reach a node port that it owns.
fn run_control(test: &NodePortTest, collided: bool, log: &Vec<ClusterReply>, at: usize) -> (r:
    Progress<Option<bool>>)
    requires
        at <= log.len(),
    ensures
        forall|collision: Option<Seq<char>>|
            (collision is Some) == collided ==> control_view(r) == #[trigger] control_step(
                test@,
                collision,
                reply_views(log@),
                at as int,
            ),
        r matches Progress::Got(_, at) ==> at <= log.len(),
        !(r is Stuck),
{
    let pod = "nodeport-marker-pod-t2";
    if collided {
        return Progress::Got(None, at);
    }
    let (own, at) = match candidate_node_addresses(Side::Intruder, pod, false, log, at) {
        Progress::Ask(request) => {
            return Progress::Ask(request);
        },
        Progress::Stuck(error, at) => {
            return Progress::Stuck(error, at);
        },
        Progress::Got(own, at) => (own, at),
    };
    if own.len() == 0 {
        return Progress::Got(Some(false), at);
    }
    let (serving, at) = match marker_is_being_served(
        Side::Intruder,
        pod,
        &test.own_marker,
        log,
        at,
    ) {
        Progress::Ask(request) => {
            return Progress::Ask(request);
        },
        Progress::Stuck(error, at) => {
            return Progress::Stuck(error, at);
        },
        Progress::Got(serving, at) => (serving, at),
    };
    if !serving {
        return Progress::Got(Some(false), at);
    }
    let sweep = Sweep {
        side: Side::Intruder,
        pod: "nodeport-selftest",
        route: "tenant2's own NodePort",
        targets: &own,
        port: 30080,
        marker: &test.own_marker,
    };
    match probe_marker_from(&create_network_multitool_pod("nodeport-selftest"), &sweep, log, at) {
        Progress::Ask(request) => Progress::Ask(request),
        Progress::Stuck(error, at) => Progress::Stuck(error, at),
        Progress::Got(attempt, at) => Progress::Got(Some(attempt.hit.is_some()), at),
    }
}

/// The control, the probe and the verdict, once the addresses are known.
fn reach(
    test: &NodePortTest,
    collision: &Option<String>,
    addresses: &Vec<(String, String)>,
    log: &Vec<ClusterReply>,
    at: usize,
) -> (r: Progress<Conclusion>)
    requires
        at <= log.len(),
    ensures
        r@ == reach_step(
            test@,
            text_view(*collision),
            pair_views(addresses@),
            reply_views(log@),
            at as int,
        ),
        r matches Progress::Got(_, at) ==> at <= log.len(),
        !(r is Stuck),
{
    let (control, at) = match run_control(test, collision.is_some(), log, at) {
        Progress::Ask(request) => {
            return Progress::Ask(request);
        },
        Progress::Stuck(error, at) => {
            return Progress::Stuck(error, at);
        },
        Progress::Got(control, at) => (control, at),
    };
    let sweep = Sweep {
        side: Side::Intruder,
        pod: "nodeport-probe",
        route: "tenant2's pod network",
        targets: addresses,
        port: 30080,
        marker: &test.marker,
    };
    match probe_marker_from(&create_network_multitool_pod("nodeport-probe"), &sweep, log, at) {
        Progress::Ask(request) => Progress::Ask(request),
        Progress::Stuck(error, at) => Progress::Stuck(error, at),
        Progress::Got(attempt, at) => Progress::Got(
            Conclusion {
                result: judge_nodeport(collision, control, &attempt),
                cleanup: Cleanup::Everything,
            },
            at,
        ),
    }
}

/// A conclusion without a finding.
fn conclude_undetermined(autonomy: bool, details: String, cleanup: Cleanup) -> (r: Conclusion)
    ensures
        r@ == undetermined(autonomy, details@, cleanup),
{
    Conclusion {
        result: CrossTenantResult { isolation: IsolationLevel::Unknown, autonomy, details },
        cleanup,
    }
}

/// The service on the node port, in front of a tenant's marker pod.
fn request_marker_service(side: Side, namespace: &str) -> (r: ClusterRequest)
    ensures
        r@ == marker_service(side, namespace@),
{
    let service = create_nodeport_service_with_selector(
        namespace,
        "autonomy-test-service",
        30080,
        "nodeport-marker",
    );
    ClusterRequest::CreateService { side, manifest: service.manifest }
}

/// The second tenant's claim to the same port, and what follows.
fn claim(test: &NodePortTest, log: &Vec<ClusterReply>, at: usize) -> (r: Progress<Conclusion>)
    requires
        at <= log.len(),
    ensures
        r@ == claim_step(test@, reply_views(log@), at as int),
        r matches Progress::Got(_, at) ==> at <= log.len(),
        !(r is Stuck),
{
    let count: usize = log.len() - at;
    if count == 0 {
        return Progress::Ask(
            ClusterRequest::CreatePod {
                side: Side::Intruder,
                pod: create_nodeport_marker_pod("nodeport-marker-pod-t2", &test.own_marker),
            },
        );
    }
    if count == 1 {
        return Progress::Ask(request_marker_service(Side::Intruder, &test.second_namespace));
    }
    let collision = if log[at + 1].failed() {
        Some(log[at + 1].error())
    } else {
        None
    };
    match candidate_node_addresses(Side::Victim, "nodeport-marker-pod", false, log, at + 2) {
        Progress::Ask(request) => Progress::Ask(request),
        Progress::Stuck(error, at) => Progress::Stuck(error, at),
        Progress::Got(addresses, at) => if addresses.len() == 0 {
            Progress::Got(
                conclude_undetermined(
                    true,
                    string_from("Could not determine any node address for the NodePort test"),
                    Cleanup::Everything,
                ),
                at,
            )
        } else {
            reach(test, &collision, &addresses, log, at)
        },
    }
}

/// The request that takes away what the test left, of which `done` are behind.
pub fn cleanup_nodeport_test_resources(cleanup: Cleanup, done: usize) -> (r: Option<
    ClusterRequest,
>)
    ensures
        match r {
            Some(request) => done < nodeport_chores(cleanup).len() && request@
                == nodeport_chores(cleanup)[done as int],
            None => done >= nodeport_chores(cleanup).len(),
        },
{
    let first = Side::Victim;
    let second = Side::Intruder;
    let service = string_from("autonomy-test-service");
    let marker = string_from("nodeport-marker-pod");
    match cleanup {
        Cleanup::Nothing => None,
        Cleanup::MarkerPod => if done == 0 {
            Some(ClusterRequest::DeletePod { side: first, name: marker })
        } else {
            None
        },
        Cleanup::Everything => if done == 0 {
            Some(ClusterRequest::DeleteService { side: first, name: service })
        } else if done == 1 {
            Some(ClusterRequest::DeletePod { side: first, name: marker })
        } else if done == 2 {
            Some(ClusterRequest::DeleteService { side: second, name: service })
        } else if done == 3 {
            Some(ClusterRequest::DeletePod { side: second, name: string_from("nodeport-probe") })
        } else if done == 4 {
            Some(
                ClusterRequest::DeletePod {
                    side: second,
                    name: string_from("nodeport-marker-pod-t2"),
                },
            )
        } else if done == 5 {
            Some(ClusterRequest::AwaitServiceDeletion { side: first, name: service })
        } else if done == 6 {
            Some(ClusterRequest::AwaitPodDeletion { side: first, name: marker })
        } else if done == 7 {
            Some(
                ClusterRequest::AwaitPodDeletion {
                    side: second,
                    name: string_from("nodeport-probe"),
                },
            )
        } else if done == 8 {
            Some(
                ClusterRequest::AwaitPodDeletion {
                    side: second,
                    name: string_from("nodeport-marker-pod-t2"),
                },
            )
        } else {
            None
        },
    }
}

/// The test up to its conclusion.
fn run_to_conclusion(test: &NodePortTest, log: &Vec<ClusterReply>) -> (r: Progress<Conclusion>)
    ensures
        r@ == nodeport_body(test@, reply_views(log@)),
        r matches Progress::Got(_, at) ==> at <= log.len(),
        !(r is Stuck),
{
    let side = Side::Victim;
    let name = "nodeport-marker-pod";
    if log.len() == 0 {
        return Progress::Ask(
            ClusterRequest::CreatePod {
                side,
                pod: create_nodeport_marker_pod(name, &test.marker),
            },
        );
    }
    if log[0].failed() {
        let details = joined3(
            "Could not create marker pod in tenant1: Some(",
            &log[0].debug(),
            ")",
        );
        return Progress::Got(conclude_undetermined(false, details, Cleanup::Nothing), 1);
    }
    if log.len() == 1 {
        return Progress::Ask(ClusterRequest::AwaitReady { side, name: string_from(name) });
    }
    if log[1].failed() {
        let details = joined("Tenant1 marker pod failed to start: ", &log[1].error());
        return Progress::Got(conclude_undetermined(false, details, Cleanup::MarkerPod), 2);
    }
    if log.len() == 2 {
        return Progress::Ask(request_marker_service(side, &test.first_namespace));
    }
    if log[2].failed() {
        let details = joined3(
            "Could not create NodePort service in tenant1: Some(",
            &log[2].debug(),
            ")",
        );
        return Progress::Got(conclude_undetermined(false, details, Cleanup::MarkerPod), 3);
    }
    match marker_is_being_served(side, name, &test.marker, log, 3) {
        Progress::Ask(request) => Progress::Ask(request),
        Progress::Stuck(error, at) => Progress::Stuck(error, at),
        Progress::Got(serving, at) => if serving {
            claim(test, log, at)
        } else {
            let details = string_from(
                "Tenant1's NodePort service never began serving its marker, so tenant2 finding nothing proves nothing about isolation",
            );
            Progress::Got(conclude_undetermined(true, details, Cleanup::Everything), at)
        },
    }
}

/// Tests whether the second tenant can reach what the first exposes on a node
/// port: the step after the replies so far.
pub fn test_nodeport_autonomy(test: &NodePortTest, log: &Vec<ClusterReply>) -> (r: ClusterStep<
    CrossTenantResult,
>)
    ensures
        r@ == nodeport_step(test@, reply_views(log@)),
{
    match run_to_conclusion(test, log) {
        Progress::Ask(request) => ClusterStep::Ask(request),
        Progress::Stuck(error, at) => ClusterStep::Abort(error),
        Progress::Got(conclusion, at) => match cleanup_nodeport_test_resources(
            conclusion.cleanup,
            log.len() - at,
        ) {
            Some(request) => ClusterStep::Ask(request),
            None => ClusterStep::Done(conclusion.result),
        },
    }
}

/// The verdict on a node port: a breach exactly where the marker was read, and
/// full isolation only where the probe was placed, was able to ask, got no
/// answer, and both tenants held the port with the second able to reach its own.
pub proof fn nodeport_verdicts_need_evidence(
    collision: Option<Seq<char>>,
    control: Option<bool>,
    attempt: AttemptView,
)
    ensures
        (nodeport_verdict(collision, control, attempt).isolation is NoIsolation) == (attempt.hit
            is Some),
        nodeport_verdict(collision, control, attempt).isolation is Hard ==> {
            &&& attempt.placed
            &&& (attempt.exec_failed ==> attempt.answered)
            &&& attempt.unexpected is None
            &&& collision is None
            &&& control != Some(false)
        },
{
}

/// The two markers of a run are never taken for each other: neither stands in the
/// other.
pub proof fn the_markers_are_told_apart(marker: Seq<char>, own_marker: Seq<char>)
    requires
        is_marker_with(marker, "TENANT1_NODEPORT_MARKER_"@),
        is_marker_with(own_marker, "TENANT2_NODEPORT_MARKER_"@),
    ensures
        !has_text(marker, own_marker),
        !has_text(own_marker, marker),
{
    reveal_strlit("TENANT1_NODEPORT_MARKER_");
    reveal_strlit("TENANT2_NODEPORT_MARKER_");
    assert(marker[6] == marker.take(24)[6] && marker[6] == '1');
    assert(own_marker[6] == own_marker.take(24)[6] && own_marker[6] == '2');
    if has_text(marker, own_marker) {
        let at = choose|at: int| occurs_at(marker, own_marker, at);
        assert(at == 0);
        assert(marker.subrange(0, marker.len() as int)[6] == marker[6]);
    }
    if has_text(own_marker, marker) {
        let at = choose|at: int| occurs_at(own_marker, marker, at);
        assert(at == 0);
        assert(own_marker.subrange(0, marker.len() as int)[6] == own_marker[6]);
    }
}

}
