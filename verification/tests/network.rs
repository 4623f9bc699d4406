//! What the network probes ask for, and how their reports are read.

use kumuteva::assessment::{AssessableOperation, AssessableResource};
use kumuteva::cluster::{ClusterReply, ClusterRequest, ClusterStep, NodeFacts, Progress, Side};
use kumuteva::isolation::{CrossTenantResult, IsolationLevel};
use kumuteva::network::node::{fresh_node_marker, test_node_network_isolation};
use kumuteva::network::nodeport::{test_nodeport_autonomy, NodePortTest};
use kumuteva::network::probes::{
    create_host_network_pod, create_network_multitool_pod, create_node_marker_pod,
    create_nodeport_marker_pod, NODE_MARKER_PORT, WEBSERVER_PORT,
};
use kumuteva::network::resources::{
    Authorization, NetworkAssessor, NetworkEffect, NetworkResource,
};
use kumuteva::network::sweep::{candidate_node_addresses, escape_route_hops};
use kumuteva::network::verdicts::{
    describe_failure, first_line, judge_dns_resolution, judge_pod_reachability,
    judge_service_reachability,
};
use kumuteva::pods::{LandedPod, PodStatus};

#[test]
fn the_host_network_probes_request_host_networking() {
    assert_eq!(
        create_host_network_pod("p").host_network,
        Some(true),
        "without hostNetwork this probe tests nothing and reads as isolated"
    );

    let marker = create_node_marker_pod("m", "marker", NODE_MARKER_PORT);
    assert_eq!(marker.host_network, Some(true));
    assert_eq!(
        marker.containers[0].ports[0].host_port,
        Some(NODE_MARKER_PORT),
        "the marker is only observable from another tenant via its hostPort"
    );
}

#[test]
fn the_reachability_probes_stay_restricted_and_unprivileged() {
    for pod in [
        create_network_multitool_pod("p"),
        create_nodeport_marker_pod("p", "marker"),
    ] {
        assert_ne!(pod.host_network, Some(true));
        assert_ne!(pod.host_pid, Some(true));

        assert_eq!(pod.run_as_non_root, Some(true));
        assert!(pod.seccomp_profile.is_some(), "restricted needs seccomp");

        assert_eq!(pod.containers[0].allow_privilege_escalation, Some(false));
        assert_eq!(
            pod.containers[0].dropped_capabilities,
            vec!["ALL".to_string()]
        );
    }
}

#[test]
fn the_reachability_probes_serve_on_an_unprivileged_port() {
    assert!(
        WEBSERVER_PORT >= 1024,
        "non-root cannot bind {WEBSERVER_PORT}"
    );
    assert_eq!(
        create_network_multitool_pod("p").containers[0].ports[0].container_port,
        WEBSERVER_PORT
    );
}

#[test]
fn a_rejected_connection_is_soft_and_an_absent_host_is_hard() {
    let refused = judge_pod_reachability(
        "NETWORK_ACCESS_REFUSED: curl: (7) Failed to connect to 10.0.0.5 port 8080",
    );
    assert!(
        matches!(refused.isolation, IsolationLevel::Soft(_)),
        "something answered, so the network is shared: {refused:?}"
    );

    let no_host = judge_pod_reachability("NETWORK_ACCESS_NO_HOST: curl: (7) No route to host");
    assert_eq!(no_host.isolation, IsolationLevel::Hard);
}

#[test]
fn a_timeout_is_hard_because_nothing_answered() {
    let silent = judge_pod_reachability(
        "NETWORK_ACCESS_NO_ANSWER: curl: (28) Connection timeout after 2001 ms",
    );
    assert_eq!(
        silent.isolation,
        IsolationLevel::Hard,
        "silence is indistinguishable from an absent tenant: {silent:?}"
    );
}

#[test]
fn an_unclassified_failure_is_undetermined() {
    assert_eq!(
        judge_pod_reachability("NETWORK_ACCESS_UNCLEAR: curl: (35) SSL connect error").isolation,
        IsolationLevel::Unknown
    );
}

#[test]
fn observing_the_secret_is_a_breach() {
    let seen = judge_service_reachability("NETWORK_ACCESS_SUCCESS: reached the other tenant");
    assert_eq!(seen.isolation, IsolationLevel::NoIsolation);
}

#[test]
fn an_unreadable_report_is_undetermined() {
    let nothing = judge_pod_reachability("");
    assert_eq!(nothing.isolation, IsolationLevel::Unknown);
}

#[test]
fn resolving_the_other_tenants_name_is_a_breach() {
    let r = judge_dns_resolution("DNS_RESOLVED: the name resolves from another tenant");
    assert_eq!(r.isolation, IsolationLevel::NoIsolation);
}

#[test]
fn nxdomain_is_hard_and_refused_is_soft() {
    assert_eq!(
        judge_dns_resolution("DNS_NXDOMAIN: no such record").isolation,
        IsolationLevel::Hard
    );
    assert!(matches!(
        judge_dns_resolution("DNS_REFUSED: declined").isolation,
        IsolationLevel::Soft(_)
    ));
}

#[test]
fn servfail_is_undetermined_not_isolation() {
    let r = judge_dns_resolution(
        "DNS_SERVER_BROKEN: ** server can't find x.svc.cluster.local: SERVFAIL",
    );
    assert_eq!(r.isolation, IsolationLevel::Unknown);
    assert!(!r.autonomy);
}

#[test]
fn a_silent_dns_server_is_undetermined_not_isolation() {
    let r =
        judge_dns_resolution("DNS_NO_SERVER: connection timed out; no servers could be reached");
    assert_eq!(r.isolation, IsolationLevel::Unknown);
    assert!(
        !r.autonomy,
        "the tenant cannot resolve anything, its own names included"
    );
}

// ---- Probes ----------------------------------------------------------------

#[test]
fn the_way_a_connection_failed_is_named_by_its_code() {
    assert_eq!(
        describe_failure("CONNECTION_FAILED rc=6 curl: (6) Could not resolve host"),
        "the address did not resolve (rc=6 curl: (6) Could not resolve host)"
    );
    assert_eq!(
        describe_failure("CONNECTION_FAILED rc=7 curl: (7) Host is Unreachable"),
        "no route to the address from here (rc=7 curl: (7) Host is Unreachable)"
    );
    assert_eq!(
        describe_failure("CONNECTION_FAILED rc=7 curl: (7) Connection refused"),
        "the connection was refused — the address was reached and nothing listens (rc=7 curl: (7) Connection refused)"
    );
    assert_eq!(
        describe_failure("CONNECTION_FAILED rc=28 "),
        "no answer before the timeout (rc=28)"
    );
    assert_eq!(describe_failure("something else"), "failed ()");
}

#[test]
fn a_report_is_quoted_by_its_own_line() {
    assert_eq!(
        first_line("noise\nNETWORK_ACCESS_REFUSED: no\nmore"),
        "NETWORK_ACCESS_REFUSED: no"
    );
    assert_eq!(first_line("nothing of ours"), "nothing of ours");
    assert_eq!(first_line(&"x".repeat(200)), "x".repeat(160));
}

fn landed(ip: &str, host_ip: Option<&str>) -> ClusterReply {
    ClusterReply::Landed(LandedPod {
        node_name: Some("node-7".to_string()),
        status: Some(PodStatus {
            phase: Some("Running".to_string()),
            conditions: vec![],
            container_states: vec![],
            pod_ip: Some(ip.to_string()),
            host_ip: host_ip.map(|h| h.to_string()),
        }),
    })
}

fn nodes() -> ClusterReply {
    ClusterReply::Nodes(vec![NodeFacts {
        name: Some("node-7".to_string()),
        addresses: vec![
            ("InternalIP".to_string(), "192.168.0.7".to_string()),
            ("Hostname".to_string(), "node-7".to_string()),
        ],
    }])
}

fn out(text: &str) -> ClusterReply {
    ClusterReply::Output(text.to_string())
}

fn failure(error: &str) -> ClusterReply {
    ClusterReply::Failed {
        error: error.to_string(),
        refusal: None,
        debug: format!("{error}\n\nCaused by:\n    the cluster"),
    }
}

#[test]
fn a_hop_is_the_second_word_of_a_numbered_line() {
    assert_eq!(
        escape_route_hops(
            "traceroute to 1.1.1.1\n 1  10.0.0.1  0.1 ms\n 2  *\n 3  172.16.0.1 1 ms\nx 10.9.9.9\n"
        ),
        vec!["10.0.0.1", "172.16.0.1"]
    );
}

#[test]
fn every_address_is_a_candidate_once() {
    let log = vec![nodes(), landed("10.0.0.9", Some("192.168.0.7"))];
    match candidate_node_addresses(Side::Victim, "marker", false, &log, 0) {
        Progress::Got(found, 2) => {
            assert_eq!(
                found
                    .iter()
                    .filter(|(_, address)| address == "192.168.0.7")
                    .count(),
                1
            );
        }
        other => panic!("{other:?}"),
    }
    // With nothing to go by, the gateway is asked.
    let log = vec![failure("forbidden"), failure("forbidden")];
    assert!(matches!(
        candidate_node_addresses(Side::Victim, "marker", false, &log, 0),
        Progress::Ask(ClusterRequest::Exec { .. })
    ));
}

/// Plays a test to its end.
fn play(
    next: &dyn Fn(&Vec<ClusterReply>) -> ClusterStep<CrossTenantResult>,
    answer: &dyn Fn(&ClusterRequest) -> ClusterReply,
) -> (Vec<ClusterRequest>, Result<CrossTenantResult, String>) {
    let mut log: Vec<ClusterReply> = Vec::new();
    let mut asked: Vec<ClusterRequest> = Vec::new();
    loop {
        match next(&log) {
            ClusterStep::Ask(request) => {
                log.push(answer(&request));
                asked.push(request);
            }
            ClusterStep::Done(result) => return (asked, Ok(result)),
            ClusterStep::Abort(error) => return (asked, Err(error)),
        }
        assert!(log.len() < 2000, "the test does not end");
    }
}

/// Every pod and service that was created was also deleted.
fn tidy(asked: &[ClusterRequest]) -> bool {
    asked.iter().all(|request| match request {
        ClusterRequest::CreatePod { side, pod } => asked.iter().any(|other| {
            matches!(other, ClusterRequest::DeletePod { side: s, name } if s == side && *name == pod.name)
        }),
        ClusterRequest::CreateService { side, .. } => asked.iter().any(
            |other| matches!(other, ClusterRequest::DeleteService { side: s, .. } if s == side),
        ),
        _ => true,
    })
}

fn nodeport() -> NodePortTest {
    NodePortTest {
        marker: "MARKER-ONE".to_string(),
        own_marker: "MARKER-TWO".to_string(),
        first_namespace: "tenant1".to_string(),
        second_namespace: "tenant2".to_string(),
    }
}

/// A cluster in which `reach` says what a probe of each pod gets back.
fn shared_cluster(request: &ClusterRequest, reach: fn(&str) -> &'static str) -> ClusterReply {
    match request {
        ClusterRequest::ListNodes { .. } => nodes(),
        ClusterRequest::GetPod { .. } => landed("10.0.0.9", Some("192.168.0.7")),
        ClusterRequest::ReadLogs { .. } => out("SERVING MARKER-ONE\nSERVING MARKER-TWO\n"),
        ClusterRequest::Exec { name, command, .. } => {
            if command.contains("curl") {
                out(reach(name))
            } else {
                out("")
            }
        }
        _ => ClusterReply::Done,
    }
}

#[test]
fn a_node_port_that_answers_the_other_tenant_is_a_breach() {
    let test = nodeport();
    let (asked, result) = play(&|log| test_nodeport_autonomy(&test, log), &|request| {
        shared_cluster(request, |pod| {
            if pod == "nodeport-selftest" {
                "MARKER-TWO"
            } else {
                "MARKER-ONE"
            }
        })
    });
    let result = result.unwrap();
    assert_eq!(result.isolation, IsolationLevel::NoIsolation);
    assert!(tidy(&asked));
}

#[test]
fn a_silent_node_port_is_isolation_only_with_a_working_control() {
    let test = nodeport();
    let (asked, result) = play(&|log| test_nodeport_autonomy(&test, log), &|request| {
        shared_cluster(request, |pod| {
            if pod == "nodeport-selftest" {
                "MARKER-TWO"
            } else {
                "CONNECTION_FAILED rc=28 timeout"
            }
        })
    });
    assert_eq!(result.unwrap().isolation, IsolationLevel::Hard);
    assert!(tidy(&asked));

    let (asked, result) = play(&|log| test_nodeport_autonomy(&test, log), &|request| {
        shared_cluster(request, |_| "CONNECTION_FAILED rc=28 timeout")
    });
    let result = result.unwrap();
    assert_eq!(result.isolation, IsolationLevel::Unknown);
    assert!(result.details.starts_with(
        "Tenant2 could not reach its own NodePort 30080 by its own node's address"
    ));
    assert!(tidy(&asked));
}

#[test]
fn a_refused_node_port_tells_of_another_tenant() {
    let test = nodeport();
    let (asked, result) = play(&|log| test_nodeport_autonomy(&test, log), &|request| match request {
        ClusterRequest::CreateService {
            side: Side::Intruder,
            ..
        } => failure("provided port is already allocated"),
        other => shared_cluster(other, |_| "CONNECTION_FAILED rc=28 timeout"),
    });
    let result = result.unwrap();
    assert!(matches!(result.isolation, IsolationLevel::Soft(_)));
    assert!(tidy(&asked));
}

#[test]
fn a_node_port_test_without_a_setup_is_no_finding() {
    let test = nodeport();
    let (asked, result) = play(&|log| test_nodeport_autonomy(&test, log), &|_| failure("denied"));
    let result = result.unwrap();
    assert_eq!(result.isolation, IsolationLevel::Unknown);
    assert!(!result.autonomy);
    assert_eq!(
        result.details,
        "Could not create marker pod in tenant1: Some(denied\n\nCaused by:\n    the cluster)"
    );
    assert_eq!(asked.len(), 1);

    let (asked, result) = play(&|log| test_nodeport_autonomy(&test, log), &|request| match request {
        ClusterRequest::CreateService { .. } => failure("denied"),
        _ => ClusterReply::Done,
    });
    assert_eq!(
        result.unwrap().details,
        "Could not create NodePort service in tenant1: Some(denied\n\nCaused by:\n    the cluster)"
    );
    assert!(asked.iter().any(
        |r| matches!(r, ClusterRequest::DeletePod { name, .. } if name == "nodeport-marker-pod")
    ));
}

#[test]
fn the_node_network_is_judged_by_what_answers() {
    let (asked, result) = play(
        &|log| test_node_network_isolation("MARKER-ONE", log),
        &|request| shared_cluster(request, |_| "MARKER-ONE"),
    );
    assert_eq!(result.unwrap().isolation, IsolationLevel::NoIsolation);
    assert!(tidy(&asked));

    let (asked, result) = play(
        &|log| test_node_network_isolation("MARKER-ONE", log),
        &|request| shared_cluster(request, |_| "CONNECTION_FAILED rc=28 timeout"),
    );
    assert_eq!(result.unwrap().isolation, IsolationLevel::Hard);
    assert!(tidy(&asked));

    let (asked, result) = play(
        &|log| test_node_network_isolation("MARKER-ONE", log),
        &|request| shared_cluster(request, |_| "hello from another service"),
    );
    let result = result.unwrap();
    assert_eq!(
        result.isolation,
        IsolationLevel::Soft("Partial infrastructure sharing detected".to_string())
    );
    assert!(result
        .details
        .contains("unexpected response: 'hello from another service'"));
    assert!(tidy(&asked));
}

#[test]
fn a_refused_host_network_pod_is_soft() {
    let (asked, result) = play(
        &|log| test_node_network_isolation("MARKER-ONE", log),
        &|request| match request {
            ClusterRequest::CreatePod {
                side: Side::Intruder,
                ..
            } => ClusterReply::Failed {
                error: "403".to_string(),
                refusal: Some("host namespaces".to_string()),
                debug: "403".to_string(),
            },
            other => shared_cluster(other, |_| ""),
        },
    );
    let result = result.unwrap();
    assert_eq!(
        result.isolation,
        IsolationLevel::Soft(
            "Tenant2 may not place a pod on the node network: host namespaces".to_string()
        )
    );
    assert!(asked.iter().any(
        |r| matches!(r, ClusterRequest::DeletePod { name, .. } if name == "node-marker-service")
    ));
}

#[test]
fn markers_are_fresh_and_told_apart() {
    let test = NodePortTest::new("a", "b");
    assert!(test.marker.starts_with("TENANT1_NODEPORT_MARKER_"));
    assert!(test.own_marker.starts_with("TENANT2_NODEPORT_MARKER_"));
    assert_eq!(test.marker.len(), "TENANT1_NODEPORT_MARKER_".len() + 36);
    assert!(!test.own_marker.contains(&test.marker));
    assert_ne!(NodePortTest::new("a", "b").marker, test.marker);
    let marker = fresh_node_marker();
    assert!(marker.starts_with("TENANT1_NODE_MARKER_"));
    assert_ne!(fresh_node_marker(), marker);
}

#[test]
fn every_network_operation_is_assessed() {
    let labels: Vec<String> = NetworkResource::all()
        .iter()
        .flat_map(|r| r.applicable_operations())
        .map(|o| o.label())
        .collect();
    assert_eq!(labels.len(), 4);
    let assessor = NetworkAssessor;
    for resource in NetworkResource::all() {
        for operation in resource.applicable_operations() {
            assert!(!matches!(
                assessor.check_cross_tenant_effect(&resource, &operation, "tenant1", "tenant2"),
                NetworkEffect::Settled(_)
            ));
        }
    }
}

#[test]
fn only_a_refusal_settles_an_operation() {
    assert!(Authorization::Allowed.goes_on());
    assert!(Authorization::Undetermined("timeout".to_string()).goes_on());
    assert!(!Authorization::Refused("quota".to_string()).goes_on());
}

#[test]
fn an_attempt_shows_what_a_tenant_may_do() {
    assert!(matches!(
        Authorization::from_attempt(&ClusterReply::Done),
        Authorization::Allowed
    ));
    assert!(matches!(
        Authorization::from_attempt(&ClusterReply::Failed {
            error: "403".to_string(),
            refusal: Some("quota".to_string()),
            debug: "403".to_string(),
        }),
        Authorization::Refused(_)
    ));
    assert!(matches!(
        Authorization::from_attempt(&failure("timeout")),
        Authorization::Undetermined(_)
    ));
}
