//! Planting a secret, and whether an intruder can read it.

use kumuteva::breach::{
    build_intruder, clean_up, judge, nothing_was_planted, plant_secret, platform_refused,
    recover_secret, run_breach_experiment, runtime_would_not_run, target_node_unreachable,
    AddressProbe, BreachCondition, BreachExperiment, Intruder, PlantedSecret, Secret,
};
use kumuteva::cluster::{ClusterReply, ClusterRequest, ClusterStep, NodeFacts, Progress, Side};
use kumuteva::isolation::IsolationLevel;
use kumuteva::network::probes::{
    create_dns_probe_pod, create_reachability_probe_pod, pod_reachability_experiment,
    service_reachability_experiment, unbalanced_single_quotes,
};
use kumuteva::pods::{
    asks_for_host_privilege, never_placed, never_started, ContainerState, HostAccess, LandedPod,
    PodCondition, PodStatus, ProbePod, StateDetail,
};

fn experiment(breach: BreachCondition) -> BreachExperiment {
    BreachExperiment {
        what: "test",
        target: ProbePod::new("target").build(),
        target_service: None,
        secret: Secret::Published("Fingerprint:"),
        intruder: Intruder::Anywhere(ProbePod::new("intruder").build()),
        breach,
    }
}

#[test]
fn a_published_secret_is_the_token_after_the_prefix() {
    let logs = "starting up\nFingerprint: a1b2c3\ndone\n";
    assert_eq!(
        recover_secret(&Secret::Published("Fingerprint:"), logs),
        "a1b2c3"
    );
}

#[test]
fn a_missing_published_secret_recovers_as_empty() {
    assert_eq!(
        recover_secret(&Secret::Published("Fingerprint:"), "crashed early\n"),
        ""
    );
}

#[test]
fn a_confirmation_marker_must_actually_appear() {
    assert_eq!(
        recover_secret(
            &Secret::ConfirmedBy("TENANT2_MARKER".to_string()),
            "log\nTENANT2_MARKER: up\n"
        ),
        "TENANT2_MARKER"
    );
    assert_eq!(
        recover_secret(
            &Secret::ConfirmedBy("TENANT2_MARKER".to_string()),
            "crashed\n"
        ),
        ""
    );
}

#[test]
fn readiness_only_is_satisfied_without_logs() {
    assert!(!recover_secret(&Secret::ReadinessOnly, "").is_empty());
}

#[test]
fn repeating_the_secret_is_a_breach() {
    let exp = experiment(BreachCondition::IntruderRepeatsSecret);
    let verdict = judge(&exp, "a1b2c3", "I can see a1b2c3 from here");
    assert_eq!(verdict.isolation, IsolationLevel::NoIsolation);
}

#[test]
fn not_repeating_it_is_isolation() {
    let exp = experiment(BreachCondition::IntruderRepeatsSecret);
    let verdict = judge(&exp, "a1b2c3", "nothing visible");
    assert_eq!(verdict.isolation, IsolationLevel::Hard);
}

#[test]
fn an_empty_secret_can_never_read_as_a_breach() {
    let exp = experiment(BreachCondition::IntruderRepeatsSecret);
    assert_eq!(
        judge(&exp, "", "anything at all").isolation,
        IsolationLevel::Hard
    );
}

#[test]
fn an_intruder_reporting_its_own_marker_is_a_breach() {
    let exp = experiment(BreachCondition::IntruderReports("TENANT2_PROCESS_FOUND"));
    let verdict = judge(&exp, "unused", "scanning...\nTENANT2_PROCESS_FOUND\n");
    assert_eq!(verdict.isolation, IsolationLevel::NoIsolation);
}

#[test]
fn the_intruder_is_built_from_what_the_target_turned_out_to_be() {
    let planted = PlantedSecret {
        node: "node-7".to_string(),
        address: "10.0.0.9".to_string(),
        secret: "s".to_string(),
        logs: String::new(),
    };

    let on_node = Intruder::OnTargetNode(ProbePod::new("i").build());
    let built = build_intruder(&on_node, &planted).unwrap();
    assert_eq!(
        built.node_name.as_deref(),
        Some("node-7"),
        "an intruder on the wrong node inspects an unrelated machine"
    );

    let at_address = Intruder::AtTargetAddress(AddressProbe {
        pod: ProbePod::new("i").build(),
        before: "curl ".to_string(),
        after: String::new(),
    });
    let built = build_intruder(&at_address, &planted).unwrap();
    let command = built.containers[0].command.clone();
    assert!(command[2].contains("10.0.0.9"));
    assert_eq!(command, vec!["sh", "-c", "curl 10.0.0.9"]);
}

fn pod_whose_container(state: ContainerState) -> LandedPod {
    LandedPod {
        node_name: None,
        status: Some(PodStatus {
            phase: None,
            conditions: vec![],
            container_states: vec![Some(state)],
            pod_ip: None,
            host_ip: None,
        }),
    }
}

fn pending(
    node: Option<&str>,
    conditions: Vec<PodCondition>,
    container_states: Vec<Option<ContainerState>>,
) -> LandedPod {
    LandedPod {
        node_name: node.map(|n| n.to_string()),
        status: Some(PodStatus {
            phase: Some("Pending".to_string()),
            conditions,
            container_states,
            pod_ip: None,
            host_ip: None,
        }),
    }
}

fn detail(reason: &str, message: Option<&str>) -> StateDetail {
    StateDetail {
        reason: Some(reason.to_string()),
        message: message.map(|m| m.to_string()),
    }
}

#[test]
fn a_start_error_is_recognised_as_never_having_run() {
    let pod = pod_whose_container(ContainerState {
        terminated: Some(detail(
            "StartError",
            Some("starting container: sub-container refused"),
        )),
        waiting: None,
    });

    assert_eq!(
        never_started(&pod).as_deref(),
        Some("starting container: sub-container refused")
    );
}

#[test]
fn a_pod_pinned_to_a_node_that_does_not_exist_is_recognised() {
    let pod = pending(
        None,
        vec![PodCondition {
            type_: "PodScheduled".to_string(),
            status: "False".to_string(),
            reason: Some("Unschedulable".to_string()),
            message: Some(
                "0/1 nodes are available: 1 node(s) didn't match Pod's node affinity".to_string(),
            ),
        }],
        vec![],
    );

    assert!(never_placed(&pod).is_some_and(|why| why.contains("didn't match")));
}

#[test]
fn a_pending_pod_that_was_scheduled_is_not_reported_as_unschedulable() {
    let pod = pending(
        None,
        vec![PodCondition {
            type_: "PodScheduled".to_string(),
            status: "True".to_string(),
            reason: None,
            message: None,
        }],
        vec![],
    );

    assert_eq!(never_placed(&pod), None);
}

#[test]
fn a_pod_pinned_by_node_name_that_no_kubelet_claimed_is_recognised() {
    let pod = pending(Some("tenant1-kv-control-plane-abcde"), vec![], vec![]);

    assert!(never_placed(&pod).is_some_and(|why| why.contains("tenant1-kv-control-plane-abcde")));
}

#[test]
fn a_pinned_pod_whose_container_is_starting_is_not_reported() {
    let pod = pending(
        Some("node-1"),
        vec![],
        vec![Some(ContainerState {
            terminated: None,
            waiting: Some(detail("ContainerCreating", None)),
        })],
    );

    assert_eq!(never_placed(&pod), None);
}

#[test]
fn a_container_that_ran_and_exited_is_not_confused_with_one_that_never_started() {
    let pod = pod_whose_container(ContainerState {
        terminated: Some(detail("Completed", None)),
        waiting: None,
    });

    assert_eq!(never_started(&pod), None);
}

#[test]
fn the_runtime_refusing_to_create_the_container_counts_too() {
    let pod = pod_whose_container(ContainerState {
        terminated: None,
        waiting: Some(detail("CreateContainerError", Some("no such runtime"))),
    });

    assert_eq!(
        never_started(&pod).as_deref(),
        Some("CreateContainerError: no such runtime")
    );
}

#[test]
fn a_pod_still_pulling_its_image_has_not_failed_to_start() {
    let pod = pod_whose_container(ContainerState {
        terminated: None,
        waiting: Some(detail("ContainerCreating", None)),
    });

    assert_eq!(never_started(&pod), None);
}

#[test]
fn privilege_and_host_namespaces_are_both_recognised_as_dangerous_requests() {
    for pod in [
        ProbePod::new("p").requests(HostAccess::Privileged).build(),
        ProbePod::new("p").requests(HostAccess::Pid).build(),
        ProbePod::new("p").requests(HostAccess::Ipc).build(),
        ProbePod::new("p").requests(HostAccess::Network).build(),
        ProbePod::new("p").requests(HostAccess::Users).build(),
    ] {
        assert!(asks_for_host_privilege(&pod));
    }

    assert!(!asks_for_host_privilege(&ProbePod::new("p").build()));
}

#[test]
fn a_sandbox_turning_away_a_privileged_probe_is_soft_isolation_at_a_cost() {
    let result = runtime_would_not_run(
        &experiment(BreachCondition::IntruderReports("MARKER")),
        true,
        "StartSubcontainer failed",
    );

    assert!(
        matches!(result.isolation, IsolationLevel::Soft(_)),
        "the intruder never attempted the cross-tenant operation, so this \
         cannot be hard: {:?}",
        result.isolation
    );
    assert!(!result.autonomy, "the operation itself was not allowed");
}

#[test]
fn an_ordinary_probe_failing_to_start_is_not_isolation() {
    let result = runtime_would_not_run(
        &experiment(BreachCondition::IntruderReports("MARKER")),
        false,
        "image pull failed",
    );

    assert_eq!(result.isolation, IsolationLevel::Unknown);
}

#[test]
fn the_checker_catches_the_bug_it_was_written_for() {
    // The shape that breaks a probe: an apostrophe that closes the string.
    assert!(unbalanced_single_quotes(
        r"echo 'the other tenant\'s service resolves'"
    ));
    assert!(!unbalanced_single_quotes(r"echo 'the name resolves'"));
    // An apostrophe inside double quotes is fine and must not trip it.
    assert!(!unbalanced_single_quotes(r#"echo "the tenant's service""#));
}

#[test]
fn every_generated_probe_script_has_balanced_quotes() {
    for (label, pod) in [
        (
            "dns probe",
            create_dns_probe_pod("d", "svc.ns.svc.cluster.local"),
        ),
        (
            "reachability probe",
            create_reachability_probe_pod("r", "10.0.0.1"),
        ),
        (
            "shell probe",
            ProbePod::new("p").shell("echo 'ok' && sleep 1").build(),
        ),
    ] {
        let command = &pod.containers[0].command;
        assert!(command.len() > 2, "{label}: expected sh -c <script>");
        assert!(
            !unbalanced_single_quotes(&command[2]),
            "{label}: script has unbalanced single quotes"
        );
    }
}

// ---- Runs ------------------------------------------------------------------

fn running(ip: &str, node: &str) -> ClusterReply {
    ClusterReply::Landed(LandedPod {
        node_name: Some(node.to_string()),
        status: Some(PodStatus {
            phase: Some("Running".to_string()),
            conditions: vec![],
            container_states: vec![],
            pod_ip: Some(ip.to_string()),
            host_ip: None,
        }),
    })
}

fn failed(error: &str, refusal: Option<&str>) -> ClusterReply {
    ClusterReply::Failed {
        error: error.to_string(),
        refusal: refusal.map(|r| r.to_string()),
        debug: error.to_string(),
    }
}

fn output(text: &str) -> ClusterReply {
    ClusterReply::Output(text.to_string())
}

/// Runs an experiment against the given answers; what it does not answer is done.
fn play(
    exp: &BreachExperiment,
    answer: fn(&ClusterRequest) -> ClusterReply,
) -> (Vec<ClusterRequest>, Result<kumuteva::isolation::CrossTenantResult, String>) {
    let mut log: Vec<ClusterReply> = Vec::new();
    let mut asked: Vec<ClusterRequest> = Vec::new();
    loop {
        match run_breach_experiment(exp, "tenant1", &log) {
            ClusterStep::Ask(request) => {
                log.push(answer(&request));
                asked.push(request);
            }
            ClusterStep::Done(result) => return (asked, Ok(result)),
            ClusterStep::Abort(error) => return (asked, Err(error)),
        }
        assert!(log.len() < 1000, "the experiment does not end");
    }
}

fn deletes(asked: &[ClusterRequest], wanted: &str) -> bool {
    asked
        .iter()
        .any(|r| matches!(r, ClusterRequest::DeletePod { name, .. } if name == wanted))
}

#[test]
fn a_run_whose_intruder_repeats_the_secret_is_a_breach() {
    let exp = experiment(BreachCondition::IntruderRepeatsSecret);
    let (asked, result) = play(&exp, |request| match request {
        ClusterRequest::GetPod { .. } => running("10.0.0.9", "node-7"),
        ClusterRequest::ReadLogs {
            side: Side::Victim, ..
        } => output("Fingerprint: a1b2c3\n"),
        ClusterRequest::ReadLogs {
            side: Side::Intruder,
            ..
        } => output("found a1b2c3\n"),
        _ => ClusterReply::Done,
    });
    let result = result.unwrap();
    assert_eq!(result.isolation, IsolationLevel::NoIsolation);
    assert!(result.autonomy);
    assert_eq!(
        result.details,
        "test: the intruder observed the other tenant's secret — not isolated"
    );
    assert!(deletes(&asked, "target"));
    assert!(deletes(&asked, "intruder"));
}

#[test]
fn a_run_whose_target_plants_nothing_is_no_finding() {
    let exp = experiment(BreachCondition::IntruderRepeatsSecret);
    let (asked, result) = play(&exp, |request| match request {
        ClusterRequest::GetPod { .. } => running("10.0.0.9", "node-7"),
        ClusterRequest::ReadLogs { .. } => output("crashed early\n"),
        _ => ClusterReply::Done,
    });
    let result = result.unwrap();
    assert_eq!(result.isolation, IsolationLevel::Unknown);
    assert_eq!(
        result.details,
        nothing_was_planted(&exp, "tenant1").details
    );
    assert!(!asked.iter().any(|r| matches!(
        r,
        ClusterRequest::CreatePod {
            side: Side::Intruder,
            ..
        }
    )));
    assert!(deletes(&asked, "target"));
}

#[test]
fn a_run_whose_target_cannot_be_created_fails_and_still_cleans_up() {
    let exp = experiment(BreachCondition::IntruderRepeatsSecret);
    let (asked, result) = play(&exp, |request| match request {
        ClusterRequest::CreatePod { .. } => failed("no quota left", None),
        _ => ClusterReply::Done,
    });
    assert_eq!(result.unwrap_err(), "no quota left");
    assert!(deletes(&asked, "target"));
    assert!(deletes(&asked, "intruder"));
}

#[test]
fn a_refused_intruder_is_soft_and_any_other_failure_is_an_error() {
    let exp = experiment(BreachCondition::IntruderRepeatsSecret);
    let (_, result) = play(&exp, |request| match request {
        ClusterRequest::GetPod { .. } => running("10.0.0.9", "node-7"),
        ClusterRequest::ReadLogs { .. } => output("Fingerprint: a1b2c3\n"),
        ClusterRequest::CreatePod {
            side: Side::Intruder,
            ..
        } => failed("403", Some("violates PodSecurity")),
        _ => ClusterReply::Done,
    });
    let result = result.unwrap();
    assert_eq!(
        result.isolation,
        IsolationLevel::Soft("Intruder refused at admission: violates PodSecurity".to_string())
    );
    assert_eq!(
        result.details,
        platform_refused(&exp, "violates PodSecurity").details
    );

    let (_, result) = play(&exp, |request| match request {
        ClusterRequest::GetPod { .. } => running("10.0.0.9", "node-7"),
        ClusterRequest::ReadLogs { .. } => output("Fingerprint: a1b2c3\n"),
        ClusterRequest::CreatePod {
            side: Side::Intruder,
            ..
        } => failed("connection reset", None),
        _ => ClusterReply::Done,
    });
    assert_eq!(result.unwrap_err(), "connection reset");
}

#[test]
fn an_intruder_pinned_to_a_node_it_does_not_have_is_hard() {
    let mut exp = experiment(BreachCondition::IntruderReports("MARKER"));
    exp.intruder = Intruder::OnTargetNode(ProbePod::new("intruder").build());
    let (_, result) = play(&exp, |request| match request {
        ClusterRequest::GetPod {
            side: Side::Victim, ..
        } => running("10.0.0.9", "node-7"),
        ClusterRequest::GetPod {
            side: Side::Intruder,
            ..
        } => ClusterReply::Landed(pending(Some("node-7"), vec![], vec![])),
        ClusterRequest::ListNodes { .. } => ClusterReply::Nodes(vec![NodeFacts {
            name: Some("node-1".to_string()),
            addresses: vec![],
        }]),
        ClusterRequest::ReadLogs { .. } => output("Fingerprint: a1b2c3\n"),
        _ => ClusterReply::Done,
    });
    let result = result.unwrap();
    assert_eq!(result.isolation, IsolationLevel::Hard);
    assert!(result
        .details
        .starts_with("test: the victim's node is not one this tenant can place a pod on"));
    assert_eq!(
        target_node_unreachable(&exp, "x").isolation,
        IsolationLevel::Hard
    );

    // The node exists, so the pod was stopped by something else.
    let (_, result) = play(&exp, |request| match request {
        ClusterRequest::GetPod {
            side: Side::Victim, ..
        } => running("10.0.0.9", "node-7"),
        ClusterRequest::GetPod {
            side: Side::Intruder,
            ..
        } => ClusterReply::Landed(pending(Some("node-7"), vec![], vec![])),
        ClusterRequest::ListNodes { .. } => ClusterReply::Nodes(vec![NodeFacts {
            name: Some("node-7".to_string()),
            addresses: vec![],
        }]),
        ClusterRequest::ReadLogs { .. } => output("Fingerprint: a1b2c3\n"),
        _ => ClusterReply::Done,
    });
    assert_eq!(result.unwrap().isolation, IsolationLevel::Unknown);
}

#[test]
fn a_target_without_an_address_aims_no_intruder() {
    let (asked, result) = play(&pod_reachability_experiment(), |request| match request {
        ClusterRequest::GetPod { .. } => running("", "node-7"),
        _ => ClusterReply::Done,
    });
    assert_eq!(result.unwrap().isolation, IsolationLevel::Unknown);
    assert!(!asked.iter().any(|r| matches!(
        r,
        ClusterRequest::CreatePod {
            side: Side::Intruder,
            ..
        }
    )));
}

#[test]
fn the_reachability_runs_read_the_probes_report() {
    let (asked, result) = play(&pod_reachability_experiment(), |request| match request {
        ClusterRequest::GetPod { .. } => running("10.0.0.9", "node-7"),
        ClusterRequest::ReadLogs {
            side: Side::Intruder,
            ..
        } => output("NETWORK_ACCESS_SUCCESS: reached the other tenant"),
        ClusterRequest::ReadLogs { .. } => output("SERVING network-multitool\n"),
        _ => ClusterReply::Done,
    });
    assert_eq!(result.unwrap().isolation, IsolationLevel::NoIsolation);
    assert!(asked.iter().any(|r| matches!(
        r,
        ClusterRequest::CreatePod { side: Side::Intruder, pod }
            if pod.containers[0].command[2].contains("10.0.0.9:8080")
    )));

    let exp = service_reachability_experiment("tenant1");
    let (asked, result) = play(&exp, |request| match request {
        ClusterRequest::GetPod { .. } => running("10.0.0.9", "node-7"),
        ClusterRequest::GetService { .. } => ClusterReply::Address(Some("10.96.0.1".to_string())),
        ClusterRequest::ReadLogs {
            side: Side::Intruder,
            ..
        } => output("NETWORK_ACCESS_REFUSED: curl: (7) refused"),
        ClusterRequest::ReadLogs { .. } => output("SERVING network-multitool\n"),
        _ => ClusterReply::Done,
    });
    assert!(matches!(result.unwrap().isolation, IsolationLevel::Soft(_)));
    assert!(asked.iter().any(|r| matches!(
        r,
        ClusterRequest::CreatePod { side: Side::Intruder, pod }
            if pod.containers[0].command[2].contains("10.96.0.1:8080")
    )));
    assert!(asked
        .iter()
        .any(|r| matches!(r, ClusterRequest::DeleteService { .. })));
}

#[test]
fn an_intruder_that_needs_the_targets_words_is_built_by_the_caller() {
    let mut exp = experiment(BreachCondition::IntruderReports("MARKER"));
    exp.intruder = Intruder::FromTarget {
        name: "escape".to_string(),
    };
    let (asked, result) = play(&exp, |request| match request {
        ClusterRequest::GetPod {
            side: Side::Victim, ..
        } => running("10.0.0.9", "node-7"),
        ClusterRequest::ReadLogs {
            side: Side::Victim, ..
        } => output("Fingerprint: a1b2c3\nKernel: 6.1\n"),
        ClusterRequest::BuildIntruder { node, logs, .. } => {
            assert_eq!(node, "node-7");
            let image = if logs.contains("6.1") { "six" } else { "other" };
            ClusterReply::Built(ProbePod::new("escape").image(image).build())
        }
        ClusterRequest::CreatePod {
            side: Side::Intruder,
            pod,
        } => {
            assert_eq!(pod.containers[0].image, "six");
            ClusterReply::Done
        }
        ClusterRequest::ReadLogs { .. } => output("MARKER"),
        _ => ClusterReply::Done,
    });
    assert_eq!(result.unwrap().isolation, IsolationLevel::NoIsolation);
    assert!(deletes(&asked, "escape"));

    let (asked, result) = play(&exp, |request| match request {
        ClusterRequest::GetPod { .. } => running("10.0.0.9", "node-7"),
        ClusterRequest::ReadLogs { .. } => output("Fingerprint: a1b2c3\n"),
        ClusterRequest::BuildIntruder { .. } => failed("no image for this kernel", None),
        _ => ClusterReply::Done,
    });
    assert_eq!(result.unwrap_err(), "no image for this kernel");
    assert!(deletes(&asked, "escape"));
}

#[test]
fn planting_waits_for_the_secret_and_gives_up_in_time() {
    let exp = experiment(BreachCondition::IntruderRepeatsSecret);
    let mut log = vec![
        ClusterReply::Done,
        ClusterReply::Done,
        running("10.0.0.9", "node-7"),
    ];
    assert!(matches!(
        plant_secret(&exp, &log),
        Progress::Ask(ClusterRequest::ReadLogs { .. })
    ));
    log.push(output("nothing yet"));
    assert!(matches!(
        plant_secret(&exp, &log),
        Progress::Ask(ClusterRequest::Pause { millis: 1000 })
    ));
    log.push(ClusterReply::Done);
    log.push(output("Fingerprint: a1b2c3"));
    match plant_secret(&exp, &log) {
        Progress::Got(Some(planted), at) => {
            assert_eq!(planted.secret, "a1b2c3");
            assert_eq!(planted.node, "node-7");
            assert_eq!(planted.address, "10.0.0.9");
            assert_eq!(at, 6);
        }
        other => panic!("not planted: {other:?}"),
    }
}

#[test]
fn cleaning_up_deletes_both_pods_before_it_waits_for_either() {
    let exp = experiment(BreachCondition::IntruderRepeatsSecret);
    assert!(matches!(
        clean_up(&exp, 0),
        Some(ClusterRequest::DeletePod { side: Side::Victim, name }) if name == "target"
    ));
    assert!(matches!(
        clean_up(&exp, 1),
        Some(ClusterRequest::DeletePod { side: Side::Intruder, name }) if name == "intruder"
    ));
    assert!(matches!(
        clean_up(&exp, 2),
        Some(ClusterRequest::AwaitPodDeletion { side: Side::Victim, .. })
    ));
    assert!(matches!(
        clean_up(&exp, 3),
        Some(ClusterRequest::AwaitPodDeletion { side: Side::Intruder, .. })
    ));
    assert!(clean_up(&exp, 4).is_none());
}
