//! The load that fairness runs put on a cluster.

use kumuteva::cluster::{ClusterReply, ClusterRequest, Progress, Side};
use kumuteva::fairness::network::{
    benchmark_pod_manifest, cleanup_pods, collect_results, create_benchmark_pod_pair,
    create_tcp_ping_clients, create_tcp_servers, is_pod_completed, parse_iperf3_bandwidth,
    tcp_ping_client_pod, tcp_server_pod, wait_for_completion, ClientPlan, FairnessNetworkAssessor,
    FairnessNetworkConfig, NetworkFairnessAssessor, NetworkFairnessConfig,
};
use kumuteva::fairness::scenario::{
    create_scenario, is_left_over, next_step, process_scenario_step, summarize_requests,
    uid_of_initiator, ApiCall, Request, RequestOperation, ResourceKind, Role,
};
use kumuteva::json::Json;
use kumuteva::pods::{LandedPod, PodStatus};

fn pod(phase: &str, ip: &str) -> ClusterReply {
    ClusterReply::Landed(LandedPod {
        node_name: None,
        status: Some(PodStatus {
            phase: Some(phase.to_string()),
            conditions: vec![],
            container_states: vec![],
            pod_ip: Some(ip.to_string()),
            host_ip: None,
        }),
    })
}

fn failure(error: &str) -> ClusterReply {
    ClusterReply::Failed {
        error: error.to_string(),
        refusal: None,
        debug: error.to_string(),
    }
}

fn play<T>(
    next: &dyn Fn(&Vec<ClusterReply>) -> Progress<T>,
    answer: &dyn Fn(&ClusterRequest) -> ClusterReply,
) -> (Vec<ClusterRequest>, Result<T, String>) {
    let mut log: Vec<ClusterReply> = Vec::new();
    let mut asked: Vec<ClusterRequest> = Vec::new();
    loop {
        match next(&log) {
            Progress::Ask(request) => {
                log.push(answer(&request));
                asked.push(request);
            }
            Progress::Got(value, _) => return (asked, Ok(value)),
            Progress::Stuck(error, _) => return (asked, Err(error)),
        }
        assert!(log.len() < 500, "it does not end");
    }
}

fn plan() -> ClientPlan {
    ClientPlan {
        duration: 30,
        rate_per_stream: "2.5".to_string(),
        total_rate: "10.0 pkt/s total".to_string(),
        streams: 4,
        packet_size: 64,
    }
}

#[test]
fn servers_are_created_before_any_is_waited_for() {
    let (asked, servers) = play(
        &|log| create_tcp_servers(Side::Victim, 2, log),
        &|request| match request {
            ClusterRequest::GetPod { name, .. } => pod("Running", &format!("ip-of-{name}")),
            _ => ClusterReply::Done,
        },
    );
    assert_eq!(
        servers.unwrap(),
        vec!["ip-of-net-fairness-srv-0", "ip-of-net-fairness-srv-1"]
    );
    assert!(matches!(asked[0], ClusterRequest::CreateManifest { .. }));
    assert!(matches!(asked[1], ClusterRequest::CreateManifest { .. }));
    assert!(matches!(asked[2], ClusterRequest::AwaitReady { .. }));
}

#[test]
fn a_server_without_an_address_ends_the_setup() {
    let (asked, servers) = play(
        &|log| create_tcp_servers(Side::Victim, 1, log),
        &|request| match request {
            ClusterRequest::GetPod { .. } => pod("Running", ""),
            _ => ClusterReply::Done,
        },
    );
    assert_eq!(
        servers.unwrap_err(),
        "Failed to get server IP for net-fairness-srv-0"
    );
    let asks = asked
        .iter()
        .filter(|r| matches!(r, ClusterRequest::GetPod { .. }))
        .count();
    assert_eq!(asks, 10);
    let (_, servers) = play(
        &|log| create_tcp_servers(Side::Victim, 1, log),
        &|_| failure("quota"),
    );
    assert_eq!(servers.unwrap_err(), "quota");
}

#[test]
fn clients_are_told_their_servers() {
    let servers = vec!["10.0.0.1".to_string(), "10.0.0.2".to_string()];
    let (asked, done) = play(
        &|log| create_tcp_ping_clients(Side::Intruder, &servers, &plan(), log),
        &|_| ClusterReply::Done,
    );
    assert!(done.is_ok());
    assert_eq!(asked.len(), 4);
    match &asked[1] {
        ClusterRequest::CreateManifest { manifest, .. } => {
            assert_eq!(manifest, &tcp_ping_client_pod(1, "10.0.0.2", &plan()));
            assert!(format!("{manifest:?}").contains("10.0.0.2"));
        }
        other => panic!("{other:?}"),
    }
    assert!(matches!(
        &asked[3],
        ClusterRequest::AwaitReady { name, .. } if name == "net-fairness-cli-1"
    ));
}

#[test]
fn a_finished_client_is_not_watched() {
    let (asked, done) = play(
        &|log| wait_for_completion(Side::Victim, 2, log),
        &|request| match request {
            ClusterRequest::GetPod { name, .. } if name == "net-fairness-cli-0" => {
                pod("Succeeded", "")
            }
            ClusterRequest::GetPod { .. } => pod("Running", ""),
            _ => ClusterReply::Done,
        },
    );
    assert!(done.is_ok());
    assert_eq!(asked.len(), 3);
    assert!(matches!(
        &asked[2],
        ClusterRequest::AwaitCompletion { name, .. } if name == "net-fairness-cli-1"
    ));
    assert!(is_pod_completed(&pod("Failed", "")));
    assert!(!is_pod_completed(&pod("Pending", "")));
    assert!(!is_pod_completed(&failure("gone")));
}

#[test]
fn samples_stand_behind_the_marker() {
    let samples = collect_results("noise, 1:2\nRESULTS:0.5:1.25:0, 1.0:2000:1,broken, 2:3", 7);
    let read: Vec<(&str, &str, bool)> = samples
        .iter()
        .map(|s| (s.timestamp.as_str(), s.latency.as_str(), s.is_error))
        .collect();
    assert_eq!(
        read,
        vec![
            ("0.5", "1.25", false),
            ("1.0", "2000", true),
            ("2", "3", false)
        ]
    );
    assert!(samples.iter().all(|s| s.label == "tcp-ping-7"));
    assert!(collect_results("no marker", 0).is_empty());
}

#[test]
fn every_pod_of_the_pairs_is_deleted() {
    let (asked, done) = play(&|log| cleanup_pods(Side::Victim, 2, log), &|_| {
        ClusterReply::Done
    });
    assert!(done.is_ok());
    assert_eq!(asked.len(), 8);
    for wanted in [
        "net-fairness-srv-0",
        "net-fairness-srv-1",
        "net-fairness-cli-0",
        "net-fairness-cli-1",
    ] {
        assert!(asked[..4]
            .iter()
            .any(|r| matches!(r, ClusterRequest::DeletePod { name, .. } if name == wanted)));
    }
    let (asked, done) = play(&|log| cleanup_pods(Side::Victim, 2, log), &|_| {
        failure("lost")
    });
    assert_eq!(done.unwrap_err(), "lost");
    assert_eq!(asked.len(), 1);
}

#[test]
fn the_network_assessor_counts_an_echo_twice() {
    let assessor = FairnessNetworkAssessor::new(FairnessNetworkConfig::default());
    assert_eq!(assessor.name(), "Network");
    assert_eq!(assessor.metric(), "TCP round-trip latency");
    assert_eq!(assessor.bytes_per_operation(), 128);
    let script = format!("{:?}", tcp_server_pod(0));
    assert!(script.contains("asyncio.start_server(handle_client, '0.0.0.0', 9999)"));
}

#[test]
fn bandwidth_figures_come_from_the_end() {
    let logs = "[  5] 0.00-1.00 sec 1.0 MBytes 8.39 Mbits/sec\nsummary\n[  5] 0.00-10.0 sec 1.1 GBytes 0.94 Gbits/sec receiver\n";
    let figures = parse_iperf3_bandwidth(logs);
    assert_eq!(figures.len(), 2);
    assert_eq!(figures[0].text, "0.94");
    assert!(figures[0].gigabits);
    assert_eq!(figures[1].text, "8.39");
    assert!(!figures[1].gigabits);
    assert!(parse_iperf3_bandwidth("Mbits/sec").is_empty());
}

#[test]
fn a_bandwidth_pair_waits_for_its_server() {
    let (asked, done) = play(
        &|log| create_benchmark_pod_pair(Side::Victim, 100, 30, 0, log),
        &|request| match request {
            ClusterRequest::GetPod { .. } => pod("Running", "10.0.0.3"),
            _ => ClusterReply::Done,
        },
    );
    assert!(done.is_ok());
    assert_eq!(asked.len(), 6);
    assert!(matches!(asked[3], ClusterRequest::Pause { millis: 2000 }));
    match &asked[4] {
        ClusterRequest::CreateManifest { manifest, .. } => assert_eq!(
            manifest,
            &benchmark_pod_manifest(100, 30, Some("10.0.0.3".to_string()), 0)
        ),
        other => panic!("{other:?}"),
    }
    let (asked, done) = play(
        &|log| create_benchmark_pod_pair(Side::Victim, 100, 30, 0, log),
        &|request| match request {
            ClusterRequest::GetPod { .. } => failure("not yet"),
            _ => ClusterReply::Done,
        },
    );
    assert_eq!(done.unwrap_err(), "Server pod has no IP after waiting");
    let asks = asked
        .iter()
        .filter(|r| matches!(r, ClusterRequest::GetPod { .. }))
        .count();
    assert_eq!(asks, 9);
    let assessor = NetworkFairnessAssessor::new(NetworkFairnessConfig::default());
    assert_eq!(assessor.name(), "Network");
    assert_eq!(assessor.metric_unit(), "Mbps");
    assert!(assessor.higher_is_better());
    assert_eq!(assessor.config.pod_pairs_per_tenant, 1);
    assert_eq!(assessor.config.bandwidth_limit_mbps, 100_000);
}

// ---- The scenario ----------------------------------------------------------

#[test]
fn the_scenario_ends_as_it_began() {
    let scenario = create_scenario();
    assert!(!scenario.is_empty());
    let created = scenario
        .iter()
        .filter(|r| matches!(r.operation, RequestOperation::Create))
        .count();
    let deleted = scenario
        .iter()
        .filter(|r| matches!(r.operation, RequestOperation::Delete))
        .count();
    assert_eq!(created, deleted);
    assert!(process_scenario_step(&scenario, 0).is_some());
    assert!(process_scenario_step(&scenario, scenario.len()).is_none());
    assert_eq!(next_step(scenario.len() - 1, scenario.len()), 0);
    assert_eq!(next_step(0, scenario.len()), 1);
}

#[test]
fn an_update_carries_a_random_value() {
    let update = Request {
        operation: RequestOperation::Update,
        resource: ResourceKind::ConfigMap,
    };
    match update.call_with("ns", "uid", 42) {
        ApiCall::Patch { patch, .. } => assert_eq!(
            patch,
            Json::object().with(
                "data",
                Json::object().with("key", Json::text("updated-value-42"))
            )
        ),
        other => panic!("{other:?}"),
    }
    // Two of them differ, but for one chance in four thousand million.
    let sent = |_: u32| format!("{:?}", update.send("ns", "uid"));
    let first = sent(0);
    assert!((1..4).any(|k| sent(k) != first));
    assert!(first.contains("updated-value-"));
}

#[test]
fn what_a_run_left_over_is_recognised() {
    let uid = uid_of_initiator(Role::Tenant1, 3);
    let create = Request {
        operation: RequestOperation::Create,
        resource: ResourceKind::ConfigMap,
    };
    match create.call_with("ns", &uid, 0) {
        ApiCall::Create { manifest, .. } => {
            let name = match manifest.get("metadata").and_then(|m| m.get("name")) {
                Some(Json::Text(name)) => name.clone(),
                other => panic!("{other:?}"),
            };
            assert!(is_left_over(ResourceKind::ConfigMap, &name));
        }
        other => panic!("{other:?}"),
    }
    assert!(!is_left_over(ResourceKind::ConfigMap, "kube-root-ca.crt"));
    assert!(!is_left_over(ResourceKind::ConfigMap, "fairness-test-t1-initiator-3"));
    assert!(is_left_over(ResourceKind::Deployment, "fairness-test-t1-initiator-3"));
}

#[test]
fn requests_are_summed_up() {
    let summary = summarize_requests(&vec![(10, false), (20, true), (31, false)]);
    assert_eq!(summary.average, 20);
    assert_eq!(summary.total_requests, 3);
    assert_eq!(summary.error_count, 1);
    assert_eq!(summarize_requests(&vec![]).average, 0);
}
