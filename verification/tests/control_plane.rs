//! The experiments on the objects of the control plane.

use kumuteva::assessment::{AssessableOperation, AssessableResource, MultitenancyAssessor};
use kumuteva::control_plane::existing::{
    fresh_trigger_name, get_existing_node, get_existing_object_for_testing,
};
use kumuteva::control_plane::experiment::{
    claim_of, create_dynamic_object, get_namespace_param, is_valid_get_result, is_valid_object,
    Observed, Reply, Request, Step, Tenant, Trial,
};
use kumuteva::control_plane::isolation::{requires_existing_object, test_cross_tenant_delete};
use kumuteva::control_plane::manifests::create_minimal_object;
use kumuteva::control_plane::manual::{
    manual_autonomy_trial, manual_test_autonomy, manual_test_cross_tenant_operation, manual_trial,
    print_operation_result, ManualAutonomyTest, ManualTest,
};
use kumuteva::control_plane::names::{fresh_marker, fresh_name, test_name};
use kumuteva::control_plane::resources::{
    ControlPlaneAssessor, ControlPlaneAutonomyCategory, ControlPlaneOperation,
    ControlPlaneResource,
};
use kumuteva::isolation::{CrossTenantResult, IsolationLevel};
use kumuteva::json::Json;
use kumuteva::objects::KubernetesObject;

fn trial(kind: KubernetesObject) -> Trial {
    Trial {
        kind,
        name: "probe".to_string(),
        namespace: "tenant1".to_string(),
    }
}

fn observed(name: &str, created_by: Option<&str>) -> Observed {
    Observed {
        name: Some(name.to_string()),
        namespace: Some("tenant1".to_string()),
        labels: None,
        annotations: created_by.map(|tenant| {
            vec![(
                "kumuteva.io/created-by-tenant".to_string(),
                tenant.to_string(),
            )]
        }),
        metadata: "{}".to_string(),
    }
}

fn denied() -> Reply {
    Reply::failure("Forbidden (ErrorResponse { code: 403 })")
}

fn absent() -> Reply {
    Reply::failure("NotFound (ErrorResponse { code: 404 })")
}

/// Plays an experiment to its end.
fn play<T>(
    next: &dyn Fn(&Vec<Reply>) -> Step<T>,
    answer: &dyn Fn(&Request) -> Reply,
) -> (Vec<Request>, Result<T, String>) {
    let mut log: Vec<Reply> = Vec::new();
    let mut asked: Vec<Request> = Vec::new();
    loop {
        match next(&log) {
            Step::Ask(request) => {
                log.push(answer(&request));
                asked.push(request);
            }
            Step::Done(result) => return (asked, Ok(result)),
            Step::Abort(message) => return (asked, Err(message)),
        }
        assert!(log.len() < 100, "the experiment does not end");
    }
}

fn effect(
    operation: ControlPlaneOperation,
    kind: KubernetesObject,
    answer: &dyn Fn(&Request) -> Reply,
) -> (Vec<Request>, CrossTenantResult) {
    let assessor = ControlPlaneAssessor;
    let trial = trial(kind);
    let (asked, result) = play(
        &|log| assessor.check_cross_tenant_effect(&operation, &trial, log),
        answer,
    );
    (asked, result.unwrap())
}

fn deleted_by_first(asked: &[Request]) -> bool {
    asked
        .iter()
        .any(|r| matches!(r, Request::Delete { tenant: Tenant::First, .. }))
}

#[test]
fn an_overwritten_object_is_a_breach() {
    let (asked, result) = effect(
        ControlPlaneOperation::Create,
        KubernetesObject::ConfigMap,
        &|request| match request {
            Request::Get { .. } => Reply::Object(observed("probe", Some("tenant2"))),
            _ => Reply::Done,
        },
    );
    assert_eq!(result.isolation, IsolationLevel::NoIsolation);
    assert_eq!(
        result.details,
        "Cross-tenant CREATE breach: ConfigMap overwritten by other tenant"
    );
    assert!(deleted_by_first(&asked));
}

#[test]
fn separate_scopes_are_hard_isolation() {
    let (asked, result) = effect(
        ControlPlaneOperation::Create,
        KubernetesObject::ConfigMap,
        &|request| match request {
            Request::Get { .. } => Reply::Object(observed("probe", Some("tenant1"))),
            _ => Reply::Done,
        },
    );
    assert_eq!(result.isolation, IsolationLevel::Hard);
    assert!(deleted_by_first(&asked));
}

#[test]
fn a_refused_attempt_is_judged_by_its_error() {
    for (answer, level) in [
        (absent as fn() -> Reply, IsolationLevel::Hard),
        (
            denied as fn() -> Reply,
            IsolationLevel::Soft("Access forbidden - reveals shared environment".to_string()),
        ),
    ] {
        let (asked, result) = effect(
            ControlPlaneOperation::Get,
            KubernetesObject::Secret,
            &|request| match request {
                Request::Get {
                    tenant: Tenant::Second,
                    ..
                } => answer(),
                _ => Reply::Done,
            },
        );
        assert_eq!(result.isolation, level);
        assert_eq!(result.details, "Cross-tenant GET blocked for Secret");
        assert!(deleted_by_first(&asked));
    }
}

#[test]
fn a_readable_object_is_a_breach_and_an_empty_answer_is_not() {
    let (_, result) = effect(
        ControlPlaneOperation::Get,
        KubernetesObject::Secret,
        &|request| match request {
            Request::Get { .. } => Reply::Object(observed("probe", None)),
            _ => Reply::Done,
        },
    );
    assert_eq!(result.isolation, IsolationLevel::NoIsolation);
    let (_, result) = effect(
        ControlPlaneOperation::Get,
        KubernetesObject::Secret,
        &|request| match request {
            Request::Get { .. } => Reply::Object(observed("another", None)),
            _ => Reply::Done,
        },
    );
    assert_eq!(result.isolation, IsolationLevel::Hard);
}

#[test]
fn a_failed_setup_is_never_a_breach_or_full_isolation() {
    for operation in [
        ControlPlaneOperation::Create,
        ControlPlaneOperation::Get,
        ControlPlaneOperation::List,
        ControlPlaneOperation::Update,
        ControlPlaneOperation::Delete,
    ] {
        let (asked, result) = effect(operation, KubernetesObject::ConfigMap, &|_| denied());
        assert!(
            matches!(
                result.isolation,
                IsolationLevel::Unknown | IsolationLevel::Soft(_)
            ),
            "{result:?}"
        );
        assert!(!result.autonomy);
        assert_eq!(asked.len(), 1);
    }
}

#[test]
fn a_stateful_set_leaves_no_claim_behind() {
    let (asked, _) = effect(
        ControlPlaneOperation::Get,
        KubernetesObject::StatefulSet,
        &|request| match request {
            Request::Get { .. } => absent(),
            _ => Reply::Done,
        },
    );
    assert!(asked.iter().any(|r| matches!(
        r,
        Request::DeleteClaim { name, within, .. }
            if name == "probe-probe-0" && within == "tenant1"
    )));
    assert_eq!(claim_of("web"), "web-web-0");
}

#[test]
fn a_node_is_borrowed_not_created() {
    assert!(requires_existing_object(&KubernetesObject::Node));
    assert!(!requires_existing_object(&KubernetesObject::Pod));
    let (asked, result) = effect(
        ControlPlaneOperation::Delete,
        KubernetesObject::Node,
        &|request| match request {
            Request::FindExisting { .. } => Reply::failure("none"),
            _ => panic!("nothing else is asked: {request:?}"),
        },
    );
    assert_eq!(asked.len(), 1);
    assert_eq!(result.isolation, IsolationLevel::Unknown);
    assert_eq!(
        result.details,
        "Cannot test Node DELETE - no existing object available: none"
    );
    // It is deleted only by a tenant that may delete it.
    let trial = trial(KubernetesObject::Node);
    for (allowed, level) in [
        (true, IsolationLevel::NoIsolation),
        (
            false,
            IsolationLevel::Soft("Tenant2 not authorized to delete resource".to_string()),
        ),
    ] {
        let (asked, result) = play(
            &|log| test_cross_tenant_delete(&trial, log),
            &|request| match request {
                Request::FindExisting { .. } => Reply::Name("node-1".to_string()),
                Request::MayDelete { .. } => Reply::Answer(allowed),
                Request::Exists { .. } => Reply::Answer(false),
                _ => Reply::Done,
            },
        );
        assert_eq!(result.unwrap().isolation, level);
        assert_eq!(
            asked.iter().any(|r| matches!(r, Request::Delete { .. })),
            allowed
        );
    }
}

#[test]
fn autonomy_is_what_the_tenant_can_do_alone() {
    let assessor = ControlPlaneAssessor;
    for operation in [
        ControlPlaneOperation::Create,
        ControlPlaneOperation::Get,
        ControlPlaneOperation::List,
        ControlPlaneOperation::Update,
        ControlPlaneOperation::Delete,
    ] {
        let trial = trial(KubernetesObject::ConfigMap);
        let (asked, allowed) = play(
            &|log| assessor.is_authorized(&operation, &trial, log),
            &|_| denied(),
        );
        assert_eq!(allowed, Ok(false), "{operation:?}: {asked:?}");
        let (asked, allowed) = play(
            &|log| assessor.is_authorized(&operation, &trial, log),
            &|request| match request {
                Request::Get { .. } => Reply::Object(Observed {
                    labels: Some(vec![(
                        "autonomy-update-test".to_string(),
                        "true".to_string(),
                    )]),
                    ..observed("probe", None)
                }),
                Request::List { .. } => Reply::Items(vec![observed("probe", None)]),
                Request::Exists { .. } => Reply::Answer(false),
                _ => Reply::Done,
            },
        );
        assert_eq!(allowed, Ok(true), "{operation:?}: {asked:?}");
        assert!(!asked.iter().any(|r| matches!(
            r,
            Request::Get { tenant: Tenant::Second, .. }
                | Request::Create { tenant: Tenant::Second, .. }
        )));
    }
}

#[test]
fn nodes_appear_after_a_pod_was_scheduled() {
    let mut lists = 0;
    let mut log: Vec<Reply> = Vec::new();
    let mut asked: Vec<Request> = Vec::new();
    let found = loop {
        match get_existing_node("trigger", "tenant1", &log) {
            Step::Ask(request) => {
                log.push(match request {
                    Request::List { .. } => {
                        lists += 1;
                        if lists < 3 {
                            Reply::Items(vec![])
                        } else {
                            Reply::Items(vec![observed("node-1", None)])
                        }
                    }
                    _ => Reply::Done,
                });
                asked.push(request);
            }
            Step::Done(reply) => break reply,
            Step::Abort(message) => panic!("{message}"),
        }
    };
    assert!(matches!(found, Reply::Name(name) if name == "node-1"));
    let waits: Vec<u64> = asked
        .iter()
        .filter_map(|r| match r {
            Request::Sleep { millis } => Some(*millis),
            _ => None,
        })
        .collect();
    assert_eq!(waits, vec![500, 1000]);
    assert!(asked
        .iter()
        .any(|r| matches!(r, Request::DeletePod { name, .. } if name == "trigger")));
}

#[test]
fn a_kind_that_can_be_created_is_not_looked_for() {
    match get_existing_object_for_testing(&KubernetesObject::Pod, "p", "tenant1", &vec![]) {
        Step::Done(Reply::Failed { message, .. }) => assert_eq!(
            message,
            "No special handling for Pod - should use create flow"
        ),
        other => panic!("{other:?}"),
    }
}

// ---- Objects ---------------------------------------------------------------

#[test]
fn every_resource_has_a_minimal_object() {
    for resource in ControlPlaneResource::all() {
        let kind = resource.to_kubernetes_object();
        let object = create_minimal_object(&kind, "probe", "tenant1");
        assert_eq!(object.get("kind"), Some(&Json::text(kind.kind())));
        assert_eq!(object.get("apiVersion"), Some(&Json::text(kind.api_version())));
        let metadata = object.get("metadata").unwrap();
        assert_eq!(metadata.get("name"), Some(&Json::text("probe")));
        assert_eq!(metadata.get("namespace").is_some(), kind.is_namespaced());
        assert_eq!(
            get_namespace_param(&kind, "tenant1").is_some(),
            kind.is_namespaced()
        );
    }
    assert_eq!(ControlPlaneResource::all().len(), 28);
}

#[test]
fn only_cluster_categories_leave_the_namespace_of_their_tenant() {
    for resource in ControlPlaneResource::all() {
        let in_cluster_category = matches!(
            resource.autonomy_category(),
            ControlPlaneAutonomyCategory::Cluster | ControlPlaneAutonomyCategory::Infrastructure
        );
        if !resource.is_namespaced() {
            assert!(
                in_cluster_category || matches!(resource, ControlPlaneResource::Namespace),
                "{}",
                resource.label()
            );
        }
    }
}

#[test]
fn an_object_carries_who_created_it() {
    let object = create_dynamic_object(
        &KubernetesObject::ConfigMap,
        "probe",
        create_minimal_object(&KubernetesObject::ConfigMap, "probe", "tenant1"),
        "tenant2",
    );
    assert!(object
        .annotations
        .contains(&(
            "kumuteva.io/created-by-tenant".to_string(),
            "tenant2".to_string()
        )));
    assert_eq!(object.kind, "ConfigMap");
    assert_eq!(object.api_version, "v1");
}

#[test]
fn an_answer_counts_only_where_it_names_the_object() {
    assert!(is_valid_get_result(&observed("probe", None), "probe"));
    assert!(!is_valid_get_result(&observed("other", None), "probe"));
    assert!(is_valid_object(&observed("probe", None)));
    let nameless = Observed {
        name: None,
        ..observed("probe", None)
    };
    assert!(!is_valid_object(&nameless));
    assert!(!is_valid_get_result(&nameless, "probe"));
}

#[test]
fn the_operations_are_named_as_they_are_assessed() {
    let assessor = ControlPlaneAssessor;
    assert_eq!(assessor.name(), "Control Plane");
    let labels: Vec<String> = ControlPlaneResource::Pod
        .applicable_operations()
        .iter()
        .map(|o| o.label())
        .collect();
    assert_eq!(labels.len(), 5);
}

// ---- Names -----------------------------------------------------------------

fn is_hex(text: &str) -> bool {
    text.chars()
        .all(|c| c.is_ascii_digit() || ('a'..='f').contains(&c))
}

#[test]
fn names_carry_eight_random_digits() {
    let name = fresh_name("create-test-");
    assert_eq!(name.len(), "create-test-".len() + 8);
    assert!(name.starts_with("create-test-"));
    assert!(is_hex(&name["create-test-".len()..]));
    assert_ne!(fresh_name("create-test-"), name);
    let marker = fresh_marker("M_");
    assert_eq!(marker.len(), 38);
    assert_eq!(
        test_name("p-", "01234567-89ab-4cde-8f01-23456789abcd"),
        "p-01234567"
    );
    assert!(fresh_trigger_name().starts_with("node-sync-trigger-"));
    assert!(manual_trial(KubernetesObject::Pod, "ns")
        .name
        .starts_with("manual-test-"));
    assert!(manual_autonomy_trial(KubernetesObject::Pod, "ns")
        .name
        .starts_with("autonomy-test-"));
    let assessor = ControlPlaneAssessor;
    assert!(assessor
        .effect_trial(
            &ControlPlaneResource::Pod,
            &ControlPlaneOperation::Update,
            "ns"
        )
        .name
        .starts_with("update-test-"));
    assert!(assessor
        .autonomy_trial(
            &ControlPlaneResource::Pod,
            &ControlPlaneOperation::Delete,
            "ns"
        )
        .name
        .starts_with("autonomy-delete-"));
}

// ---- Manual tests ----------------------------------------------------------

#[test]
fn the_outcome_of_a_manual_operation_is_told() {
    assert_eq!(
        print_operation_result("GET", &Reply::Done),
        "  RESULT: GET SUCCEEDED (potential isolation breach!)"
    );
    assert_eq!(
        print_operation_result("GET", &denied()),
        "  RESULT: GET BLOCKED (Forbidden/NotAllowed) - GOOD ISOLATION"
    );
    assert_eq!(
        print_operation_result("GET", &absent()),
        "  RESULT: GET BLOCKED (NotFound) - HARD ISOLATION"
    );
    assert_eq!(
        print_operation_result("GET", &Reply::failure("reset")),
        "  RESULT: GET FAILED: reset"
    );
}

#[test]
fn a_manual_test_shows_names_in_quotes() {
    let test = ManualTest {
        trial: trial(KubernetesObject::ConfigMap),
        other_namespace: "tenant2".to_string(),
        operation: ControlPlaneOperation::Get,
        cleanup: true,
    };
    let mut log: Vec<Reply> = Vec::new();
    let mut lines: Vec<String> = Vec::new();
    let mut requests = 0;
    loop {
        let turn = manual_test_cross_tenant_operation(&test, &log);
        lines.extend(turn.lines);
        match turn.request {
            Some(Request::Get { .. }) => log.push(Reply::Object(observed("pro\"be", None))),
            Some(_) => log.push(Reply::Done),
            None => break,
        }
        requests += 1;
        assert!(requests < 50);
    }
    let text = lines.join("\n");
    assert!(text.contains("SUCCESS: Object created by Tenant1"), "{text}");
    // Written as Rust's debug output writes it.
    assert!(text.contains("\"pro\\\"be\""), "{text}");
}

#[test]
fn a_manual_test_ends_where_its_setup_fails() {
    let test = ManualTest {
        trial: trial(KubernetesObject::ConfigMap),
        other_namespace: "tenant2".to_string(),
        operation: ControlPlaneOperation::Delete,
        cleanup: true,
    };
    let first = manual_test_cross_tenant_operation(&test, &vec![]);
    assert!(matches!(
        first.request,
        Some(Request::Create {
            tenant: Tenant::First,
            ..
        })
    ));
    let last = manual_test_cross_tenant_operation(&test, &vec![denied()]);
    assert!(last.request.is_none());
    assert_eq!(
        last.lines[1],
        "\n[INFO] Cannot proceed with cross-tenant test - Tenant1 creation failed"
    );
}

#[test]
fn a_failed_creation_is_shown_with_what_caused_it() {
    let test = ManualAutonomyTest {
        trial: trial(KubernetesObject::ConfigMap),
        operation: ControlPlaneOperation::Update,
        cleanup: true,
    };
    let failed = Reply::Failed {
        message: "denied".to_string(),
        debug: "denied\n\nCaused by:\n    quota".to_string(),
    };
    assert_eq!(
        manual_test_autonomy(&test, &vec![failed]).lines,
        vec!["  Cannot create test object: Some(denied\n\nCaused by:\n    quota)"]
    );
}

#[test]
fn a_manual_autonomy_test_lists_without_creating() {
    let test = ManualAutonomyTest {
        trial: trial(KubernetesObject::ConfigMap),
        operation: ControlPlaneOperation::List,
        cleanup: true,
    };
    let first = manual_test_autonomy(&test, &vec![]);
    assert!(matches!(first.request, Some(Request::List { .. })));
    let last = manual_test_autonomy(&test, &vec![Reply::Items(vec![observed("a", None)])]);
    assert!(last.request.is_none());
}
