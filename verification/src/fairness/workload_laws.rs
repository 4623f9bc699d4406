//! What holds of the load that the fairness measurements put on an API server:
//! which object each call is about, and that no two workers share one.

use super::control_plane::{
    calls_due, control_plane_settings, cycle_length, plan_of, scenario_of, stress_call, stress_name,
    stress_patch, stress_step, workers_share_the_rate, StressCallView, StressScenario,
};
use super::scenario::{
    call_of, failed_requests, initiator_uid, object_manifest, object_name, object_patch,
    scenario_requests, total_duration, ApiCallView, Request, RequestOperation, ResourceKind, Role,
};
use crate::json::JsonView;
use crate::text::{decimal, decimal_reads_back, is_digit, occurs_at};
use vstd::prelude::*;
use vstd::string::*;

verus! {

/// The manifest is that of an object of the kind `kind`, called `name`, in
/// `namespace`.
pub open spec fn describes(
    manifest: JsonView,
    kind: Seq<char>,
    name: Seq<char>,
    namespace: Seq<char>,
) -> bool {
    &&& manifest.field("kind"@) == Some(JsonView::Text(kind))
    &&& match manifest.field("metadata"@) {
        Some(metadata) => {
            &&& metadata.field("name"@) == Some(JsonView::Text(name))
            &&& metadata.field("namespace"@) == Some(JsonView::Text(namespace))
        },
        None => false,
    }
}

/// The names of fields in a manifest differ.
proof fn field_names_differ()
    ensures
        "apiVersion"@ != "kind"@,
        "apiVersion"@ != "metadata"@,
        "kind"@ != "metadata"@,
        "kind"@ != "spec"@,
        "kind"@ != "data"@,
        "metadata"@ != "spec"@,
        "metadata"@ != "data"@,
        "name"@ != "namespace"@,
        "name"@ != "labels"@,
        "namespace"@ != "labels"@,
        "replicas"@ != "selector"@,
        "replicas"@ != "template"@,
        "selector"@ != "template"@,
{
    reveal_strlit("apiVersion");
    reveal_strlit("kind");
    reveal_strlit("metadata");
    reveal_strlit("spec");
    reveal_strlit("data");
    reveal_strlit("name");
    reveal_strlit("namespace");
    reveal_strlit("labels");
    reveal_strlit("replicas");
    reveal_strlit("selector");
    reveal_strlit("template");
    assert("apiVersion"@.len() == 10 && "kind"@.len() == 4 && "metadata"@.len() == 8
        && "spec"@.len() == 4 && "data"@.len() == 4 && "name"@.len() == 4 && "namespace"@.len()
        == 9 && "labels"@.len() == 6 && "replicas"@.len() == 8 && "selector"@.len() == 8
        && "template"@.len() == 8);
    assert("kind"@[0] == 'k' && "spec"@[0] == 's' && "data"@[0] == 'd');
    assert("replicas"@[0] == 'r' && "selector"@[0] == 's' && "template"@[0] == 't');
}

/// The kind of object that a stress scenario works on.
pub open spec fn stressed_kind(scenario: StressScenario) -> Seq<char> {
    match scenario {
        StressScenario::Pod => "Pod"@,
        StressScenario::ConfigMap => "ConfigMap"@,
    }
}

/// A cycle works on one object. Its first call creates the object of the
/// cycle's name in the tenant's namespace; every other call that names an
/// object names this one; only the last deletes it. Each call's label begins
/// with what it does and ends with the object's name.
pub proof fn a_cycle_works_on_one_object(
    scenario: StressScenario,
    worker: nat,
    namespace: Seq<char>,
    issued: nat,
    due: bool,
)
    ensures
        ({
            let length = cycle_length(scenario);
            let name = stress_name(scenario, worker, (issued as int / length) as nat);
            match stress_step(scenario, worker, namespace, issued, due) {
                Some(operation) => {
                    &&& operation.call is Create <==> issued as int % length == 0
                    &&& operation.call is Delete <==> issued as int % length == length - 1
                    &&& occurs_at(
                        operation.label,
                        name,
                        operation.label.len() - name.len(),
                    )
                    &&& match operation.call {
                        StressCallView::Create { manifest } => {
                            &&& describes(manifest, stressed_kind(scenario), name, namespace)
                            &&& occurs_at(operation.label, "create-"@, 0)
                        },
                        StressCallView::Get { name: of } => {
                            &&& of == name
                            &&& occurs_at(operation.label, "get-"@, 0)
                        },
                        StressCallView::Patch { name: of, .. } => {
                            &&& of == name
                            &&& occurs_at(operation.label, "update-"@, 0)
                        },
                        StressCallView::List => occurs_at(operation.label, "list-"@, 0),
                        StressCallView::Delete { name: of } => {
                            &&& of == name
                            &&& occurs_at(operation.label, "delete-"@, 0)
                        },
                    }
                },
                None => due && issued as int % length == 0,
            }
        }),
{
    field_names_differ();
    let length = cycle_length(scenario);
    let name = stress_name(scenario, worker, (issued as int / length) as nat);
    reveal_strlit("create-");
    reveal_strlit("get-");
    reveal_strlit("update-");
    reveal_strlit("list-");
    reveal_strlit("delete-");
    reveal_strlit("create-pod-");
    reveal_strlit("update-pod-");
    reveal_strlit("list-pod-");
    reveal_strlit("delete-pod-");
    reveal_strlit("create-cm-");
    reveal_strlit("get-cm-");
    reveal_strlit("update-cm-");
    reveal_strlit("get-updated-cm-");
    reveal_strlit("list-cm-");
    reveal_strlit("delete-cm-");
    match stress_step(scenario, worker, namespace, issued, due) {
        Some(operation) => {
            let label = operation.label;
            assert(label.subrange(label.len() - name.len(), label.len() as int) =~= name);
            match operation.call {
                StressCallView::Create { .. } => {
                    assert(label.subrange(0, 7) =~= "create-"@);
                },
                StressCallView::Get { .. } => {
                    assert(label.subrange(0, 4) =~= "get-"@);
                },
                StressCallView::Patch { .. } => {
                    assert(label.subrange(0, 7) =~= "update-"@);
                },
                StressCallView::List => {
                    assert(label.subrange(0, 5) =~= "list-"@);
                },
                StressCallView::Delete { .. } => {
                    assert(label.subrange(0, 7) =~= "delete-"@);
                },
            }
        },
        None => {},
    }
}

/// Two numbers written with a dash between them can be read apart.
proof fn dashed_numbers_are_read_apart(a: nat, b: nat, c: nat, d: nat)
    requires
        decimal(a) + "-"@ + decimal(b) == decimal(c) + "-"@ + decimal(d),
    ensures
        a == c,
        b == d,
{
    reveal_strlit("-");
    let left = decimal(a) + "-"@ + decimal(b);
    let right = decimal(c) + "-"@ + decimal(d);
    let (m, n) = (decimal(a).len() as int, decimal(c).len() as int);
    decimal_reads_back(a);
    decimal_reads_back(b);
    decimal_reads_back(c);
    decimal_reads_back(d);
    assert(left[m] == '-');
    assert(right[n] == '-');
    if m < n {
        assert(right[m] == decimal(c)[m]);
        assert(is_digit(decimal(c)[m]));
    }
    if n < m {
        assert(left[n] == decimal(a)[n]);
        assert(is_digit(decimal(a)[n]));
    }
    assert(left.subrange(0, m) =~= decimal(a));
    assert(right.subrange(0, n) =~= decimal(c));
    assert(left.subrange(m + 1, left.len() as int) =~= decimal(b));
    assert(right.subrange(n + 1, right.len() as int) =~= decimal(d));
}

/// No two workers and no two cycles of one share an object.
pub proof fn stress_objects_are_not_shared(
    scenario: StressScenario,
    worker: nat,
    cycle: nat,
    other_worker: nat,
    other_cycle: nat,
)
    requires
        stress_name(scenario, worker, cycle) == stress_name(scenario, other_worker, other_cycle),
    ensures
        worker == other_worker,
        cycle == other_cycle,
{
    let prefix = match scenario {
        StressScenario::Pod => "fairness-pod-"@,
        StressScenario::ConfigMap => "fairness-test-"@,
    };
    let left = stress_name(scenario, worker, cycle);
    let right = stress_name(scenario, other_worker, other_cycle);
    let n = prefix.len() as int;
    assert(left.subrange(n, left.len() as int) =~= decimal(worker) + "-"@ + decimal(cycle));
    assert(right.subrange(n, right.len() as int) =~= decimal(other_worker) + "-"@ + decimal(
        other_cycle,
    ));
    dashed_numbers_are_read_apart(worker, cycle, other_worker, other_cycle);
}

/// The workers are shared out evenly: of two that stand at the same distance
/// from the two ends, at most one works on pods, and one of them does unless
/// they are the same.
pub proof fn the_workers_are_shared_out(worker: int, total: int)
    requires
        0 <= worker < total,
    ensures
        ({
            let mirror = total - 1 - worker;
            &&& !(scenario_of(worker, total) is Pod && scenario_of(mirror, total) is Pod)
            &&& scenario_of(worker, total) is ConfigMap && scenario_of(mirror, total) is ConfigMap
                ==> mirror == worker
        }),
{
}

/// A patch of the stress load changes the object: it sets what the created
/// manifest has otherwise, or has not at all.
pub proof fn a_stress_patch_changes_the_object(name: Seq<char>, namespace: Seq<char>)
    ensures
        match (
            stress_call(StressScenario::ConfigMap, name, namespace, 0).call,
            stress_call(StressScenario::ConfigMap, name, namespace, 2).call,
        ) {
            (StressCallView::Create { manifest }, StressCallView::Patch { patch, .. }) => {
                &&& manifest.field("data"@) is Some && patch.field("data"@) is Some
                &&& manifest.field("data"@)->Some_0.field("key"@) is Some
                &&& patch.field("data"@)->Some_0.field("key"@) is Some
                &&& manifest.field("data"@)->Some_0.field("key"@) != patch.field(
                    "data"@,
                )->Some_0.field("key"@)
            },
            _ => false,
        },
{
    field_names_differ();
    reveal_strlit("value");
    reveal_strlit("updated-value");
    assert("value"@.len() != "updated-value"@.len());
    let manifest = stress_call(
        StressScenario::ConfigMap,
        name,
        namespace,
        0,
    ).call->Create_manifest;
    assert(manifest.field("data"@)->Some_0.field("key"@) == Some(JsonView::Text("value"@)));
    let patch = stress_patch(StressScenario::ConfigMap);
    assert(patch.field("data"@)->Some_0.field("key"@) == Some(
        JsonView::Text("updated-value"@),
    ));
}

/// The calls of one initiator are about its own objects: what it creates has
/// the name under which it is changed and deleted, in the initiator's
/// namespace, and is of the kind that the request names.
pub proof fn an_initiator_works_on_its_own_objects(
    resource: ResourceKind,
    namespace: Seq<char>,
    uid: Seq<char>,
    value: u32,
)
    ensures
        match (
            call_of(Request { resource, operation: RequestOperation::Create }, namespace, uid, value),
            call_of(Request { resource, operation: RequestOperation::Update }, namespace, uid, value),
            call_of(Request { resource, operation: RequestOperation::Delete }, namespace, uid, value),
        ) {
            (
                ApiCallView::Create { resource: created, manifest },
                ApiCallView::Patch { resource: changed, name, .. },
                ApiCallView::Delete { resource: deleted, name: gone },
            ) => {
                &&& created == resource && changed == resource && deleted == resource
                &&& name == gone
                &&& occurs_at(name, uid, name.len() - uid.len())
                &&& describes(
                    manifest,
                    match resource {
                        ResourceKind::ConfigMap => "ConfigMap"@,
                        ResourceKind::Deployment => "Deployment"@,
                    },
                    name,
                    namespace,
                )
            },
            _ => false,
        },
{
    field_names_differ();
    let name = object_name(resource, uid);
    assert(name.subrange(name.len() - uid.len(), name.len() as int) =~= uid);
}

/// A deployment selects the pods that it makes: its selector asks for the
/// labels that its template gives. Its update asks for another number of them.
pub proof fn a_deployment_selects_its_pods(name: Seq<char>, namespace: Seq<char>, value: u32)
    ensures
        ({
            let manifest = object_manifest(ResourceKind::Deployment, name, namespace);
            let patch = object_patch(ResourceKind::Deployment, value);
            match manifest.field("spec"@) {
                Some(spec_part) => {
                    &&& spec_part.field("selector"@) is Some && spec_part.field("template"@) is Some
                    &&& spec_part.field("selector"@)->Some_0.field("matchLabels"@) is Some
                    &&& spec_part.field("template"@)->Some_0.field("metadata"@) is Some
                    &&& spec_part.field("selector"@)->Some_0.field("matchLabels"@)
                        == spec_part.field("template"@)->Some_0.field("metadata"@)->Some_0.field(
                        "labels"@,
                    )
                    &&& patch.field("spec"@) is Some
                    &&& patch.field("spec"@)->Some_0.field("replicas"@) is Some
                    &&& patch.field("spec"@)->Some_0.field("replicas"@) != spec_part.field(
                        "replicas"@,
                    )
                },
                None => false,
            }
        }),
{
    field_names_differ();
}

/// No two initiators share a name: neither two of one tenant nor one of each.
pub proof fn initiators_are_told_apart(role: Role, index: nat, other: Role, other_index: nat)
    requires
        initiator_uid(role, index) == initiator_uid(other, other_index),
    ensures
        role == other,
        index == other_index,
{
    reveal_strlit("t1-initiator-");
    reveal_strlit("t2-initiator-");
    let left = initiator_uid(role, index);
    let right = initiator_uid(other, other_index);
    assert(left[1] == right[1]);
    assert("t1-initiator-"@[1] == '1' && "t2-initiator-"@[1] == '2');
    decimal_reads_back(index);
    decimal_reads_back(other_index);
    assert(left.subrange(13, left.len() as int) =~= decimal(index));
    assert(right.subrange(13, right.len() as int) =~= decimal(other_index));
}

/// The scenario changes only what is there: between the creation of an object
/// and its deletion, and not outside.
pub proof fn the_scenario_changes_what_is_there(j: int)
    requires
        0 <= j < scenario_requests().len(),
        !(scenario_requests()[j].operation is Create),
    ensures
        exists|i: int|
            0 <= i < j && (#[trigger] scenario_requests()[i]).operation is Create
                && scenario_requests()[i].resource == scenario_requests()[j].resource && forall|
                k: int,
            |
                i < k < j && (#[trigger] scenario_requests()[k]).resource
                    == scenario_requests()[j].resource ==> !(scenario_requests()[k].operation is
                Delete),
{
    if scenario_requests()[j].resource is Deployment {
        assert(scenario_requests()[0].operation is Create);
    } else {
        assert(scenario_requests()[1].operation is Create);
    }
}

/// What requests took is added up: that of two batches together is the sum of
/// what each took, and so are the failures; a single request counts with its own
/// duration and its own failure.
pub proof fn requests_are_added_up(a: Seq<(u64, bool)>, b: Seq<(u64, bool)>)
    ensures
        total_duration(a + b) == total_duration(a) + total_duration(b),
        failed_requests(a + b) == failed_requests(a) + failed_requests(b),
        0 <= failed_requests(a) <= a.len(),
        a.len() == 1 ==> total_duration(a) == a[0].0,
        a.len() == 1 ==> failed_requests(a) == (if a[0].1 {
            1int
        } else {
            0
        }),
    decreases a.len() + b.len(),
{
    if b.len() > 0 {
        requests_are_added_up(a, b.drop_last());
        assert((a + b).drop_last() =~= a + b.drop_last());
    } else {
        assert(a + b =~= a);
        if a.len() > 0 {
            requests_are_added_up(a.drop_last(), b);
        }
    }
    if a.len() == 1 {
        assert(total_duration(a.drop_last()) == 0);
        assert(failed_requests(a.drop_last()) == 0);
    }
}


/// A tenant's plans keep its rate: by no time are more calls due of all workers
/// together than the rate allows, and never as many fewer as there are workers.
/// Each worker has a number of its own, so that none works on another's objects.
pub proof fn the_plans_keep_the_rate(time: int, interval: int, workers: int, i: int, j: int)
    requires
        0 <= time,
        0 < interval,
        0 <= i < workers,
        0 <= j < workers <= usize::MAX,
        interval * workers <= u64::MAX,
    ensures
        workers * calls_due(time, plan_of(interval, workers, i).interval as int) <= calls_due(
            time,
            interval,
        ),
        calls_due(time, interval) < workers * calls_due(
            time,
            plan_of(interval, workers, i).interval as int,
        ) + workers,
        plan_of(interval, workers, i).id == plan_of(interval, workers, j).id ==> i == j,
        plan_of(interval, workers, i).interval == plan_of(interval, workers, j).interval,
        plan_of(interval, workers, i).scenario == scenario_of(i, workers),
{
    workers_share_the_rate(time, interval, workers);
    assert(interval * workers >= 0) by (nonlinear_arith)
        requires
            0 < interval,
            0 <= workers,
    ;
}


/// The patch of a stressed pod sets a label that the created pod has not.
pub proof fn a_stressed_pod_gets_a_new_label(name: Seq<char>, namespace: Seq<char>)
    ensures
        match (
            stress_call(StressScenario::Pod, name, namespace, 0).call,
            stress_call(StressScenario::Pod, name, namespace, 1).call,
        ) {
            (StressCallView::Create { manifest }, StressCallView::Patch { patch, .. }) => {
                &&& manifest.field("metadata"@) is Some && patch.field("metadata"@) is Some
                &&& manifest.field("metadata"@)->Some_0.field("labels"@) is Some
                &&& match patch.field("metadata"@)->Some_0.field("labels"@) {
                    Some(JsonView::Object(labels)) => exists|key: Seq<char>|
                        #[trigger] labels.dom().contains(key) && labels[key] is Text
                            && manifest.field("metadata"@)->Some_0.field(
                            "labels"@,
                        )->Some_0.field(key) is None,
                    _ => false,
                }
            },
            _ => false,
        },
{
    field_names_differ();
    reveal_strlit("updated");
    reveal_strlit("kumuteva.io/test");
    reveal_strlit("app");
    assert("updated"@.len() == 7 && "kumuteva.io/test"@.len() == 16 && "app"@.len() == 3);
    let patch = stress_patch(StressScenario::Pod);
    let labels = patch.field("metadata"@)->Some_0.field("labels"@)->Some_0->Object_0;
    assert(labels.dom().contains("updated"@));
}


/// The number of workers is recorded with a measurement of the control plane.
pub proof fn the_workers_are_recorded(max_workers: int)
    ensures
        control_plane_settings(max_workers).field("max_workers"@) == Some(
            JsonView::Number(max_workers),
        ),
{
    reveal_strlit("max_workers");
    reveal_strlit("measures");
    assert("max_workers"@.len() == 11 && "measures"@.len() == 8);
}

}
