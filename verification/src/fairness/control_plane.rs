//! The control plane under load: what each worker asks of the API server.

use crate::json::{empty_array, empty_object, Json, JsonView};
use crate::text::{decimal, decimal_of, joined, joined4};
use vstd::prelude::*;
use vstd::string::*;

verus! {

/// Control plane assessor configuration.
#[derive(Debug, Clone, Copy, PartialEq, Eq, Structural)]
pub struct FairnessControlPlaneConfig {
    /// Number of concurrent workers per tenant.
    pub max_workers: usize,
}

impl Default for FairnessControlPlaneConfig {
    fn default() -> (r: FairnessControlPlaneConfig)
        ensures
            r.max_workers == 1,
    {
        FairnessControlPlaneConfig { max_workers: 1 }
    }
}

/// Control plane fairness assessor: workers that create, change and delete
/// configuration maps and pods.
#[derive(Debug, Clone, Copy, PartialEq, Eq, Structural)]
pub struct FairnessControlPlaneAssessor {
    pub config: FairnessControlPlaneConfig,
}

/// The settings that decide what was measured.
pub open spec fn control_plane_settings(max_workers: int) -> JsonView {
    empty_object().with("max_workers"@, JsonView::Number(max_workers)).with(
        "measures"@,
        JsonView::Text("api admission latency only"@),
    )
}

impl FairnessControlPlaneAssessor {
    /// An assessor with the given configuration.
    pub fn new(config: FairnessControlPlaneConfig) -> (r: FairnessControlPlaneAssessor)
        ensures
            r.config == config,
    {
        FairnessControlPlaneAssessor { config }
    }

    /// Name of the subsystem.
    pub fn name(&self) -> (r: &'static str)
        ensures
            r@ == "Control Plane"@,
    {
        "Control Plane"
    }

    /// What is measured.
    pub fn metric(&self) -> (r: &'static str)
        ensures
            r@ == "API request latency"@,
    {
        "API request latency"
    }

    /// The settings that decide what was measured.
    pub fn configuration(&self) -> (r: Json)
        ensures
            r@ == control_plane_settings(self.config.max_workers as int),
    {
        Json::object()
            .with("max_workers", Json::Number(self.config.max_workers as i128))
            .with("measures", Json::text("api admission latency only"))
    }
}

/// What a worker works on.
#[derive(Debug, Clone, Copy, PartialEq, Eq, Structural)]
pub enum StressScenario {
    Pod,
    ConfigMap,
}

/// How a tenant's workers are shared out: half of them, rounded down, work on
/// pods and the rest on configuration maps.
pub fn distribute_workers(total_workers: usize) -> (r: (usize, usize))
    ensures
        r.0 == total_workers as int / 2,
        r.0 + r.1 == total_workers,
{
    let pod_workers: usize = total_workers / 2;
    (pod_workers, total_workers - pod_workers)
}

/// What worker number `worker` of so many works on.
pub open spec fn scenario_of(worker: int, total_workers: int) -> StressScenario {
    if worker < total_workers / 2 {
        StressScenario::Pod
    } else {
        StressScenario::ConfigMap
    }
}

/// What each of a tenant's workers works on.
pub fn worker_scenarios(total_workers: usize) -> (r: Vec<StressScenario>)
    ensures
        r@ == Seq::new(total_workers as nat, |i: int| scenario_of(i, total_workers as int)),
{
    let (pod_workers, _): (usize, usize) = distribute_workers(total_workers);
    let mut scenarios: Vec<StressScenario> = Vec::new();
    let mut i: usize = 0;
    while i < total_workers
        invariant
            i <= total_workers,
            pod_workers == total_workers as int / 2,
            scenarios@ =~= Seq::new(i as nat, |k: int| scenario_of(k, total_workers as int)),
        decreases total_workers - i,
    {
        if i < pod_workers {
            scenarios.push(StressScenario::Pod);
        } else {
            scenarios.push(StressScenario::ConfigMap);
        }
        i += 1;
    }
    scenarios
}

/// The time between two calls of one of so many workers that share a tenant's
/// rate, as far as a clock can count it.
pub open spec fn shared_interval(interval: int, workers: int) -> int {
    if interval * workers <= u64::MAX {
        interval * workers
    } else {
        u64::MAX as int
    }
}

/// The time between two calls of one of so many workers that share a tenant's
/// rate, in nanoseconds: each makes one call in the time in which all of them
/// together make one each. Without an interval nothing is paced.
pub fn worker_interval(interval: u64, workers: usize) -> (r: u64)
    ensures
        interval * workers <= u64::MAX ==> r == interval * workers,
        interval * workers > u64::MAX ==> r == u64::MAX,
        r == shared_interval(interval as int, workers as int),
{
    let product: u128 = product_of(interval, workers);
    if product <= 0xffff_ffff_ffff_ffff {
        product as u64
    } else {
        0xffff_ffff_ffff_ffff
    }
}

/// The product of an interval and a number of workers.
fn product_of(interval: u64, workers: usize) -> (r: u128)
    ensures
        r == interval * workers,
{
    assert(0 <= interval * workers <= 0xffff_ffff_ffff_ffff_ffff_ffff_ffff_ffff) by (nonlinear_arith)
        requires
            0 <= interval <= 0xffff_ffff_ffff_ffff,
            0 <= workers <= 0xffff_ffff_ffff_ffff,
    ;
    interval as u128 * workers as u128
}

/// What one of a tenant's workers does in a phase: the scenario it works on and
/// the time between two of its calls, in nanoseconds.
#[derive(Debug, Clone, Copy, PartialEq, Eq, Structural)]
pub struct WorkerPlan {
    pub id: usize,
    pub scenario: StressScenario,
    pub interval: u64,
}

/// The plan of worker number `i` of so many that share a tenant's rate.
pub open spec fn plan_of(interval: int, workers: int, i: int) -> WorkerPlan {
    WorkerPlan {
        id: i as usize,
        scenario: scenario_of(i, workers),
        interval: shared_interval(interval, workers) as u64,
    }
}

/// Plans a tenant's part of a phase: each worker has its scenario and an equal
/// share of the tenant's rate.
pub fn run_phase(interval: u64, workers: usize) -> (r: Vec<WorkerPlan>)
    ensures
        r.len() == workers,
        forall|i: int|
            0 <= i < workers ==> {
                &&& (#[trigger] r[i]).id == i
                &&& r[i].scenario == scenario_of(i, workers as int)
                &&& interval * workers <= u64::MAX ==> r[i].interval == interval * workers
                &&& interval * workers > u64::MAX ==> r[i].interval == u64::MAX
                &&& r[i] == plan_of(interval as int, workers as int, i)
            },
{
    let scenarios = worker_scenarios(workers);
    let share: u64 = worker_interval(interval, workers);
    let mut plans: Vec<WorkerPlan> = Vec::new();
    let mut id: usize = 0;
    while id < workers
        invariant
            id <= workers,
            plans.len() == id,
            scenarios.len() == workers,
            forall|i: int|
                0 <= i < workers ==> (#[trigger] scenarios[i]) == scenario_of(i, workers as int),
            interval * workers <= u64::MAX ==> share == interval * workers,
            interval * workers > u64::MAX ==> share == u64::MAX,
            forall|i: int|
                0 <= i < id ==> (#[trigger] plans[i]) == (WorkerPlan {
                    id: i as usize,
                    scenario: scenario_of(i, workers as int),
                    interval: share,
                }),
        decreases workers - id,
    {
        plans.push(WorkerPlan { id, scenario: scenarios[id], interval: share });
        id += 1;
    }
    plans
}

/// How many calls are due after the first by the time `time`.
pub open spec fn calls_due(time: int, interval: int) -> int {
    time / interval
}

/// The workers of a tenant together keep its rate, whatever their number: by no
/// time are more calls due than the rate allows, and never as many as there are
/// workers fewer. So more workers alone do not escalate.
pub proof fn workers_share_the_rate(time: int, interval: int, workers: int)
    requires
        0 <= time,
        0 < interval,
        0 < workers,
    ensures
        workers * calls_due(time, interval * workers) <= calls_due(time, interval),
        calls_due(time, interval) < workers * calls_due(time, interval * workers) + workers,
{
    let together = interval * workers;
    assert(together > 0) by (nonlinear_arith)
        requires
            0 < interval,
            0 < workers,
            together == interval * workers,
    ;
    let each = time / together;
    let all = time / interval;
    vstd::arithmetic::div_mod::lemma_fundamental_div_mod(time, together);
    vstd::arithmetic::div_mod::lemma_fundamental_div_mod(time, interval);
    assert(together * each <= time < together * each + together);
    assert(interval * all <= time < interval * all + interval);
    assert(together * each == interval * (workers * each)) by (nonlinear_arith)
        requires
            together == interval * workers,
    ;
    assert(together * each + together == interval * (workers * each + workers))
        by (nonlinear_arith)
        requires
            together == interval * workers,
    ;
    assert(workers * each <= all) by (nonlinear_arith)
        requires
            interval * (workers * each) <= time,
            time < interval * all + interval,
            0 < interval,
    ;
    assert(all < workers * each + workers) by (nonlinear_arith)
        requires
            interval * all <= time,
            time < interval * (workers * each + workers),
            0 < interval,
    ;
}

/// A call that a worker makes, on objects of its scenario's kind.
#[derive(Debug)]
pub enum StressCall {
    Create { manifest: Json },
    Get { name: String },
    /// Applies a merge patch.
    Patch { name: String, patch: Json },
    List,
    Delete { name: String },
}

/// What a call says.
pub enum StressCallView {
    Create { manifest: JsonView },
    Get { name: Seq<char> },
    Patch { name: Seq<char>, patch: JsonView },
    List,
    Delete { name: Seq<char> },
}

impl View for StressCall {
    type V = StressCallView;

    open spec fn view(&self) -> StressCallView {
        match *self {
            StressCall::Create { manifest } => StressCallView::Create { manifest: manifest@ },
            StressCall::Get { name } => StressCallView::Get { name: name@ },
            StressCall::Patch { name, patch } => StressCallView::Patch {
                name: name@,
                patch: patch@,
            },
            StressCall::List => StressCallView::List,
            StressCall::Delete { name } => StressCallView::Delete { name: name@ },
        }
    }
}

/// A call with the label under which it is recorded.
#[derive(Debug)]
pub struct StressOperation {
    pub label: String,
    pub call: StressCall,
}

/// What a labelled call says.
pub struct StressView {
    pub label: Seq<char>,
    pub call: StressCallView,
}

impl View for StressOperation {
    type V = StressView;

    open spec fn view(&self) -> StressView {
        StressView { label: self.label@, call: self.call@ }
    }
}

/// How many calls a scenario makes before it begins anew.
pub open spec fn cycle_length(scenario: StressScenario) -> int {
    match scenario {
        StressScenario::Pod => 4,
        StressScenario::ConfigMap => 6,
    }
}

/// The name of the object that a worker uses in its cycle number `cycle`.
pub open spec fn stress_name(scenario: StressScenario, worker: nat, cycle: nat) -> Seq<char> {
    (match scenario {
        StressScenario::Pod => "fairness-pod-"@,
        StressScenario::ConfigMap => "fairness-test-"@,
    }) + decimal(worker) + "-"@ + decimal(cycle)
}

/// The labels by which the test's objects are found again.
pub open spec fn stress_labels_view(name: Seq<char>) -> JsonView {
    empty_object().with("kumuteva.io/test"@, JsonView::Text("control-plane"@)).with(
        "app"@,
        JsonView::Text(name),
    )
}

/// What the metadata of an object of the test says.
pub open spec fn stress_metadata_view(name: Seq<char>, namespace: Seq<char>) -> JsonView {
    empty_object().with("name"@, JsonView::Text(name)).with(
        "namespace"@,
        JsonView::Text(namespace),
    ).with("labels"@, stress_labels_view(name))
}

/// The configuration map that a worker creates.
pub open spec fn stress_config_map(name: Seq<char>, namespace: Seq<char>) -> JsonView {
    empty_object().with("apiVersion"@, JsonView::Text("v1"@)).with(
        "kind"@,
        JsonView::Text("ConfigMap"@),
    ).with("metadata"@, stress_metadata_view(name, namespace)).with(
        "data"@,
        empty_object().with("key"@, JsonView::Text("value"@)),
    )
}

/// An amount of CPU and of memory.
pub open spec fn tiny_amounts_view(cpu: Seq<char>, memory: Seq<char>) -> JsonView {
    empty_object().with("cpu"@, JsonView::Text(cpu)).with("memory"@, JsonView::Text(memory))
}

/// The pod that a worker creates.
pub open spec fn stress_pod(name: Seq<char>, namespace: Seq<char>) -> JsonView {
    let container = empty_object().with("name"@, JsonView::Text("pause"@)).with(
        "image"@,
        JsonView::Text("k8s.gcr.io/pause:3.5"@),
    ).with("imagePullPolicy"@, JsonView::Text("IfNotPresent"@)).with(
        "resources"@,
        empty_object().with("requests"@, tiny_amounts_view("10m"@, "10Mi"@)).with(
            "limits"@,
            tiny_amounts_view("20m"@, "20Mi"@),
        ),
    );
    empty_object().with("apiVersion"@, JsonView::Text("v1"@)).with(
        "kind"@,
        JsonView::Text("Pod"@),
    ).with("metadata"@, stress_metadata_view(name, namespace)).with(
        "spec"@,
        empty_object().with("containers"@, empty_array().item(container)),
    )
}

/// The patch that a worker applies.
pub open spec fn stress_patch(scenario: StressScenario) -> JsonView {
    match scenario {
        StressScenario::Pod => empty_object().with(
            "metadata"@,
            empty_object().with(
                "labels"@,
                empty_object().with("updated"@, JsonView::Text("true"@)),
            ),
        ),
        StressScenario::ConfigMap => empty_object().with(
            "data"@,
            empty_object().with("key"@, JsonView::Text("updated-value"@)),
        ),
    }
}

/// The call that a worker makes at a step of its cycle, whether or not the
/// earlier ones succeeded: a load generator offers a defined rate of requests.
pub open spec fn stress_call(
    scenario: StressScenario,
    name: Seq<char>,
    namespace: Seq<char>,
    step: int,
) -> StressView {
    let patch = StressCallView::Patch { name, patch: stress_patch(scenario) };
    match scenario {
        StressScenario::Pod => if step == 0 {
            StressView {
                label: "create-pod-"@ + name,
                call: StressCallView::Create { manifest: stress_pod(name, namespace) },
            }
        } else if step == 1 {
            StressView { label: "update-pod-"@ + name, call: patch }
        } else if step == 2 {
            StressView { label: "list-pod-"@ + name, call: StressCallView::List }
        } else {
            StressView {
                label: "delete-pod-"@ + name,
                call: StressCallView::Delete { name },
            }
        },
        StressScenario::ConfigMap => if step == 0 {
            StressView {
                label: "create-cm-"@ + name,
                call: StressCallView::Create { manifest: stress_config_map(name, namespace) },
            }
        } else if step == 1 {
            StressView { label: "get-cm-"@ + name, call: StressCallView::Get { name } }
        } else if step == 2 {
            StressView { label: "update-cm-"@ + name, call: patch }
        } else if step == 3 {
            StressView { label: "get-updated-cm-"@ + name, call: StressCallView::Get { name } }
        } else if step == 4 {
            StressView { label: "list-cm-"@ + name, call: StressCallView::List }
        } else {
            StressView { label: "delete-cm-"@ + name, call: StressCallView::Delete { name } }
        },
    }
}

/// The call that a worker makes after `issued` others. A cycle that has begun
/// runs to its end; none begins once the deadline has come.
pub open spec fn stress_step(
    scenario: StressScenario,
    worker: nat,
    namespace: Seq<char>,
    issued: nat,
    due: bool,
) -> Option<StressView> {
    let length = cycle_length(scenario);
    let step = issued as int % length;
    if step == 0 && due {
        None
    } else {
        Some(
            stress_call(
                scenario,
                stress_name(scenario, worker, (issued as int / length) as nat),
                namespace,
                step,
            ),
        )
    }
}

/// What the metadata of an object of the test says.
fn stress_metadata(name: &str, namespace: &str) -> (r: Json)
    ensures
        r@ == stress_metadata_view(name@, namespace@),
{
    Json::object()
        .with("name", Json::text(name))
        .with("namespace", Json::text(namespace))
        .with(
            "labels",
            Json::object()
                .with("kumuteva.io/test", Json::text("control-plane"))
                .with("app", Json::text(name)),
        )
}

/// An amount of CPU and of memory.
fn tiny_amounts(cpu: &str, memory: &str) -> (r: Json)
    ensures
        r@ == tiny_amounts_view(cpu@, memory@),
{
    Json::object().with("cpu", Json::text(cpu)).with("memory", Json::text(memory))
}

/// The manifest that a worker creates.
fn stress_manifest(scenario: StressScenario, name: &str, namespace: &str) -> (r: Json)
    ensures
        r@ == match scenario {
            StressScenario::Pod => stress_pod(name@, namespace@),
            StressScenario::ConfigMap => stress_config_map(name@, namespace@),
        },
{
    match scenario {
        StressScenario::Pod => {
            let container = Json::object()
                .with("name", Json::text("pause"))
                .with("image", Json::text("k8s.gcr.io/pause:3.5"))
                .with("imagePullPolicy", Json::text("IfNotPresent"))
                .with(
                    "resources",
                    Json::object()
                        .with("requests", tiny_amounts("10m", "10Mi"))
                        .with("limits", tiny_amounts("20m", "20Mi")),
                );
            Json::object()
                .with("apiVersion", Json::text("v1"))
                .with("kind", Json::text("Pod"))
                .with("metadata", stress_metadata(name, namespace))
                .with("spec", Json::object().with("containers", Json::array().item(container)))
        },
        StressScenario::ConfigMap => Json::object()
            .with("apiVersion", Json::text("v1"))
            .with("kind", Json::text("ConfigMap"))
            .with("metadata", stress_metadata(name, namespace))
            .with("data", Json::object().with("key", Json::text("value"))),
    }
}

/// The patch that a worker applies.
fn patch_of(scenario: StressScenario) -> (r: Json)
    ensures
        r@ == stress_patch(scenario),
{
    match scenario {
        StressScenario::Pod => Json::object().with(
            "metadata",
            Json::object().with("labels", Json::object().with("updated", Json::text("true"))),
        ),
        StressScenario::ConfigMap => Json::object().with(
            "data",
            Json::object().with("key", Json::text("updated-value")),
        ),
    }
}

/// A labelled call.
fn operation(label: &str, name: &str, call: StressCall) -> (r: StressOperation)
    ensures
        r@ == (StressView { label: label@ + name@, call: call@ }),
{
    StressOperation { label: joined(label, name), call }
}

/// The call that a worker makes at a step of its cycle on pods.
fn pod_operation(name: String, namespace: &str, step: u64) -> (r: StressOperation)
    ensures
        r@ == stress_call(StressScenario::Pod, name@, namespace@, step as int),
{
    let scenario = StressScenario::Pod;
    if step == 0 {
        let manifest = stress_manifest(scenario, &name, namespace);
        operation("create-pod-", &name, StressCall::Create { manifest })
    } else if step == 1 {
        let patch = patch_of(scenario);
        operation("update-pod-", &name, StressCall::Patch { name: name.clone(), patch })
    } else if step == 2 {
        operation("list-pod-", &name, StressCall::List)
    } else {
        operation("delete-pod-", &name, StressCall::Delete { name: name.clone() })
    }
}

/// The call that a worker makes at a step of its cycle on configuration maps.
fn config_map_operation(name: String, namespace: &str, step: u64) -> (r: StressOperation)
    ensures
        r@ == stress_call(StressScenario::ConfigMap, name@, namespace@, step as int),
{
    let scenario = StressScenario::ConfigMap;
    if step == 0 {
        let manifest = stress_manifest(scenario, &name, namespace);
        operation("create-cm-", &name, StressCall::Create { manifest })
    } else if step == 1 {
        operation("get-cm-", &name, StressCall::Get { name: name.clone() })
    } else if step == 2 {
        let patch = patch_of(scenario);
        operation("update-cm-", &name, StressCall::Patch { name: name.clone(), patch })
    } else if step == 3 {
        operation("get-updated-cm-", &name, StressCall::Get { name: name.clone() })
    } else if step == 4 {
        operation("list-cm-", &name, StressCall::List)
    } else {
        operation("delete-cm-", &name, StressCall::Delete { name: name.clone() })
    }
}

/// What an optional labelled call says.
pub open spec fn operation_view(operation: Option<StressOperation>) -> Option<StressView> {
    match operation {
        Some(operation) => Some(operation@),
        None => None,
    }
}

/// The call that a worker on pods makes after `issued` others; nothing where the
/// deadline has come before a cycle began.
pub fn run_stress_test_on_pod(
    worker_id: usize,
    namespace: &str,
    issued: u64,
    now: u128,
    deadline: u128,
) -> (r: Option<StressOperation>)
    ensures
        operation_view(r) == stress_step(
            StressScenario::Pod,
            worker_id as nat,
            namespace@,
            issued as nat,
            now >= deadline,
        ),
{
    let step: u64 = issued % 4;
    if step == 0 && now >= deadline {
        return None;
    }
    let name = joined4(
        "fairness-pod-",
        &decimal_of(worker_id as u64),
        "-",
        &decimal_of(issued / 4),
    );
    Some(pod_operation(name, namespace, step))
}

/// The call that a worker on configuration maps makes after `issued` others;
/// nothing where the deadline has come before a cycle began.
pub fn run_stress_test_on_configmap(
    worker_id: usize,
    namespace: &str,
    issued: u64,
    now: u128,
    deadline: u128,
) -> (r: Option<StressOperation>)
    ensures
        operation_view(r) == stress_step(
            StressScenario::ConfigMap,
            worker_id as nat,
            namespace@,
            issued as nat,
            now >= deadline,
        ),
{
    let step: u64 = issued % 6;
    if step == 0 && now >= deadline {
        return None;
    }
    let name = joined4(
        "fairness-test-",
        &decimal_of(worker_id as u64),
        "-",
        &decimal_of(issued / 6),
    );
    Some(config_map_operation(name, namespace, step))
}

/// A cycle that has begun is finished: its last call deletes the object that its
/// first one created, even where the deadline has come.
pub proof fn a_cycle_deletes_what_it_created(
    scenario: StressScenario,
    worker: nat,
    namespace: Seq<char>,
    cycle: nat,
    due: bool,
)
    ensures
        ({
            let length = cycle_length(scenario);
            let name = stress_name(scenario, worker, cycle);
            let first = stress_step(
                scenario,
                worker,
                namespace,
                (length * cycle) as nat,
                false,
            );
            let last = stress_step(
                scenario,
                worker,
                namespace,
                (length * cycle + length - 1) as nat,
                due,
            );
            &&& first matches Some(operation) && operation.call is Create
            &&& first == Some(stress_call(scenario, name, namespace, 0))
            &&& last matches Some(operation) && operation.call == (StressCallView::Delete { name })
        }),
{
    let length = cycle_length(scenario);
    assert((length * cycle) % length == 0 && (length * cycle) / length == cycle as int)
        by (nonlinear_arith)
        requires
            length == 4 || length == 6,
    ;
    assert((length * cycle + length - 1) % length == length - 1 && (length * cycle + length - 1)
        / length == cycle as int) by (nonlinear_arith)
        requires
            length == 4 || length == 6,
    ;
}

}
