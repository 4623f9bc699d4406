//! A fixed scenario of API requests, sent over and over by initiators that each
//! own one configuration map and one deployment.

use crate::json::{empty_array, empty_object, Json, JsonView};
use crate::text::{chars_of, decimal, decimal_of, joined, occurs_at, stands_at, string_from};
use vstd::prelude::*;
use vstd::string::*;

verus! {

/// The tenant that an initiator works for.
#[derive(Debug, Clone, Copy, PartialEq, Eq, Structural)]
pub enum Role {
    Tenant1,
    Tenant2,
}

impl Role {
    /// The role in words.
    pub open spec fn text(self) -> Seq<char> {
        match self {
            Role::Tenant1 => "Tenant1"@,
            Role::Tenant2 => "Tenant2"@,
        }
    }

    /// The role in words.
    pub fn label(&self) -> (r: String)
        ensures
            r@ == self.text(),
    {
        match self {
            Role::Tenant1 => string_from("Tenant1"),
            Role::Tenant2 => string_from("Tenant2"),
        }
    }
}

/// A kind of object that the scenario works on.
#[derive(Debug, Clone, Copy, PartialEq, Eq, Structural)]
pub enum ResourceKind {
    ConfigMap,
    Deployment,
}

impl ResourceKind {
    /// The kind in words.
    pub open spec fn text(self) -> Seq<char> {
        match self {
            ResourceKind::ConfigMap => "ConfigMap"@,
            ResourceKind::Deployment => "Deployment"@,
        }
    }

    /// The kind in words.
    pub fn label(&self) -> (r: String)
        ensures
            r@ == self.text(),
    {
        match self {
            ResourceKind::ConfigMap => string_from("ConfigMap"),
            ResourceKind::Deployment => string_from("Deployment"),
        }
    }
}

/// What is done to an object.
#[derive(Debug, Clone, Copy, PartialEq, Eq, Structural)]
pub enum RequestOperation {
    Create,
    Update,
    Delete,
}

impl RequestOperation {
    /// The operation in words.
    pub open spec fn text(self) -> Seq<char> {
        match self {
            RequestOperation::Create => "Create"@,
            RequestOperation::Update => "Update"@,
            RequestOperation::Delete => "Delete"@,
        }
    }

    /// The operation in words.
    pub fn label(&self) -> (r: String)
        ensures
            r@ == self.text(),
    {
        match self {
            RequestOperation::Create => string_from("Create"),
            RequestOperation::Update => string_from("Update"),
            RequestOperation::Delete => string_from("Delete"),
        }
    }
}

/// One request of the scenario.
#[derive(Debug, Clone, Copy, PartialEq, Eq, Structural)]
pub struct Request {
    pub resource: ResourceKind,
    pub operation: RequestOperation,
}

/// The requests of the scenario, in order.
pub open spec fn scenario_requests() -> Seq<Request> {
    seq![
        Request { resource: ResourceKind::Deployment, operation: RequestOperation::Create },
        Request { resource: ResourceKind::ConfigMap, operation: RequestOperation::Create },
        Request { resource: ResourceKind::Deployment, operation: RequestOperation::Update },
        Request { resource: ResourceKind::ConfigMap, operation: RequestOperation::Delete },
        Request { resource: ResourceKind::Deployment, operation: RequestOperation::Delete },
    ]
}

/// The requests of the scenario, in order.
pub fn create_scenario() -> (r: Vec<Request>)
    ensures
        r@ == scenario_requests(),
{
    let requests = vec![
        Request { resource: ResourceKind::Deployment, operation: RequestOperation::Create },
        Request { resource: ResourceKind::ConfigMap, operation: RequestOperation::Create },
        Request { resource: ResourceKind::Deployment, operation: RequestOperation::Update },
        Request { resource: ResourceKind::ConfigMap, operation: RequestOperation::Delete },
        Request { resource: ResourceKind::Deployment, operation: RequestOperation::Delete },
    ];
    assert(requests@ =~= scenario_requests());
    requests
}

/// The request at a step of the scenario; nothing behind its end.
pub fn process_scenario_step(scenario: &Vec<Request>, step_index: usize) -> (r: Option<Request>)
    ensures
        r == if step_index < scenario.len() {
            Some(scenario@[step_index as int])
        } else {
            None
        },
{
    if step_index >= scenario.len() {
        None
    } else {
        Some(scenario[step_index])
    }
}

/// The step after `step`: behind the last one the scenario begins anew.
pub fn next_step(step: usize, length: usize) -> (r: usize)
    requires
        step < length,
    ensures
        r < length,
        step + 1 < length ==> r == step + 1,
        step + 1 == length ==> r == 0,
{
    if step + 1 < length {
        step + 1
    } else {
        0
    }
}

/// Every request of the scenario that creates an object is followed by one that
/// deletes it.
pub proof fn the_scenario_deletes_what_it_creates(i: int)
    requires
        0 <= i < scenario_requests().len(),
        scenario_requests()[i].operation is Create,
    ensures
        exists|j: int|
            i < j < scenario_requests().len() && (#[trigger] scenario_requests()[j]).operation
                is Delete && scenario_requests()[j].resource == scenario_requests()[i].resource,
{
    if i == 0 {
        assert(scenario_requests()[4].operation is Delete);
    } else {
        assert(scenario_requests()[3].operation is Delete);
    }
}

/// A call to the API server.
#[derive(Debug)]
pub enum ApiCall {
    Create { resource: ResourceKind, manifest: Json },
    /// Applies a merge patch.
    Patch { resource: ResourceKind, name: String, patch: Json },
    Delete { resource: ResourceKind, name: String },
}

/// What a call says.
pub enum ApiCallView {
    Create { resource: ResourceKind, manifest: JsonView },
    Patch { resource: ResourceKind, name: Seq<char>, patch: JsonView },
    Delete { resource: ResourceKind, name: Seq<char> },
}

impl View for ApiCall {
    type V = ApiCallView;

    open spec fn view(&self) -> ApiCallView {
        match *self {
            ApiCall::Create { resource, manifest } => ApiCallView::Create {
                resource,
                manifest: manifest@,
            },
            ApiCall::Patch { resource, name, patch } => ApiCallView::Patch {
                resource,
                name: name@,
                patch: patch@,
            },
            ApiCall::Delete { resource, name } => ApiCallView::Delete { resource, name: name@ },
        }
    }
}

/// What the names of the objects of a kind start with.
pub open spec fn name_prefix(resource: ResourceKind) -> Seq<char> {
    match resource {
        ResourceKind::ConfigMap => "fairness-test-config-"@,
        ResourceKind::Deployment => "fairness-test-"@,
    }
}

/// The name of an initiator's object of a kind.
pub open spec fn object_name(resource: ResourceKind, uid: Seq<char>) -> Seq<char> {
    name_prefix(resource) + uid
}

/// What the metadata of an initiator's object says.
pub open spec fn object_metadata_view(name: Seq<char>, namespace: Seq<char>) -> JsonView {
    empty_object().with("name"@, JsonView::Text(name)).with(
        "namespace"@,
        JsonView::Text(namespace),
    )
}

/// The label that ties a deployment to its pods.
pub open spec fn app_label_view() -> JsonView {
    empty_object().with("app"@, JsonView::Text("fairness-test"@))
}

/// What is created of a kind.
pub open spec fn object_manifest(
    resource: ResourceKind,
    name: Seq<char>,
    namespace: Seq<char>,
) -> JsonView {
    match resource {
        ResourceKind::ConfigMap => empty_object().with("apiVersion"@, JsonView::Text("v1"@)).with(
            "kind"@,
            JsonView::Text("ConfigMap"@),
        ).with("metadata"@, object_metadata_view(name, namespace)).with(
            "data"@,
            empty_object().with("key"@, JsonView::Text("example-value"@)),
        ),
        ResourceKind::Deployment => {
            let container = empty_object().with("name"@, JsonView::Text("nginx"@)).with(
                "image"@,
                JsonView::Text("nginx:latest"@),
            ).with(
                "ports"@,
                empty_array().item(
                    empty_object().with("containerPort"@, JsonView::Number(80)),
                ),
            );
            empty_object().with("apiVersion"@, JsonView::Text("apps/v1"@)).with(
                "kind"@,
                JsonView::Text("Deployment"@),
            ).with("metadata"@, object_metadata_view(name, namespace)).with(
                "spec"@,
                empty_object().with("replicas"@, JsonView::Number(1)).with(
                    "selector"@,
                    empty_object().with("matchLabels"@, app_label_view()),
                ).with(
                    "template"@,
                    empty_object().with(
                        "metadata"@,
                        empty_object().with("labels"@, app_label_view()),
                    ).with(
                        "spec"@,
                        empty_object().with("containers"@, empty_array().item(container)),
                    ),
                ),
            )
        },
    }
}

/// How an object of a kind is updated: a deployment is scaled, a configuration
/// map gets a new value.
pub open spec fn object_patch(resource: ResourceKind, value: u32) -> JsonView {
    match resource {
        ResourceKind::ConfigMap => empty_object().with(
            "data"@,
            empty_object().with(
                "key"@,
                JsonView::Text("updated-value-"@ + decimal(value as nat)),
            ),
        ),
        ResourceKind::Deployment => empty_object().with(
            "spec"@,
            empty_object().with("replicas"@, JsonView::Number(2)),
        ),
    }
}

/// The call that a request makes. Only the update of a configuration map depends
/// on `value`.
pub open spec fn call_of(
    request: Request,
    namespace: Seq<char>,
    uid: Seq<char>,
    value: u32,
) -> ApiCallView {
    let resource = request.resource;
    let name = object_name(resource, uid);
    match request.operation {
        RequestOperation::Create => ApiCallView::Create {
            resource,
            manifest: object_manifest(resource, name, namespace),
        },
        RequestOperation::Update => ApiCallView::Patch {
            resource,
            name,
            patch: object_patch(resource, value),
        },
        RequestOperation::Delete => ApiCallView::Delete { resource, name },
    }
}

/// `rand::random::<u32>`: any number of thirty-two bits. Which one it is, is left
/// to chance.
#[verifier::external_body]
fn random_value() -> (r: u32) {
    rand::random::<u32>()
}

/// What the metadata of an initiator's object says.
fn object_metadata(name: &str, namespace: &str) -> (r: Json)
    ensures
        r@ == object_metadata_view(name@, namespace@),
{
    Json::object().with("name", Json::text(name)).with("namespace", Json::text(namespace))
}

/// The label that ties a deployment to its pods.
fn app_label() -> (r: Json)
    ensures
        r@ == app_label_view(),
{
    Json::object().with("app", Json::text("fairness-test"))
}

/// What is created of a kind.
fn manifest_of(resource: ResourceKind, name: &str, namespace: &str) -> (r: Json)
    ensures
        r@ == object_manifest(resource, name@, namespace@),
{
    match resource {
        ResourceKind::ConfigMap => Json::object()
            .with("apiVersion", Json::text("v1"))
            .with("kind", Json::text("ConfigMap"))
            .with("metadata", object_metadata(name, namespace))
            .with("data", Json::object().with("key", Json::text("example-value"))),
        ResourceKind::Deployment => {
            let container = Json::object()
                .with("name", Json::text("nginx"))
                .with("image", Json::text("nginx:latest"))
                .with(
                    "ports",
                    Json::array().item(Json::object().with("containerPort", Json::Number(80))),
                );
            let template = Json::object()
                .with("metadata", Json::object().with("labels", app_label()))
                .with("spec", Json::object().with("containers", Json::array().item(container)));
            Json::object()
                .with("apiVersion", Json::text("apps/v1"))
                .with("kind", Json::text("Deployment"))
                .with("metadata", object_metadata(name, namespace))
                .with(
                    "spec",
                    Json::object()
                        .with("replicas", Json::Number(1))
                        .with("selector", Json::object().with("matchLabels", app_label()))
                        .with("template", template),
                )
        },
    }
}

/// How an object of a kind is updated.
fn patch_of(resource: ResourceKind, value: u32) -> (r: Json)
    ensures
        r@ == object_patch(resource, value),
{
    match resource {
        ResourceKind::ConfigMap => Json::object().with(
            "data",
            Json::object().with(
                "key",
                Json::Text(joined("updated-value-", &decimal_of(value as u64))),
            ),
        ),
        ResourceKind::Deployment => Json::object().with(
            "spec",
            Json::object().with("replicas", Json::Number(2)),
        ),
    }
}

/// The name of an initiator's object of a kind.
fn name_of(resource: ResourceKind, uid: &str) -> (r: String)
    ensures
        r@ == object_name(resource, uid@),
{
    match resource {
        ResourceKind::ConfigMap => joined("fairness-test-config-", uid),
        ResourceKind::Deployment => joined("fairness-test-", uid),
    }
}

impl Request {
    /// The call that this request makes for an initiator, with the given value
    /// for an update.
    pub fn call_with(&self, namespace: &str, sender_uid: &str, value: u32) -> (r: ApiCall)
        ensures
            r@ == call_of(*self, namespace@, sender_uid@, value),
    {
        let resource = self.resource;
        let name = name_of(resource, sender_uid);
        match self.operation {
            RequestOperation::Create => ApiCall::Create {
                resource,
                manifest: manifest_of(resource, &name, namespace),
            },
            RequestOperation::Update => ApiCall::Patch {
                resource,
                name,
                patch: patch_of(resource, value),
            },
            RequestOperation::Delete => ApiCall::Delete { resource, name },
        }
    }

    /// The call that this request makes for an initiator, with a random value
    /// for an update.
    pub fn send(&self, namespace: &str, sender_uid: &str) -> (r: ApiCall)
        ensures
            exists|value: u32| r@ == #[trigger] call_of(*self, namespace@, sender_uid@, value),
            !(self.resource is ConfigMap && self.operation is Update) ==> r@ == call_of(
                *self,
                namespace@,
                sender_uid@,
                0,
            ),
    {
        let value: u32 = random_value();
        self.call_with(namespace, sender_uid, value)
    }
}

/// The name of initiator number `index` of a tenant.
pub open spec fn initiator_uid(role: Role, index: nat) -> Seq<char> {
    (match role {
        Role::Tenant1 => "t1-initiator-"@,
        Role::Tenant2 => "t2-initiator-"@,
    }) + decimal(index)
}

/// The name of initiator number `index` of a tenant.
pub fn uid_of_initiator(role: Role, index: usize) -> (r: String)
    ensures
        r@ == initiator_uid(role, index as nat),
{
    let number = decimal_of(index as u64);
    match role {
        Role::Tenant1 => joined("t1-initiator-", &number),
        Role::Tenant2 => joined("t2-initiator-", &number),
    }
}

/// Whether an object of a kind with this name is one that the test left behind.
pub fn is_left_over(resource: ResourceKind, name: &str) -> (r: bool)
    ensures
        r == occurs_at(name@, name_prefix(resource), 0),
{
    let prefix = match resource {
        ResourceKind::ConfigMap => "fairness-test-config-",
        ResourceKind::Deployment => "fairness-test-",
    };
    stands_at(&chars_of(name), &chars_of(prefix), 0)
}

/// Every object that an initiator creates is found again by the cleaning up.
pub proof fn created_objects_are_found_again(resource: ResourceKind, uid: Seq<char>)
    ensures
        occurs_at(object_name(resource, uid), name_prefix(resource), 0),
{
    let name = object_name(resource, uid);
    let prefix = name_prefix(resource);
    assert(name.subrange(0, prefix.len() as int) =~= prefix);
}

/// What a tenant's requests took together.
#[derive(Debug, Clone, Copy, PartialEq, Eq, Structural)]
pub struct DurationSummary {
    /// The average in nanoseconds, rounded down.
    pub average: u128,
    pub total_requests: usize,
    pub error_count: usize,
}

/// The durations of the requests together.
pub open spec fn total_duration(requests: Seq<(u64, bool)>) -> int
    decreases requests.len(),
{
    if requests.len() == 0 {
        0
    } else {
        total_duration(requests.drop_last()) + requests.last().0
    }
}

/// How many of the requests failed.
pub open spec fn failed_requests(requests: Seq<(u64, bool)>) -> int
    decreases requests.len(),
{
    if requests.len() == 0 {
        0
    } else {
        failed_requests(requests.drop_last()) + if requests.last().1 {
            1int
        } else {
            0int
        }
    }
}

/// Sums up requests, each with its duration in nanoseconds and whether it
/// failed.
pub fn summarize_requests(requests: &Vec<(u64, bool)>) -> (r: DurationSummary)
    ensures
        r.total_requests == requests.len(),
        r.error_count == failed_requests(requests@),
        requests.len() == 0 ==> r.average == 0,
        requests.len() > 0 ==> r.average == total_duration(requests@) / requests.len() as int,
{
    let mut total: u128 = 0;
    let mut error_count: usize = 0;
    let mut i: usize = 0;
    assert(requests@.take(0) =~= seq![]);
    while i < requests.len()
        invariant
            i <= requests.len(),
            error_count <= i,
            total <= i * u64::MAX as u128,
            total == total_duration(requests@.take(i as int)),
            error_count == failed_requests(requests@.take(i as int)),
        decreases requests.len() - i,
    {
        let (duration, failed): (u64, bool) = requests[i];
        assert(requests@.take(i + 1).drop_last() =~= requests@.take(i as int));
        assert(requests@.take(i + 1).last() == requests@[i as int]);
        assert((i + 1) * u64::MAX == i * u64::MAX + u64::MAX) by (nonlinear_arith);
        assert(i * u64::MAX <= 0xffff_ffff_ffff_ffff * 0xffff_ffff_ffff_ffff) by (nonlinear_arith)
            requires
                i <= 0xffff_ffff_ffff_ffff,
        ;
        total = total + duration as u128;
        if failed {
            error_count += 1;
        }
        i += 1;
    }
    assert(requests@.take(requests.len() as int) =~= requests@);
    let average: u128 = if requests.len() == 0 {
        0
    } else {
        total / requests.len() as u128
    };
    DurationSummary { average, total_requests: requests.len(), error_count }
}

}
