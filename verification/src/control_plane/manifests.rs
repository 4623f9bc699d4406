//! The smallest manifest the API server accepts of each kind.

use super::experiment::claim_name;
use crate::json::{empty_array, empty_object, Json, JsonView};
use crate::objects::KubernetesObject;
use crate::text::joined;
use vstd::prelude::*;

verus! {

/// The container every minimal workload runs.
pub open spec fn test_container_view() -> JsonView {
    empty_object()
        .with("name"@, JsonView::Text("test-container"@))
        .with("image"@, JsonView::Text("nginx:latest"@))
}

/// The container every minimal workload runs.
fn test_container() -> (r: Json)
    ensures
        r@ == test_container_view(),
{
    Json::object()
        .with("name", Json::text("test-container"))
        .with("image", Json::text("nginx:latest"))
}

/// What a minimal workload asks of its node, and may use at most.
pub open spec fn small_resources_view() -> JsonView {
    empty_object()
        .with(
            "requests"@,
            empty_object()
                .with("memory"@, JsonView::Text("64Mi"@))
                .with("cpu"@, JsonView::Text("250m"@)),
        )
        .with(
            "limits"@,
            empty_object()
                .with("memory"@, JsonView::Text("128Mi"@))
                .with("cpu"@, JsonView::Text("500m"@)),
        )
}

/// What a minimal workload asks of its node, and may use at most.
fn small_resources() -> (r: Json)
    ensures
        r@ == small_resources_view(),
{
    Json::object()
        .with(
            "requests",
            Json::object()
                .with("memory", Json::text("64Mi"))
                .with("cpu", Json::text("250m")),
        )
        .with(
            "limits",
            Json::object()
                .with("memory", Json::text("128Mi"))
                .with("cpu", Json::text("500m")),
        )
}

/// The test container with its resources declared.
pub open spec fn sized_container_view() -> JsonView {
    empty_object()
        .with("name"@, JsonView::Text("test-container"@))
        .with("image"@, JsonView::Text("nginx:latest"@))
        .with("resources"@, small_resources_view())
}

/// The test container with its resources declared.
fn sized_container() -> (r: Json)
    ensures
        r@ == sized_container_view(),
{
    Json::object()
        .with("name", Json::text("test-container"))
        .with("image", Json::text("nginx:latest"))
        .with("resources", small_resources())
}

/// Selects the pods labelled with the object's own name.
pub open spec fn own_pods_view(name: Seq<char>) -> JsonView {
    empty_object()
        .with(
            "matchLabels"@,
            empty_object()
                .with("app"@, JsonView::Text(name)),
        )
}

/// Selects the pods labelled with the object's own name.
fn own_pods(name: &str) -> (r: Json)
    ensures
        r@ == own_pods_view(name@),
{
    Json::object()
        .with(
            "matchLabels",
            Json::object()
                .with("app", Json::text(name)),
        )
}

/// A pod template labelled with the object's own name.
pub open spec fn own_template_view(name: Seq<char>) -> JsonView {
    empty_object()
        .with(
            "metadata"@,
            empty_object()
                .with(
                    "labels"@,
                    empty_object()
                        .with("app"@, JsonView::Text(name)),
                ),
        )
        .with(
            "spec"@,
            empty_object()
                .with("containers"@, empty_array().item(test_container_view())),
        )
}

/// A pod template labelled with the object's own name.
fn own_template(name: &str) -> (r: Json)
    ensures
        r@ == own_template_view(name@),
{
    Json::object()
        .with(
            "metadata",
            Json::object()
                .with(
                    "labels",
                    Json::object()
                        .with("app", Json::text(name)),
                ),
        )
        .with(
            "spec",
            Json::object()
                .with("containers", Json::array().item(test_container())),
        )
}

/// The pod template of a job.
pub open spec fn job_template_view(name: Seq<char>) -> JsonView {
    empty_object()
        .with(
            "metadata"@,
            empty_object()
                .with(
                    "labels"@,
                    empty_object()
                        .with("job-name"@, JsonView::Text(name)),
                ),
        )
        .with(
            "spec"@,
            empty_object()
                .with("containers"@, empty_array().item(test_container_view()))
                .with("restartPolicy"@, JsonView::Text("Never"@)),
        )
}

/// The pod template of a job.
fn job_template(name: &str) -> (r: Json)
    ensures
        r@ == job_template_view(name@),
{
    Json::object()
        .with(
            "metadata",
            Json::object()
                .with(
                    "labels",
                    Json::object()
                        .with("job-name", Json::text(name)),
                ),
        )
        .with(
            "spec",
            Json::object()
                .with("containers", Json::array().item(test_container()))
                .with("restartPolicy", Json::text("Never")),
        )
}

/// A claim on one gibibyte, mounted by one node at a time.
pub open spec fn claim_spec_view() -> JsonView {
    empty_object()
        .with("accessModes"@, empty_array().item(JsonView::Text("ReadWriteOnce"@)))
        .with(
            "resources"@,
            empty_object()
                .with(
                    "requests"@,
                    empty_object()
                        .with("storage"@, JsonView::Text("1Gi"@)),
                ),
        )
}

/// A claim on one gibibyte, mounted by one node at a time.
fn claim_spec() -> (r: Json)
    ensures
        r@ == claim_spec_view(),
{
    Json::object()
        .with("accessModes", Json::array().item(Json::text("ReadWriteOnce")))
        .with(
            "resources",
            Json::object()
                .with(
                    "requests",
                    Json::object()
                        .with("storage", Json::text("1Gi")),
                ),
        )
}

/// Binds `view`, a cluster role that every cluster has: a binding whose role
/// cannot be resolved is refused whatever the tenant's own rights are.
pub open spec fn view_role_view() -> JsonView {
    empty_object()
        .with("apiGroup"@, JsonView::Text("rbac.authorization.k8s.io"@))
        .with("kind"@, JsonView::Text("ClusterRole"@))
        .with("name"@, JsonView::Text("view"@))
}

/// Binds `view`, a cluster role that every cluster has: a binding whose role
/// cannot be resolved is refused whatever the tenant's own rights are.
fn view_role() -> (r: Json)
    ensures
        r@ == view_role_view(),
{
    Json::object()
        .with("apiGroup", Json::text("rbac.authorization.k8s.io"))
        .with("kind", Json::text("ClusterRole"))
        .with("name", Json::text("view"))
}

/// The user that a minimal binding grants its role to.
pub open spec fn test_subjects_view() -> JsonView {
    empty_array().item(
        empty_object()
            .with("kind"@, JsonView::Text("User"@))
            .with("name"@, JsonView::Text("test-user"@))
            .with("apiGroup"@, JsonView::Text("rbac.authorization.k8s.io"@)),
    )
}

/// The user that a minimal binding grants its role to.
fn test_subjects() -> (r: Json)
    ensures
        r@ == test_subjects_view(),
{
    Json::array().item(
        Json::object()
            .with("kind", Json::text("User"))
            .with("name", Json::text("test-user"))
            .with("apiGroup", Json::text("rbac.authorization.k8s.io")),
    )
}

/// The peers of a network policy rule: the object's own pods.
pub open spec fn own_peers_view(name: Seq<char>) -> JsonView {
    empty_array().item(
        empty_object()
            .with("podSelector"@, own_pods_view(name)),
    )
}

/// The peers of a network policy rule: the object's own pods.
fn own_peers(name: &str) -> (r: Json)
    ensures
        r@ == own_peers_view(name@),
{
    Json::array().item(
        Json::object()
            .with("podSelector", own_pods(name)),
    )
}

/// What every manifest starts with: its type, its name and, where the kind is
/// namespaced, its namespace.
pub open spec fn base_object_view(
    kind: KubernetesObject,
    name: Seq<char>,
    namespace: Seq<char>,
) -> JsonView {
    let named = empty_object().with("name"@, JsonView::Text(name));
    empty_object().with("apiVersion"@, JsonView::Text(kind.api_name())).with(
        "kind"@,
        JsonView::Text(kind.kind_name()),
    ).with(
        "metadata"@,
        if kind.cluster_scoped() {
            named
        } else {
            named.with("namespace"@, JsonView::Text(namespace))
        },
    )
}

/// The manifest `base` with the fields that its kind demands beyond type and
/// metadata.
pub open spec fn with_required_fields(
    kind: KubernetesObject,
    name: Seq<char>,
    base: JsonView,
) -> JsonView {
    match kind {
        KubernetesObject::Pod => base.with(
            "spec"@,
            empty_object()
                .with("containers"@, empty_array().item(sized_container_view())),
        ),
        KubernetesObject::Deployment | KubernetesObject::ReplicaSet => base.with(
            "spec"@,
            empty_object()
                .with("replicas"@, JsonView::Number(1))
                .with("selector"@, own_pods_view(name))
                .with("template"@, own_template_view(name)),
        ),
        KubernetesObject::DaemonSet => base.with(
            "spec"@,
            empty_object()
                .with("selector"@, own_pods_view(name))
                .with("template"@, own_template_view(name)),
        ),
        KubernetesObject::StatefulSet => base.with(
            "spec"@,
            empty_object()
                .with("serviceName"@, JsonView::Text(name))
                .with("replicas"@, JsonView::Number(1))
                .with("selector"@, own_pods_view(name))
                .with(
                    "template"@,
                    empty_object()
                        .with(
                            "metadata"@,
                            empty_object()
                                .with(
                                    "labels"@,
                                    empty_object()
                                        .with("app"@, JsonView::Text(name)),
                                ),
                        )
                        .with(
                            "spec"@,
                            empty_object()
                                .with("containers"@, empty_array().item(sized_container_view())),
                        ),
                )
                .with(
                    "volumeClaimTemplates"@,
                    empty_array().item(
                        empty_object()
                            .with(
                                "metadata"@,
                                empty_object()
                                    .with("name"@, JsonView::Text(name)),
                            )
                            .with("spec"@, claim_spec_view()),
                    ),
                ),
        ),
        KubernetesObject::Service => base.with(
            "spec"@,
            empty_object()
                .with(
                    "selector"@,
                    empty_object()
                        .with("app"@, JsonView::Text(name)),
                )
                .with(
                    "ports"@,
                    empty_array().item(
                        empty_object()
                            .with("protocol"@, JsonView::Text("TCP"@))
                            .with("port"@, JsonView::Number(80))
                            .with("targetPort"@, JsonView::Number(8080)),
                    ),
                ),
        ),
        KubernetesObject::ConfigMap => base.with(
            "data"@,
            empty_object()
                .with("key"@, JsonView::Text("value"@)),
        ),
        KubernetesObject::Secret => base.with("type"@, JsonView::Text("Opaque"@)).with(
            "data"@,
            empty_object()
                .with("key"@, JsonView::Text("dmFsdWU="@)),
        ),
        KubernetesObject::PersistentVolumeClaim => base.with("spec"@, claim_spec_view()),
        KubernetesObject::PersistentVolume => base.with(
            "spec"@,
            empty_object()
                .with(
                    "capacity"@,
                    empty_object()
                        .with("storage"@, JsonView::Text("1Gi"@)),
                )
                .with("accessModes"@, empty_array().item(JsonView::Text("ReadWriteOnce"@)))
                .with("persistentVolumeReclaimPolicy"@, JsonView::Text("Retain"@))
                .with(
                    "hostPath"@,
                    empty_object()
                        .with("path"@, JsonView::Text("/tmp/test-pv-"@ + name)),
                ),
        ),
        KubernetesObject::Ingress => base.with(
            "spec"@,
            empty_object()
                .with(
                    "rules"@,
                    empty_array().item(
                        empty_object()
                            .with("host"@, JsonView::Text(name + ".example.com"@))
                            .with(
                                "http"@,
                                empty_object()
                                    .with(
                                        "paths"@,
                                        empty_array().item(
                                            empty_object()
                                                .with("path"@, JsonView::Text("/"@))
                                                .with("pathType"@, JsonView::Text("Prefix"@))
                                                .with(
                                                    "backend"@,
                                                    empty_object()
                                                        .with(
                                                            "service"@,
                                                            empty_object()
                                                                .with(
                                                                    "name"@,
                                                                    JsonView::Text(name),
                                                                )
                                                                .with(
                                                                    "port"@,
                                                                    empty_object()
                                                                        .with(
                                                                            "number"@,
                                                                            JsonView::Number(80),
                                                                        ),
                                                                ),
                                                        ),
                                                ),
                                        ),
                                    ),
                            ),
                    ),
                ),
        ),
        KubernetesObject::HorizontalPodAutoscaler => base.with(
            "spec"@,
            empty_object()
                .with(
                    "scaleTargetRef"@,
                    empty_object()
                        .with("apiVersion"@, JsonView::Text(kind.api_name()))
                        .with("kind"@, JsonView::Text(kind.kind_name()))
                        .with("name"@, JsonView::Text(name)),
                )
                .with("minReplicas"@, JsonView::Number(1))
                .with("maxReplicas"@, JsonView::Number(2))
                .with("targetCPUUtilizationPercentage"@, JsonView::Number(50)),
        ),
        KubernetesObject::RoleBinding | KubernetesObject::ClusterRoleBinding => base.with(
            "roleRef"@,
            view_role_view(),
        ).with("subjects"@, test_subjects_view()),
        KubernetesObject::Job => base.with(
            "spec"@,
            empty_object()
                .with("template"@, job_template_view(name)),
        ),
        KubernetesObject::CronJob => base.with(
            "spec"@,
            empty_object()
                .with("schedule"@, JsonView::Text("*/5 * * * *"@))
                .with(
                    "jobTemplate"@,
                    empty_object()
                        .with(
                            "spec"@,
                            empty_object()
                                .with("template"@, job_template_view(name)),
                        ),
                ),
        ),
        KubernetesObject::StorageClass => base.with(
            "provisioner"@,
            JsonView::Text("kubernetes.io/no-provisioner"@),
        ).with("volumeBindingMode"@, JsonView::Text("WaitForFirstConsumer"@)),
        KubernetesObject::IngressClass => base.with(
            "spec"@,
            empty_object()
                .with("controller"@, JsonView::Text("k8s.io/ingress-nginx"@)),
        ),
        KubernetesObject::NetworkPolicy => base.with(
            "spec"@,
            empty_object()
                .with("podSelector"@, own_pods_view(name))
                .with(
                    "policyTypes"@,
                    empty_array().item(JsonView::Text("Ingress"@)).item(JsonView::Text("Egress"@)),
                )
                .with(
                    "ingress"@,
                    empty_array().item(
                        empty_object()
                            .with("from"@, own_peers_view(name)),
                    ),
                )
                .with(
                    "egress"@,
                    empty_array().item(
                        empty_object()
                            .with("to"@, own_peers_view(name)),
                    ),
                ),
        ),
        KubernetesObject::Node => base.with(
            "spec"@,
            empty_object()
                .with("unschedulable"@, JsonView::Bool(true)),
        ),
        // The remaining kinds need no field of their own.
        _ => base,
    }
}

/// The minimal manifest of `kind` called `name`.
pub open spec fn minimal_object(
    kind: KubernetesObject,
    name: Seq<char>,
    namespace: Seq<char>,
) -> JsonView {
    with_required_fields(kind, name, base_object_view(kind, name, namespace))
}

/// What every manifest starts with.
fn base_object(kind: &KubernetesObject, name: &str, namespace: &str) -> (r: Json)
    ensures
        r@ == base_object_view(*kind, name@, namespace@),
{
    let mut metadata = Json::object().with("name", Json::text(name));
    if kind.is_namespaced() {
        metadata = metadata.with("namespace", Json::text(namespace));
    }
    Json::object()
        .with("apiVersion", Json::text(kind.api_version()))
        .with("kind", Json::text(kind.kind()))
        .with("metadata", metadata)
}

/// Creates a minimal valid manifest of the kind with the given name and
/// namespace.
pub fn create_minimal_object(kind: &KubernetesObject, name: &str, namespace: &str) -> (r: Json)
    ensures
        r@ == minimal_object(*kind, name@, namespace@),
{
    let base = base_object(kind, name, namespace);
    match kind {
        KubernetesObject::Pod => base.with(
            "spec",
            Json::object()
                .with("containers", Json::array().item(sized_container())),
        ),
        KubernetesObject::Deployment | KubernetesObject::ReplicaSet => base.with(
            "spec",
            Json::object()
                .with("replicas", Json::Number(1))
                .with("selector", own_pods(name))
                .with("template", own_template(name)),
        ),
        KubernetesObject::DaemonSet => base.with(
            "spec",
            Json::object()
                .with("selector", own_pods(name))
                .with("template", own_template(name)),
        ),
        KubernetesObject::StatefulSet => base.with(
            "spec",
            Json::object()
                .with("serviceName", Json::text(name))
                .with("replicas", Json::Number(1))
                .with("selector", own_pods(name))
                .with(
                    "template",
                    Json::object()
                        .with(
                            "metadata",
                            Json::object()
                                .with(
                                    "labels",
                                    Json::object()
                                        .with("app", Json::text(name)),
                                ),
                        )
                        .with(
                            "spec",
                            Json::object()
                                .with("containers", Json::array().item(sized_container())),
                        ),
                )
                .with(
                    "volumeClaimTemplates",
                    Json::array().item(
                        Json::object()
                            .with(
                                "metadata",
                                Json::object()
                                    .with("name", Json::text(name)),
                            )
                            .with("spec", claim_spec()),
                    ),
                ),
        ),
        KubernetesObject::Service => base.with(
            "spec",
            Json::object()
                .with(
                    "selector",
                    Json::object()
                        .with("app", Json::text(name)),
                )
                .with(
                    "ports",
                    Json::array().item(
                        Json::object()
                            .with("protocol", Json::text("TCP"))
                            .with("port", Json::Number(80))
                            .with("targetPort", Json::Number(8080)),
                    ),
                ),
        ),
        KubernetesObject::ConfigMap => base.with(
            "data",
            Json::object()
                .with("key", Json::text("value")),
        ),
        KubernetesObject::Secret => base.with("type", Json::text("Opaque")).with(
            "data",
            Json::object()
                .with("key", Json::text("dmFsdWU=")),
        ),
        KubernetesObject::PersistentVolumeClaim => base.with("spec", claim_spec()),
        KubernetesObject::PersistentVolume => base.with(
            "spec",
            Json::object()
                .with(
                    "capacity",
                    Json::object()
                        .with("storage", Json::text("1Gi")),
                )
                .with("accessModes", Json::array().item(Json::text("ReadWriteOnce")))
                .with("persistentVolumeReclaimPolicy", Json::text("Retain"))
                .with(
                    "hostPath",
                    Json::object()
                        .with("path", Json::Text(joined("/tmp/test-pv-", name))),
                ),
        ),
        KubernetesObject::Ingress => base.with(
            "spec",
            Json::object()
                .with(
                    "rules",
                    Json::array().item(
                        Json::object()
                            .with("host", Json::Text(joined(name, ".example.com")))
                            .with(
                                "http",
                                Json::object()
                                    .with(
                                        "paths",
                                        Json::array().item(
                                            Json::object()
                                                .with("path", Json::text("/"))
                                                .with("pathType", Json::text("Prefix"))
                                                .with(
                                                    "backend",
                                                    Json::object()
                                                        .with(
                                                            "service",
                                                            Json::object()
                                                                .with("name", Json::text(name))
                                                                .with(
                                                                    "port",
                                                                    Json::object()
                                                                        .with(
                                                                            "number",
                                                                            Json::Number(80),
                                                                        ),
                                                                ),
                                                        ),
                                                ),
                                        ),
                                    ),
                            ),
                    ),
                ),
        ),
        KubernetesObject::HorizontalPodAutoscaler => base.with(
            "spec",
            Json::object()
                .with(
                    "scaleTargetRef",
                    Json::object()
                        .with("apiVersion", Json::text(kind.api_version()))
                        .with("kind", Json::text(kind.kind()))
                        .with("name", Json::text(name)),
                )
                .with("minReplicas", Json::Number(1))
                .with("maxReplicas", Json::Number(2))
                .with("targetCPUUtilizationPercentage", Json::Number(50)),
        ),
        KubernetesObject::RoleBinding | KubernetesObject::ClusterRoleBinding => base.with(
            "roleRef",
            view_role(),
        ).with("subjects", test_subjects()),
        KubernetesObject::Job => base.with(
            "spec",
            Json::object()
                .with("template", job_template(name)),
        ),
        KubernetesObject::CronJob => base.with(
            "spec",
            Json::object()
                .with("schedule", Json::text("*/5 * * * *"))
                .with(
                    "jobTemplate",
                    Json::object()
                        .with(
                            "spec",
                            Json::object()
                                .with("template", job_template(name)),
                        ),
                ),
        ),
        KubernetesObject::StorageClass => base.with(
            "provisioner",
            Json::text("kubernetes.io/no-provisioner"),
        ).with("volumeBindingMode", Json::text("WaitForFirstConsumer")),
        KubernetesObject::IngressClass => base.with(
            "spec",
            Json::object()
                .with("controller", Json::text("k8s.io/ingress-nginx")),
        ),
        KubernetesObject::NetworkPolicy => base.with(
            "spec",
            Json::object()
                .with("podSelector", own_pods(name))
                .with(
                    "policyTypes",
                    Json::array().item(Json::text("Ingress")).item(Json::text("Egress")),
                )
                .with(
                    "ingress",
                    Json::array().item(
                        Json::object()
                            .with("from", own_peers(name)),
                    ),
                )
                .with(
                    "egress",
                    Json::array().item(
                        Json::object()
                            .with("to", own_peers(name)),
                    ),
                ),
        ),
        KubernetesObject::Node => base.with(
            "spec",
            Json::object()
                .with("unschedulable", Json::Bool(true)),
        ),
        _ => base,
    }
}

/// Two texts of different lengths are different fields: what is set in one leaves
/// the other.
proof fn other_fields_stay(json: JsonView, key: Seq<char>, value: JsonView, other: Seq<char>)
    requires
        key != other,
    ensures
        json.with(key, value).field(other) == json.field(other),
{
}

/// Every minimal manifest says what it is: the type and version of its kind, its
/// name, and its namespace exactly where its kind has one.
pub proof fn a_minimal_object_says_what_it_is(
    kind: KubernetesObject,
    name: Seq<char>,
    namespace: Seq<char>,
)
    ensures
        ({
            let object = minimal_object(kind, name, namespace);
            &&& object.field("apiVersion"@) == Some(JsonView::Text(kind.api_name()))
            &&& object.field("kind"@) == Some(JsonView::Text(kind.kind_name()))
            &&& object.field("metadata"@) is Some
            &&& object.field("metadata"@)->0.field("name"@) == Some(JsonView::Text(name))
            &&& object.field("metadata"@)->0.field("namespace"@) == (if kind.cluster_scoped() {
                None
            } else {
                Some(JsonView::Text(namespace))
            })
        }),
{
    reveal_strlit("apiVersion");
    reveal_strlit("kind");
    reveal_strlit("metadata");
    reveal_strlit("name");
    reveal_strlit("namespace");
    reveal_strlit("spec");
    reveal_strlit("data");
    reveal_strlit("type");
    reveal_strlit("roleRef");
    reveal_strlit("subjects");
    reveal_strlit("provisioner");
    reveal_strlit("volumeBindingMode");
    assert("kind"@[0] == 'k' && "spec"@[0] == 's' && "data"@[0] == 'd' && "type"@[0] == 't');
    assert("apiVersion"@[0] == 'a' && "roleRef"@[0] == 'r' && "provisioner"@[0] == 'p');
    assert("volumeBindingMode"@[0] == 'v');
    assert("metadata"@[0] == 'm' && "subjects"@[0] == 's' && "name"@[0] == 'n');
    let base = base_object_view(kind, name, namespace);
    assert(base.field("apiVersion"@) == Some(JsonView::Text(kind.api_name())));
    assert(base.field("kind"@) == Some(JsonView::Text(kind.kind_name())));
    let named = empty_object().with("name"@, JsonView::Text(name));
    assert("name"@.len() != "namespace"@.len());
    assert(named.field("namespace"@) is None);
    other_fields_stay(named, "namespace"@, JsonView::Text(namespace), "name"@);
    let metadata = base.field("metadata"@)->0;
    assert(metadata == named || metadata == named.with("namespace"@, JsonView::Text(namespace)));
    assert(metadata.field("name"@) == Some(JsonView::Text(name)));
    assert forall|key: Seq<char>, value: JsonView, json: JsonView|
        #![trigger json.with(key, value)]
        key != "apiVersion"@ && key != "kind"@ && key != "metadata"@ implies {
        &&& json.with(key, value).field("apiVersion"@) == json.field("apiVersion"@)
        &&& json.with(key, value).field("kind"@) == json.field("kind"@)
        &&& json.with(key, value).field("metadata"@) == json.field("metadata"@)
    } by {
        other_fields_stay(json, key, value, "apiVersion"@);
        other_fields_stay(json, key, value, "kind"@);
        other_fields_stay(json, key, value, "metadata"@);
    }
    assert("spec"@ != "apiVersion"@ && "spec"@ != "kind"@ && "spec"@ != "metadata"@);
    assert("data"@ != "apiVersion"@ && "data"@ != "kind"@ && "data"@ != "metadata"@);
    assert("type"@ != "apiVersion"@ && "type"@ != "kind"@ && "type"@ != "metadata"@);
    assert("roleRef"@ != "apiVersion"@ && "roleRef"@ != "kind"@ && "roleRef"@ != "metadata"@);
    assert("subjects"@ != "apiVersion"@ && "subjects"@ != "kind"@ && "subjects"@ != "metadata"@);
    assert("provisioner"@ != "apiVersion"@ && "provisioner"@ != "kind"@);
    assert("provisioner"@ != "metadata"@ && "volumeBindingMode"@ != "metadata"@);
    assert("volumeBindingMode"@ != "apiVersion"@ && "volumeBindingMode"@ != "kind"@);
    let object = minimal_object(kind, name, namespace);
    assert(object.field("apiVersion"@) == base.field("apiVersion"@));
    assert(object.field("kind"@) == base.field("kind"@));
    assert(object.field("metadata"@) == base.field("metadata"@));
}


/// What a manifest's field `spec` says of `key`.
pub open spec fn specified(object: JsonView, key: Seq<char>) -> Option<JsonView> {
    match object.field("spec"@) {
        Some(spec_part) => spec_part.field(key),
        None => None,
    }
}

/// What makes pods selects its own: the labels that it asks for are those that
/// its template gives.
pub proof fn what_makes_pods_selects_them(
    kind: KubernetesObject,
    name: Seq<char>,
    namespace: Seq<char>,
)
    requires
        kind is Deployment || kind is ReplicaSet || kind is DaemonSet || kind is StatefulSet,
    ensures
        ({
            let object = minimal_object(kind, name, namespace);
            match (specified(object, "selector"@), specified(object, "template"@)) {
                (Some(selector), Some(template)) => {
                    &&& selector.field("matchLabels"@) is Some
                    &&& template.field("metadata"@) is Some
                    &&& selector.field("matchLabels"@) == template.field(
                        "metadata"@,
                    )->Some_0.field("labels"@)
                },
                _ => false,
            }
        }),
{
    reveal_strlit("replicas");
    reveal_strlit("selector");
    reveal_strlit("template");
    reveal_strlit("serviceName");
    reveal_strlit("volumeClaimTemplates");
    reveal_strlit("metadata");
    reveal_strlit("spec");
    assert("replicas"@[0] == 'r' && "selector"@[0] == 's' && "template"@[0] == 't');
    assert("serviceName"@.len() == 11 && "volumeClaimTemplates"@.len() == 20);
    assert("metadata"@.len() == 8 && "spec"@.len() == 4);
}

/// A stateful set's claim is the one that is taken away with it: the name of its
/// claim template, its own name and the number of its first pod.
pub proof fn a_stateful_set_leaves_the_claim_that_is_deleted(
    name: Seq<char>,
    namespace: Seq<char>,
)
    ensures
        match specified(
            minimal_object(KubernetesObject::StatefulSet, name, namespace),
            "volumeClaimTemplates"@,
        ) {
            Some(JsonView::Array(templates)) => {
                &&& templates.len() == 1
                &&& match templates[0].field("metadata"@) {
                    Some(metadata) => match metadata.field("name"@) {
                        Some(JsonView::Text(template)) => claim_name(name) == template + "-"@
                            + name + "-0"@,
                        _ => false,
                    },
                    None => false,
                }
            },
            _ => false,
        },
{
    reveal_strlit("metadata");
    reveal_strlit("spec");
    assert("metadata"@.len() == 8 && "spec"@.len() == 4);
}

}
