//! The resources and operations of the control plane.

use crate::assessment::{
    AssessableOperation, AssessableResource, AutonomyRatio, MultitenancyAssessor,
};
use crate::objects::KubernetesObject;
use crate::text::{joined3, string_from};
use vstd::prelude::*;

verus! {

/// Autonomy category for control plane resources.
#[derive(Debug, Clone, Copy, PartialEq, Eq, Structural)]
pub enum ControlPlaneAutonomyCategory {
    /// Workload resources (Pods, Deployments, Jobs, etc.): running inside a
    /// namespace.
    Workload,
    /// Scope resources (Namespace, ResourceQuota, LimitRange): namespace-level
    /// configuration.
    Scope,
    /// Infrastructure resources (Node, DaemonSet): node-level access.
    Infrastructure,
    /// Cluster-wide resources (ClusterRole, StorageClass, PersistentVolume,
    /// etc.).
    Cluster,
}

/// Control plane resources map to Kubernetes object kinds.
#[derive(Debug, Clone, Copy, PartialEq, Eq, Hash, Structural)]
pub enum ControlPlaneResource {
    // Core API (v1)
    Pod,
    Service,
    ConfigMap,
    Secret,
    PersistentVolume,
    PersistentVolumeClaim,
    Namespace,
    ServiceAccount,
    Endpoints,
    LimitRange,
    ResourceQuota,
    Node,
    // Apps API (apps/v1)
    Deployment,
    ReplicaSet,
    StatefulSet,
    DaemonSet,
    // Batch API (batch/v1)
    Job,
    CronJob,
    // Networking API (networking.k8s.io/v1)
    NetworkPolicy,
    Ingress,
    IngressClass,
    // RBAC API (rbac.authorization.k8s.io/v1)
    Role,
    RoleBinding,
    ClusterRole,
    ClusterRoleBinding,
    // Policy API (policy/v1)
    PodDisruptionBudget,
    // Autoscaling API (autoscaling/v2)
    HorizontalPodAutoscaler,
    // Storage API (storage.k8s.io/v1)
    StorageClass,
}

#[derive(Debug, Clone, Copy, PartialEq, Eq, Hash, Structural)]
pub enum ControlPlaneOperation {
    /// Kubernetes CREATE verb.
    Create,
    /// Kubernetes GET verb.
    Get,
    /// Kubernetes LIST verb.
    List,
    /// Kubernetes UPDATE verb.
    Update,
    /// Kubernetes DELETE verb.
    Delete,
}

impl ControlPlaneResource {
    /// The autonomy category of the resource.
    pub open spec fn category(self) -> ControlPlaneAutonomyCategory {
        match self {
            ControlPlaneResource::Pod
            | ControlPlaneResource::Deployment
            | ControlPlaneResource::ReplicaSet
            | ControlPlaneResource::StatefulSet
            | ControlPlaneResource::Job
            | ControlPlaneResource::CronJob
            | ControlPlaneResource::Service
            | ControlPlaneResource::ConfigMap
            | ControlPlaneResource::Secret
            | ControlPlaneResource::ServiceAccount
            | ControlPlaneResource::Endpoints
            | ControlPlaneResource::NetworkPolicy
            | ControlPlaneResource::Ingress
            | ControlPlaneResource::Role
            | ControlPlaneResource::RoleBinding
            | ControlPlaneResource::PodDisruptionBudget
            | ControlPlaneResource::HorizontalPodAutoscaler
            | ControlPlaneResource::PersistentVolumeClaim => ControlPlaneAutonomyCategory::Workload,
            ControlPlaneResource::Namespace
            | ControlPlaneResource::LimitRange
            | ControlPlaneResource::ResourceQuota => ControlPlaneAutonomyCategory::Scope,
            ControlPlaneResource::Node
            | ControlPlaneResource::DaemonSet => ControlPlaneAutonomyCategory::Infrastructure,
            ControlPlaneResource::PersistentVolume
            | ControlPlaneResource::IngressClass
            | ControlPlaneResource::ClusterRole
            | ControlPlaneResource::ClusterRoleBinding
            | ControlPlaneResource::StorageClass => ControlPlaneAutonomyCategory::Cluster,
        }
    }

    /// The kind of object that the resource is.
    pub open spec fn object(self) -> KubernetesObject {
        match self {
            ControlPlaneResource::Pod => KubernetesObject::Pod,
            ControlPlaneResource::Service => KubernetesObject::Service,
            ControlPlaneResource::ConfigMap => KubernetesObject::ConfigMap,
            ControlPlaneResource::Secret => KubernetesObject::Secret,
            ControlPlaneResource::PersistentVolume => KubernetesObject::PersistentVolume,
            ControlPlaneResource::PersistentVolumeClaim => KubernetesObject::PersistentVolumeClaim,
            ControlPlaneResource::Namespace => KubernetesObject::Namespace,
            ControlPlaneResource::ServiceAccount => KubernetesObject::ServiceAccount,
            ControlPlaneResource::Endpoints => KubernetesObject::Endpoints,
            ControlPlaneResource::LimitRange => KubernetesObject::LimitRange,
            ControlPlaneResource::ResourceQuota => KubernetesObject::ResourceQuota,
            ControlPlaneResource::Node => KubernetesObject::Node,
            ControlPlaneResource::Deployment => KubernetesObject::Deployment,
            ControlPlaneResource::ReplicaSet => KubernetesObject::ReplicaSet,
            ControlPlaneResource::StatefulSet => KubernetesObject::StatefulSet,
            ControlPlaneResource::DaemonSet => KubernetesObject::DaemonSet,
            ControlPlaneResource::Job => KubernetesObject::Job,
            ControlPlaneResource::CronJob => KubernetesObject::CronJob,
            ControlPlaneResource::NetworkPolicy => KubernetesObject::NetworkPolicy,
            ControlPlaneResource::Ingress => KubernetesObject::Ingress,
            ControlPlaneResource::IngressClass => KubernetesObject::IngressClass,
            ControlPlaneResource::Role => KubernetesObject::Role,
            ControlPlaneResource::RoleBinding => KubernetesObject::RoleBinding,
            ControlPlaneResource::ClusterRole => KubernetesObject::ClusterRole,
            ControlPlaneResource::ClusterRoleBinding => KubernetesObject::ClusterRoleBinding,
            ControlPlaneResource::PodDisruptionBudget => KubernetesObject::PodDisruptionBudget,
            ControlPlaneResource::HorizontalPodAutoscaler => KubernetesObject::HorizontalPodAutoscaler,
            ControlPlaneResource::StorageClass => KubernetesObject::StorageClass,
        }
    }

    /// The autonomy category of the resource.
    pub fn autonomy_category(&self) -> (r: ControlPlaneAutonomyCategory)
        ensures
            r == self.category(),
    {
        match self {
            ControlPlaneResource::Pod
            | ControlPlaneResource::Deployment
            | ControlPlaneResource::ReplicaSet
            | ControlPlaneResource::StatefulSet
            | ControlPlaneResource::Job
            | ControlPlaneResource::CronJob
            | ControlPlaneResource::Service
            | ControlPlaneResource::ConfigMap
            | ControlPlaneResource::Secret
            | ControlPlaneResource::ServiceAccount
            | ControlPlaneResource::Endpoints
            | ControlPlaneResource::NetworkPolicy
            | ControlPlaneResource::Ingress
            | ControlPlaneResource::Role
            | ControlPlaneResource::RoleBinding
            | ControlPlaneResource::PodDisruptionBudget
            | ControlPlaneResource::HorizontalPodAutoscaler
            | ControlPlaneResource::PersistentVolumeClaim => ControlPlaneAutonomyCategory::Workload,
            ControlPlaneResource::Namespace
            | ControlPlaneResource::LimitRange
            | ControlPlaneResource::ResourceQuota => ControlPlaneAutonomyCategory::Scope,
            ControlPlaneResource::Node
            | ControlPlaneResource::DaemonSet => ControlPlaneAutonomyCategory::Infrastructure,
            ControlPlaneResource::PersistentVolume
            | ControlPlaneResource::IngressClass
            | ControlPlaneResource::ClusterRole
            | ControlPlaneResource::ClusterRoleBinding
            | ControlPlaneResource::StorageClass => ControlPlaneAutonomyCategory::Cluster,
        }
    }

    /// The kind of object that the resource is.
    pub fn to_kubernetes_object(&self) -> (r: KubernetesObject)
        ensures
            r == self.object(),
    {
        match self {
            ControlPlaneResource::Pod => KubernetesObject::Pod,
            ControlPlaneResource::Service => KubernetesObject::Service,
            ControlPlaneResource::ConfigMap => KubernetesObject::ConfigMap,
            ControlPlaneResource::Secret => KubernetesObject::Secret,
            ControlPlaneResource::PersistentVolume => KubernetesObject::PersistentVolume,
            ControlPlaneResource::PersistentVolumeClaim => KubernetesObject::PersistentVolumeClaim,
            ControlPlaneResource::Namespace => KubernetesObject::Namespace,
            ControlPlaneResource::ServiceAccount => KubernetesObject::ServiceAccount,
            ControlPlaneResource::Endpoints => KubernetesObject::Endpoints,
            ControlPlaneResource::LimitRange => KubernetesObject::LimitRange,
            ControlPlaneResource::ResourceQuota => KubernetesObject::ResourceQuota,
            ControlPlaneResource::Node => KubernetesObject::Node,
            ControlPlaneResource::Deployment => KubernetesObject::Deployment,
            ControlPlaneResource::ReplicaSet => KubernetesObject::ReplicaSet,
            ControlPlaneResource::StatefulSet => KubernetesObject::StatefulSet,
            ControlPlaneResource::DaemonSet => KubernetesObject::DaemonSet,
            ControlPlaneResource::Job => KubernetesObject::Job,
            ControlPlaneResource::CronJob => KubernetesObject::CronJob,
            ControlPlaneResource::NetworkPolicy => KubernetesObject::NetworkPolicy,
            ControlPlaneResource::Ingress => KubernetesObject::Ingress,
            ControlPlaneResource::IngressClass => KubernetesObject::IngressClass,
            ControlPlaneResource::Role => KubernetesObject::Role,
            ControlPlaneResource::RoleBinding => KubernetesObject::RoleBinding,
            ControlPlaneResource::ClusterRole => KubernetesObject::ClusterRole,
            ControlPlaneResource::ClusterRoleBinding => KubernetesObject::ClusterRoleBinding,
            ControlPlaneResource::PodDisruptionBudget => KubernetesObject::PodDisruptionBudget,
            ControlPlaneResource::HorizontalPodAutoscaler => KubernetesObject::HorizontalPodAutoscaler,
            ControlPlaneResource::StorageClass => KubernetesObject::StorageClass,
        }
    }

    /// Whether objects of the resource live in a namespace.
    pub fn is_namespaced(&self) -> (r: bool)
        ensures
            r == !self.object().cluster_scoped(),
    {
        self.to_kubernetes_object().is_namespaced()
    }
}

impl AssessableOperation for ControlPlaneOperation {
    open spec fn text(&self) -> Seq<char> {
        match self {
            ControlPlaneOperation::Create => "CREATE"@,
            ControlPlaneOperation::Get => "GET"@,
            ControlPlaneOperation::List => "LIST"@,
            ControlPlaneOperation::Update => "UPDATE"@,
            ControlPlaneOperation::Delete => "DELETE"@,
        }
    }

    fn label(&self) -> (r: String) {
        match self {
            ControlPlaneOperation::Create => string_from("CREATE"),
            ControlPlaneOperation::Get => string_from("GET"),
            ControlPlaneOperation::List => string_from("LIST"),
            ControlPlaneOperation::Update => string_from("UPDATE"),
            ControlPlaneOperation::Delete => string_from("DELETE"),
        }
    }

    fn same(&self, other: &ControlPlaneOperation) -> (r: bool) {
        *self == *other
    }

    fn duplicate(&self) -> (r: ControlPlaneOperation) {
        *self
    }
}

impl AssessableResource for ControlPlaneResource {
    type Operation = ControlPlaneOperation;

    open spec fn text(&self) -> Seq<char> {
        self.object().api_name() + "/"@ + self.object().kind_name()
    }

    open spec fn every() -> Seq<ControlPlaneResource> {
        seq![
            ControlPlaneResource::Pod,
            ControlPlaneResource::Service,
            ControlPlaneResource::ConfigMap,
            ControlPlaneResource::Secret,
            ControlPlaneResource::PersistentVolume,
            ControlPlaneResource::PersistentVolumeClaim,
            ControlPlaneResource::Namespace,
            ControlPlaneResource::ServiceAccount,
            ControlPlaneResource::Endpoints,
            ControlPlaneResource::LimitRange,
            ControlPlaneResource::ResourceQuota,
            ControlPlaneResource::Node,
            ControlPlaneResource::Deployment,
            ControlPlaneResource::ReplicaSet,
            ControlPlaneResource::StatefulSet,
            ControlPlaneResource::DaemonSet,
            ControlPlaneResource::Job,
            ControlPlaneResource::CronJob,
            ControlPlaneResource::NetworkPolicy,
            ControlPlaneResource::Ingress,
            ControlPlaneResource::IngressClass,
            ControlPlaneResource::Role,
            ControlPlaneResource::RoleBinding,
            ControlPlaneResource::ClusterRole,
            ControlPlaneResource::ClusterRoleBinding,
            ControlPlaneResource::PodDisruptionBudget,
            ControlPlaneResource::HorizontalPodAutoscaler,
            ControlPlaneResource::StorageClass,
        ]
    }

    open spec fn operations(&self) -> Seq<ControlPlaneOperation> {
        seq![
            ControlPlaneOperation::Create,
            ControlPlaneOperation::Get,
            ControlPlaneOperation::List,
            ControlPlaneOperation::Update,
            ControlPlaneOperation::Delete,
        ]
    }

    fn label(&self) -> (r: String) {
        let object = self.to_kubernetes_object();
        joined3(object.api_version(), "/", object.kind())
    }

    fn all() -> (r: Vec<ControlPlaneResource>) {
        let resources = vec![
            ControlPlaneResource::Pod,
            ControlPlaneResource::Service,
            ControlPlaneResource::ConfigMap,
            ControlPlaneResource::Secret,
            ControlPlaneResource::PersistentVolume,
            ControlPlaneResource::PersistentVolumeClaim,
            ControlPlaneResource::Namespace,
            ControlPlaneResource::ServiceAccount,
            ControlPlaneResource::Endpoints,
            ControlPlaneResource::LimitRange,
            ControlPlaneResource::ResourceQuota,
            ControlPlaneResource::Node,
            ControlPlaneResource::Deployment,
            ControlPlaneResource::ReplicaSet,
            ControlPlaneResource::StatefulSet,
            ControlPlaneResource::DaemonSet,
            ControlPlaneResource::Job,
            ControlPlaneResource::CronJob,
            ControlPlaneResource::NetworkPolicy,
            ControlPlaneResource::Ingress,
            ControlPlaneResource::IngressClass,
            ControlPlaneResource::Role,
            ControlPlaneResource::RoleBinding,
            ControlPlaneResource::ClusterRole,
            ControlPlaneResource::ClusterRoleBinding,
            ControlPlaneResource::PodDisruptionBudget,
            ControlPlaneResource::HorizontalPodAutoscaler,
            ControlPlaneResource::StorageClass,
        ];
        assert(resources@ =~= Self::every());
        resources
    }

    fn applicable_operations(&self) -> (r: Vec<ControlPlaneOperation>) {
        let operations = vec![
            ControlPlaneOperation::Create,
            ControlPlaneOperation::Get,
            ControlPlaneOperation::List,
            ControlPlaneOperation::Update,
            ControlPlaneOperation::Delete,
        ];
        assert(operations@ =~= self.operations());
        operations
    }
}

/// Every resource of the control plane is assessed, and each once.
pub proof fn every_control_plane_resource_is_assessed_once(resource: ControlPlaneResource)
    ensures
        ControlPlaneResource::every().contains(resource),
        ControlPlaneResource::every().no_duplicates(),
{
    let every = ControlPlaneResource::every();
    assert(every[0] == ControlPlaneResource::Pod);
    assert(every[1] == ControlPlaneResource::Service);
    assert(every[2] == ControlPlaneResource::ConfigMap);
    assert(every[3] == ControlPlaneResource::Secret);
    assert(every[4] == ControlPlaneResource::PersistentVolume);
    assert(every[5] == ControlPlaneResource::PersistentVolumeClaim);
    assert(every[6] == ControlPlaneResource::Namespace);
    assert(every[7] == ControlPlaneResource::ServiceAccount);
    assert(every[8] == ControlPlaneResource::Endpoints);
    assert(every[9] == ControlPlaneResource::LimitRange);
    assert(every[10] == ControlPlaneResource::ResourceQuota);
    assert(every[11] == ControlPlaneResource::Node);
    assert(every[12] == ControlPlaneResource::Deployment);
    assert(every[13] == ControlPlaneResource::ReplicaSet);
    assert(every[14] == ControlPlaneResource::StatefulSet);
    assert(every[15] == ControlPlaneResource::DaemonSet);
    assert(every[16] == ControlPlaneResource::Job);
    assert(every[17] == ControlPlaneResource::CronJob);
    assert(every[18] == ControlPlaneResource::NetworkPolicy);
    assert(every[19] == ControlPlaneResource::Ingress);
    assert(every[20] == ControlPlaneResource::IngressClass);
    assert(every[21] == ControlPlaneResource::Role);
    assert(every[22] == ControlPlaneResource::RoleBinding);
    assert(every[23] == ControlPlaneResource::ClusterRole);
    assert(every[24] == ControlPlaneResource::ClusterRoleBinding);
    assert(every[25] == ControlPlaneResource::PodDisruptionBudget);
    assert(every[26] == ControlPlaneResource::HorizontalPodAutoscaler);
    assert(every[27] == ControlPlaneResource::StorageClass);
}

/// A resource is cluster-wide or belongs to the nodes, or it is a namespace, or
/// it lives in one.
pub proof fn only_cluster_categories_leave_the_namespace(resource: ControlPlaneResource)
    ensures
        resource.object().cluster_scoped() ==> resource.category() is Cluster
            || resource.category() is Infrastructure || resource is Namespace,
        resource.category() is Workload ==> !resource.object().cluster_scoped(),
{
}

/// Each resource is its own kind of object.
pub proof fn each_resource_is_its_own_object(resource: ControlPlaneResource)
    ensures
        resource is Pod <==> resource.object() is Pod,
        resource is Service <==> resource.object() is Service,
        resource is ConfigMap <==> resource.object() is ConfigMap,
        resource is Secret <==> resource.object() is Secret,
        resource is PersistentVolume <==> resource.object() is PersistentVolume,
        resource is PersistentVolumeClaim <==> resource.object() is PersistentVolumeClaim,
        resource is Namespace <==> resource.object() is Namespace,
        resource is ServiceAccount <==> resource.object() is ServiceAccount,
        resource is Endpoints <==> resource.object() is Endpoints,
        resource is LimitRange <==> resource.object() is LimitRange,
        resource is ResourceQuota <==> resource.object() is ResourceQuota,
        resource is Node <==> resource.object() is Node,
        resource is Deployment <==> resource.object() is Deployment,
        resource is ReplicaSet <==> resource.object() is ReplicaSet,
        resource is StatefulSet <==> resource.object() is StatefulSet,
        resource is DaemonSet <==> resource.object() is DaemonSet,
        resource is Job <==> resource.object() is Job,
        resource is CronJob <==> resource.object() is CronJob,
        resource is NetworkPolicy <==> resource.object() is NetworkPolicy,
        resource is Ingress <==> resource.object() is Ingress,
        resource is IngressClass <==> resource.object() is IngressClass,
        resource is Role <==> resource.object() is Role,
        resource is RoleBinding <==> resource.object() is RoleBinding,
        resource is ClusterRole <==> resource.object() is ClusterRole,
        resource is ClusterRoleBinding <==> resource.object() is ClusterRoleBinding,
        resource is PodDisruptionBudget <==> resource.object() is PodDisruptionBudget,
        resource is HorizontalPodAutoscaler <==> resource.object() is HorizontalPodAutoscaler,
        resource is StorageClass <==> resource.object() is StorageClass,
{
}

/// Autonomy levels of the control plane by category of resource.
#[derive(Debug, Clone, Copy, PartialEq, Eq, Structural)]
pub struct ControlPlaneAutonomyLevels {
    /// Workload resources (Pods, Deployments, etc.): inside a namespace.
    pub workload: AutonomyRatio,
    /// Scope resources (Namespace itself, ResourceQuota, LimitRange).
    pub scope: AutonomyRatio,
    /// Infrastructure resources (Node, DaemonSet).
    pub infrastructure: AutonomyRatio,
    /// Cluster-wide resources (ClusterRole, StorageClass, etc.).
    pub cluster: AutonomyRatio,
}

impl Default for ControlPlaneAutonomyLevels {
    fn default() -> (r: ControlPlaneAutonomyLevels)
        ensures
            r.workload == (AutonomyRatio { allowed: 0, total: 0 }),
            r.scope == (AutonomyRatio { allowed: 0, total: 0 }),
            r.infrastructure == (AutonomyRatio { allowed: 0, total: 0 }),
            r.cluster == (AutonomyRatio { allowed: 0, total: 0 }),
    {
        ControlPlaneAutonomyLevels {
            workload: AutonomyRatio::default(),
            scope: AutonomyRatio::default(),
            infrastructure: AutonomyRatio::default(),
            cluster: AutonomyRatio::default(),
        }
    }
}

/// Assesses the control plane.
#[derive(Debug, Clone, Copy)]
pub struct ControlPlaneAssessor;

impl MultitenancyAssessor for ControlPlaneAssessor {
    type Resource = ControlPlaneResource;

    open spec fn title(&self) -> Seq<char> {
        "Control Plane"@
    }

    fn name(&self) -> (r: &'static str) {
        "Control Plane"
    }
}

}
