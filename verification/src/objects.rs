//! The kinds of Kubernetes object the validator exercises.

use crate::text::lowercase;
use vstd::prelude::*;
use vstd::string::*;

verus! {

/// A kind of Kubernetes object.
#[derive(Debug, Clone, Copy, PartialEq, Eq, Hash, Structural)]
pub enum KubernetesObject {
    // Core API (v1)
    Pod,
    Service,
    ConfigMap,
    Secret,
    PersistentVolume,
    PersistentVolumeClaim,
    Namespace,
    ServiceAccount,
    Endpoints,
    LimitRange,
    ResourceQuota,
    Node,
    // Apps API (apps/v1)
    Deployment,
    ReplicaSet,
    StatefulSet,
    DaemonSet,
    // Batch API (batch/v1)
    Job,
    CronJob,
    // Networking API (networking.k8s.io/v1)
    NetworkPolicy,
    Ingress,
    IngressClass,
    // RBAC API (rbac.authorization.k8s.io/v1)
    Role,
    RoleBinding,
    ClusterRole,
    ClusterRoleBinding,
    // Policy API (policy/v1)
    PodDisruptionBudget,
    // Autoscaling API (autoscaling/v2)
    HorizontalPodAutoscaler,
    // Storage API (storage.k8s.io/v1)
    StorageClass,
}

impl KubernetesObject {
    /// The kind as a manifest writes it.
    pub open spec fn kind_name(self) -> Seq<char> {
        match self {
            KubernetesObject::Pod => "Pod"@,
            KubernetesObject::Service => "Service"@,
            KubernetesObject::ConfigMap => "ConfigMap"@,
            KubernetesObject::Secret => "Secret"@,
            KubernetesObject::PersistentVolume => "PersistentVolume"@,
            KubernetesObject::PersistentVolumeClaim => "PersistentVolumeClaim"@,
            KubernetesObject::Namespace => "Namespace"@,
            KubernetesObject::ServiceAccount => "ServiceAccount"@,
            KubernetesObject::Endpoints => "Endpoints"@,
            KubernetesObject::LimitRange => "LimitRange"@,
            KubernetesObject::ResourceQuota => "ResourceQuota"@,
            KubernetesObject::Node => "Node"@,
            KubernetesObject::Deployment => "Deployment"@,
            KubernetesObject::ReplicaSet => "ReplicaSet"@,
            KubernetesObject::StatefulSet => "StatefulSet"@,
            KubernetesObject::DaemonSet => "DaemonSet"@,
            KubernetesObject::Job => "Job"@,
            KubernetesObject::CronJob => "CronJob"@,
            KubernetesObject::NetworkPolicy => "NetworkPolicy"@,
            KubernetesObject::Ingress => "Ingress"@,
            KubernetesObject::IngressClass => "IngressClass"@,
            KubernetesObject::Role => "Role"@,
            KubernetesObject::RoleBinding => "RoleBinding"@,
            KubernetesObject::ClusterRole => "ClusterRole"@,
            KubernetesObject::ClusterRoleBinding => "ClusterRoleBinding"@,
            KubernetesObject::PodDisruptionBudget => "PodDisruptionBudget"@,
            KubernetesObject::HorizontalPodAutoscaler => "HorizontalPodAutoscaler"@,
            KubernetesObject::StorageClass => "StorageClass"@,
        }
    }

    /// The API group and version that serve the kind.
    pub open spec fn api_name(self) -> Seq<char> {
        match self {
            KubernetesObject::Pod
            | KubernetesObject::Service
            | KubernetesObject::ConfigMap
            | KubernetesObject::Secret
            | KubernetesObject::PersistentVolume
            | KubernetesObject::PersistentVolumeClaim
            | KubernetesObject::Namespace
            | KubernetesObject::ServiceAccount
            | KubernetesObject::Endpoints
            | KubernetesObject::LimitRange
            | KubernetesObject::ResourceQuota
            | KubernetesObject::Node => "v1"@,
            KubernetesObject::Deployment
            | KubernetesObject::ReplicaSet
            | KubernetesObject::StatefulSet
            | KubernetesObject::DaemonSet => "apps/v1"@,
            KubernetesObject::Job
            | KubernetesObject::CronJob => "batch/v1"@,
            KubernetesObject::NetworkPolicy
            | KubernetesObject::Ingress
            | KubernetesObject::IngressClass => "networking.k8s.io/v1"@,
            KubernetesObject::Role
            | KubernetesObject::RoleBinding
            | KubernetesObject::ClusterRole
            | KubernetesObject::ClusterRoleBinding => "rbac.authorization.k8s.io/v1"@,
            KubernetesObject::PodDisruptionBudget => "policy/v1"@,
            KubernetesObject::HorizontalPodAutoscaler => "autoscaling/v2"@,
            KubernetesObject::StorageClass => "storage.k8s.io/v1"@,
        }
    }

    /// The kind as an API path and an authorization rule write it.
    pub open spec fn plural_name(self) -> Seq<char> {
        match self {
            KubernetesObject::Pod => "pods"@,
            KubernetesObject::Service => "services"@,
            KubernetesObject::ConfigMap => "configmaps"@,
            KubernetesObject::Secret => "secrets"@,
            KubernetesObject::PersistentVolume => "persistentvolumes"@,
            KubernetesObject::PersistentVolumeClaim => "persistentvolumeclaims"@,
            KubernetesObject::Namespace => "namespaces"@,
            KubernetesObject::ServiceAccount => "serviceaccounts"@,
            KubernetesObject::Endpoints => "endpoints"@,
            KubernetesObject::LimitRange => "limitranges"@,
            KubernetesObject::ResourceQuota => "resourcequotas"@,
            KubernetesObject::Node => "nodes"@,
            KubernetesObject::Deployment => "deployments"@,
            KubernetesObject::ReplicaSet => "replicasets"@,
            KubernetesObject::StatefulSet => "statefulsets"@,
            KubernetesObject::DaemonSet => "daemonsets"@,
            KubernetesObject::Job => "jobs"@,
            KubernetesObject::CronJob => "cronjobs"@,
            KubernetesObject::NetworkPolicy => "networkpolicies"@,
            KubernetesObject::Ingress => "ingresses"@,
            KubernetesObject::IngressClass => "ingressclasses"@,
            KubernetesObject::Role => "roles"@,
            KubernetesObject::RoleBinding => "rolebindings"@,
            KubernetesObject::ClusterRole => "clusterroles"@,
            KubernetesObject::ClusterRoleBinding => "clusterrolebindings"@,
            KubernetesObject::PodDisruptionBudget => "poddisruptionbudgets"@,
            KubernetesObject::HorizontalPodAutoscaler => "horizontalpodautoscalers"@,
            KubernetesObject::StorageClass => "storageclasses"@,
        }
    }

    /// The kinds that belong to the cluster rather than to a namespace.
    pub open spec fn cluster_scoped(self) -> bool {
        self matches KubernetesObject::PersistentVolume
            || self matches KubernetesObject::Namespace
            || self matches KubernetesObject::Node
            || self matches KubernetesObject::IngressClass
            || self matches KubernetesObject::ClusterRole
            || self matches KubernetesObject::ClusterRoleBinding
            || self matches KubernetesObject::StorageClass
    }

    /// The kind as a manifest writes it.
    pub fn kind(&self) -> (r: &'static str)
        ensures
            r@ == self.kind_name(),
    {
        match self {
            KubernetesObject::Pod => "Pod",
            KubernetesObject::Service => "Service",
            KubernetesObject::ConfigMap => "ConfigMap",
            KubernetesObject::Secret => "Secret",
            KubernetesObject::PersistentVolume => "PersistentVolume",
            KubernetesObject::PersistentVolumeClaim => "PersistentVolumeClaim",
            KubernetesObject::Namespace => "Namespace",
            KubernetesObject::ServiceAccount => "ServiceAccount",
            KubernetesObject::Endpoints => "Endpoints",
            KubernetesObject::LimitRange => "LimitRange",
            KubernetesObject::ResourceQuota => "ResourceQuota",
            KubernetesObject::Node => "Node",
            KubernetesObject::Deployment => "Deployment",
            KubernetesObject::ReplicaSet => "ReplicaSet",
            KubernetesObject::StatefulSet => "StatefulSet",
            KubernetesObject::DaemonSet => "DaemonSet",
            KubernetesObject::Job => "Job",
            KubernetesObject::CronJob => "CronJob",
            KubernetesObject::NetworkPolicy => "NetworkPolicy",
            KubernetesObject::Ingress => "Ingress",
            KubernetesObject::IngressClass => "IngressClass",
            KubernetesObject::Role => "Role",
            KubernetesObject::RoleBinding => "RoleBinding",
            KubernetesObject::ClusterRole => "ClusterRole",
            KubernetesObject::ClusterRoleBinding => "ClusterRoleBinding",
            KubernetesObject::PodDisruptionBudget => "PodDisruptionBudget",
            KubernetesObject::HorizontalPodAutoscaler => "HorizontalPodAutoscaler",
            KubernetesObject::StorageClass => "StorageClass",
        }
    }

    /// The API group and version that serve the kind.
    pub fn api_version(&self) -> (r: &'static str)
        ensures
            r@ == self.api_name(),
    {
        match self {
            KubernetesObject::Pod
            | KubernetesObject::Service
            | KubernetesObject::ConfigMap
            | KubernetesObject::Secret
            | KubernetesObject::PersistentVolume
            | KubernetesObject::PersistentVolumeClaim
            | KubernetesObject::Namespace
            | KubernetesObject::ServiceAccount
            | KubernetesObject::Endpoints
            | KubernetesObject::LimitRange
            | KubernetesObject::ResourceQuota
            | KubernetesObject::Node => "v1",
            KubernetesObject::Deployment
            | KubernetesObject::ReplicaSet
            | KubernetesObject::StatefulSet
            | KubernetesObject::DaemonSet => "apps/v1",
            KubernetesObject::Job
            | KubernetesObject::CronJob => "batch/v1",
            KubernetesObject::NetworkPolicy
            | KubernetesObject::Ingress
            | KubernetesObject::IngressClass => "networking.k8s.io/v1",
            KubernetesObject::Role
            | KubernetesObject::RoleBinding
            | KubernetesObject::ClusterRole
            | KubernetesObject::ClusterRoleBinding => "rbac.authorization.k8s.io/v1",
            KubernetesObject::PodDisruptionBudget => "policy/v1",
            KubernetesObject::HorizontalPodAutoscaler => "autoscaling/v2",
            KubernetesObject::StorageClass => "storage.k8s.io/v1",
        }
    }

    /// The kind as an API path and an authorization rule write it.
    pub fn plural_kind(&self) -> (r: &'static str)
        ensures
            r@ == self.plural_name(),
    {
        match self {
            KubernetesObject::Pod => "pods",
            KubernetesObject::Service => "services",
            KubernetesObject::ConfigMap => "configmaps",
            KubernetesObject::Secret => "secrets",
            KubernetesObject::PersistentVolume => "persistentvolumes",
            KubernetesObject::PersistentVolumeClaim => "persistentvolumeclaims",
            KubernetesObject::Namespace => "namespaces",
            KubernetesObject::ServiceAccount => "serviceaccounts",
            KubernetesObject::Endpoints => "endpoints",
            KubernetesObject::LimitRange => "limitranges",
            KubernetesObject::ResourceQuota => "resourcequotas",
            KubernetesObject::Node => "nodes",
            KubernetesObject::Deployment => "deployments",
            KubernetesObject::ReplicaSet => "replicasets",
            KubernetesObject::StatefulSet => "statefulsets",
            KubernetesObject::DaemonSet => "daemonsets",
            KubernetesObject::Job => "jobs",
            KubernetesObject::CronJob => "cronjobs",
            KubernetesObject::NetworkPolicy => "networkpolicies",
            KubernetesObject::Ingress => "ingresses",
            KubernetesObject::IngressClass => "ingressclasses",
            KubernetesObject::Role => "roles",
            KubernetesObject::RoleBinding => "rolebindings",
            KubernetesObject::ClusterRole => "clusterroles",
            KubernetesObject::ClusterRoleBinding => "clusterrolebindings",
            KubernetesObject::PodDisruptionBudget => "poddisruptionbudgets",
            KubernetesObject::HorizontalPodAutoscaler => "horizontalpodautoscalers",
            KubernetesObject::StorageClass => "storageclasses",
        }
    }

    /// Whether objects of the kind live in a namespace.
    pub fn is_namespaced(&self) -> (r: bool)
        ensures
            r == !self.cluster_scoped(),
    {
        !matches!(
            self,
            KubernetesObject::PersistentVolume
            | KubernetesObject::Namespace
            | KubernetesObject::Node
            | KubernetesObject::IngressClass
            | KubernetesObject::ClusterRole
            | KubernetesObject::ClusterRoleBinding
            | KubernetesObject::StorageClass
        )
    }
}

/// The regular plural of an English word in lower case: `s` is added, `es` after
/// an `s`, and a final `y` becomes `ies`.
pub open spec fn is_plural_of(plural: Seq<char>, word: Seq<char>) -> bool {
    if word.len() == 0 {
        false
    } else if word.last() == 'y' {
        plural == word.drop_last() + "ies"@
    } else if word.last() == 's' {
        plural == word + "es"@
    } else {
        plural == word + "s"@
    }
}

/// A kind's name in paths and rules is the plural of its name in manifests, in
/// lower case; the endpoints are plural already.
pub proof fn the_plural_is_that_of_the_kind(kind: KubernetesObject)
    ensures
        ({
            let word = lowercase(kind.kind_name());
            if kind is Endpoints {
                kind.plural_name() == word
            } else {
                is_plural_of(kind.plural_name(), word)
            }
        }),
{
    reveal_strlit("s");
    reveal_strlit("es");
    reveal_strlit("ies");
    match kind {
        KubernetesObject::Pod => {
            reveal_strlit("Pod");
            reveal_strlit("pods");
            assert(lowercase(kind.kind_name()).last() == 'd');
            assert(kind.plural_name() =~= lowercase(kind.kind_name()) + "s"@);
        },
        KubernetesObject::Service => {
            reveal_strlit("Service");
            reveal_strlit("services");
            assert(lowercase(kind.kind_name()).last() == 'e');
            assert(kind.plural_name() =~= lowercase(kind.kind_name()) + "s"@);
        },
        KubernetesObject::ConfigMap => {
            reveal_strlit("ConfigMap");
            reveal_strlit("configmaps");
            assert(lowercase(kind.kind_name()).last() == 'p');
            assert(kind.plural_name() =~= lowercase(kind.kind_name()) + "s"@);
        },
        KubernetesObject::Secret => {
            reveal_strlit("Secret");
            reveal_strlit("secrets");
            assert(lowercase(kind.kind_name()).last() == 't');
            assert(kind.plural_name() =~= lowercase(kind.kind_name()) + "s"@);
        },
        KubernetesObject::PersistentVolume => {
            reveal_strlit("PersistentVolume");
            reveal_strlit("persistentvolumes");
            assert(lowercase(kind.kind_name()).last() == 'e');
            assert(kind.plural_name() =~= lowercase(kind.kind_name()) + "s"@);
        },
        KubernetesObject::PersistentVolumeClaim => {
            reveal_strlit("PersistentVolumeClaim");
            reveal_strlit("persistentvolumeclaims");
            assert(lowercase(kind.kind_name()).last() == 'm');
            assert(kind.plural_name() =~= lowercase(kind.kind_name()) + "s"@);
        },
        KubernetesObject::Namespace => {
            reveal_strlit("Namespace");
            reveal_strlit("namespaces");
            assert(lowercase(kind.kind_name()).last() == 'e');
            assert(kind.plural_name() =~= lowercase(kind.kind_name()) + "s"@);
        },
        KubernetesObject::ServiceAccount => {
            reveal_strlit("ServiceAccount");
            reveal_strlit("serviceaccounts");
            assert(lowercase(kind.kind_name()).last() == 't');
            assert(kind.plural_name() =~= lowercase(kind.kind_name()) + "s"@);
        },
        KubernetesObject::Endpoints => {
            reveal_strlit("Endpoints");
            reveal_strlit("endpoints");
            assert(kind.plural_name() =~= lowercase(kind.kind_name()));
        },
        KubernetesObject::LimitRange => {
            reveal_strlit("LimitRange");
            reveal_strlit("limitranges");
            assert(lowercase(kind.kind_name()).last() == 'e');
            assert(kind.plural_name() =~= lowercase(kind.kind_name()) + "s"@);
        },
        KubernetesObject::ResourceQuota => {
            reveal_strlit("ResourceQuota");
            reveal_strlit("resourcequotas");
            assert(lowercase(kind.kind_name()).last() == 'a');
            assert(kind.plural_name() =~= lowercase(kind.kind_name()) + "s"@);
        },
        KubernetesObject::Node => {
            reveal_strlit("Node");
            reveal_strlit("nodes");
            assert(lowercase(kind.kind_name()).last() == 'e');
            assert(kind.plural_name() =~= lowercase(kind.kind_name()) + "s"@);
        },
        KubernetesObject::Deployment => {
            reveal_strlit("Deployment");
            reveal_strlit("deployments");
            assert(lowercase(kind.kind_name()).last() == 't');
            assert(kind.plural_name() =~= lowercase(kind.kind_name()) + "s"@);
        },
        KubernetesObject::ReplicaSet => {
            reveal_strlit("ReplicaSet");
            reveal_strlit("replicasets");
            assert(lowercase(kind.kind_name()).last() == 't');
            assert(kind.plural_name() =~= lowercase(kind.kind_name()) + "s"@);
        },
        KubernetesObject::StatefulSet => {
            reveal_strlit("StatefulSet");
            reveal_strlit("statefulsets");
            assert(lowercase(kind.kind_name()).last() == 't');
            assert(kind.plural_name() =~= lowercase(kind.kind_name()) + "s"@);
        },
        KubernetesObject::DaemonSet => {
            reveal_strlit("DaemonSet");
            reveal_strlit("daemonsets");
            assert(lowercase(kind.kind_name()).last() == 't');
            assert(kind.plural_name() =~= lowercase(kind.kind_name()) + "s"@);
        },
        KubernetesObject::Job => {
            reveal_strlit("Job");
            reveal_strlit("jobs");
            assert(lowercase(kind.kind_name()).last() == 'b');
            assert(kind.plural_name() =~= lowercase(kind.kind_name()) + "s"@);
        },
        KubernetesObject::CronJob => {
            reveal_strlit("CronJob");
            reveal_strlit("cronjobs");
            assert(lowercase(kind.kind_name()).last() == 'b');
            assert(kind.plural_name() =~= lowercase(kind.kind_name()) + "s"@);
        },
        KubernetesObject::NetworkPolicy => {
            reveal_strlit("NetworkPolicy");
            reveal_strlit("networkpolicies");
            assert(lowercase(kind.kind_name()).last() == 'y');
            assert(kind.plural_name() =~= lowercase(kind.kind_name()).drop_last() + "ies"@);
        },
        KubernetesObject::Ingress => {
            reveal_strlit("Ingress");
            reveal_strlit("ingresses");
            assert(lowercase(kind.kind_name()).last() == 's');
            assert(kind.plural_name() =~= lowercase(kind.kind_name()) + "es"@);
        },
        KubernetesObject::IngressClass => {
            reveal_strlit("IngressClass");
            reveal_strlit("ingressclasses");
            assert(lowercase(kind.kind_name()).last() == 's');
            assert(kind.plural_name() =~= lowercase(kind.kind_name()) + "es"@);
        },
        KubernetesObject::Role => {
            reveal_strlit("Role");
            reveal_strlit("roles");
            assert(lowercase(kind.kind_name()).last() == 'e');
            assert(kind.plural_name() =~= lowercase(kind.kind_name()) + "s"@);
        },
        KubernetesObject::RoleBinding => {
            reveal_strlit("RoleBinding");
            reveal_strlit("rolebindings");
            assert(lowercase(kind.kind_name()).last() == 'g');
            assert(kind.plural_name() =~= lowercase(kind.kind_name()) + "s"@);
        },
        KubernetesObject::ClusterRole => {
            reveal_strlit("ClusterRole");
            reveal_strlit("clusterroles");
            assert(lowercase(kind.kind_name()).last() == 'e');
            assert(kind.plural_name() =~= lowercase(kind.kind_name()) + "s"@);
        },
        KubernetesObject::ClusterRoleBinding => {
            reveal_strlit("ClusterRoleBinding");
            reveal_strlit("clusterrolebindings");
            assert(lowercase(kind.kind_name()).last() == 'g');
            assert(kind.plural_name() =~= lowercase(kind.kind_name()) + "s"@);
        },
        KubernetesObject::PodDisruptionBudget => {
            reveal_strlit("PodDisruptionBudget");
            reveal_strlit("poddisruptionbudgets");
            assert(lowercase(kind.kind_name()).last() == 't');
            assert(kind.plural_name() =~= lowercase(kind.kind_name()) + "s"@);
        },
        KubernetesObject::HorizontalPodAutoscaler => {
            reveal_strlit("HorizontalPodAutoscaler");
            reveal_strlit("horizontalpodautoscalers");
            assert(lowercase(kind.kind_name()).last() == 'r');
            assert(kind.plural_name() =~= lowercase(kind.kind_name()) + "s"@);
        },
        KubernetesObject::StorageClass => {
            reveal_strlit("StorageClass");
            reveal_strlit("storageclasses");
            assert(lowercase(kind.kind_name()).last() == 's');
            assert(kind.plural_name() =~= lowercase(kind.kind_name()) + "es"@);
        },
    }
}

}
