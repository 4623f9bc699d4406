//! The control plane assessor: which experiment answers which question.

use super::autonomy::{
    test_autonomy_create, test_autonomy_delete, test_autonomy_get, test_autonomy_list,
    test_autonomy_update,
};
use super::experiment::{log_view, Reply, Step, Trial};
use super::isolation::{
    test_cross_tenant_create, test_cross_tenant_delete, test_cross_tenant_get,
    test_cross_tenant_list, test_cross_tenant_update,
};
use super::laws::{autonomy_step, effect_step};
use super::names::{fresh_name, is_name_with};
use super::resources::{ControlPlaneAssessor, ControlPlaneOperation, ControlPlaneResource};
use crate::isolation::CrossTenantResult;
use crate::text::string_from;
use vstd::prelude::*;

verus! {

/// What the name of an autonomy experiment's object starts with.
pub open spec fn autonomy_prefix(operation: ControlPlaneOperation) -> Seq<char> {
    match operation {
        ControlPlaneOperation::Create => "autonomy-create-"@,
        ControlPlaneOperation::Get => "autonomy-get-"@,
        ControlPlaneOperation::List => "autonomy-list-"@,
        ControlPlaneOperation::Update => "autonomy-update-"@,
        ControlPlaneOperation::Delete => "autonomy-delete-"@,
    }
}

/// What the name of a cross-tenant experiment's object starts with.
pub open spec fn effect_prefix(operation: ControlPlaneOperation) -> Seq<char> {
    match operation {
        ControlPlaneOperation::Create => "create-test-"@,
        ControlPlaneOperation::Get => "get-test-"@,
        ControlPlaneOperation::List => "list-test-"@,
        ControlPlaneOperation::Update => "update-test-"@,
        ControlPlaneOperation::Delete => "delete-test-"@,
    }
}

impl ControlPlaneAssessor {
    /// The trial of an autonomy experiment, with a fresh name for its object.
    pub fn autonomy_trial(
        &self,
        resource: &ControlPlaneResource,
        operation: &ControlPlaneOperation,
        namespace: &str,
    ) -> (r: Trial)
        ensures
            r@.kind == resource.object(),
            r@.namespace == namespace@,
            is_name_with(r@.name, autonomy_prefix(*operation)),
    {
        let prefix = match operation {
            ControlPlaneOperation::Create => "autonomy-create-",
            ControlPlaneOperation::Get => "autonomy-get-",
            ControlPlaneOperation::List => "autonomy-list-",
            ControlPlaneOperation::Update => "autonomy-update-",
            ControlPlaneOperation::Delete => "autonomy-delete-",
        };
        Trial {
            kind: resource.to_kubernetes_object(),
            name: fresh_name(prefix),
            namespace: string_from(namespace),
        }
    }

    /// The trial of a cross-tenant experiment, with a fresh name for its object.
    pub fn effect_trial(
        &self,
        resource: &ControlPlaneResource,
        operation: &ControlPlaneOperation,
        namespace: &str,
    ) -> (r: Trial)
        ensures
            r@.kind == resource.object(),
            r@.namespace == namespace@,
            is_name_with(r@.name, effect_prefix(*operation)),
    {
        let prefix = match operation {
            ControlPlaneOperation::Create => "create-test-",
            ControlPlaneOperation::Get => "get-test-",
            ControlPlaneOperation::List => "list-test-",
            ControlPlaneOperation::Update => "update-test-",
            ControlPlaneOperation::Delete => "delete-test-",
        };
        Trial {
            kind: resource.to_kubernetes_object(),
            name: fresh_name(prefix),
            namespace: string_from(namespace),
        }
    }

    /// Whether the tenant can perform the operation: the operation is tried,
    /// because some proxies allow what the authorization rules deny.
    pub fn is_authorized(
        &self,
        operation: &ControlPlaneOperation,
        trial: &Trial,
        log: &Vec<Reply>,
    ) -> (r: Step<bool>)
        ensures
            r@ == autonomy_step(*operation, trial@, log_view(log@)),
    {
        match operation {
            ControlPlaneOperation::Create => test_autonomy_create(trial, log),
            ControlPlaneOperation::Get => test_autonomy_get(trial, log),
            ControlPlaneOperation::List => test_autonomy_list(trial, log),
            ControlPlaneOperation::Update => test_autonomy_update(trial, log),
            ControlPlaneOperation::Delete => test_autonomy_delete(trial, log),
        }
    }

    /// What the operation of the second tenant does to the first.
    pub fn check_cross_tenant_effect(
        &self,
        operation: &ControlPlaneOperation,
        trial: &Trial,
        log: &Vec<Reply>,
    ) -> (r: Step<CrossTenantResult>)
        ensures
            r@ == effect_step(*operation, trial@, log_view(log@)),
    {
        match operation {
            ControlPlaneOperation::Create => test_cross_tenant_create(trial, log),
            ControlPlaneOperation::Get => test_cross_tenant_get(trial, log),
            ControlPlaneOperation::List => test_cross_tenant_list(trial, log),
            ControlPlaneOperation::Update => test_cross_tenant_update(trial, log),
            ControlPlaneOperation::Delete => test_cross_tenant_delete(trial, log),
        }
    }
}

}
