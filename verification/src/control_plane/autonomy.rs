//! The autonomy experiments: whether a tenant, on its own, can perform an
//! operation. The operation is tried rather than looked up, because some proxies
//! allow what the authorization rules deny.

use super::experiment::{
    chores_then, label_patch, label_patch_view, log_view, Reply, ReplyView, Request, RequestView,
    Step, StepView, Tenant, Trial, TrialView,
};
use super::isolation::{needs_existing, requires_existing_object};
use crate::json::{Json, JsonView};
use vstd::prelude::*;
use vstd::string::*;

verus! {

/// CREATE: the tenant creates the test object.
pub open spec fn autonomy_create_step(trial: TrialView, log: Seq<ReplyView>) -> StepView<bool> {
    if log.len() == 0 {
        StepView::Ask(trial.create(Tenant::First, "autonomy-test"@))
    } else if log[0].failed() {
        StepView::Done(false)
    } else {
        chores_then(trial.cleanup(), log.len() - 1, true)
    }
}

/// Tests whether the tenant can create a resource. It is tried for every kind.
pub fn test_autonomy_create(trial: &Trial, log: &Vec<Reply>) -> (r: Step<bool>)
    ensures
        r@ == autonomy_create_step(trial@, log_view(log@)),
{
    if log.len() == 0 {
        Step::Ask(trial.create(Tenant::First, "autonomy-test"))
    } else if log[0].failed() {
        Step::Done(false)
    } else {
        trial.cleanup_test_resource(log.len() - 1, true)
    }
}

/// GET, of a kind that cannot be created: the tenant reads an object that is
/// already there.
pub open spec fn autonomy_get_existing_step(log: Seq<ReplyView>) -> StepView<bool> {
    if log.len() == 0 {
        StepView::Ask(RequestView::FindExisting { tenant: Tenant::First })
    } else {
        match log[0] {
            ReplyView::Name(name) => if log.len() == 1 {
                StepView::Ask(RequestView::Get { tenant: Tenant::First, name, namespace: None })
            } else {
                StepView::Done(log[1].is_object_named(name))
            },
            _ => StepView::Done(false),
        }
    }
}

/// GET: the tenant creates an object and reads it. Where it may not create one,
/// it reads the first it can list, and without one the name it wanted.
pub open spec fn autonomy_get_created_step(trial: TrialView, log: Seq<ReplyView>) -> StepView<
    bool,
> {
    if log.len() == 0 {
        StepView::Ask(trial.create(Tenant::First, "autonomy-test"@))
    } else if !log[0].failed() {
        if log.len() == 1 {
            StepView::Ask(trial.get(Tenant::First))
        } else {
            chores_then(trial.cleanup(), log.len() - 2, log[1].is_object_named(trial.name))
        }
    } else if log.len() == 1 {
        StepView::Ask(RequestView::List { tenant: Tenant::First, namespace: trial.scope() })
    } else {
        match log[1].first_name() {
            Some(name) => if log.len() == 2 {
                StepView::Ask(
                    RequestView::Get { tenant: Tenant::First, name, namespace: trial.scope() },
                )
            } else {
                StepView::Done(log[2].is_object_named(name))
            },
            None => if log.len() == 2 {
                StepView::Ask(trial.get(Tenant::First))
            } else {
                chores_then(trial.cleanup(), log.len() - 3, log[2].is_object_named(trial.name))
            },
        }
    }
}

/// GET, on an object of the experiment's own where the kind allows one.
pub open spec fn autonomy_get_step(trial: TrialView, log: Seq<ReplyView>) -> StepView<bool> {
    if needs_existing(trial.kind) {
        autonomy_get_existing_step(log)
    } else {
        autonomy_get_created_step(trial, log)
    }
}

/// Tests whether the tenant can read an object that is already there.
fn get_existing(log: &Vec<Reply>) -> (r: Step<bool>)
    ensures
        r@ == autonomy_get_existing_step(log_view(log@)),
{
    if log.len() == 0 {
        return Step::Ask(Request::FindExisting { tenant: Tenant::First });
    }
    match &log[0] {
        Reply::Name(name) => if log.len() == 1 {
            Step::Ask(
                Request::Get { tenant: Tenant::First, name: name.clone(), namespace: None },
            )
        } else {
            Step::Done(log[1].is_object_named(name))
        },
        _ => Step::Done(false),
    }
}

/// Tests whether the tenant can read a resource: the step after the replies so
/// far.
pub fn test_autonomy_get(trial: &Trial, log: &Vec<Reply>) -> (r: Step<bool>)
    ensures
        r@ == autonomy_get_step(trial@, log_view(log@)),
{
    if requires_existing_object(&trial.kind) {
        return get_existing(log);
    }
    if log.len() == 0 {
        return Step::Ask(trial.create(Tenant::First, "autonomy-test"));
    }
    if !log[0].failed() {
        if log.len() == 1 {
            return Step::Ask(trial.get(Tenant::First));
        }
        return trial.cleanup_test_resource(
            log.len() - 2,
            log[1].is_object_named(&trial.name),
        );
    }
    if log.len() == 1 {
        return Step::Ask(Request::List { tenant: Tenant::First, namespace: trial.scope() });
    }
    match log[1].first_name() {
        Some(name) => if log.len() == 2 {
            Step::Ask(
                Request::Get {
                    tenant: Tenant::First,
                    name: name.clone(),
                    namespace: trial.scope(),
                },
            )
        } else {
            Step::Done(log[2].is_object_named(name))
        },
        None => if log.len() == 2 {
            Step::Ask(trial.get(Tenant::First))
        } else {
            trial.cleanup_test_resource(log.len() - 3, log[2].is_object_named(&trial.name))
        },
    }
}

/// LIST: the tenant lists the kind.
pub open spec fn autonomy_list_step(trial: TrialView, log: Seq<ReplyView>) -> StepView<bool> {
    if log.len() == 0 {
        StepView::Ask(RequestView::List { tenant: Tenant::First, namespace: trial.scope() })
    } else {
        StepView::Done(!log[0].failed())
    }
}

/// Tests whether the tenant can list resources.
pub fn test_autonomy_list(trial: &Trial, log: &Vec<Reply>) -> (r: Step<bool>)
    ensures
        r@ == autonomy_list_step(trial@, log_view(log@)),
{
    if log.len() == 0 {
        Step::Ask(Request::List { tenant: Tenant::First, namespace: trial.scope() })
    } else {
        Step::Done(!log[0].failed())
    }
}

/// Sets a label of an object that is not the experiment's own and, where that
/// succeeded, takes it away again. `log` holds the replies to these two.
pub open spec fn borrowed_update_step(
    name: Seq<char>,
    namespace: Option<Seq<char>>,
    label: Seq<char>,
    value: Seq<char>,
    log: Seq<ReplyView>,
) -> StepView<bool> {
    let patch = |value: JsonView|
        RequestView::Patch {
            tenant: Tenant::First,
            name,
            patch: label_patch_view(label, value),
            namespace,
        };
    if log.len() == 0 {
        StepView::Ask(patch(JsonView::Text(value)))
    } else if log[0].failed() {
        StepView::Done(false)
    } else if log.len() == 1 {
        StepView::Ask(patch(JsonView::Null))
    } else {
        StepView::Done(true)
    }
}

/// UPDATE, of a kind that cannot be created: the tenant labels an object that
/// is already there.
pub open spec fn autonomy_update_existing_step(log: Seq<ReplyView>) -> StepView<bool> {
    if log.len() == 0 {
        StepView::Ask(RequestView::FindExisting { tenant: Tenant::First })
    } else {
        match log[0] {
            ReplyView::Name(name) => borrowed_update_step(
                name,
                None,
                "kumuteva-autonomy-test"@,
                "update-test"@,
                log.skip(1),
            ),
            _ => StepView::Done(false),
        }
    }
}

/// UPDATE: the tenant creates an object and labels it. Where it may not create
/// one, it labels the first it can list; without one it cannot.
pub open spec fn autonomy_update_created_step(trial: TrialView, log: Seq<ReplyView>) -> StepView<
    bool,
> {
    if log.len() == 0 {
        StepView::Ask(trial.create(Tenant::First, "autonomy-test"@))
    } else if log[0].failed() {
        if log.len() == 1 {
            StepView::Ask(RequestView::List { tenant: Tenant::First, namespace: trial.scope() })
        } else {
            match log[1].first_name() {
                Some(name) => borrowed_update_step(
                    name,
                    trial.scope(),
                    "kumuteva-autonomy-update-test"@,
                    "true"@,
                    log.skip(2),
                ),
                None => StepView::Done(false),
            }
        }
    } else if log.len() == 1 {
        StepView::Ask(trial.await_creation(Tenant::First))
    } else if log.len() == 2 {
        StepView::Ask(
            trial.patch(
                Tenant::First,
                label_patch_view("autonomy-update-test"@, JsonView::Text("true"@)),
            ),
        )
    } else {
        chores_then(trial.cleanup(), log.len() - 3, !log[2].failed())
    }
}

/// UPDATE, on an object of the experiment's own where the kind allows one.
pub open spec fn autonomy_update_step(trial: TrialView, log: Seq<ReplyView>) -> StepView<bool> {
    if needs_existing(trial.kind) {
        autonomy_update_existing_step(log)
    } else {
        autonomy_update_created_step(trial, log)
    }
}

/// Sets a label of an object that is not the experiment's own and takes it away
/// again; the replies to these two stand in `log` from `from` on.
fn borrowed_update(
    name: &str,
    namespace: Option<String>,
    label: &str,
    value: &str,
    log: &Vec<Reply>,
    from: usize,
) -> (r: Step<bool>)
    requires
        from <= log.len(),
    ensures
        r@ == borrowed_update_step(
            name@,
            super::experiment::text_view(namespace),
            label@,
            value@,
            log_view(log@).skip(from as int),
        ),
{
    if log.len() == from {
        Step::Ask(
            Request::Patch {
                tenant: Tenant::First,
                name: name.to_owned(),
                patch: label_patch(label, Json::text(value)),
                namespace,
            },
        )
    } else if log[from].failed() {
        Step::Done(false)
    } else if log.len() - from == 1 {
        Step::Ask(
            Request::Patch {
                tenant: Tenant::First,
                name: name.to_owned(),
                patch: label_patch(label, Json::Null),
                namespace,
            },
        )
    } else {
        Step::Done(true)
    }
}

/// Tests whether the tenant can update a resource: the step after the replies
/// so far.
pub fn test_autonomy_update(trial: &Trial, log: &Vec<Reply>) -> (r: Step<bool>)
    ensures
        r@ == autonomy_update_step(trial@, log_view(log@)),
{
    if requires_existing_object(&trial.kind) {
        if log.len() == 0 {
            return Step::Ask(Request::FindExisting { tenant: Tenant::First });
        }
        return match &log[0] {
            Reply::Name(name) => borrowed_update(
                name,
                None,
                "kumuteva-autonomy-test",
                "update-test",
                log,
                1,
            ),
            _ => Step::Done(false),
        };
    }
    if log.len() == 0 {
        Step::Ask(trial.create(Tenant::First, "autonomy-test"))
    } else if log[0].failed() {
        if log.len() == 1 {
            Step::Ask(Request::List { tenant: Tenant::First, namespace: trial.scope() })
        } else {
            match log[1].first_name() {
                Some(name) => borrowed_update(
                    name,
                    trial.scope(),
                    "kumuteva-autonomy-update-test",
                    "true",
                    log,
                    2,
                ),
                None => Step::Done(false),
            }
        }
    } else if log.len() == 1 {
        Step::Ask(trial.await_creation(Tenant::First))
    } else if log.len() == 2 {
        let patch = label_patch("autonomy-update-test", Json::text("true"));
        Step::Ask(trial.patch(Tenant::First, patch))
    } else {
        trial.cleanup_test_resource(log.len() - 3, !log[2].failed())
    }
}

/// DELETE: the tenant creates an object and deletes it. Nothing that was
/// already there is ever deleted.
pub open spec fn autonomy_delete_step(trial: TrialView, log: Seq<ReplyView>) -> StepView<bool> {
    if log.len() == 0 {
        StepView::Ask(trial.create(Tenant::First, "autonomy-test"@))
    } else if log[0].failed() {
        StepView::Done(false)
    } else if log.len() == 1 {
        StepView::Ask(trial.await_creation(Tenant::First))
    } else if log.len() == 2 {
        StepView::Ask(trial.delete(Tenant::First))
    } else {
        chores_then(trial.claims(), log.len() - 3, !log[2].failed())
    }
}

/// Tests whether the tenant can delete a resource: the step after the replies
/// so far.
pub fn test_autonomy_delete(trial: &Trial, log: &Vec<Reply>) -> (r: Step<bool>)
    ensures
        r@ == autonomy_delete_step(trial@, log_view(log@)),
{
    if log.len() == 0 {
        Step::Ask(trial.create(Tenant::First, "autonomy-test"))
    } else if log[0].failed() {
        Step::Done(false)
    } else if log.len() == 1 {
        Step::Ask(trial.await_creation(Tenant::First))
    } else if log.len() == 2 {
        Step::Ask(trial.delete(Tenant::First))
    } else {
        trial.cleanup_claims(log.len() - 3, !log[2].failed())
    }
}

}
