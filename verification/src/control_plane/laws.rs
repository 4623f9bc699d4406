//! What holds of every run of a control plane experiment.

use super::autonomy::{
    autonomy_create_step, autonomy_delete_step, autonomy_get_step, autonomy_list_step,
    autonomy_update_step,
};
use super::errors::{an_error_is_soft_or_hard, inferred_isolation};
use super::experiment::{ReplyView, RequestView, StepView, Tenant, TrialView};
use super::isolation::{
    create_step, delete_step, get_step, is_gone, list_step, lists, marker_label, needs_existing,
    update_step,
};
use super::resources::ControlPlaneOperation;
use crate::isolation::CrossTenantView;
use vstd::prelude::*;

verus! {

/// The cross-tenant experiment for an operation.
pub open spec fn effect_step(
    operation: ControlPlaneOperation,
    trial: TrialView,
    log: Seq<ReplyView>,
) -> StepView<CrossTenantView> {
    match operation {
        ControlPlaneOperation::Create => create_step(trial, log),
        ControlPlaneOperation::Get => get_step(trial, log),
        ControlPlaneOperation::List => list_step(trial, log),
        ControlPlaneOperation::Update => update_step(trial, log),
        ControlPlaneOperation::Delete => delete_step(trial, log),
    }
}

/// The autonomy experiment for an operation.
pub open spec fn autonomy_step(
    operation: ControlPlaneOperation,
    trial: TrialView,
    log: Seq<ReplyView>,
) -> StepView<bool> {
    match operation {
        ControlPlaneOperation::Create => autonomy_create_step(trial, log),
        ControlPlaneOperation::Get => autonomy_get_step(trial, log),
        ControlPlaneOperation::List => autonomy_list_step(trial, log),
        ControlPlaneOperation::Update => autonomy_update_step(trial, log),
        ControlPlaneOperation::Delete => autonomy_delete_step(trial, log),
    }
}

/// The experiment works on an object of its own rather than on one that it
/// found.
pub open spec fn makes_its_own(operation: ControlPlaneOperation, trial: TrialView) -> bool {
    operation is Create || !needs_existing(trial.kind)
}

/// In the run that `log` records, a cross-tenant experiment asked for
/// `request`.
pub open spec fn effect_asked(
    operation: ControlPlaneOperation,
    trial: TrialView,
    log: Seq<ReplyView>,
    request: RequestView,
) -> bool {
    exists|i: int|
        0 <= i < log.len() && effect_step(operation, trial, #[trigger] log.take(i))
            == StepView::<CrossTenantView>::Ask(request)
}

/// In the run that `log` records, an autonomy experiment asked for `request`.
pub open spec fn autonomy_asked(
    operation: ControlPlaneOperation,
    trial: TrialView,
    log: Seq<ReplyView>,
    request: RequestView,
) -> bool {
    exists|i: int|
        0 <= i < log.len() && autonomy_step(operation, trial, #[trigger] log.take(i))
            == StepView::<bool>::Ask(request)
}

/// Every cross-tenant experiment ends after at most six replies.
pub proof fn every_effect_experiment_ends(
    operation: ControlPlaneOperation,
    trial: TrialView,
    log: Seq<ReplyView>,
)
    requires
        log.len() >= 6,
    ensures
        !(effect_step(operation, trial, log) is Ask),
{
}

/// Every autonomy experiment ends after at most five replies.
pub proof fn every_autonomy_experiment_ends(
    operation: ControlPlaneOperation,
    trial: TrialView,
    log: Seq<ReplyView>,
)
    requires
        log.len() >= 5,
    ensures
        !(autonomy_step(operation, trial, log) is Ask),
{
}

/// Nothing is left behind: a cross-tenant experiment that created its object
/// ends only after the first tenant deleted it, or after the second tenant's
/// deletion was seen to have taken effect. What a stateful set leaves behind is
/// deleted in either case.
pub proof fn every_effect_experiment_cleans_up(
    operation: ControlPlaneOperation,
    trial: TrialView,
    log: Seq<ReplyView>,
)
    requires
        makes_its_own(operation, trial),
        !(effect_step(operation, trial, log) is Ask),
        !log[0].failed(),
    ensures
        effect_asked(operation, trial, log, trial.delete(Tenant::First)) || (operation is Delete
            && is_gone(log[3]) && effect_asked(operation, trial, log, trial.delete(Tenant::Second))),
        trial.kind is StatefulSet ==> effect_asked(operation, trial, log, trial.claims()[0]),
{
    assert(log.len() > 0) by {
        if log.len() == 0 {
            assert(effect_step(operation, trial, log) is Ask);
        }
    }
    let asks = |i: int, request: RequestView|
        0 <= i < log.len() && effect_step(operation, trial, log.take(i)) == StepView::<
            CrossTenantView,
        >::Ask(request);
    let own = trial.delete(Tenant::First);
    let used: int = match operation {
        ControlPlaneOperation::Create => if log[1].failed() {
            2
        } else {
            3
        },
        ControlPlaneOperation::Get => 2,
        ControlPlaneOperation::List => 2,
        ControlPlaneOperation::Update => if log[2].failed() {
            3
        } else {
            4
        },
        ControlPlaneOperation::Delete => if log[2].failed() {
            3
        } else {
            4
        },
    };
    assert(log.len() >= used);
    assert forall|i: int, k: int| 0 <= k < i <= log.len() implies #[trigger] log.take(i)[k]
        == log[k] by {}
    if operation is Delete && !log[2].failed() && is_gone(log[3]) {
        assert(asks(2, trial.delete(Tenant::Second)));
        if trial.kind is StatefulSet {
            assert(asks(used, trial.claims()[0]));
        }
    } else {
        assert(trial.cleanup()[0] == own);
        assert(asks(used, own));
        if trial.kind is StatefulSet {
            assert(trial.cleanup()[1] == trial.claims()[0]);
            assert(asks(used + 1, trial.claims()[0]));
        }
    }
}

/// Nothing is left behind: an autonomy experiment that created its object ends
/// only after it asked for the object's deletion, and for that of what a
/// stateful set leaves behind.
pub proof fn every_autonomy_experiment_cleans_up(
    operation: ControlPlaneOperation,
    trial: TrialView,
    log: Seq<ReplyView>,
)
    requires
        !(operation is List),
        operation is Create || operation is Delete || !needs_existing(trial.kind),
        !(autonomy_step(operation, trial, log) is Ask),
        !log[0].failed(),
    ensures
        autonomy_asked(operation, trial, log, trial.delete(Tenant::First)),
        trial.kind is StatefulSet ==> autonomy_asked(operation, trial, log, trial.claims()[0]),
{
    assert(log.len() > 0) by {
        if log.len() == 0 {
            assert(autonomy_step(operation, trial, log) is Ask);
        }
    }
    let asks = |i: int, request: RequestView|
        0 <= i < log.len() && autonomy_step(operation, trial, log.take(i)) == StepView::<
            bool,
        >::Ask(request);
    let used: int = match operation {
        ControlPlaneOperation::Create => 1,
        ControlPlaneOperation::Get => 2,
        ControlPlaneOperation::Update => 3,
        _ => 2,
    };
    assert(log.len() >= used);
    assert forall|i: int, k: int| 0 <= k < i <= log.len() implies #[trigger] log.take(i)[k]
        == log[k] by {}
    assert(trial.cleanup()[0] == trial.delete(Tenant::First));
    assert(asks(used, trial.delete(Tenant::First)));
    if trial.kind is StatefulSet {
        assert(trial.cleanup()[1] == trial.claims()[0]);
        assert(asks(used + 1, trial.claims()[0]));
    }
}

/// Nothing of the tenant's own is at risk: an autonomy experiment deletes only
/// the object it was given a name for, and what that one leaves behind.
pub proof fn autonomy_experiments_delete_only_their_own(
    operation: ControlPlaneOperation,
    trial: TrialView,
    log: Seq<ReplyView>,
)
    ensures
        match autonomy_step(operation, trial, log) {
            StepView::Ask(RequestView::Delete { tenant, name, namespace }) => {
                &&& tenant == Tenant::First
                &&& name == trial.name
                &&& namespace == trial.scope()
            },
            StepView::Ask(RequestView::DeleteClaim { tenant, name, within }) => {
                &&& trial.kind is StatefulSet
                &&& StepView::<bool>::Ask(RequestView::DeleteClaim { tenant, name, within })
                    == StepView::<bool>::Ask(trial.claims()[0])
            },
            _ => true,
        },
{
    if trial.kind is StatefulSet {
        assert(trial.cleanup()[1] == trial.claims()[0]);
    }
}

/// An autonomy experiment never acts as the second tenant.
pub proof fn autonomy_experiments_involve_one_tenant(
    operation: ControlPlaneOperation,
    trial: TrialView,
    log: Seq<ReplyView>,
)
    ensures
        match autonomy_step(operation, trial, log) {
            StepView::Ask(RequestView::Create { tenant, .. }) => tenant == Tenant::First,
            StepView::Ask(RequestView::Get { tenant, .. }) => tenant == Tenant::First,
            StepView::Ask(RequestView::List { tenant, .. }) => tenant == Tenant::First,
            StepView::Ask(RequestView::Patch { tenant, .. }) => tenant == Tenant::First,
            StepView::Ask(RequestView::Delete { tenant, .. }) => tenant == Tenant::First,
            StepView::Ask(RequestView::AwaitCreation { tenant, .. }) => tenant == Tenant::First,
            StepView::Ask(RequestView::FindExisting { tenant }) => tenant == Tenant::First,
            StepView::Ask(RequestView::DeleteClaim { tenant, .. }) => tenant == Tenant::First,
            StepView::Ask(RequestView::Exists { .. }) => false,
            StepView::Ask(RequestView::MayDelete { .. }) => false,
            StepView::Ask(RequestView::Sleep { .. }) => false,
            StepView::Ask(RequestView::CreatePod { .. }) => false,
            StepView::Ask(RequestView::DeletePod { .. }) => false,
            _ => true,
        },
{
    if trial.kind is StatefulSet {
        assert(trial.cleanup()[1] == trial.claims()[0]);
    }
}

/// An experiment that could not set up its object proves neither a breach nor
/// full isolation, and grants no autonomy.
pub proof fn a_failed_setup_is_no_finding(
    operation: ControlPlaneOperation,
    trial: TrialView,
    log: Seq<ReplyView>,
)
    requires
        makes_its_own(operation, trial),
        log.len() > 0,
        log[0].failed(),
    ensures
        match effect_step(operation, trial, log) {
            StepView::Done(result) => {
                &&& !(result.isolation is NoIsolation)
                &&& !(result.isolation is Hard)
                &&& !result.autonomy
            },
            _ => false,
        },
{
}

/// What shows that the second tenant reached the object that the first one
/// created: it overwrote it, read it, saw it in a list, changed it, or deleted
/// it.
pub open spec fn breach_was_seen(
    operation: ControlPlaneOperation,
    trial: TrialView,
    log: Seq<ReplyView>,
) -> bool {
    match operation {
        ControlPlaneOperation::Create => {
            &&& !log[1].failed()
            &&& match log[2] {
                ReplyView::Object(object) => object.annotation("kumuteva.io/created-by-tenant"@)
                    == Some("tenant2"@),
                _ => false,
            }
        },
        ControlPlaneOperation::Get => log[1].is_object_named(trial.name),
        ControlPlaneOperation::List => !log[1].failed() && lists(log[1].items(), trial.name),
        ControlPlaneOperation::Update => {
            &&& !log[2].failed()
            &&& !log[3].failed()
            &&& log[3].label(marker_label()) == Some("tenant2-modified"@)
        },
        ControlPlaneOperation::Delete => !log[2].failed() && is_gone(log[3]),
    }
}

/// A breach is reported exactly where one was seen.
pub proof fn a_breach_is_reported_exactly_where_it_was_seen(
    operation: ControlPlaneOperation,
    trial: TrialView,
    log: Seq<ReplyView>,
)
    requires
        makes_its_own(operation, trial),
        log.len() > 0,
        !log[0].failed(),
        effect_step(operation, trial, log) is Done,
    ensures
        (effect_step(operation, trial, log)->Done_0.isolation is NoIsolation) == breach_was_seen(
            operation,
            trial,
            log,
        ),
{
    an_error_is_soft_or_hard(log[1].message());
    an_error_is_soft_or_hard(log[2].message());
}

/// Once the second tenant's attempt is refused with an error, that error alone
/// decides the isolation.
pub proof fn a_refused_attempt_is_judged_by_its_error(
    operation: ControlPlaneOperation,
    trial: TrialView,
    log: Seq<ReplyView>,
)
    requires
        makes_its_own(operation, trial),
        log.len() > 0,
        !log[0].failed(),
        effect_step(operation, trial, log) is Done,
        log[attempt_index(operation)].failed(),
    ensures
        effect_step(operation, trial, log)->Done_0.isolation == inferred_isolation(
            log[attempt_index(operation)].message(),
        ),
        effect_step(operation, trial, log)->Done_0.autonomy,
{
}

/// Which reply is the one to the second tenant's attempt.
pub open spec fn attempt_index(operation: ControlPlaneOperation) -> int {
    match operation {
        ControlPlaneOperation::Update => 2,
        ControlPlaneOperation::Delete => 2,
        _ => 1,
    }
}

}
