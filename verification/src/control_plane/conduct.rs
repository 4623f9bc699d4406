//! How a control plane experiment conducts itself: who asks for what, on which
//! object, and which reply its result rests on.

use super::errors::{an_error_is_soft_or_hard, inferred_isolation};
use super::experiment::{
    name_set, value_of, DynamicObjectView, ObservedView, ReplyView, RequestView, StepView, Tenant,
    TrialView,
};
use super::isolation::{both_lists_verdict, labels_json, lists, marker_label, revert_patch};
use super::laws::{autonomy_step, effect_step};
use super::manifests::a_minimal_object_says_what_it_is;
use super::resources::ControlPlaneOperation;
use crate::isolation::{CrossTenantView, IsolationView};
use crate::json::JsonView;
use crate::text::{debug_option, has_text, sums_hold_their_parts};
use vstd::prelude::*;
use vstd::string::*;

verus! {

/// The tenant as which a request is made.
pub open spec fn requester(request: RequestView) -> Option<Tenant> {
    match request {
        RequestView::Create { tenant, .. } => Some(tenant),
        RequestView::Get { tenant, .. } => Some(tenant),
        RequestView::List { tenant, .. } => Some(tenant),
        RequestView::Patch { tenant, .. } => Some(tenant),
        RequestView::Delete { tenant, .. } => Some(tenant),
        RequestView::Exists { tenant, .. } => Some(tenant),
        RequestView::AwaitCreation { tenant, .. } => Some(tenant),
        RequestView::MayDelete { tenant, .. } => Some(tenant),
        RequestView::DeleteClaim { tenant, .. } => Some(tenant),
        RequestView::FindExisting { tenant } => Some(tenant),
        RequestView::CreatePod { tenant, .. } => Some(tenant),
        RequestView::DeletePod { tenant, .. } => Some(tenant),
        RequestView::Sleep { .. } => None,
    }
}

/// The request performs the operation, on whatever object.
pub open spec fn performs(operation: ControlPlaneOperation, request: RequestView) -> bool {
    match operation {
        ControlPlaneOperation::Create => request is Create,
        ControlPlaneOperation::Get => request is Get,
        ControlPlaneOperation::List => request is List,
        ControlPlaneOperation::Update => request is Patch,
        ControlPlaneOperation::Delete => request is Delete,
    }
}

/// What an experiment is about: the object of its own, or for nodes (which
/// nobody creates) the one that the first reply names.
pub open spec fn subject(
    operation: ControlPlaneOperation,
    trial: TrialView,
    log: Seq<ReplyView>,
) -> Seq<char> {
    if trial.kind is Node && !(operation is Create) {
        match log[0] {
            ReplyView::Name(name) => name,
            _ => Seq::empty(),
        }
    } else {
        trial.name
    }
}

/// Where the object of an experiment is: in the namespace of the experiment,
/// where objects of its kind are in one.
pub open spec fn place(trial: TrialView) -> Option<Seq<char>> {
    if trial.kind.cluster_scoped() {
        None
    } else {
        Some(trial.namespace)
    }
}

/// The request is about the object `name` at `namespace`.
pub open spec fn is_about(
    request: RequestView,
    name: Seq<char>,
    namespace: Option<Seq<char>>,
) -> bool {
    match request {
        RequestView::Create { object, namespace: at, .. } => object.name == name && at == namespace,
        RequestView::Get { name: of, namespace: at, .. } => of == name && at == namespace,
        RequestView::List { namespace: at, .. } => at == namespace,
        RequestView::Patch { name: of, namespace: at, .. } => of == name && at == namespace,
        RequestView::Delete { name: of, namespace: at, .. } => of == name && at == namespace,
        RequestView::Exists { name: of, namespace: at, .. } => of == name && at == namespace,
        RequestView::AwaitCreation { name: of, namespace: at, .. } => of == name
            && at == namespace,
        _ => false,
    }
}


/// The request is the second tenant's attempt at the operation on what the
/// experiment is about.
pub open spec fn is_attempt(
    operation: ControlPlaneOperation,
    trial: TrialView,
    log: Seq<ReplyView>,
    request: RequestView,
) -> bool {
    &&& performs(operation, request)
    &&& requester(request) == Some(Tenant::Second)
    &&& is_about(request, subject(operation, trial, log), place(trial))
}

/// The second tenant's attempt at the operation was made and went through: it
/// is the request that `log[i]` answers.
pub open spec fn attempt_succeeded(
    operation: ControlPlaneOperation,
    trial: TrialView,
    log: Seq<ReplyView>,
    i: int,
) -> bool {
    &&& 0 <= i < log.len()
    &&& !(log[i] is Failed)
    &&& match effect_step(operation, trial, log.take(i)) {
        StepView::Ask(request) => is_attempt(operation, trial, log, request),
        _ => false,
    }
}

/// The first tenant acts for the owner, the second only tries: whatever a
/// cross-tenant experiment asks for as the second tenant is the operation under
/// test, on the very object that the first tenant made or found; only before a
/// node is deleted is the second tenant also asked whether it may.
pub proof fn the_second_tenant_makes_only_the_attempt(
    operation: ControlPlaneOperation,
    trial: TrialView,
    log: Seq<ReplyView>,
    request: RequestView,
)
    requires
        effect_step(operation, trial, log) == StepView::<CrossTenantView>::Ask(request),
    ensures
        match requester(request) {
            Some(Tenant::First) => true,
            Some(Tenant::Second) => {
                ||| is_attempt(operation, trial, log, request)
                ||| trial.kind is Node && operation is Delete && request is MayDelete
            },
            None => false,
        },
{
}

/// When the attempt comes: right after the object was created, or after it is
/// known to be there where it is to be changed or deleted. The attempt is the
/// second tenant's.
pub proof fn the_attempt_is_the_second_tenants(
    operation: ControlPlaneOperation,
    trial: TrialView,
    log: Seq<ReplyView>,
)
    requires
        operation is Create || !(trial.kind is Node),
        log.len() == (if operation is Update || operation is Delete {
            2int
        } else {
            1
        }),
        !(log[0] is Failed),
    ensures
        match effect_step(operation, trial, log) {
            StepView::Ask(request) => is_attempt(operation, trial, log, request),
            _ => false,
        },
{
}

/// What comes first: the first tenant creates the object, or looks for a node.
pub proof fn the_first_tenant_sets_up(
    operation: ControlPlaneOperation,
    trial: TrialView,
    log: Seq<ReplyView>,
)
    requires
        log.len() == 0,
    ensures
        match effect_step(operation, trial, log) {
            StepView::Ask(RequestView::Create { tenant, object, namespace }) => {
                &&& operation is Create || !(trial.kind is Node)
                &&& tenant == Tenant::First
                &&& object.name == trial.name
                &&& object.kind == trial.kind.kind_name()
                &&& object.api_version == trial.kind.api_name()
                &&& namespace == place(trial)
            },
            StepView::Ask(RequestView::FindExisting { tenant }) => {
                &&& trial.kind is Node && !(operation is Create)
                &&& tenant == Tenant::First
            },
            _ => false,
        },
{
}

/// Nothing else is touched: every request is about the one object, but for the
/// claim that a stateful set of that name leaves behind, and for the search and
/// the question that come before a node is tried.
pub proof fn every_request_is_about_the_object(
    operation: ControlPlaneOperation,
    trial: TrialView,
    log: Seq<ReplyView>,
    request: RequestView,
)
    requires
        effect_step(operation, trial, log) == StepView::<CrossTenantView>::Ask(request),
    ensures
        match request {
            RequestView::DeleteClaim { tenant, name, within } => {
                &&& trial.kind is StatefulSet
                &&& tenant == Tenant::First
                &&& name == trial.name + "-"@ + trial.name + "-0"@
                &&& within == trial.namespace
            },
            RequestView::FindExisting { .. } => trial.kind is Node && log.len() == 0,
            RequestView::MayDelete { plural, .. } => {
                &&& trial.kind is Node && operation is Delete
                &&& plural == trial.kind.plural_name()
            },
            _ => is_about(request, subject(operation, trial, log), place(trial)),
        },
{
    if trial.kind is StatefulSet {
        assert(trial.cleanup()[1] == trial.claims()[0]);
    }
}

/// No breach without an intruder: where a cross-tenant experiment finds no
/// isolation, the second tenant attempted the operation on the first tenant's
/// object and the attempt went through.
pub proof fn a_breach_takes_a_successful_attempt(
    operation: ControlPlaneOperation,
    trial: TrialView,
    log: Seq<ReplyView>,
)
    requires
        effect_step(operation, trial, log) is Done,
        effect_step(operation, trial, log)->Done_0.isolation is NoIsolation,
    ensures
        exists|i: int| attempt_succeeded(operation, trial, log, i),
{
    assert forall|i: int, k: int| 0 <= k < i <= log.len() implies #[trigger] log.take(i)[k]
        == log[k] by {}
    an_error_is_soft_or_hard(log[1].message());
    an_error_is_soft_or_hard(log[2].message());
    assert(log.len() > 0) by {
        if log.len() == 0 {
            assert(effect_step(operation, trial, log) is Ask);
        }
    }
    let at: int = if operation is Update || operation is Delete || (operation is List
        && trial.kind is Node) {
        2
    } else {
        1
    };
    assert(attempt_succeeded(operation, trial, log, at));
}


/// A merge patch that gives the label `key` the value `value`.
pub open spec fn sets_label(patch: JsonView, key: Seq<char>, value: JsonView) -> bool {
    match patch.field("metadata"@) {
        Some(metadata) => match metadata.field("labels"@) {
            Some(labels) => labels.field(key) == Some(value),
            None => false,
        },
        None => false,
    }
}

/// The reply shows an object whose label `key` is `value`.
pub open spec fn shows_label(reply: ReplyView, key: Seq<char>, value: Seq<char>) -> bool {
    match reply {
        ReplyView::Object(object) => match object.labels {
            Some(labels) => value_of(labels, key) == Some(value),
            None => false,
        },
        _ => false,
    }
}

/// The UPDATE experiment looks for its own trace. Its attempt sets a label;
/// the breach is reported exactly where the first tenant reads the object
/// afterwards and finds that label with the attempted value. An object of the
/// experiment's own starts out with another value there.
pub proof fn an_update_breach_is_the_attempted_change(trial: TrialView, log: Seq<ReplyView>)
    requires
        effect_step(ControlPlaneOperation::Update, trial, log) is Done,
        log.len() >= 3,
        !(log[0] is Failed),
        trial.kind is Node ==> log[0] is Name,
        !(log[2] is Failed),
    ensures
        log.len() >= 4,
        match effect_step(ControlPlaneOperation::Update, trial, log.take(3)) {
            StepView::Ask(request) => request == (RequestView::Get {
                tenant: Tenant::First,
                name: subject(ControlPlaneOperation::Update, trial, log),
                namespace: place(trial),
            }),
            _ => false,
        },
        match effect_step(ControlPlaneOperation::Update, trial, log.take(2)) {
            StepView::Ask(RequestView::Patch { patch, .. }) => {
                &&& (effect_step(
                    ControlPlaneOperation::Update,
                    trial,
                    log,
                )->Done_0.isolation is NoIsolation) <==> exists|key: Seq<char>, value: Seq<char>|
                    sets_label(patch, key, JsonView::Text(value)) && #[trigger] shows_label(
                        log[3],
                        key,
                        value,
                    )
                &&& match effect_step(ControlPlaneOperation::Update, trial, log.take(0)) {
                    StepView::Ask(RequestView::Create { object, .. }) => exists|
                        key: Seq<char>,
                        value: Seq<char>,
                    |
                        #[trigger] sets_label(patch, key, JsonView::Text(value)) && match value_of(
                            object.labels,
                            key,
                        ) {
                            Some(original) => original != value,
                            None => false,
                        },
                    _ => trial.kind is Node,
                }
            },
            _ => false,
        },
{
    reveal_strlit("metadata");
    reveal_strlit("labels");
    reveal_strlit("tenant2-modified");
    reveal_strlit("tenant1-original");
    assert("tenant2-modified"@[6] == '2');
    assert("tenant1-original"@[6] == '1');
    let operation = ControlPlaneOperation::Update;
    assert forall|i: int, k: int| 0 <= k < i <= log.len() implies #[trigger] log.take(i)[k]
        == log[k] by {}
    if log.len() == 3 {
        assert(effect_step(operation, trial, log) is Ask);
    }
    if trial.kind is Node {
        let key = "kumuteva-update-test"@;
        let value = "tenant2-attempted-modification"@;
        if effect_step(operation, trial, log)->Done_0.isolation is NoIsolation {
            assert(shows_label(log[3], key, value));
        }
    } else {
        let key = marker_label();
        let value = "tenant2-modified"@;
        if effect_step(operation, trial, log)->Done_0.isolation is NoIsolation {
            assert(shows_label(log[3], key, value));
        }
        match effect_step(operation, trial, log.take(0)) {
            StepView::Ask(RequestView::Create { object, .. }) => {
                assert(object.labels.last() == (key, "tenant1-original"@));
                assert(value_of(object.labels, key) == Some("tenant1-original"@));
            },
            _ => {},
        }
        assert(sets_label(
            effect_step(operation, trial, log.take(2))->Ask_0->Patch_patch,
            key,
            JsonView::Text(value),
        ));
    }
}

/// What a list of labels becomes in a patch: each label with its value.
proof fn labels_json_keeps_labels(labels: Seq<(Seq<char>, Seq<char>)>, key: Seq<char>)
    ensures
        labels_json(labels) is Object,
        match value_of(labels, key) {
            Some(value) => labels_json(labels).field(key) == Some(JsonView::Text(value)),
            None => labels_json(labels).field(key) is None,
        },
    decreases labels.len(),
{
    if labels.len() > 0 {
        labels_json_keeps_labels(labels.drop_last(), key);
    }
}

/// A node that the second tenant could change is put back: the first tenant
/// patches it once more, and that patch gives every label that the node had
/// before its old value; where it had none, the attempted label is taken away.
pub proof fn a_changed_node_is_put_back(trial: TrialView, log: Seq<ReplyView>)
    requires
        trial.kind is Node,
        effect_step(ControlPlaneOperation::Update, trial, log) is Done,
        effect_step(
            ControlPlaneOperation::Update,
            trial,
            log,
        )->Done_0.isolation is NoIsolation,
    ensures
        log.len() >= 5,
        effect_step(ControlPlaneOperation::Update, trial, log.take(1)) == StepView::<
            CrossTenantView,
        >::Ask(
            RequestView::Get {
                tenant: Tenant::First,
                name: subject(ControlPlaneOperation::Update, trial, log),
                namespace: None,
            },
        ),
        match effect_step(ControlPlaneOperation::Update, trial, log.take(4)) {
            StepView::Ask(RequestView::Patch { tenant, name, patch, namespace }) => {
                &&& tenant == Tenant::First
                &&& name == subject(ControlPlaneOperation::Update, trial, log)
                &&& namespace is None
                &&& match log[1] {
                    ReplyView::Object(ObservedView { labels: Some(labels), .. }) => forall|
                        key: Seq<char>,
                    |
                        match #[trigger] value_of(labels, key) {
                            Some(value) => sets_label(patch, key, JsonView::Text(value)),
                            None => true,
                        },
                    _ => match effect_step(ControlPlaneOperation::Update, trial, log.take(2)) {
                        StepView::Ask(RequestView::Patch { patch: attempted, .. }) => exists|
                            key: Seq<char>,
                            value: Seq<char>,
                        |
                            sets_label(attempted, key, JsonView::Text(value)) && sets_label(
                                patch,
                                key,
                                JsonView::Null,
                            ) && #[trigger] shows_label(log[3], key, value),
                        _ => false,
                    },
                }
            },
            _ => false,
        },
{
    reveal_strlit("metadata");
    reveal_strlit("labels");
    let operation = ControlPlaneOperation::Update;
    assert forall|i: int, k: int| 0 <= k < i <= log.len() implies #[trigger] log.take(i)[k]
        == log[k] by {}
    an_error_is_soft_or_hard(log[2].message());
    assert(log.len() > 0) by {
        if log.len() == 0 {
            assert(effect_step(operation, trial, log) is Ask);
        }
    }
    assert(log.len() >= 5);
    assert(shows_label(log[3], "kumuteva-update-test"@, "tenant2-attempted-modification"@));
    match log[1] {
        ReplyView::Object(ObservedView { labels: Some(labels), .. }) => {
            assert forall|key: Seq<char>| (#[trigger] value_of(labels, key)) is Some implies
                sets_label(
                revert_patch(log[1]),
                key,
                JsonView::Text(value_of(labels, key)->0),
            ) by {
                labels_json_keeps_labels(labels, key);
            }
        },
        _ => {},
    }
}

/// The CREATE experiment looks for its own trace: each creation annotates the
/// object with its creator under one key, the two creators differ, and the
/// breach is reported exactly where the first tenant reads the object
/// afterwards and finds the second's annotation on it.
pub proof fn a_create_breach_is_the_attempted_object(trial: TrialView, log: Seq<ReplyView>)
    requires
        effect_step(ControlPlaneOperation::Create, trial, log) is Done,
        log.len() >= 2,
        !(log[0] is Failed),
        !(log[1] is Failed),
    ensures
        log.len() >= 3,
        effect_step(ControlPlaneOperation::Create, trial, log.take(2)) == StepView::<
            CrossTenantView,
        >::Ask(
            RequestView::Get { tenant: Tenant::First, name: trial.name, namespace: place(trial) },
        ),
        match (
            effect_step(ControlPlaneOperation::Create, trial, log.take(0)),
            effect_step(ControlPlaneOperation::Create, trial, log.take(1)),
        ) {
            (
                StepView::Ask(RequestView::Create { object: mine, .. }),
                StepView::Ask(RequestView::Create { object: theirs, .. }),
            ) => {
                &&& mine.data == theirs.data
                &&& mine.annotations.len() == 1
                &&& theirs.annotations.len() == 1
                &&& mine.annotations[0].0 == theirs.annotations[0].0
                &&& mine.annotations[0].1 != theirs.annotations[0].1
                &&& (effect_step(
                    ControlPlaneOperation::Create,
                    trial,
                    log,
                )->Done_0.isolation is NoIsolation) <==> match log[2] {
                    ReplyView::Object(ObservedView { annotations: Some(annotations), .. }) =>
                        value_of(annotations, theirs.annotations[0].0)
                            == Some(theirs.annotations[0].1),
                    _ => false,
                }
                &&& (effect_step(
                    ControlPlaneOperation::Create,
                    trial,
                    log,
                )->Done_0.isolation is Unknown) <==> !(log[2] is Object)
            },
            _ => false,
        },
{
    reveal_strlit("tenant1");
    reveal_strlit("tenant2");
    assert("tenant1"@[6] == '1');
    assert("tenant2"@[6] == '2');
    let operation = ControlPlaneOperation::Create;
    assert forall|i: int, k: int| 0 <= k < i <= log.len() implies #[trigger] log.take(i)[k]
        == log[k] by {}
    if log.len() == 2 {
        assert(effect_step(operation, trial, log) is Ask);
    }
}


/// The names in a list, as a set.
proof fn name_set_is_the_names(items: Seq<ObservedView>, name: Seq<char>)
    ensures
        name_set(items).contains(name) <==> exists|i: int|
            0 <= i < items.len() && (#[trigger] items[i]).name == Some(name),
        name_set(items).finite(),
    decreases items.len(),
{
    if items.len() > 0 {
        let rest = items.drop_last();
        name_set_is_the_names(rest, name);
        if exists|i: int| 0 <= i < rest.len() && (#[trigger] rest[i]).name == Some(name) {
            let i = choose|i: int| 0 <= i < rest.len() && (#[trigger] rest[i]).name == Some(name);
            assert(items[i].name == Some(name));
        }
        if exists|i: int| 0 <= i < items.len() && (#[trigger] items[i]).name == Some(name) {
            let i = choose|i: int|
                0 <= i < items.len() && (#[trigger] items[i]).name == Some(name);
            if i < rest.len() {
                assert(rest[i].name == Some(name));
            }
        }
        assert(items[items.len() - 1] == items.last());
    }
}

/// Two tenants' lists of nodes: shared where both were answered, both show the
/// same names and show at least one; apart where they show different names or
/// only the second tenant was refused; undecided where the first was refused
/// or nobody saw anything.
pub proof fn node_lists_are_told_apart_by_their_names(trial: TrialView, log: Seq<ReplyView>)
    requires
        trial.kind is Node,
        effect_step(ControlPlaneOperation::List, trial, log) is Done,
    ensures
        log.len() >= 3,
        effect_step(ControlPlaneOperation::List, trial, log.take(1)) == StepView::<
            CrossTenantView,
        >::Ask(RequestView::List { tenant: Tenant::First, namespace: None }),
        effect_step(ControlPlaneOperation::List, trial, log.take(2)) == StepView::<
            CrossTenantView,
        >::Ask(RequestView::List { tenant: Tenant::Second, namespace: None }),
        ({
            let result = effect_step(ControlPlaneOperation::List, trial, log)->Done_0;
            let same = forall|name: Seq<char>|
                lists(log[1].items(), name) <==> #[trigger] lists(log[2].items(), name);
            let some = (exists|name: Seq<char>| lists(log[1].items(), name)) || exists|
                name: Seq<char>,
            |
                lists(log[2].items(), name);
            let answered = !(log[1] is Failed) && !(log[2] is Failed);
            &&& result.autonomy == !(log[1] is Failed)
            &&& result.isolation is NoIsolation <==> answered && same && some
            &&& result.isolation is Unknown <==> log[1] is Failed || (answered && !some)
            &&& result.isolation is Hard <==> !(log[1] is Failed) && (log[2] is Failed || !same)
        }),
{
    let operation = ControlPlaneOperation::List;
    assert forall|i: int, k: int| 0 <= k < i <= log.len() implies #[trigger] log.take(i)[k]
        == log[k] by {}
    if log.len() < 3 {
        assert(effect_step(operation, trial, log) is Ask);
    }
    let (mine, theirs) = (log[1].items(), log[2].items());
    assert forall|name: Seq<char>| #[trigger]
        name_set(mine).contains(name) <==> lists(mine, name) by {
        name_set_is_the_names(mine, name);
    }
    assert forall|name: Seq<char>| #[trigger]
        name_set(theirs).contains(name) <==> lists(theirs, name) by {
        name_set_is_the_names(theirs, name);
    }
    name_set_is_the_names(mine, Seq::empty());
    name_set_is_the_names(theirs, Seq::empty());
    let same = forall|name: Seq<char>| lists(mine, name) <==> #[trigger] lists(theirs, name);
    if same {
        assert(name_set(mine) =~= name_set(theirs));
    }
    assert forall|name: Seq<char>|
        name_set(mine) == name_set(theirs) implies (lists(mine, name) <==> #[trigger] lists(
        theirs,
        name,
    )) by {
        assert(name_set(mine).contains(name) == name_set(theirs).contains(name)
            || name_set(mine) != name_set(theirs));
        name_set_is_the_names(mine, name);
        name_set_is_the_names(theirs, name);
    }
    if name_set(mine).len() == 0 && name_set(theirs).len() == 0 {
        assert(name_set(mine) =~= Set::empty());
        assert(name_set(theirs) =~= Set::empty());
        assert(same);
        assert forall|name: Seq<char>| !lists(mine, name) by {
            name_set_is_the_names(mine, name);
        }
        assert forall|name: Seq<char>| !lists(theirs, name) by {
            name_set_is_the_names(theirs, name);
        }
    }
    if name_set(mine).len() > 0 {
        let name = name_set(mine).choose();
        assert(name_set(mine).contains(name));
        assert(lists(mine, name));
    }
    if name_set(theirs).len() > 0 {
        let name = name_set(theirs).choose();
        assert(name_set(theirs).contains(name));
        assert(lists(theirs, name));
    }
    let result = both_lists_verdict(trial.kind, log[1], log[2]);
    assert(effect_step(operation, trial, log)->Done_0 == result);
    let answered = !(log[1] is Failed) && !(log[2] is Failed);
    assert(name_set(mine) == name_set(theirs) <==> same);
    let some = (exists|name: Seq<char>| lists(mine, name)) || exists|name: Seq<char>|
        lists(theirs, name);
    assert(some <==> name_set(mine).len() > 0 || name_set(theirs).len() > 0);
    assert(result.isolation is NoIsolation ==> some);
    assert(answered && same && some ==> result.isolation is NoIsolation);
    assert(result.isolation is Unknown <==> log[1] is Failed || (answered && !some));
    assert(result.isolation is Hard <==> !(log[1] is Failed) && (log[2] is Failed || !same));
}

/// What the other experiments on nodes find. A node was read across tenants
/// where both tenants get an object of the name asked for, with the same
/// metadata. It is deleted by the second tenant only where that tenant said it
/// may, and was where it is seen to be gone afterwards.
pub proof fn node_breaches_are_seen(
    operation: ControlPlaneOperation,
    trial: TrialView,
    log: Seq<ReplyView>,
)
    requires
        trial.kind is Node,
        effect_step(operation, trial, log) is Done,
    ensures
        operation is Get ==> {
            &&& effect_step(operation, trial, log)->Done_0.isolation is NoIsolation <==> {
                &&& log.len() >= 3
                &&& log[0] is Name
                &&& match (log[1], log[2]) {
                    (ReplyView::Object(theirs), ReplyView::Object(mine)) => {
                        &&& theirs.name == Some(log[0]->Name_0)
                        &&& mine.metadata == theirs.metadata
                    },
                    _ => false,
                }
            }
            &&& log.len() >= 2 && log[1] is Object && log[1]->Object_0.name == Some(
                log[0]->Name_0,
            ) ==> effect_step(operation, trial, log.take(2)) == StepView::<CrossTenantView>::Ask(
                RequestView::Get {
                    tenant: Tenant::First,
                    name: log[0]->Name_0,
                    namespace: None,
                },
            ) || !(log[0] is Name)
        },
        operation is Delete ==> {
            &&& effect_step(operation, trial, log)->Done_0.isolation is NoIsolation <==> {
                &&& log.len() >= 4
                &&& log[0] is Name
                &&& log[1] == ReplyView::Answer(true)
                &&& !(log[2] is Failed)
                &&& log[3] == ReplyView::Answer(false)
            }
            &&& log.len() >= 3 && log[0] is Name && log[1] == ReplyView::Answer(true) && !(
            log[2] is Failed) ==> effect_step(operation, trial, log.take(3)) == StepView::<
                CrossTenantView,
            >::Ask(
                RequestView::Exists {
                    tenant: Tenant::First,
                    name: log[0]->Name_0,
                    namespace: None,
                },
            )
            &&& log.len() >= 2 && log[0] is Name ==> effect_step(operation, trial, log.take(1))
                == StepView::<CrossTenantView>::Ask(
                RequestView::MayDelete {
                    tenant: Tenant::Second,
                    plural: trial.kind.plural_name(),
                },
            )
            &&& log[0] is Name && !(log[1] == ReplyView::Answer(true)) ==> forall|i: int|
                0 <= i < log.len() ==> !((#[trigger] effect_step(
                    operation,
                    trial,
                    log.take(i),
                )->Ask_0) is Delete) || !(effect_step(operation, trial, log.take(i)) is Ask)
        },
{
    assert forall|i: int, k: int| 0 <= k < i <= log.len() implies #[trigger] log.take(i)[k]
        == log[k] by {}
    an_error_is_soft_or_hard(log[1].message());
    an_error_is_soft_or_hard(log[2].message());
    assert(log.len() > 0) by {
        if log.len() == 0 {
            assert(effect_step(operation, trial, log) is Ask);
        }
    }
}

/// Refusals of the second tenant's attempt on a node are judged by their error
/// alone, as those on an object of the experiment's own are.
pub proof fn a_refused_attempt_on_a_node_is_judged_by_its_error(
    operation: ControlPlaneOperation,
    trial: TrialView,
    log: Seq<ReplyView>,
    i: int,
)
    requires
        trial.kind is Node,
        !(operation is List),
        effect_step(operation, trial, log) is Done,
        0 <= i < log.len(),
        log[i] is Failed,
        effect_step(operation, trial, log.take(i)) is Ask,
        is_attempt(operation, trial, log, effect_step(operation, trial, log.take(i))->Ask_0),
    ensures
        effect_step(operation, trial, log)->Done_0.isolation == inferred_isolation(
            log[i].message(),
        ),
        effect_step(operation, trial, log)->Done_0.autonomy,
{
    assert forall|i: int, k: int| 0 <= k < i <= log.len() implies #[trigger] log.take(i)[k]
        == log[k] by {}
}

/// An attempt that nothing refused and that reached nothing: reading and
/// listing are then fully isolated, and so is creating where the first tenant
/// still reads an object; a change or a deletion without effect counts as
/// refused softly.
pub proof fn an_attempt_without_effect(
    operation: ControlPlaneOperation,
    trial: TrialView,
    log: Seq<ReplyView>,
)
    requires
        operation is Create || !(trial.kind is Node),
        effect_step(operation, trial, log) is Done,
        !(log[0] is Failed),
        !(log[if operation is Update || operation is Delete {
            2int
        } else {
            1
        }] is Failed),
        !(effect_step(operation, trial, log)->Done_0.isolation is NoIsolation),
    ensures
        match operation {
            ControlPlaneOperation::Create => (effect_step(
                operation,
                trial,
                log,
            )->Done_0.isolation is Hard) == (log[2] is Object),
            ControlPlaneOperation::Get | ControlPlaneOperation::List => effect_step(
                operation,
                trial,
                log,
            )->Done_0.isolation is Hard,
            _ => effect_step(operation, trial, log)->Done_0.isolation is Soft,
        },
{
    assert(log.len() > 0) by {
        if log.len() == 0 {
            assert(effect_step(operation, trial, log) is Ask);
        }
    }
}

/// The second tenant is said to be autonomous where its attempt could be made
/// at all: the object was there to be tried (and for a deletion of a node, the
/// tenant may), and after a creation it could still be read.
pub proof fn autonomy_takes_an_object_to_try(
    operation: ControlPlaneOperation,
    trial: TrialView,
    log: Seq<ReplyView>,
)
    requires
        effect_step(operation, trial, log) is Done,
        !(operation is List && trial.kind is Node),
    ensures
        effect_step(operation, trial, log)->Done_0.autonomy <==> {
            if operation is Create {
                !(log[0] is Failed) && (log[1] is Failed || log[2] is Object)
            } else if trial.kind is Node {
                log[0] is Name && (operation is Delete ==> log[1] == ReplyView::Answer(true))
            } else {
                !(log[0] is Failed)
            }
        },
{
    assert(log.len() > 0) by {
        if log.len() == 0 {
            assert(effect_step(operation, trial, log) is Ask);
        }
    }
}

/// What a cross-tenant experiment tells names the kind of object it tried.
pub proof fn the_details_name_the_kind(
    operation: ControlPlaneOperation,
    trial: TrialView,
    log: Seq<ReplyView>,
)
    requires
        effect_step(operation, trial, log) is Done,
    ensures
        has_text(
            effect_step(operation, trial, log)->Done_0.details,
            trial.kind.kind_name(),
        ),
{
    sums_hold_their_parts(trial.kind.kind_name());
}


/// The reply gives the request what it asked for: a read the object of the
/// name that was asked for (some proxies answer with an empty object instead),
/// anything else no failure.
pub open spec fn grants(request: RequestView, reply: ReplyView) -> bool {
    match request {
        RequestView::Get { name, .. } => match reply {
            ReplyView::Object(object) => object.name == Some(name),
            _ => false,
        },
        _ => !(reply is Failed),
    }
}

/// An autonomy experiment tries the operation with the request that `log[i]`
/// answers, for the first time in its run.
pub open spec fn first_try(
    operation: ControlPlaneOperation,
    trial: TrialView,
    log: Seq<ReplyView>,
    i: int,
) -> bool {
    &&& 0 <= i < log.len()
    &&& tries(operation, trial, log.take(i))
    &&& forall|j: int| 0 <= j < i ==> !tries(operation, trial, #[trigger] log.take(j))
}

/// The next request of an autonomy experiment is the operation under test.
pub open spec fn tries(
    operation: ControlPlaneOperation,
    trial: TrialView,
    log: Seq<ReplyView>,
) -> bool {
    match autonomy_step(operation, trial, log) {
        StepView::Ask(request) => performs(operation, request),
        _ => false,
    }
}

/// Autonomy is what the tenant was seen to be able to do: an autonomy
/// experiment answers yes exactly where it tried the operation and its first
/// try was granted. A read is granted by an object with the name that this
/// very read asked for, whether that is the experiment's own object, one from
/// a list or a node that was found.
pub proof fn autonomy_is_a_granted_try(
    operation: ControlPlaneOperation,
    trial: TrialView,
    log: Seq<ReplyView>,
)
    ensures
        match autonomy_step(operation, trial, log) {
            StepView::Done(answer) => answer <==> exists|i: int|
                #[trigger] first_try(operation, trial, log, i) && grants(
                    autonomy_step(operation, trial, log.take(i))->Ask_0,
                    log[i],
                ),
            StepView::Ask(_) => true,
            StepView::Abort(_) => false,
        },
{
    assert forall|i: int, k: int| 0 <= k < i <= log.len() implies #[trigger] log.take(i)[k]
        == log[k] by {}
    assert forall|i: int, n: int, k: int|
        0 <= n && 0 <= k < i - n && i <= log.len() implies #[trigger] log.take(i).skip(n)[k]
        == log[n + k] by {}
    assert forall|n: int, k: int| 0 <= n && 0 <= k < log.len() - n implies #[trigger] log.skip(
        n,
    )[k] == log[n + k] by {}
    if autonomy_step(operation, trial, log) is Done {
        assert(log.len() > 0) by {
            if log.len() == 0 {
                assert(autonomy_step(operation, trial, log) is Ask);
            }
        }
        let at = try_index(operation, trial, log);
        if at < log.len() {
            assert forall|j: int| 0 <= j < at implies !tries(
                operation,
                trial,
                #[trigger] log.take(j),
            ) by {}
        }
        assert forall|i: int| #[trigger] first_try(operation, trial, log, i) implies i == at by {
            if i < at {
                assert(!tries(operation, trial, log.take(i)));
            }
            if at < i {
                assert(log.take(i).take(at) =~= log.take(at));
                assert(tries(operation, trial, log.take(at)));
            }
        }
        if autonomy_step(operation, trial, log)->Done_0 {
            assert(first_try(operation, trial, log, at));
        }
    }
}

/// Where an autonomy experiment tries the operation, if it does.
spec fn try_index(
    operation: ControlPlaneOperation,
    trial: TrialView,
    log: Seq<ReplyView>,
) -> int {
    match operation {
        ControlPlaneOperation::Create => 0,
        ControlPlaneOperation::List => 0,
        ControlPlaneOperation::Delete => 2,
        ControlPlaneOperation::Get => if trial.kind is Node || !(log[0] is Failed) {
            1
        } else {
            2
        },
        ControlPlaneOperation::Update => if trial.kind is Node {
            1
        } else {
            2
        },
    }
}


/// The object that an autonomy experiment reads or changes: its own where it
/// could create one; else the first one in the list that it asked for next, and
/// a read of its own object where that list has none. For nodes, the one that
/// was found.
pub open spec fn tried_object(trial: TrialView, log: Seq<ReplyView>) -> Seq<char> {
    if trial.kind is Node {
        log[0]->Name_0
    } else if !(log[0] is Failed) {
        trial.name
    } else {
        match log[1] {
            ReplyView::Items(items) => match items[0].name {
                Some(name) if items.len() > 0 => name,
                _ => trial.name,
            },
            _ => trial.name,
        }
    }
}

/// What an autonomy experiment asks for concerns the object that it created or
/// borrowed, in its place; it creates and deletes only its own, and looks for
/// another only where it could not create that one.
pub proof fn autonomy_requests_are_about_the_object(
    operation: ControlPlaneOperation,
    trial: TrialView,
    log: Seq<ReplyView>,
    request: RequestView,
)
    requires
        autonomy_step(operation, trial, log) == StepView::<bool>::Ask(request),
    ensures
        match request {
            RequestView::Create { object, .. } => {
                &&& log.len() == 0
                &&& object.kind == trial.kind.kind_name()
                &&& object.api_version == trial.kind.api_name()
                &&& is_about(request, trial.name, place(trial))
            },
            RequestView::Get { .. } => {
                &&& operation is Get
                &&& trial.kind is Node ==> log[0] is Name
                &&& is_about(request, tried_object(trial, log), place(trial))
            },
            RequestView::Patch { .. } => {
                &&& operation is Update
                &&& trial.kind is Node ==> log[0] is Name
                &&& !(trial.kind is Node) && log[0] is Failed ==> log[1].items().len() > 0
                    && log[1].items()[0].name is Some
                &&& is_about(request, tried_object(trial, log), place(trial))
            },
            RequestView::List { namespace, .. } => {
                &&& namespace == place(trial)
                &&& operation is List || (log.len() == 1 && log[0] is Failed)
            },
            RequestView::Delete { .. } => is_about(request, trial.name, place(trial)),
            RequestView::AwaitCreation { .. } => is_about(request, trial.name, place(trial)),
            RequestView::DeleteClaim { name, within, .. } => {
                &&& trial.kind is StatefulSet
                &&& name == trial.name + "-"@ + trial.name + "-0"@
                &&& within == trial.namespace
            },
            RequestView::FindExisting { .. } => log.len() == 0 && trial.kind is Node,
            _ => false,
        },
{
    if trial.kind is StatefulSet {
        assert(trial.cleanup()[1] == trial.claims()[0]);
    }
}

/// The read is the only one of its run.
pub proof fn autonomy_reads_once(trial: TrialView, log: Seq<ReplyView>, i: int, j: int)
    requires
        0 <= i <= log.len(),
        0 <= j <= log.len(),
        tries(ControlPlaneOperation::Get, trial, log.take(i)),
        tries(ControlPlaneOperation::Get, trial, log.take(j)),
    ensures
        i == j,
{
    assert forall|i: int, k: int| 0 <= k < i <= log.len() implies #[trigger] log.take(i)[k]
        == log[k] by {}
}

/// A borrowed object is given back unchanged: where an autonomy experiment set
/// a label on an object that is not its own and that went through, it next
/// takes the same label off the same object.
pub proof fn a_borrowed_object_is_put_back(trial: TrialView, log: Seq<ReplyView>)
    requires
        log.len() > 0,
        !(log[log.len() - 1] is Failed),
        trial.kind is Node || log[0] is Failed,
        first_try(ControlPlaneOperation::Update, trial, log, log.len() - 1),
    ensures
        match (
            autonomy_step(ControlPlaneOperation::Update, trial, log.drop_last()),
            autonomy_step(ControlPlaneOperation::Update, trial, log),
        ) {
            (
                StepView::Ask(RequestView::Patch { name, patch, namespace, .. }),
                StepView::Ask(
                    RequestView::Patch { name: again, patch: undo, namespace: there, .. },
                ),
            ) => {
                &&& again == name
                &&& there == namespace
                &&& exists|key: Seq<char>, value: Seq<char>| #[trigger]
                    sets_label(patch, key, JsonView::Text(value)) && sets_label(
                        undo,
                        key,
                        JsonView::Null,
                    )
            },
            _ => false,
        },
{
    reveal_strlit("metadata");
    reveal_strlit("labels");
    let operation = ControlPlaneOperation::Update;
    let at: int = log.len() - 1;
    assert(log.drop_last() =~= log.take(at));
    assert forall|i: int, k: int| 0 <= k < i <= log.len() implies #[trigger] log.take(i)[k]
        == log[k] by {}
    assert(at == try_index(operation, trial, log)) by {
        if trial.kind is Node {
            if at > 1 {
                assert(tries(operation, trial, log.take(1)));
            }
        } else if at > 2 {
            assert(tries(operation, trial, log.take(2)));
        }
    }
    let patch = autonomy_step(operation, trial, log.drop_last())->Ask_0->Patch_patch;
    if trial.kind is Node {
        assert(sets_label(patch, "kumuteva-autonomy-test"@, JsonView::Text("update-test"@)));
    } else {
        assert(sets_label(patch, "kumuteva-autonomy-update-test"@, JsonView::Text("true"@)));
    }
}


/// A refusal is passed on in its own words: where the second tenant's attempt to
/// create or to change failed, or any attempt on a node that was found, what the
/// experiment tells holds the error of that very attempt.
pub proof fn a_refused_attempt_is_told_with_its_error(
    operation: ControlPlaneOperation,
    trial: TrialView,
    log: Seq<ReplyView>,
    i: int,
)
    requires
        effect_step(operation, trial, log) is Done,
        0 <= i < log.len(),
        log[i] is Failed,
        effect_step(operation, trial, log.take(i)) is Ask,
        is_attempt(operation, trial, log, effect_step(operation, trial, log.take(i))->Ask_0),
        operation is Create || operation is Update || (trial.kind is Node && !(operation is List)),
    ensures
        has_text(effect_step(operation, trial, log)->Done_0.details, log[i].message()),
{
    assert forall|i: int, k: int| 0 <= k < i <= log.len() implies #[trigger] log.take(i)[k]
        == log[k] by {}
    sums_hold_their_parts(log[i].message());
}

/// A set-up that failed is told with its own error: as the reason of a soft
/// verdict, or for a node in what is told.
pub proof fn a_failed_setup_is_told_with_its_error(
    operation: ControlPlaneOperation,
    trial: TrialView,
    log: Seq<ReplyView>,
)
    requires
        !(operation is Create),
        !(operation is List && trial.kind is Node),
        log.len() > 0,
        log[0] is Failed,
    ensures
        match effect_step(operation, trial, log) {
            StepView::Done(result) => if trial.kind is Node {
                result.isolation is Unknown && has_text(result.details, log[0].message())
            } else {
                result.isolation == IsolationView::Soft(
                    "Could not create test object: "@ + log[0].message(),
                )
            },
            _ => false,
        },
{
    sums_hold_their_parts(log[0].message());
}

/// What could not be verified is told with the error of the look that failed,
/// and a label that is neither the old value nor the new one is told as it is.
pub proof fn an_unverified_update_is_told_as_it_is(trial: TrialView, log: Seq<ReplyView>)
    requires
        !(trial.kind is Node),
        effect_step(ControlPlaneOperation::Update, trial, log) is Done,
        log.len() >= 4,
        !(log[0] is Failed),
        !(log[2] is Failed),
        !(effect_step(
            ControlPlaneOperation::Update,
            trial,
            log,
        )->Done_0.isolation is NoIsolation),
    ensures
        match effect_step(ControlPlaneOperation::Update, trial, log)->Done_0.isolation {
            IsolationView::Soft(reason) => if log[3] is Failed {
                reason == "Could not verify: "@ + log[3].message()
            } else if shows_label(log[3], "update-test-marker"@, "tenant1-original"@) {
                reason == "Update succeeded but did not modify resource"@
            } else {
                has_text(
                    reason,
                    debug_option(
                        match log[3] {
                            ReplyView::Object(object) => object.label("update-test-marker"@),
                            _ => None,
                        },
                    ),
                )
            },
            _ => false,
        },
{
    sums_hold_their_parts(debug_option(log[3].label("update-test-marker"@)));
}

/// Of several labels or annotations with one name the last one counts, and one
/// does not touch another.
pub proof fn the_last_value_counts(
    pairs: Seq<(Seq<char>, Seq<char>)>,
    key: Seq<char>,
    value: Seq<char>,
    other: Seq<char>,
)
    ensures
        value_of(pairs.push((key, value)), key) == Some(value),
        other != key ==> value_of(pairs.push((key, value)), other) == value_of(pairs, other),
        value_of(seq![], key) is None,
{
    assert(pairs.push((key, value)).drop_last() =~= pairs);
    assert(pairs.push((key, value)).last() == (key, value));
}


/// The object says of itself what the request says of it: its kind and version,
/// its name, and its namespace where it is in one.
pub open spec fn says_what_is_asked(
    object: DynamicObjectView,
    namespace: Option<Seq<char>>,
) -> bool {
    &&& object.data.field("apiVersion"@) == Some(JsonView::Text(object.api_version))
    &&& object.data.field("kind"@) == Some(JsonView::Text(object.kind))
    &&& match object.data.field("metadata"@) {
        Some(metadata) => {
            &&& metadata.field("name"@) == Some(JsonView::Text(object.name))
            &&& metadata.field("namespace"@) == (match namespace {
                Some(namespace) => Some(JsonView::Text(namespace)),
                None => None,
            })
        },
        None => false,
    }
}

/// What an experiment creates is what it asks for: the manifest of every object
/// that is sent names the kind, the name and the place under which the request
/// sends it.
pub proof fn every_created_object_says_what_it_is(
    operation: ControlPlaneOperation,
    trial: TrialView,
    log: Seq<ReplyView>,
)
    ensures
        match effect_step(operation, trial, log) {
            StepView::Ask(RequestView::Create { object, namespace, .. }) => says_what_is_asked(
                object,
                namespace,
            ),
            _ => true,
        },
        match autonomy_step(operation, trial, log) {
            StepView::Ask(RequestView::Create { object, namespace, .. }) => says_what_is_asked(
                object,
                namespace,
            ),
            _ => true,
        },
{
    a_minimal_object_says_what_it_is(trial.kind, trial.name, trial.namespace);
}

}
