//! The cross-tenant experiments: the first tenant owns an object, the second
//! tries to create over it, read it, list it, change it or delete it.

use super::errors::{infer_isolation_from_error, inferred_isolation};
use super::experiment::{
    chores_then, is_valid_get_result, label_patch, label_patch_view, log_view, name_set,
    observed_views, pair_views, DynamicObjectView, ObservedView, Reply, ReplyView, Request,
    RequestView, Step, StepView, Tenant, Trial, TrialView,
};
use crate::isolation::{CrossTenantResult, CrossTenantView, IsolationLevel, IsolationView};
use crate::json::{empty_object, Json, JsonView};
use crate::objects::KubernetesObject;
use crate::text::{
    debug_option, debug_option_of, decimal, decimal_of, joined, joined3, joined4, joined5, joined6,
    joined7, same_texts, string_from,
};
use vstd::prelude::*;
use vstd::string::*;

verus! {

/// What an experiment found.
pub open spec fn found(
    isolation: IsolationView,
    autonomy: bool,
    details: Seq<char>,
) -> CrossTenantView {
    CrossTenantView { isolation, autonomy, details }
}

/// The kinds that cannot be created for a test, so that one has to be found.
pub open spec fn needs_existing(kind: KubernetesObject) -> bool {
    kind is Node
}

/// Whether objects of the kind cannot be created for a test.
pub fn requires_existing_object(object_kind: &KubernetesObject) -> (r: bool)
    ensures
        r == needs_existing(*object_kind),
{
    matches!(object_kind, KubernetesObject::Node)
}

// ---- CREATE ----------------------------------------------------------------

/// What the second tenant's creation did, by what the first tenant reads
/// afterwards.
pub open spec fn create_verdict(kind: KubernetesObject, after: ReplyView) -> CrossTenantView {
    match after {
        ReplyView::Object(object) => if object.annotation("kumuteva.io/created-by-tenant"@)
            == Some("tenant2"@) {
            found(
                IsolationView::NoIsolation,
                true,
                "Cross-tenant CREATE breach: "@ + kind.kind_name() + " overwritten by other tenant"@,
            )
        } else {
            found(
                IsolationView::Hard,
                true,
                "CREATE has hard isolation for "@ + kind.kind_name()
                    + " - tenants have separate scopes"@,
            )
        },
        _ => found(
            IsolationView::Unknown,
            false,
            "Cannot verify CREATE isolation for "@ + kind.kind_name() + " - object state unclear"@,
        ),
    }
}

/// The CREATE experiment: the first tenant creates the object, the second
/// creates one of the same name in the same place, and where that succeeded the
/// first looks whose object is there now.
pub open spec fn create_step(trial: TrialView, log: Seq<ReplyView>) -> StepView<CrossTenantView> {
    let kind = trial.kind.kind_name();
    if log.len() == 0 {
        StepView::Ask(trial.create(Tenant::First, "tenant1"@))
    } else if log[0].failed() {
        StepView::Done(
            found(
                IsolationView::Unknown,
                false,
                "Cannot verify CREATE isolation for "@ + kind + " - tenant1 creation failed"@,
            ),
        )
    } else if log.len() == 1 {
        StepView::Ask(trial.create(Tenant::Second, "tenant2"@))
    } else if log[1].failed() {
        chores_then(
            trial.cleanup(),
            log.len() - 2,
            found(
                inferred_isolation(log[1].message()),
                true,
                "Cross-tenant CREATE blocked for "@ + kind + ": "@ + log[1].message(),
            ),
        )
    } else if log.len() == 2 {
        StepView::Ask(trial.get(Tenant::First))
    } else {
        chores_then(trial.cleanup(), log.len() - 3, create_verdict(trial.kind, log[2]))
    }
}

/// What the second tenant's creation did, by what the first tenant reads
/// afterwards.
fn judge_create(kind: &KubernetesObject, after: &Reply) -> (r: CrossTenantResult)
    ensures
        r@ == create_verdict(*kind, after@),
{
    match after {
        Reply::Object(object) => {
            let overwritten = match object.annotation("kumuteva.io/created-by-tenant") {
                Some(creator) => *creator == string_from("tenant2"),
                None => false,
            };
            if overwritten {
                CrossTenantResult {
                    autonomy: true,
                    isolation: IsolationLevel::NoIsolation,
                    details: joined3(
                        "Cross-tenant CREATE breach: ",
                        kind.kind(),
                        " overwritten by other tenant",
                    ),
                }
            } else {
                CrossTenantResult {
                    autonomy: true,
                    isolation: IsolationLevel::Hard,
                    details: joined3(
                        "CREATE has hard isolation for ",
                        kind.kind(),
                        " - tenants have separate scopes",
                    ),
                }
            }
        },
        _ => CrossTenantResult {
            autonomy: false,
            isolation: IsolationLevel::Unknown,
            details: joined3(
                "Cannot verify CREATE isolation for ",
                kind.kind(),
                " - object state unclear",
            ),
        },
    }
}

/// Tests cross-tenant CREATE isolation: the step after the replies so far.
pub fn test_cross_tenant_create(trial: &Trial, log: &Vec<Reply>) -> (r: Step<CrossTenantResult>)
    ensures
        r@ == create_step(trial@, log_view(log@)),
{
    let kind = trial.kind.kind();
    if log.len() == 0 {
        Step::Ask(trial.create(Tenant::First, "tenant1"))
    } else if log[0].failed() {
        Step::Done(
            CrossTenantResult {
                autonomy: false,
                isolation: IsolationLevel::Unknown,
                details: joined3(
                    "Cannot verify CREATE isolation for ",
                    kind,
                    " - tenant1 creation failed",
                ),
            },
        )
    } else if log.len() == 1 {
        Step::Ask(trial.create(Tenant::Second, "tenant2"))
    } else if log[1].failed() {
        let error_msg = log[1].message();
        let result = CrossTenantResult {
            autonomy: true,
            isolation: infer_isolation_from_error(&error_msg),
            details: joined4("Cross-tenant CREATE blocked for ", kind, ": ", &error_msg),
        };
        trial.cleanup_test_resource(log.len() - 2, result)
    } else if log.len() == 2 {
        Step::Ask(trial.get(Tenant::First))
    } else {
        trial.cleanup_test_resource(log.len() - 3, judge_create(&trial.kind, &log[2]))
    }
}

// ---- UPDATE ----------------------------------------------------------------

/// The label that an update experiment plants and tries to change.
pub open spec fn marker_label() -> Seq<char> {
    "update-test-marker"@
}

/// The request that creates the test object with the first tenant's marker.
pub open spec fn create_marked(trial: TrialView) -> RequestView {
    match trial.create(Tenant::First, "tenant1"@) {
        RequestView::Create { tenant, object, namespace } => RequestView::Create {
            tenant,
            object: DynamicObjectView {
                labels: seq![(marker_label(), "tenant1-original"@)],
                ..object
            },
            namespace,
        },
        other => other,
    }
}

/// What comes of an experiment whose test object could not be created.
pub open spec fn could_not_create(
    kind: KubernetesObject,
    operation: Seq<char>,
    message: Seq<char>,
) -> CrossTenantView {
    found(
        IsolationView::Soft("Could not create test object: "@ + message),
        false,
        "Cannot verify "@ + operation + " isolation for "@ + kind.kind_name()
            + " - tenant1 creation failed"@,
    )
}

/// What the second tenant's update did, by what the first tenant reads
/// afterwards.
pub open spec fn update_verdict(kind: KubernetesObject, after: ReplyView) -> CrossTenantView {
    if after.failed() {
        found(
            IsolationView::Soft("Could not verify: "@ + after.message()),
            true,
            "Cannot verify UPDATE isolation for "@ + kind.kind_name() + " - read failed"@,
        )
    } else if after.label(marker_label()) == Some("tenant2-modified"@) {
        found(
            IsolationView::NoIsolation,
            true,
            "Cross-tenant UPDATE breach: "@ + kind.kind_name() + " modified by other tenant"@,
        )
    } else if after.label(marker_label()) == Some("tenant1-original"@) {
        found(
            IsolationView::Soft("Update succeeded but did not modify resource"@),
            true,
            "UPDATE has soft isolation for "@ + kind.kind_name() + " - modification blocked"@,
        )
    } else {
        found(
            IsolationView::Soft(
                "Unexpected label value: "@ + debug_option(after.label(marker_label())),
            ),
            true,
            "UPDATE isolation unclear for "@ + kind.kind_name() + " - unexpected state"@,
        )
    }
}

/// The UPDATE experiment: the first tenant creates a marked object, the second
/// tries to change the mark, and where that succeeded the first reads the mark.
pub open spec fn update_created_step(trial: TrialView, log: Seq<ReplyView>) -> StepView<
    CrossTenantView,
> {
    if log.len() == 0 {
        StepView::Ask(create_marked(trial))
    } else if log[0].failed() {
        StepView::Done(could_not_create(trial.kind, "UPDATE"@, log[0].message()))
    } else if log.len() == 1 {
        StepView::Ask(trial.await_creation(Tenant::First))
    } else if log.len() == 2 {
        StepView::Ask(
            trial.patch(
                Tenant::Second,
                label_patch_view(marker_label(), JsonView::Text("tenant2-modified"@)),
            ),
        )
    } else if log[2].failed() {
        chores_then(
            trial.cleanup(),
            log.len() - 3,
            found(
                inferred_isolation(log[2].message()),
                true,
                "Cross-tenant UPDATE blocked for "@ + trial.kind.kind_name() + ": "@
                    + log[2].message(),
            ),
        )
    } else if log.len() == 3 {
        StepView::Ask(trial.get(Tenant::First))
    } else {
        chores_then(trial.cleanup(), log.len() - 4, update_verdict(trial.kind, log[3]))
    }
}

/// What comes of an experiment whose test object could not be created.
fn no_test_object(kind: &KubernetesObject, operation: &str, reply: &Reply) -> (r: Step<
    CrossTenantResult,
>)
    ensures
        r@ == StepView::<CrossTenantView>::Done(
            could_not_create(*kind, operation@, reply@.message()),
        ),
{
    Step::Done(
        CrossTenantResult {
            autonomy: false,
            isolation: IsolationLevel::Soft(
                joined("Could not create test object: ", &reply.message()),
            ),
            details: joined5(
                "Cannot verify ",
                operation,
                " isolation for ",
                kind.kind(),
                " - tenant1 creation failed",
            ),
        },
    )
}

/// What the second tenant's update did, by what the first tenant reads
/// afterwards.
fn judge_update(kind: &KubernetesObject, after: &Reply) -> (r: CrossTenantResult)
    ensures
        r@ == update_verdict(*kind, after@),
{
    if after.failed() {
        return CrossTenantResult {
            autonomy: true,
            isolation: IsolationLevel::Soft(joined("Could not verify: ", &after.message())),
            details: joined3(
                "Cannot verify UPDATE isolation for ",
                kind.kind(),
                " - read failed",
            ),
        };
    }
    match after.label("update-test-marker") {
        Some(value) => if *value == string_from("tenant2-modified") {
            CrossTenantResult {
                autonomy: true,
                isolation: IsolationLevel::NoIsolation,
                details: joined3(
                    "Cross-tenant UPDATE breach: ",
                    kind.kind(),
                    " modified by other tenant",
                ),
            }
        } else if *value == string_from("tenant1-original") {
            CrossTenantResult {
                autonomy: true,
                isolation: IsolationLevel::soft("Update succeeded but did not modify resource"),
                details: joined3(
                    "UPDATE has soft isolation for ",
                    kind.kind(),
                    " - modification blocked",
                ),
            }
        } else {
            unexpected_label(kind, Some(value.as_str()))
        },
        None => unexpected_label(kind, None),
    }
}

/// The marker reads as neither tenant's.
fn unexpected_label(kind: &KubernetesObject, value: Option<&str>) -> (r: CrossTenantResult)
    ensures
        r@.isolation == IsolationView::Soft(
            "Unexpected label value: "@ + debug_option(
                match value {
                    Some(s) => Some(s@),
                    None => None,
                },
            ),
        ),
        r@.autonomy,
        r@.details == "UPDATE isolation unclear for "@ + kind.kind_name() + " - unexpected state"@,
{
    CrossTenantResult {
        autonomy: true,
        isolation: IsolationLevel::Soft(
            joined("Unexpected label value: ", &debug_option_of(value)),
        ),
        details: joined3("UPDATE isolation unclear for ", kind.kind(), " - unexpected state"),
    }
}

/// The request that creates the test object with the first tenant's marker.
fn request_marked(trial: &Trial) -> (r: Request)
    ensures
        r@ == create_marked(trial@),
{
    match trial.create(Tenant::First, "tenant1") {
        Request::Create { tenant, object, namespace } => {
            let mut object = object;
            let labels = vec![
                (string_from("update-test-marker"), string_from("tenant1-original")),
            ];
            assert(pair_views(labels@) =~= seq![(marker_label(), "tenant1-original"@)]);
            object.labels = labels;
            Request::Create { tenant, object, namespace }
        },
        other => other,
    }
}

/// Tests UPDATE isolation on an object of the experiment's own.
fn update_created(trial: &Trial, log: &Vec<Reply>) -> (r: Step<CrossTenantResult>)
    ensures
        r@ == update_created_step(trial@, log_view(log@)),
{
    if log.len() == 0 {
        Step::Ask(request_marked(trial))
    } else if log[0].failed() {
        no_test_object(&trial.kind, "UPDATE", &log[0])
    } else if log.len() == 1 {
        Step::Ask(trial.await_creation(Tenant::First))
    } else if log.len() == 2 {
        let patch = label_patch("update-test-marker", Json::text("tenant2-modified"));
        Step::Ask(trial.patch(Tenant::Second, patch))
    } else if log[2].failed() {
        let error_msg = log[2].message();
        let result = CrossTenantResult {
            autonomy: true,
            isolation: infer_isolation_from_error(&error_msg),
            details: joined4(
                "Cross-tenant UPDATE blocked for ",
                trial.kind.kind(),
                ": ",
                &error_msg,
            ),
        };
        trial.cleanup_test_resource(log.len() - 3, result)
    } else if log.len() == 3 {
        Step::Ask(trial.get(Tenant::First))
    } else {
        trial.cleanup_test_resource(log.len() - 4, judge_update(&trial.kind, &log[3]))
    }
}

/// What comes of an experiment for which no object was found.
pub open spec fn none_available(
    kind: KubernetesObject,
    operation: Seq<char>,
    message: Seq<char>,
) -> CrossTenantView {
    found(
        IsolationView::Unknown,
        false,
        "Cannot test "@ + kind.kind_name() + " "@ + operation
            + " - no existing object available: "@ + message,
    )
}

/// What an object's labels say as JSON.
pub open spec fn labels_json(labels: Seq<(Seq<char>, Seq<char>)>) -> JsonView
    decreases labels.len(),
{
    if labels.len() == 0 {
        empty_object()
    } else {
        labels_json(labels.drop_last()).with(
            labels.last().0,
            JsonView::Text(labels.last().1),
        )
    }
}

/// The labels that the first tenant read before the attempt.
pub open spec fn labels_before(before: ReplyView) -> Option<Seq<(Seq<char>, Seq<char>)>> {
    match before {
        ReplyView::Object(object) => object.labels,
        _ => None,
    }
}

/// The patch that puts back the labels read before the attempt; where none were
/// read it takes the test label away.
pub open spec fn revert_patch(before: ReplyView) -> JsonView {
    match labels_before(before) {
        Some(labels) => empty_object().with(
            "metadata"@,
            empty_object().with("labels"@, labels_json(labels)),
        ),
        None => label_patch_view("kumuteva-update-test"@, JsonView::Null),
    }
}

/// The UPDATE experiment on an object that was already there: the second tenant
/// tries to set a label, and where the first then reads it, the first puts the
/// old labels back.
pub open spec fn update_existing_step(kind: KubernetesObject, log: Seq<ReplyView>) -> StepView<
    CrossTenantView,
> {
    if log.len() == 0 {
        StepView::Ask(RequestView::FindExisting { tenant: Tenant::First })
    } else {
        match log[0] {
            ReplyView::Name(name) => {
                let read = RequestView::Get { tenant: Tenant::First, name, namespace: None };
                if log.len() == 1 {
                    StepView::Ask(read)
                } else if log.len() == 2 {
                    StepView::Ask(
                        RequestView::Patch {
                            tenant: Tenant::Second,
                            name,
                            patch: label_patch_view(
                                "kumuteva-update-test"@,
                                JsonView::Text("tenant2-attempted-modification"@),
                            ),
                            namespace: None,
                        },
                    )
                } else if log[2].failed() {
                    StepView::Done(
                        found(
                            inferred_isolation(log[2].message()),
                            true,
                            "Cross-tenant UPDATE blocked for "@ + kind.kind_name() + " '"@ + name
                                + "': "@ + log[2].message(),
                        ),
                    )
                } else if log.len() == 3 {
                    StepView::Ask(read)
                } else if log[3].label("kumuteva-update-test"@) != Some(
                    "tenant2-attempted-modification"@,
                ) {
                    StepView::Done(
                        found(
                            IsolationView::Soft("Update succeeded but modification not visible"@),
                            true,
                            "UPDATE has soft isolation for "@ + kind.kind_name()
                                + " - modification not effective"@,
                        ),
                    )
                } else if log.len() == 4 {
                    StepView::Ask(
                        RequestView::Patch {
                            tenant: Tenant::First,
                            name,
                            patch: revert_patch(log[1]),
                            namespace: None,
                        },
                    )
                } else {
                    StepView::Done(
                        found(
                            IsolationView::NoIsolation,
                            true,
                            "Cross-tenant UPDATE breach: "@ + kind.kind_name() + " '"@ + name
                                + "' modified by other tenant"@,
                        ),
                    )
                }
            },
            other => StepView::Done(none_available(kind, "UPDATE"@, other.message())),
        }
    }
}

/// What comes of an experiment for which no object was found.
fn nothing_to_test(kind: &KubernetesObject, operation: &str, reply: &Reply) -> (r: Step<
    CrossTenantResult,
>)
    ensures
        r@ == StepView::<CrossTenantView>::Done(
            none_available(*kind, operation@, reply@.message()),
        ),
{
    Step::Done(
        CrossTenantResult {
            autonomy: false,
            isolation: IsolationLevel::Unknown,
            details: joined6(
                "Cannot test ",
                kind.kind(),
                " ",
                operation,
                " - no existing object available: ",
                &reply.message(),
            ),
        },
    )
}

/// What an object's labels say as JSON.
fn json_of_labels(labels: &Vec<(String, String)>) -> (r: Json)
    ensures
        r@ == labels_json(pair_views(labels@)),
{
    let mut out = Json::object();
    let ghost views = pair_views(labels@);
    let mut i: usize = 0;
    assert(views.take(0) =~= seq![]);
    while i < labels.len()
        invariant
            i <= labels.len(),
            views == pair_views(labels@),
            out@ == labels_json(views.take(i as int)),
        decreases labels.len() - i,
    {
        assert(views.take(i + 1).drop_last() =~= views.take(i as int));
        out = out.with(&labels[i].0, Json::text(&labels[i].1));
        i += 1;
    }
    assert(views.take(labels.len() as int) =~= views);
    out
}

/// The patch that puts back the labels read before the attempt.
fn patch_back(before: &Reply) -> (r: Json)
    ensures
        r@ == revert_patch(before@),
{
    match before {
        Reply::Object(object) => match &object.labels {
            Some(labels) => Json::object().with(
                "metadata",
                Json::object().with("labels", json_of_labels(labels)),
            ),
            None => label_patch("kumuteva-update-test", Json::Null),
        },
        _ => label_patch("kumuteva-update-test", Json::Null),
    }
}

/// Tests UPDATE isolation for resources that cannot be created.
pub fn test_cross_tenant_update_for_existing_resource(
    kind: &KubernetesObject,
    log: &Vec<Reply>,
) -> (r: Step<CrossTenantResult>)
    ensures
        r@ == update_existing_step(*kind, log_view(log@)),
{
    if log.len() == 0 {
        return Step::Ask(Request::FindExisting { tenant: Tenant::First });
    }
    let name: &String = match &log[0] {
        Reply::Name(name) => name,
        _ => {
            return nothing_to_test(kind, "UPDATE", &log[0]);
        },
    };
    if log.len() == 1 || log.len() == 3 && !log[2].failed() {
        return Step::Ask(
            Request::Get { tenant: Tenant::First, name: name.clone(), namespace: None },
        );
    }
    if log.len() == 2 {
        return Step::Ask(
            Request::Patch {
                tenant: Tenant::Second,
                name: name.clone(),
                patch: label_patch(
                    "kumuteva-update-test",
                    Json::text("tenant2-attempted-modification"),
                ),
                namespace: None,
            },
        );
    }
    if log[2].failed() {
        let error_msg = log[2].message();
        return Step::Done(
            CrossTenantResult {
                autonomy: true,
                isolation: infer_isolation_from_error(&error_msg),
                details: joined6(
                    "Cross-tenant UPDATE blocked for ",
                    kind.kind(),
                    " '",
                    name,
                    "': ",
                    &error_msg,
                ),
            },
        );
    }
    let was_modified = match log[3].label("kumuteva-update-test") {
        Some(value) => *value == string_from("tenant2-attempted-modification"),
        None => false,
    };
    if !was_modified {
        Step::Done(
            CrossTenantResult {
                autonomy: true,
                isolation: IsolationLevel::soft("Update succeeded but modification not visible"),
                details: joined3(
                    "UPDATE has soft isolation for ",
                    kind.kind(),
                    " - modification not effective",
                ),
            },
        )
    } else if log.len() == 4 {
        Step::Ask(
            Request::Patch {
                tenant: Tenant::First,
                name: name.clone(),
                patch: patch_back(&log[1]),
                namespace: None,
            },
        )
    } else {
        Step::Done(
            CrossTenantResult {
                autonomy: true,
                isolation: IsolationLevel::NoIsolation,
                details: joined5(
                    "Cross-tenant UPDATE breach: ",
                    kind.kind(),
                    " '",
                    name,
                    "' modified by other tenant",
                ),
            },
        )
    }
}

/// The UPDATE experiment, on an object of its own where the kind allows one.
pub open spec fn update_step(trial: TrialView, log: Seq<ReplyView>) -> StepView<CrossTenantView> {
    if needs_existing(trial.kind) {
        update_existing_step(trial.kind, log)
    } else {
        update_created_step(trial, log)
    }
}

/// Tests cross-tenant UPDATE isolation: the step after the replies so far.
pub fn test_cross_tenant_update(trial: &Trial, log: &Vec<Reply>) -> (r: Step<CrossTenantResult>)
    ensures
        r@ == update_step(trial@, log_view(log@)),
{
    if requires_existing_object(&trial.kind) {
        test_cross_tenant_update_for_existing_resource(&trial.kind, log)
    } else {
        update_created(trial, log)
    }
}

// ---- GET -------------------------------------------------------------------

/// What the second tenant's read shows.
pub open spec fn get_verdict(trial: TrialView, answer: ReplyView) -> CrossTenantView {
    let kind = trial.kind.kind_name();
    if answer.failed() {
        found(
            inferred_isolation(answer.message()),
            true,
            "Cross-tenant GET blocked for "@ + kind,
        )
    } else if answer.is_object_named(trial.name) {
        found(
            IsolationView::NoIsolation,
            true,
            "Cross-tenant GET breach: "@ + kind + " readable by other tenant"@,
        )
    } else {
        found(IsolationView::Hard, true, empty_answer(trial.kind))
    }
}

/// A proxy answered a read with an object that is not the one asked for.
pub open spec fn empty_answer(kind: KubernetesObject) -> Seq<char> {
    "Cross-tenant GET blocked for "@ + kind.kind_name() + " - proxy returned empty object"@
}

/// The GET experiment: the first tenant creates the object and the second tries
/// to read it.
pub open spec fn get_created_step(trial: TrialView, log: Seq<ReplyView>) -> StepView<
    CrossTenantView,
> {
    if log.len() == 0 {
        StepView::Ask(trial.create(Tenant::First, "tenant1"@))
    } else if log[0].failed() {
        StepView::Done(could_not_create(trial.kind, "GET"@, log[0].message()))
    } else if log.len() == 1 {
        StepView::Ask(trial.get(Tenant::Second))
    } else {
        chores_then(trial.cleanup(), log.len() - 2, get_verdict(trial, log[1]))
    }
}

/// Both replies are objects with the same metadata.
pub open spec fn same_metadata(first: ReplyView, second: ReplyView) -> bool {
    match (first, second) {
        (ReplyView::Object(a), ReplyView::Object(b)) => a.metadata == b.metadata,
        _ => false,
    }
}

/// The GET experiment on an object that was already there: both tenants read
/// the name, and what they get is compared.
pub open spec fn get_existing_step(kind: KubernetesObject, log: Seq<ReplyView>) -> StepView<
    CrossTenantView,
> {
    if log.len() == 0 {
        StepView::Ask(RequestView::FindExisting { tenant: Tenant::First })
    } else {
        match log[0] {
            ReplyView::Name(name) => if log.len() == 1 {
                StepView::Ask(
                    RequestView::Get { tenant: Tenant::Second, name, namespace: None },
                )
            } else if log[1].failed() {
                StepView::Done(
                    found(
                        inferred_isolation(log[1].message()),
                        true,
                        "Cross-tenant GET blocked for "@ + kind.kind_name() + " '"@ + name
                            + "': "@ + log[1].message(),
                    ),
                )
            } else if !log[1].is_object_named(name) {
                StepView::Done(found(IsolationView::Hard, true, empty_answer(kind)))
            } else if log.len() == 2 {
                StepView::Ask(RequestView::Get { tenant: Tenant::First, name, namespace: None })
            } else if log[2].failed() {
                StepView::Abort(log[2].message())
            } else if same_metadata(log[2], log[1]) {
                StepView::Done(
                    found(
                        IsolationView::NoIsolation,
                        true,
                        kind.kind_name() + " GET retrieve the same object named '"@ + name + "'"@,
                    ),
                )
            } else {
                StepView::Done(
                    found(
                        IsolationView::Hard,
                        true,
                        kind.kind_name() + " GET retrieve different objects named '"@ + name
                            + "'"@,
                    ),
                )
            },
            other => StepView::Done(none_available(kind, "GET"@, other.message())),
        }
    }
}

/// The GET experiment, on an object of its own where the kind allows one.
pub open spec fn get_step(trial: TrialView, log: Seq<ReplyView>) -> StepView<CrossTenantView> {
    if needs_existing(trial.kind) {
        get_existing_step(trial.kind, log)
    } else {
        get_created_step(trial, log)
    }
}

/// A proxy answered a read with an object that is not the one asked for.
fn hidden_by_proxy(kind: &KubernetesObject) -> (r: CrossTenantResult)
    ensures
        r@ == found(IsolationView::Hard, true, empty_answer(*kind)),
{
    CrossTenantResult {
        autonomy: true,
        isolation: IsolationLevel::Hard,
        details: joined3(
            "Cross-tenant GET blocked for ",
            kind.kind(),
            " - proxy returned empty object",
        ),
    }
}

/// What the second tenant's read shows.
fn judge_get(trial: &Trial, answer: &Reply) -> (r: CrossTenantResult)
    ensures
        r@ == get_verdict(trial@, answer@),
{
    if answer.failed() {
        CrossTenantResult {
            autonomy: true,
            isolation: infer_isolation_from_error(&answer.message()),
            details: joined("Cross-tenant GET blocked for ", trial.kind.kind()),
        }
    } else if answer.is_object_named(&trial.name) {
        CrossTenantResult {
            autonomy: true,
            isolation: IsolationLevel::NoIsolation,
            details: joined3(
                "Cross-tenant GET breach: ",
                trial.kind.kind(),
                " readable by other tenant",
            ),
        }
    } else {
        hidden_by_proxy(&trial.kind)
    }
}

/// Whether both replies are objects with the same metadata.
fn have_same_metadata(first: &Reply, second: &Reply) -> (r: bool)
    ensures
        r == same_metadata(first@, second@),
{
    match first {
        Reply::Object(a) => match second {
            Reply::Object(b) => a.metadata == b.metadata,
            _ => false,
        },
        _ => false,
    }
}

/// Tests GET isolation for resources that cannot be created.
pub fn test_cross_tenant_get_for_existing_resource(
    kind: &KubernetesObject,
    log: &Vec<Reply>,
) -> (r: Step<CrossTenantResult>)
    ensures
        r@ == get_existing_step(*kind, log_view(log@)),
{
    if log.len() == 0 {
        return Step::Ask(Request::FindExisting { tenant: Tenant::First });
    }
    let name: &String = match &log[0] {
        Reply::Name(name) => name,
        _ => {
            return nothing_to_test(kind, "GET", &log[0]);
        },
    };
    if log.len() == 1 {
        Step::Ask(Request::Get { tenant: Tenant::Second, name: name.clone(), namespace: None })
    } else if log[1].failed() {
        let error_msg = log[1].message();
        Step::Done(
            CrossTenantResult {
                autonomy: true,
                isolation: infer_isolation_from_error(&error_msg),
                details: joined6(
                    "Cross-tenant GET blocked for ",
                    kind.kind(),
                    " '",
                    name,
                    "': ",
                    &error_msg,
                ),
            },
        )
    } else if !log[1].is_object_named(name) {
        Step::Done(hidden_by_proxy(kind))
    } else if log.len() == 2 {
        Step::Ask(Request::Get { tenant: Tenant::First, name: name.clone(), namespace: None })
    } else if log[2].failed() {
        Step::Abort(log[2].message())
    } else if have_same_metadata(&log[2], &log[1]) {
        Step::Done(
            CrossTenantResult {
                autonomy: true,
                isolation: IsolationLevel::NoIsolation,
                details: joined4(
                    kind.kind(),
                    " GET retrieve the same object named '",
                    name,
                    "'",
                ),
            },
        )
    } else {
        Step::Done(
            CrossTenantResult {
                autonomy: true,
                isolation: IsolationLevel::Hard,
                details: joined4(
                    kind.kind(),
                    " GET retrieve different objects named '",
                    name,
                    "'",
                ),
            },
        )
    }
}

/// Tests cross-tenant GET isolation: the step after the replies so far.
pub fn test_cross_tenant_get(trial: &Trial, log: &Vec<Reply>) -> (r: Step<CrossTenantResult>)
    ensures
        r@ == get_step(trial@, log_view(log@)),
{
    if requires_existing_object(&trial.kind) {
        test_cross_tenant_get_for_existing_resource(&trial.kind, log)
    } else if log.len() == 0 {
        Step::Ask(trial.create(Tenant::First, "tenant1"))
    } else if log[0].failed() {
        no_test_object(&trial.kind, "GET", &log[0])
    } else if log.len() == 1 {
        Step::Ask(trial.get(Tenant::Second))
    } else {
        trial.cleanup_test_resource(log.len() - 2, judge_get(trial, &log[1]))
    }
}

// ---- LIST ------------------------------------------------------------------

/// An object called `name` stands in the list.
pub open spec fn lists(items: Seq<ObservedView>, name: Seq<char>) -> bool {
    exists|i: int| 0 <= i < items.len() && (#[trigger] items[i]).name == Some(name)
}

/// What the second tenant's list shows.
pub open spec fn list_verdict(trial: TrialView, answer: ReplyView) -> CrossTenantView {
    let kind = trial.kind.kind_name();
    if answer.failed() {
        found(
            inferred_isolation(answer.message()),
            true,
            "Cross-tenant LIST blocked for "@ + kind,
        )
    } else if lists(answer.items(), trial.name) {
        found(
            IsolationView::NoIsolation,
            true,
            "Cross-tenant LIST breach: "@ + kind + " visible to other tenant"@,
        )
    } else {
        found(
            IsolationView::Hard,
            true,
            "LIST has hard isolation for "@ + kind + " - tenant1's resources not visible"@,
        )
    }
}

/// The LIST experiment: the first tenant creates the object and the second
/// lists where it is.
pub open spec fn list_created_step(trial: TrialView, log: Seq<ReplyView>) -> StepView<
    CrossTenantView,
> {
    if log.len() == 0 {
        StepView::Ask(trial.create(Tenant::First, "tenant1"@))
    } else if log[0].failed() {
        StepView::Done(could_not_create(trial.kind, "LIST"@, log[0].message()))
    } else if log.len() == 1 {
        StepView::Ask(RequestView::List { tenant: Tenant::Second, namespace: trial.scope() })
    } else {
        chores_then(trial.cleanup(), log.len() - 2, list_verdict(trial, log[1]))
    }
}

/// What both tenants' lists show of a kind that cannot be created.
pub open spec fn both_lists_verdict(
    kind: KubernetesObject,
    first: ReplyView,
    second: ReplyView,
) -> CrossTenantView {
    let mine = name_set(first.items());
    let theirs = name_set(second.items());
    let kind = kind.kind_name();
    if first.failed() && second.failed() {
        found(
            IsolationView::Unknown,
            false,
            "Cannot verify "@ + kind + " LIST isolation - both tenants blocked: "@
                + first.message(),
        )
    } else if first.failed() {
        found(
            IsolationView::Unknown,
            false,
            "Cannot verify "@ + kind + " LIST isolation - tenant1 blocked: "@ + first.message()
                + ", tenant2 sees "@ + decimal(second.items().len()) + " items"@,
        )
    } else if second.failed() {
        found(
            IsolationView::Hard,
            true,
            "LIST has asymmetric isolation for "@ + kind + " - tenant1 sees "@ + decimal(
                first.items().len(),
            ) + " items, tenant2 blocked: "@ + second.message(),
        )
    } else if mine.len() == 0 && theirs.len() == 0 {
        found(
            IsolationView::Unknown,
            true,
            "Cannot verify "@ + kind
                + " LIST isolation - both tenants see 0 items and cannot create test resources"@,
        )
    } else if mine == theirs {
        found(
            IsolationView::NoIsolation,
            true,
            "LIST shows shared "@ + kind + " view - both tenants see same "@ + decimal(mine.len())
                + " items"@,
        )
    } else {
        found(
            IsolationView::Hard,
            true,
            "LIST has hard isolation for "@ + kind + " - different views (tenant1: "@ + decimal(
                mine.len(),
            ) + ", tenant2: "@ + decimal(theirs.len()) + ")"@,
        )
    }
}

/// The LIST experiment on what is already there: both tenants list the kind and
/// the names they see are compared.
pub open spec fn list_existing_step(kind: KubernetesObject, log: Seq<ReplyView>) -> StepView<
    CrossTenantView,
> {
    if log.len() == 0 {
        StepView::Ask(RequestView::FindExisting { tenant: Tenant::First })
    } else if log.len() == 1 {
        StepView::Ask(RequestView::List { tenant: Tenant::First, namespace: None })
    } else if log.len() == 2 {
        StepView::Ask(RequestView::List { tenant: Tenant::Second, namespace: None })
    } else {
        StepView::Done(both_lists_verdict(kind, log[1], log[2]))
    }
}

/// The LIST experiment, on an object of its own where the kind allows one.
pub open spec fn list_step(trial: TrialView, log: Seq<ReplyView>) -> StepView<CrossTenantView> {
    if needs_existing(trial.kind) {
        list_existing_step(trial.kind, log)
    } else {
        list_created_step(trial, log)
    }
}

/// Whether an object called `name` stands in the list.
fn is_listed(reply: &Reply, name: &str) -> (r: bool)
    ensures
        r == lists(reply@.items(), name@),
{
    if let Reply::Items(items) = reply {
        let ghost views = observed_views(items@);
        let mut i: usize = 0;
        while i < items.len()
            invariant
                i <= items.len(),
                views == observed_views(items@),
                views == reply@.items(),
                forall|k: int| 0 <= k < i ==> (#[trigger] views[k]).name != Some(name@),
            decreases items.len() - i,
        {
            assert(views[i as int] == items[i as int]@);
            if is_valid_get_result(&items[i], name) {
                return true;
            }
            i += 1;
        }
    }
    false
}

/// What the second tenant's list shows.
fn judge_list(trial: &Trial, answer: &Reply) -> (r: CrossTenantResult)
    ensures
        r@ == list_verdict(trial@, answer@),
{
    if answer.failed() {
        CrossTenantResult {
            autonomy: true,
            isolation: infer_isolation_from_error(&answer.message()),
            details: joined("Cross-tenant LIST blocked for ", trial.kind.kind()),
        }
    } else if is_listed(answer, &trial.name) {
        CrossTenantResult {
            autonomy: true,
            isolation: IsolationLevel::NoIsolation,
            details: joined3(
                "Cross-tenant LIST breach: ",
                trial.kind.kind(),
                " visible to other tenant",
            ),
        }
    } else {
        CrossTenantResult {
            autonomy: true,
            isolation: IsolationLevel::Hard,
            details: joined3(
                "LIST has hard isolation for ",
                trial.kind.kind(),
                " - tenant1's resources not visible",
            ),
        }
    }
}

/// What both tenants' lists show of a kind that cannot be created.
fn judge_both_lists(kind: &KubernetesObject, first: &Reply, second: &Reply) -> (r:
    CrossTenantResult)
    ensures
        r@ == both_lists_verdict(*kind, first@, second@),
{
    let kind = kind.kind();
    if first.failed() && second.failed() {
        return CrossTenantResult {
            autonomy: false,
            isolation: IsolationLevel::Unknown,
            details: joined4(
                "Cannot verify ",
                kind,
                " LIST isolation - both tenants blocked: ",
                &first.message(),
            ),
        };
    }
    if first.failed() {
        return CrossTenantResult {
            autonomy: false,
            isolation: IsolationLevel::Unknown,
            details: joined7(
                "Cannot verify ",
                kind,
                " LIST isolation - tenant1 blocked: ",
                &first.message(),
                ", tenant2 sees ",
                &decimal_of(second.item_count() as u64),
                " items",
            ),
        };
    }
    if second.failed() {
        return CrossTenantResult {
            autonomy: true,
            isolation: IsolationLevel::Hard,
            details: joined6(
                "LIST has asymmetric isolation for ",
                kind,
                " - tenant1 sees ",
                &decimal_of(first.item_count() as u64),
                " items, tenant2 blocked: ",
                &second.message(),
            ),
        };
    }
    let mine = first.distinct_names();
    let theirs = second.distinct_names();
    if mine.len() == 0 && theirs.len() == 0 {
        CrossTenantResult {
            autonomy: true,
            isolation: IsolationLevel::Unknown,
            details: joined3(
                "Cannot verify ",
                kind,
                " LIST isolation - both tenants see 0 items and cannot create test resources",
            ),
        }
    } else if same_texts(&mine, &theirs) {
        CrossTenantResult {
            autonomy: true,
            isolation: IsolationLevel::NoIsolation,
            details: joined5(
                "LIST shows shared ",
                kind,
                " view - both tenants see same ",
                &decimal_of(mine.len() as u64),
                " items",
            ),
        }
    } else {
        CrossTenantResult {
            autonomy: true,
            isolation: IsolationLevel::Hard,
            details: joined7(
                "LIST has hard isolation for ",
                kind,
                " - different views (tenant1: ",
                &decimal_of(mine.len() as u64),
                ", tenant2: ",
                &decimal_of(theirs.len() as u64),
                ")",
            ),
        }
    }
}

/// Tests LIST isolation for resources that cannot be created.
pub fn test_cross_tenant_list_for_existing_resource(
    kind: &KubernetesObject,
    log: &Vec<Reply>,
) -> (r: Step<CrossTenantResult>)
    ensures
        r@ == list_existing_step(*kind, log_view(log@)),
{
    if log.len() == 0 {
        Step::Ask(Request::FindExisting { tenant: Tenant::First })
    } else if log.len() == 1 {
        Step::Ask(Request::List { tenant: Tenant::First, namespace: None })
    } else if log.len() == 2 {
        Step::Ask(Request::List { tenant: Tenant::Second, namespace: None })
    } else {
        Step::Done(judge_both_lists(kind, &log[1], &log[2]))
    }
}

/// Tests cross-tenant LIST isolation: the step after the replies so far.
pub fn test_cross_tenant_list(trial: &Trial, log: &Vec<Reply>) -> (r: Step<CrossTenantResult>)
    ensures
        r@ == list_step(trial@, log_view(log@)),
{
    if requires_existing_object(&trial.kind) {
        test_cross_tenant_list_for_existing_resource(&trial.kind, log)
    } else if log.len() == 0 {
        Step::Ask(trial.create(Tenant::First, "tenant1"))
    } else if log[0].failed() {
        no_test_object(&trial.kind, "LIST", &log[0])
    } else if log.len() == 1 {
        Step::Ask(Request::List { tenant: Tenant::Second, namespace: trial.scope() })
    } else {
        trial.cleanup_test_resource(log.len() - 2, judge_list(trial, &log[1]))
    }
}

// ---- DELETE ----------------------------------------------------------------

/// The object is known to be gone: a check that could not be made says nothing.
pub open spec fn is_gone(check: ReplyView) -> bool {
    check == ReplyView::Answer(false)
}

/// A delete that was answered as done and left the object in place.
pub open spec fn still_there(details: Seq<char>) -> CrossTenantView {
    found(IsolationView::Soft("Delete succeeded but object still exists"@), true, details)
}

/// The DELETE experiment: the first tenant creates the object, the second tries
/// to delete it, and where that succeeded the first looks whether it is gone.
pub open spec fn delete_created_step(trial: TrialView, log: Seq<ReplyView>) -> StepView<
    CrossTenantView,
> {
    let kind = trial.kind.kind_name();
    if log.len() == 0 {
        StepView::Ask(trial.create(Tenant::First, "tenant1"@))
    } else if log[0].failed() {
        StepView::Done(could_not_create(trial.kind, "DELETE"@, log[0].message()))
    } else if log.len() == 1 {
        StepView::Ask(trial.await_creation(Tenant::First))
    } else if log.len() == 2 {
        StepView::Ask(trial.delete(Tenant::Second))
    } else if log[2].failed() {
        chores_then(
            trial.cleanup(),
            log.len() - 3,
            found(
                inferred_isolation(log[2].message()),
                true,
                "Cross-tenant DELETE blocked for "@ + kind,
            ),
        )
    } else if log.len() == 3 {
        StepView::Ask(
            RequestView::Exists {
                tenant: Tenant::First,
                name: trial.name,
                namespace: trial.scope(),
            },
        )
    } else if is_gone(log[3]) {
        chores_then(
            trial.claims(),
            log.len() - 4,
            found(
                IsolationView::NoIsolation,
                true,
                "Cross-tenant DELETE breach: "@ + kind + " deleted by other tenant"@,
            ),
        )
    } else {
        chores_then(
            trial.cleanup(),
            log.len() - 4,
            still_there("DELETE has soft isolation for "@ + kind + " - object preserved"@),
        )
    }
}

/// The DELETE experiment on an object that was already there: it is attempted
/// only where the second tenant has the permission.
pub open spec fn delete_existing_step(kind: KubernetesObject, log: Seq<ReplyView>) -> StepView<
    CrossTenantView,
> {
    if log.len() == 0 {
        StepView::Ask(RequestView::FindExisting { tenant: Tenant::First })
    } else {
        match log[0] {
            ReplyView::Name(name) => if log.len() == 1 {
                StepView::Ask(
                    RequestView::MayDelete { tenant: Tenant::Second, plural: kind.plural_name() },
                )
            } else if log[1] != ReplyView::Answer(true) {
                StepView::Done(
                    found(
                        IsolationView::Soft("Tenant2 not authorized to delete resource"@),
                        false,
                        "Cannot verify DELETE isolation for "@ + kind.kind_name()
                            + " - tenant2 lacks delete permission"@,
                    ),
                )
            } else if log.len() == 2 {
                StepView::Ask(
                    RequestView::Delete { tenant: Tenant::Second, name, namespace: None },
                )
            } else if log[2].failed() {
                StepView::Done(
                    found(
                        inferred_isolation(log[2].message()),
                        true,
                        "Cross-tenant DELETE blocked for "@ + kind.kind_name() + " '"@ + name
                            + "': "@ + log[2].message(),
                    ),
                )
            } else if log.len() == 3 {
                StepView::Ask(
                    RequestView::Exists { tenant: Tenant::First, name, namespace: None },
                )
            } else if is_gone(log[3]) {
                StepView::Done(
                    found(
                        IsolationView::NoIsolation,
                        true,
                        "Cross-tenant DELETE breach: "@ + kind.kind_name() + " '"@ + name
                            + "' deleted by other tenant"@,
                    ),
                )
            } else {
                StepView::Done(
                    still_there(
                        "DELETE has soft isolation for "@ + kind.kind_name() + " - object '"@
                            + name + "' preserved"@,
                    ),
                )
            },
            other => StepView::Done(none_available(kind, "DELETE"@, other.message())),
        }
    }
}

/// The DELETE experiment, on an object of its own where the kind allows one.
pub open spec fn delete_step(trial: TrialView, log: Seq<ReplyView>) -> StepView<CrossTenantView> {
    if needs_existing(trial.kind) {
        delete_existing_step(trial.kind, log)
    } else {
        delete_created_step(trial, log)
    }
}

/// A delete that was answered as done and left the object in place.
fn ignored_delete(details: String) -> (r: CrossTenantResult)
    ensures
        r@ == still_there(details@),
{
    CrossTenantResult {
        autonomy: true,
        isolation: IsolationLevel::soft("Delete succeeded but object still exists"),
        details,
    }
}

/// Tests DELETE isolation for resources that cannot be created.
pub fn test_cross_tenant_delete_for_existing_resource(
    kind: &KubernetesObject,
    log: &Vec<Reply>,
) -> (r: Step<CrossTenantResult>)
    ensures
        r@ == delete_existing_step(*kind, log_view(log@)),
{
    if log.len() == 0 {
        return Step::Ask(Request::FindExisting { tenant: Tenant::First });
    }
    let name: &String = match &log[0] {
        Reply::Name(name) => name,
        _ => {
            return nothing_to_test(kind, "DELETE", &log[0]);
        },
    };
    if log.len() == 1 {
        Step::Ask(
            Request::MayDelete {
                tenant: Tenant::Second,
                plural: string_from(kind.plural_kind()),
            },
        )
    } else if !matches!(log[1], Reply::Answer(true)) {
        Step::Done(
            CrossTenantResult {
                autonomy: false,
                isolation: IsolationLevel::soft("Tenant2 not authorized to delete resource"),
                details: joined3(
                    "Cannot verify DELETE isolation for ",
                    kind.kind(),
                    " - tenant2 lacks delete permission",
                ),
            },
        )
    } else if log.len() == 2 {
        Step::Ask(
            Request::Delete { tenant: Tenant::Second, name: name.clone(), namespace: None },
        )
    } else if log[2].failed() {
        let error_msg = log[2].message();
        Step::Done(
            CrossTenantResult {
                autonomy: true,
                isolation: infer_isolation_from_error(&error_msg),
                details: joined6(
                    "Cross-tenant DELETE blocked for ",
                    kind.kind(),
                    " '",
                    name,
                    "': ",
                    &error_msg,
                ),
            },
        )
    } else if log.len() == 3 {
        Step::Ask(Request::Exists { tenant: Tenant::First, name: name.clone(), namespace: None })
    } else if matches!(log[3], Reply::Answer(false)) {
        Step::Done(
            CrossTenantResult {
                autonomy: true,
                isolation: IsolationLevel::NoIsolation,
                details: joined5(
                    "Cross-tenant DELETE breach: ",
                    kind.kind(),
                    " '",
                    name,
                    "' deleted by other tenant",
                ),
            },
        )
    } else {
        Step::Done(
            ignored_delete(
                joined5(
                    "DELETE has soft isolation for ",
                    kind.kind(),
                    " - object '",
                    name,
                    "' preserved",
                ),
            ),
        )
    }
}

/// Tests cross-tenant DELETE isolation: the step after the replies so far.
pub fn test_cross_tenant_delete(trial: &Trial, log: &Vec<Reply>) -> (r: Step<CrossTenantResult>)
    ensures
        r@ == delete_step(trial@, log_view(log@)),
{
    let kind = trial.kind.kind();
    if requires_existing_object(&trial.kind) {
        test_cross_tenant_delete_for_existing_resource(&trial.kind, log)
    } else if log.len() == 0 {
        Step::Ask(trial.create(Tenant::First, "tenant1"))
    } else if log[0].failed() {
        no_test_object(&trial.kind, "DELETE", &log[0])
    } else if log.len() == 1 {
        Step::Ask(trial.await_creation(Tenant::First))
    } else if log.len() == 2 {
        Step::Ask(trial.delete(Tenant::Second))
    } else if log[2].failed() {
        let result = CrossTenantResult {
            autonomy: true,
            isolation: infer_isolation_from_error(&log[2].message()),
            details: joined("Cross-tenant DELETE blocked for ", kind),
        };
        trial.cleanup_test_resource(log.len() - 3, result)
    } else if log.len() == 3 {
        Step::Ask(
            Request::Exists {
                tenant: Tenant::First,
                name: trial.name.clone(),
                namespace: trial.scope(),
            },
        )
    } else if matches!(log[3], Reply::Answer(false)) {
        let result = CrossTenantResult {
            autonomy: true,
            isolation: IsolationLevel::NoIsolation,
            details: joined3("Cross-tenant DELETE breach: ", kind, " deleted by other tenant"),
        };
        trial.cleanup_claims(log.len() - 4, result)
    } else {
        let details = joined3("DELETE has soft isolation for ", kind, " - object preserved");
        trial.cleanup_test_resource(log.len() - 4, ignored_delete(details))
    }
}

}
