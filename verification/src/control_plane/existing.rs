//! Finding an object of a kind that cannot be created for a test.

use super::experiment::{
    log_view, plain_failure, Reply, ReplyView, Request, RequestView, Step, StepView, Tenant,
};
use super::names::{fresh_name, is_name_with};
use crate::json::{empty_array, empty_object, Json, JsonView};
use crate::objects::KubernetesObject;
use crate::text::{joined, joined3, string_from};
use vstd::prelude::*;
use vstd::string::*;

verus! {

/// How often the nodes are listed again while they may still appear.
pub const NODE_ATTEMPTS: usize = 10;

/// How long the first of these attempts waits, in milliseconds; each waits so
/// much longer than the one before.
pub const NODE_BACKOFF_MILLIS: u64 = 500;

/// What a pod asks for that only has to be scheduled.
pub open spec fn pause_resources_view() -> JsonView {
    empty_object().with("cpu"@, JsonView::Text("10m"@)).with("memory"@, JsonView::Text("16Mi"@))
}

/// The pod whose scheduling makes a virtual cluster show its nodes.
pub open spec fn trigger_pod(name: Seq<char>, namespace: Seq<char>) -> JsonView {
    empty_object().with("apiVersion"@, JsonView::Text("v1"@)).with(
        "kind"@,
        JsonView::Text("Pod"@),
    ).with(
        "metadata"@,
        empty_object().with("name"@, JsonView::Text(name)).with(
            "namespace"@,
            JsonView::Text(namespace),
        ),
    ).with(
        "spec"@,
        empty_object().with(
            "containers"@,
            empty_array().item(
                empty_object().with("name"@, JsonView::Text("pause"@)).with(
                    "image"@,
                    JsonView::Text("registry.k8s.io/pause:3.9"@),
                ).with(
                    "resources"@,
                    empty_object().with("requests"@, pause_resources_view()).with(
                        "limits"@,
                        pause_resources_view(),
                    ),
                ),
            ),
        ).with("restartPolicy"@, JsonView::Text("Never"@)),
    )
}

/// What a pod asks for that only has to be scheduled.
fn pause_resources() -> (r: Json)
    ensures
        r@ == pause_resources_view(),
{
    Json::object().with("cpu", Json::text("10m")).with("memory", Json::text("16Mi"))
}

/// The pod whose scheduling makes a virtual cluster show its nodes.
fn trigger_manifest(name: &str, namespace: &str) -> (r: Json)
    ensures
        r@ == trigger_pod(name@, namespace@),
{
    let container = Json::object()
        .with("name", Json::text("pause"))
        .with("image", Json::text("registry.k8s.io/pause:3.9"))
        .with(
            "resources",
            Json::object()
                .with("requests", pause_resources())
                .with("limits", pause_resources()),
        );
    Json::object()
        .with("apiVersion", Json::text("v1"))
        .with("kind", Json::text("Pod"))
        .with(
            "metadata",
            Json::object()
                .with("name", Json::text(name))
                .with("namespace", Json::text(namespace)),
        )
        .with(
            "spec",
            Json::object()
                .with("containers", Json::array().item(container))
                .with("restartPolicy", Json::text("Never")),
        )
}

/// Lists the nodes.
pub open spec fn list_nodes() -> RequestView {
    RequestView::List { tenant: Tenant::First, namespace: None }
}

/// The end of the search: the temporary pod is deleted, then the name that was
/// found is given, or that there was none.
pub open spec fn search_end(
    node: Option<Seq<char>>,
    pod: Seq<char>,
    namespace: Seq<char>,
    done: int,
) -> StepView<ReplyView> {
    if done == 0 {
        StepView::Ask(
            RequestView::DeletePod { tenant: Tenant::First, name: pod, within: namespace },
        )
    } else {
        StepView::Done(
            match node {
                Some(name) => ReplyView::Name(name),
                None => plain_failure(
                    "No nodes became visible after scheduling pod - cluster may not expose nodes to tenants"@,
                ),
            },
        )
    }
}

/// The search from its attempt number `attempt` on: wait, list, and stop at the
/// first node with a name.
pub open spec fn attempt_step(
    pod: Seq<char>,
    namespace: Seq<char>,
    log: Seq<ReplyView>,
    attempt: nat,
) -> StepView<ReplyView>
    decreases NODE_ATTEMPTS - attempt,
{
    let wait_at: int = (2 + 2 * attempt) as int;
    if attempt >= NODE_ATTEMPTS {
        search_end(None, pod, namespace, log.len() - wait_at)
    } else if log.len() <= wait_at {
        StepView::Ask(
            RequestView::Sleep { millis: (NODE_BACKOFF_MILLIS * (attempt + 1)) as u64 },
        )
    } else if log.len() == wait_at + 1 {
        StepView::Ask(list_nodes())
    } else {
        match log[wait_at + 1].first_name() {
            Some(name) => search_end(Some(name), pod, namespace, log.len() - wait_at - 2),
            None => attempt_step(pod, namespace, log, attempt + 1),
        }
    }
}

/// The search for a node: the first one listed; and where none is, a temporary
/// pod is scheduled and the nodes are listed again until one appears.
pub open spec fn existing_node_step(
    pod: Seq<char>,
    namespace: Seq<char>,
    log: Seq<ReplyView>,
) -> StepView<ReplyView> {
    if log.len() == 0 {
        StepView::Ask(list_nodes())
    } else {
        match log[0].first_name() {
            Some(name) => StepView::Done(ReplyView::Name(name)),
            None => if log.len() == 1 {
                StepView::Ask(
                    RequestView::CreatePod {
                        tenant: Tenant::First,
                        manifest: trigger_pod(pod, namespace),
                        within: namespace,
                    },
                )
            } else if log[1].failed() {
                StepView::Done(
                    plain_failure(
                        "Could not create temporary pod to trigger node sync: "@
                            + log[1].message(),
                    ),
                )
            } else {
                attempt_step(pod, namespace, log, 0)
            },
        }
    }
}

/// The end of the search: the temporary pod is deleted, then the outcome given.
fn end_search(node: Option<&String>, pod: &str, namespace: &str, done: usize) -> (r: Step<Reply>)
    ensures
        r@ == search_end(
            match node {
                Some(name) => Some(name@),
                None => None,
            },
            pod@,
            namespace@,
            done as int,
        ),
{
    if done == 0 {
        return Step::Ask(
            Request::DeletePod {
                tenant: Tenant::First,
                name: string_from(pod),
                within: string_from(namespace),
            },
        );
    }
    match node {
        Some(name) => Step::Done(Reply::Name(name.clone())),
        None => Step::Done(
            Reply::failure(
                "No nodes became visible after scheduling pod - cluster may not expose nodes to tenants",
            ),
        ),
    }
}

/// A name for the pod that makes nodes appear, which no earlier run has used.
pub fn fresh_trigger_name() -> (r: String)
    ensures
        is_name_with(r@, "node-sync-trigger-"@),
{
    fresh_name("node-sync-trigger-")
}

/// Finds a node for a test. In a virtual cluster nodes only appear after a pod
/// was scheduled, so one is where there is none: `pod` is its name.
pub fn get_existing_node(pod: &str, namespace: &str, log: &Vec<Reply>) -> (r: Step<Reply>)
    ensures
        r@ == existing_node_step(pod@, namespace@, log_view(log@)),
{
    if log.len() == 0 {
        return Step::Ask(Request::List { tenant: Tenant::First, namespace: None });
    }
    if let Some(name) = log[0].first_name() {
        return Step::Done(Reply::Name(name.clone()));
    }
    if log.len() == 1 {
        return Step::Ask(
            Request::CreatePod {
                tenant: Tenant::First,
                manifest: trigger_manifest(pod, namespace),
                within: string_from(namespace),
            },
        );
    }
    if log[1].failed() {
        return Step::Done(
            Reply::failure(
                &joined(
                    "Could not create temporary pod to trigger node sync: ",
                    &log[1].message(),
                ),
            ),
        );
    }
    let mut attempt: usize = 0;
    while attempt < NODE_ATTEMPTS
        invariant
            attempt <= NODE_ATTEMPTS,
            log.len() >= 2 + 2 * attempt,
            existing_node_step(pod@, namespace@, log_view(log@)) == attempt_step(
                pod@,
                namespace@,
                log_view(log@),
                attempt as nat,
            ),
        decreases NODE_ATTEMPTS - attempt,
    {
        let wait_at: usize = 2 + 2 * attempt;
        if log.len() == wait_at {
            return Step::Ask(
                Request::Sleep { millis: NODE_BACKOFF_MILLIS * (attempt as u64 + 1) },
            );
        }
        if log.len() == wait_at + 1 {
            return Step::Ask(Request::List { tenant: Tenant::First, namespace: None });
        }
        if let Some(name) = log[wait_at + 1].first_name() {
            return end_search(Some(name), pod, namespace, log.len() - wait_at - 2);
        }
        attempt += 1;
    }
    end_search(None, pod, namespace, log.len() - (2 + 2 * NODE_ATTEMPTS))
}

/// The search for an object of a kind that cannot be created.
pub open spec fn existing_object_step(
    kind: KubernetesObject,
    pod: Seq<char>,
    namespace: Seq<char>,
    log: Seq<ReplyView>,
) -> StepView<ReplyView> {
    match kind {
        KubernetesObject::Node => existing_node_step(pod, namespace, log),
        _ => StepView::Done(
            plain_failure(
                "No special handling for "@ + kind.kind_name() + " - should use create flow"@,
            ),
        ),
    }
}

/// Finds an object of a kind that cannot be created: the reply to the request
/// for one.
pub fn get_existing_object_for_testing(
    kind: &KubernetesObject,
    pod: &str,
    namespace: &str,
    log: &Vec<Reply>,
) -> (r: Step<Reply>)
    ensures
        r@ == existing_object_step(*kind, pod@, namespace@, log_view(log@)),
{
    match kind {
        KubernetesObject::Node => get_existing_node(pod, namespace, log),
        _ => Step::Done(
            Reply::failure(
                &joined3(
                    "No special handling for ",
                    kind.kind(),
                    " - should use create flow",
                ),
            ),
        ),
    }
}

/// From its attempt `attempt` on the search deletes the temporary pod before it
/// ends, and it ends in time.
proof fn attempts_delete_the_pod(
    pod: Seq<char>,
    namespace: Seq<char>,
    log: Seq<ReplyView>,
    attempt: nat,
)
    requires
        attempt <= NODE_ATTEMPTS,
        log.len() >= 2 + 2 * attempt,
    ensures
        log.len() >= 3 + 2 * NODE_ATTEMPTS ==> !(attempt_step(pod, namespace, log, attempt) is Ask),
        !(attempt_step(pod, namespace, log, attempt) is Ask) ==> exists|i: int|
            2 + 2 * attempt <= i < log.len() && attempt_step(
                pod,
                namespace,
                #[trigger] log.take(i),
                attempt,
            ) == StepView::<ReplyView>::Ask(
                RequestView::DeletePod { tenant: Tenant::First, name: pod, within: namespace },
            ),
    decreases NODE_ATTEMPTS - attempt,
{
    let wait_at: int = (2 + 2 * attempt) as int;
    let gone = StepView::<ReplyView>::Ask(
        RequestView::DeletePod { tenant: Tenant::First, name: pod, within: namespace },
    );
    if attempt >= NODE_ATTEMPTS {
        if log.len() > wait_at {
            assert(attempt_step(pod, namespace, log.take(wait_at), attempt) == gone);
        }
    } else if log.len() >= wait_at + 2 {
        match log[wait_at + 1].first_name() {
            Some(name) => {
                if log.len() > wait_at + 2 {
                    assert(log.take(wait_at + 2)[wait_at + 1] == log[wait_at + 1]);
                    assert(attempt_step(pod, namespace, log.take(wait_at + 2), attempt) == gone);
                }
            },
            None => {
                attempts_delete_the_pod(pod, namespace, log, attempt + 1);
                if !(attempt_step(pod, namespace, log, attempt) is Ask) {
                    let i = choose|i: int|
                        2 + 2 * (attempt + 1) <= i < log.len() && attempt_step(
                            pod,
                            namespace,
                            #[trigger] log.take(i),
                            attempt + 1,
                        ) == gone;
                    assert(log.take(i)[wait_at + 1] == log[wait_at + 1]);
                    assert(attempt_step(pod, namespace, log.take(i), attempt) == gone);
                }
            },
        }
    }
}

/// The search for a node always ends, and where it created its temporary pod it
/// has asked for the pod's deletion by then.
pub proof fn the_temporary_pod_is_always_deleted(
    pod: Seq<char>,
    namespace: Seq<char>,
    log: Seq<ReplyView>,
)
    ensures
        log.len() >= 3 + 2 * NODE_ATTEMPTS ==> !(existing_node_step(pod, namespace, log) is Ask),
        (log.len() >= 2 && log[0].first_name() is None && !log[1].failed()
            && !(existing_node_step(pod, namespace, log) is Ask)) ==> exists|i: int|
            0 <= i < log.len() && existing_node_step(pod, namespace, #[trigger] log.take(i))
                == StepView::<ReplyView>::Ask(
                RequestView::DeletePod { tenant: Tenant::First, name: pod, within: namespace },
            ),
{
    if log.len() >= 2 && log[0].first_name() is None && !log[1].failed() {
        attempts_delete_the_pod(pod, namespace, log, 0);
        let gone = StepView::<ReplyView>::Ask(
            RequestView::DeletePod { tenant: Tenant::First, name: pod, within: namespace },
        );
        if !(existing_node_step(pod, namespace, log) is Ask) {
            let i = choose|i: int|
                2 <= i < log.len() && attempt_step(pod, namespace, #[trigger] log.take(i), 0)
                    == gone;
            assert(log.take(i)[0] == log[0]);
            assert(log.take(i)[1] == log[1]);
            assert(existing_node_step(pod, namespace, log.take(i)) == gone);
        }
    }
}


/// The first object of a list has a name, and it is `name`.
pub open spec fn lists_first(reply: ReplyView, name: Seq<char>) -> bool {
    match reply {
        ReplyView::Items(items) => items.len() > 0 && items[0].name == Some(name),
        _ => false,
    }
}

/// The first object of a list has a name.
pub open spec fn names_a_node(reply: ReplyView) -> bool {
    match reply {
        ReplyView::Items(items) => items.len() > 0 && items[0].name is Some,
        _ => false,
    }
}

/// From its attempt `attempt` on the search gives the name that a list of nodes
/// put first, and gives up only where no list put one first.
proof fn attempts_find_listed_nodes(
    pod: Seq<char>,
    namespace: Seq<char>,
    log: Seq<ReplyView>,
    attempt: nat,
)
    requires
        attempt <= NODE_ATTEMPTS,
        log.len() >= 2 + 2 * attempt,
    ensures
        match attempt_step(pod, namespace, log, attempt) {
            StepView::Done(ReplyView::Name(name)) => exists|i: int|
                2 <= i < log.len() && attempt_step(pod, namespace, #[trigger] log.take(i), attempt)
                    == StepView::<ReplyView>::Ask(
                    RequestView::List { tenant: Tenant::First, namespace: None },
                ) && lists_first(log[i], name) && log.take(i).len() >= 2 + 2 * attempt,
            StepView::Done(other) => other is Failed && forall|j: int|
                3 + 2 * attempt <= j < 3 + 2 * NODE_ATTEMPTS && j % 2 == 1 ==> !names_a_node(
                    #[trigger] log[j],
                ),
            StepView::Abort(_) => false,
            StepView::Ask(_) => true,
        },
    decreases NODE_ATTEMPTS - attempt,
{
    let wait_at: int = (2 + 2 * attempt) as int;
    let list = StepView::<ReplyView>::Ask(
        RequestView::List { tenant: Tenant::First, namespace: None },
    );
    if attempt < NODE_ATTEMPTS && log.len() >= wait_at + 2 {
        match log[wait_at + 1].first_name() {
            Some(name) => {
                assert(attempt_step(pod, namespace, log.take(wait_at + 1), attempt) == list);
                assert(lists_first(log[wait_at + 1], name));
            },
            None => {
                attempts_find_listed_nodes(pod, namespace, log, attempt + 1);
                match attempt_step(pod, namespace, log, attempt) {
                    StepView::Done(ReplyView::Name(name)) => {
                        let i = choose|i: int|
                            2 <= i < log.len() && attempt_step(
                                pod,
                                namespace,
                                #[trigger] log.take(i),
                                attempt + 1,
                            ) == list && lists_first(log[i], name) && log.take(i).len() >= 2 + 2
                                * (attempt + 1);
                        assert(log.take(i)[wait_at + 1] == log[wait_at + 1]);
                        assert(attempt_step(pod, namespace, log.take(i), attempt) == list);
                    },
                    _ => {},
                }
            },
        }
    }
}

/// The node that the search gives was listed first in a list of nodes that the
/// search asked for as the first tenant, and before any pod was made for it
/// where the first list already named one; the search fails only where its
/// first list named none, and then either its pod could not be created or no
/// later list named one either.
pub proof fn a_found_node_was_listed(pod: Seq<char>, namespace: Seq<char>, log: Seq<ReplyView>)
    ensures
        match existing_node_step(pod, namespace, log) {
            StepView::Done(ReplyView::Name(name)) => exists|i: int|
                0 <= i < log.len() && existing_node_step(pod, namespace, #[trigger] log.take(i))
                    == StepView::<ReplyView>::Ask(
                    RequestView::List { tenant: Tenant::First, namespace: None },
                ) && lists_first(log[i], name),
            StepView::Done(other) => {
                &&& other is Failed
                &&& !names_a_node(log[0])
                &&& log[1] is Failed || forall|j: int|
                    3 <= j < 3 + 2 * NODE_ATTEMPTS && j % 2 == 1 ==> !names_a_node(
                        #[trigger] log[j],
                    )
            },
            StepView::Abort(_) => false,
            StepView::Ask(_) => log.len() > 0 ==> !names_a_node(log[0]),
        },
{
    if log.len() > 0 {
        assert(log[0].first_name() is Some ==> lists_first(log[0], log[0].first_name()->0));
        assert(log.take(0).len() == 0);
    }
    if log.len() >= 2 && log[0].first_name() is None && !log[1].failed() {
        attempts_find_listed_nodes(pod, namespace, log, 0);
        match existing_node_step(pod, namespace, log) {
            StepView::Done(ReplyView::Name(name)) => {
                let i = choose|i: int|
                    2 <= i < log.len() && attempt_step(pod, namespace, #[trigger] log.take(i), 0)
                        == StepView::<ReplyView>::Ask(
                        RequestView::List { tenant: Tenant::First, namespace: None },
                    ) && lists_first(log[i], name);
                assert(log.take(i)[0] == log[0]);
                assert(log.take(i)[1] == log[1]);
            },
            _ => {},
        }
    }
}

/// From its attempt `attempt` on the search waits longer before each attempt.
proof fn attempts_wait_longer(
    pod: Seq<char>,
    namespace: Seq<char>,
    log: Seq<ReplyView>,
    attempt: nat,
)
    requires
        attempt <= NODE_ATTEMPTS,
        log.len() >= 2 + 2 * attempt,
    ensures
        match attempt_step(pod, namespace, log, attempt) {
            StepView::Ask(RequestView::Sleep { millis }) => 2 * millis == 500 * log.len(),
            StepView::Ask(RequestView::DeletePod { tenant, name, within }) => {
                &&& tenant == Tenant::First
                &&& name == pod
                &&& within == namespace
            },
            StepView::Ask(RequestView::List { tenant, namespace: of }) => tenant == Tenant::First
                && of is None,
            StepView::Ask(_) => false,
            _ => true,
        },
    decreases NODE_ATTEMPTS - attempt,
{
    let wait_at: int = (2 + 2 * attempt) as int;
    if attempt < NODE_ATTEMPTS && log.len() >= wait_at + 2 && log[wait_at
        + 1].first_name() is None {
        attempts_wait_longer(pod, namespace, log, attempt + 1);
    }
}

/// The pod that the search creates is the one that it deletes: its manifest
/// carries the name and the namespace that the deletion names. Everything is
/// done as the first tenant, and each wait is half a second longer than the
/// one before.
pub proof fn the_search_deletes_the_pod_it_created(
    pod: Seq<char>,
    namespace: Seq<char>,
    log: Seq<ReplyView>,
)
    ensures
        match existing_node_step(pod, namespace, log) {
            StepView::Ask(RequestView::CreatePod { tenant, manifest, within }) => {
                &&& tenant == Tenant::First
                &&& within == namespace
                &&& match manifest.field("metadata"@) {
                    Some(metadata) => {
                        &&& metadata.field("name"@) == Some(JsonView::Text(pod))
                        &&& metadata.field("namespace"@) == Some(JsonView::Text(within))
                    },
                    None => false,
                }
            },
            StepView::Ask(RequestView::DeletePod { tenant, name, within }) => {
                &&& tenant == Tenant::First
                &&& name == pod
                &&& within == namespace
            },
            StepView::Ask(RequestView::List { tenant, namespace: of }) => tenant == Tenant::First
                && of is None,
            StepView::Ask(RequestView::Sleep { millis }) => 2 * millis == 500 * log.len(),
            StepView::Ask(_) => false,
            _ => true,
        },
{
    if log.len() >= 2 && log[0].first_name() is None && !log[1].failed() {
        attempts_wait_longer(pod, namespace, log, 0);
    }
    reveal_strlit("apiVersion");
    reveal_strlit("kind");
    reveal_strlit("metadata");
    reveal_strlit("spec");
    reveal_strlit("name");
    reveal_strlit("namespace");
    assert("kind"@.len() != "metadata"@.len());
    assert("spec"@.len() != "metadata"@.len());
    assert("name"@.len() != "namespace"@.len());
}

}
