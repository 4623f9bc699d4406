//! Quality of service: what a benchmark pod asks for and is capped at.

use crate::json::{empty_object, item_views, Json, JsonView};
use crate::text::{decimal, decimal_of, joined, string_from};
use vstd::prelude::*;
use vstd::string::*;

verus! {

/// Kubernetes QoS class requested for a benchmark pod.
#[derive(Debug, Clone, Copy, PartialEq, Eq, Structural)]
pub enum QosClass {
    /// Requests equal limits on every resource: what a measurement probe wants.
    Guaranteed,
    /// Requests below limits: may burst, may be throttled, evicted second.
    Burstable,
    /// No requests or limits: unconstrained, evicted first.
    BestEffort,
}

impl Default for QosClass {
    fn default() -> (r: QosClass)
        ensures
            r == QosClass::Guaranteed,
    {
        QosClass::Guaranteed
    }
}

/// CPU and memory a benchmark pod asks for and is capped at. The request is what
/// the scheduler subtracts from a node's capacity, the limit what throttles the
/// container.
#[derive(Debug, Clone, Copy, PartialEq, Eq, Structural)]
pub struct PodResources {
    pub cpu_request_millis: u32,
    pub cpu_limit_millis: u32,
    pub memory_request_mi: u32,
    pub memory_limit_mi: u32,
}

impl PodResources {
    /// Requests equal to limits.
    pub fn uniform(cpu_millis: u32, memory_mi: u32) -> (r: PodResources)
        ensures
            r == (PodResources {
                cpu_request_millis: cpu_millis,
                cpu_limit_millis: cpu_millis,
                memory_request_mi: memory_mi,
                memory_limit_mi: memory_mi,
            }),
    {
        PodResources {
            cpu_request_millis: cpu_millis,
            cpu_limit_millis: cpu_millis,
            memory_request_mi: memory_mi,
            memory_limit_mi: memory_mi,
        }
    }

    /// Modest requests with a generous ceiling.
    pub fn burstable(
        cpu_request_millis: u32,
        cpu_limit_millis: u32,
        memory_request_mi: u32,
        memory_limit_mi: u32,
    ) -> (r: PodResources)
        ensures
            r == (PodResources {
                cpu_request_millis,
                cpu_limit_millis,
                memory_request_mi,
                memory_limit_mi,
            }),
    {
        PodResources {
            cpu_request_millis,
            cpu_limit_millis,
            memory_request_mi,
            memory_limit_mi,
        }
    }
}

/// A request that lies below its limit: the one asked for, or one less than the
/// limit. A limit of at most one leaves one.
pub open spec fn below_limit(request: int, limit: int) -> int {
    let ceiling = if limit > 1 {
        limit - 1
    } else {
        1
    };
    if request < ceiling {
        request
    } else {
        ceiling
    }
}

/// An amount of CPU and of memory.
pub open spec fn amounts_view(cpu: int, memory: int) -> JsonView {
    empty_object().with("cpu"@, JsonView::Text(decimal(cpu as nat) + "m"@)).with(
        "memory"@,
        JsonView::Text(decimal(memory as nat) + "Mi"@),
    )
}

/// The resources block of a container, where its class has one: the class
/// decides on the requests, whatever was asked for.
pub open spec fn resources_block(class: QosClass, resources: PodResources) -> Option<JsonView> {
    let limits = amounts_view(
        resources.cpu_limit_millis as int,
        resources.memory_limit_mi as int,
    );
    match class {
        QosClass::Guaranteed => Some(
            empty_object().with("requests"@, limits).with("limits"@, limits),
        ),
        QosClass::Burstable => Some(
            empty_object().with(
                "requests"@,
                amounts_view(
                    below_limit(
                        resources.cpu_request_millis as int,
                        resources.cpu_limit_millis as int,
                    ),
                    below_limit(
                        resources.memory_request_mi as int,
                        resources.memory_limit_mi as int,
                    ),
                ),
            ).with("limits"@, limits),
        ),
        QosClass::BestEffort => None,
    }
}

/// An amount of CPU and of memory.
fn amounts(cpu: u32, memory: u32) -> (r: Json)
    ensures
        r@ == amounts_view(cpu as int, memory as int),
{
    Json::object()
        .with("cpu", Json::Text(joined(&decimal_of(cpu as u64), "m")))
        .with("memory", Json::Text(joined(&decimal_of(memory as u64), "Mi")))
}

/// A request that lies below its limit.
fn clamp_below(request: u32, limit: u32) -> (r: u32)
    ensures
        r == below_limit(request as int, limit as int),
{
    let ceiling: u32 = if limit > 1 {
        limit - 1
    } else {
        1
    };
    if request < ceiling {
        request
    } else {
        ceiling
    }
}

/// A document that a field can be set on: one that is null becomes an object.
pub open spec fn opened(json: JsonView) -> JsonView {
    if json is Null {
        empty_object()
    } else {
        json
    }
}

/// A field can be set on the document.
pub open spec fn can_open(json: JsonView) -> bool {
    json is Null || json is Object
}

/// The field `key`, and null where there is none.
pub open spec fn field_or_null(json: JsonView, key: Seq<char>) -> JsonView {
    match json.field(key) {
        Some(value) => value,
        None => JsonView::Null,
    }
}

/// A container with the resources block of its class; without one where its
/// class has none.
pub open spec fn stamped_container(block: Option<JsonView>, container: JsonView) -> JsonView {
    match block {
        Some(block) => opened(container).with("resources"@, block),
        None => container.without("resources"@),
    }
}

/// The containers of a pod, each stamped; what is no list is left as it is.
pub open spec fn stamped_containers(block: Option<JsonView>, containers: JsonView) -> JsonView {
    match containers {
        JsonView::Array(items) => JsonView::Array(
            Seq::new(items.len(), |i: int| stamped_container(block, items[i])),
        ),
        other => other,
    }
}

/// The specification of a pod, its containers stamped and its runtime class set
/// where one is given.
pub open spec fn stamped_spec(
    block: Option<JsonView>,
    spec_part: JsonView,
    runtime_class: Option<Seq<char>>,
) -> JsonView {
    let stamped = opened(spec_part).with(
        "containers"@,
        stamped_containers(block, field_or_null(spec_part, "containers"@)),
    );
    match runtime_class {
        Some(name) => stamped.with("runtimeClassName"@, JsonView::Text(name)),
        None => stamped,
    }
}

/// A pod with its class and runtime class stamped on.
pub open spec fn stamped_pod(
    block: Option<JsonView>,
    pod: JsonView,
    runtime_class: Option<Seq<char>>,
) -> JsonView {
    opened(pod).with(
        "spec"@,
        stamped_spec(block, field_or_null(pod, "spec"@), runtime_class),
    )
}

/// The document has the shape of a pod: where something has to be set, it can
/// be. A block of resources has to be set on each container.
pub open spec fn is_pod_shaped(pod: JsonView, with_block: bool) -> bool {
    &&& can_open(pod)
    &&& can_open(field_or_null(pod, "spec"@))
    &&& match field_or_null(field_or_null(pod, "spec"@), "containers"@) {
        JsonView::Array(items) => with_block ==> forall|i: int|
            0 <= i < items.len() ==> can_open(#[trigger] items[i]),
        _ => true,
    }
}

/// The field `key`, and null where there is none.
fn get_or_null(json: &Json, key: &str) -> (r: Json)
    ensures
        r@ == field_or_null(json@, key@),
{
    match json.get(key) {
        Some(value) => value.duplicate(),
        None => Json::Null,
    }
}

/// A document that a field can be set on.
fn open_object(json: Json) -> (r: Json)
    ensures
        r@ == opened(json@),
{
    match json {
        Json::Null => Json::object(),
        other => other,
    }
}

/// What an optional document says.
pub open spec fn block_view(block: Option<Json>) -> Option<JsonView> {
    match block {
        Some(json) => Some(json@),
        None => None,
    }
}

proof fn item_view_count(items: Seq<Json>)
    ensures
        item_views(items).len() == items.len(),
    decreases items.len(),
{
    if items.len() > 0 {
        item_view_count(items.drop_last());
    }
}

proof fn item_view_at(items: Seq<Json>, i: int)
    requires
        0 <= i < items.len(),
    ensures
        item_views(items)[i] == items[i]@,
    decreases items.len(),
{
    item_view_count(items.drop_last());
    if i < items.len() - 1 {
        item_view_at(items.drop_last(), i);
    }
}

/// The containers of a pod, each stamped.
fn stamp_containers(block: &Option<Json>, containers: Json) -> (r: Json)
    ensures
        r@ == stamped_containers(block_view(*block), containers@),
{
    let items = match containers {
        Json::Array(items) => items,
        other => {
            return other;
        },
    };
    let mut out = Json::array();
    let ghost views = item_views(items@);
    let ghost whole = Seq::new(
        views.len(),
        |i: int| stamped_container(block_view(*block), views[i]),
    );
    proof {
        item_view_count(items@);
    }
    let mut i: usize = 0;
    assert(whole.take(0) =~= seq![]);
    while i < items.len()
        invariant
            i <= items.len(),
            views == item_views(items@),
            items.len() == views.len(),
            whole == Seq::new(
                views.len(),
                |i: int| stamped_container(block_view(*block), views[i]),
            ),
            out@ == JsonView::Array(whole.take(i as int)),
        decreases items.len() - i,
    {
        proof {
            item_view_at(items@, i as int);
        }
        let container = match block {
            Some(block) => open_object(items[i].duplicate()).with("resources", block.duplicate()),
            None => items[i].without("resources"),
        };
        out = out.item(container);
        assert(whole.take(i + 1) =~= whole.take(i as int).push(whole[i as int]));
        i += 1;
    }
    assert(whole.take(items.len() as int) =~= whole);
    out
}

impl QosClass {
    /// The class in words.
    pub open spec fn text(self) -> Seq<char> {
        match self {
            QosClass::Guaranteed => "Guaranteed"@,
            QosClass::Burstable => "Burstable"@,
            QosClass::BestEffort => "BestEffort"@,
        }
    }

    /// The class in words.
    pub fn label(&self) -> (r: String)
        ensures
            r@ == self.text(),
    {
        match self {
            QosClass::Guaranteed => string_from("Guaranteed"),
            QosClass::Burstable => string_from("Burstable"),
            QosClass::BestEffort => string_from("BestEffort"),
        }
    }

    /// The `resources` block of a container that yields this class; none for
    /// best effort, where the block must be absent entirely.
    pub fn resources_json(&self, resources: &PodResources) -> (r: Option<Json>)
        ensures
            block_view(r) == resources_block(*self, *resources),
    {
        match self {
            QosClass::Guaranteed => Some(
                Json::object()
                    .with(
                        "requests",
                        amounts(resources.cpu_limit_millis, resources.memory_limit_mi),
                    )
                    .with(
                        "limits",
                        amounts(resources.cpu_limit_millis, resources.memory_limit_mi),
                    ),
            ),
            QosClass::Burstable => {
                let cpu_request: u32 = clamp_below(
                    resources.cpu_request_millis,
                    resources.cpu_limit_millis,
                );
                let memory_request: u32 = clamp_below(
                    resources.memory_request_mi,
                    resources.memory_limit_mi,
                );
                Some(
                    Json::object()
                        .with("requests", amounts(cpu_request, memory_request))
                        .with(
                            "limits",
                            amounts(resources.cpu_limit_millis, resources.memory_limit_mi),
                        ),
                )
            },
            QosClass::BestEffort => None,
        }
    }

    /// Stamps this class, and an optional runtime class, onto a pod.
    pub fn apply_to_pod(
        &self,
        pod: &mut Json,
        resources: &PodResources,
        runtime_class_name: Option<&str>,
    )
        requires
            is_pod_shaped(old(pod)@, *self != QosClass::BestEffort),
        ensures
            final(pod)@ == stamped_pod(
                resources_block(*self, *resources),
                old(pod)@,
                match runtime_class_name {
                    Some(name) => Some(name@),
                    None => None,
                },
            ),
    {
        let block = self.resources_json(resources);
        let spec_part = get_or_null(pod, "spec");
        let containers = stamp_containers(&block, get_or_null(&spec_part, "containers"));
        let mut stamped = open_object(spec_part).with("containers", containers);
        if let Some(name) = runtime_class_name {
            stamped = stamped.with("runtimeClassName", Json::text(name));
        }
        let whole = open_object(pod.duplicate()).with("spec", stamped);
        *pod = whole;
    }
}

/// A guaranteed pod's requests are its limits, whatever was asked for.
pub proof fn guaranteed_requests_are_limits(resources: PodResources)
    ensures
        resources_block(QosClass::Guaranteed, resources) matches Some(block) && block.field(
            "requests"@,
        ) == block.field("limits"@) && block.field("limits"@) is Some,
{
    reveal_strlit("requests");
    reveal_strlit("limits");
    assert("requests"@.len() != "limits"@.len());
}

/// A burstable pod's requests lie below its limits, where the limits leave room
/// for that.
pub proof fn burstable_requests_are_below_limits(request: int, limit: int)
    requires
        limit > 1,
    ensures
        below_limit(request, limit) < limit,
        request < limit ==> below_limit(request, limit) == request,
{
}

/// The class reaches every container of a pod: each carries the block of the
/// class, or none where the class has none, and keeps whatever else it says.
pub proof fn the_class_reaches_every_container(
    class: QosClass,
    resources: PodResources,
    pod: JsonView,
    runtime_class: Option<Seq<char>>,
    items: Seq<JsonView>,
    i: int,
)
    requires
        is_pod_shaped(pod, class != QosClass::BestEffort),
        field_or_null(field_or_null(pod, "spec"@), "containers"@) == JsonView::Array(items),
        0 <= i < items.len(),
    ensures
        ({
            let block = resources_block(class, resources);
            let stamped = stamped_pod(block, pod, runtime_class);
            let specified = field_or_null(stamped, "spec"@);
            &&& field_or_null(specified, "containers"@) matches JsonView::Array(containers)
            &&& containers.len() == items.len()
            &&& containers[i].field("resources"@) == block
            &&& forall|key: Seq<char>|
                key != "resources"@ ==> #[trigger] containers[i].field(key) == items[i].field(key)
            &&& runtime_class matches Some(name) ==> specified.field("runtimeClassName"@) == Some(
                JsonView::Text(name),
            )
        }),
{
    reveal_strlit("containers");
    reveal_strlit("runtimeClassName");
    assert("containers"@.len() != "runtimeClassName"@.len());
}


/// The document says an amount of CPU in thousandths and of memory in mebibytes.
pub open spec fn says_amounts(amounts: Option<JsonView>, cpu: int, memory: int) -> bool {
    match amounts {
        Some(amounts) => {
            &&& amounts.field("cpu"@) == Some(JsonView::Text(decimal(cpu as nat) + "m"@))
            &&& amounts.field("memory"@) == Some(JsonView::Text(decimal(memory as nat) + "Mi"@))
        },
        None => false,
    }
}

/// What a class asks for: best effort nothing; the others limit CPU and memory
/// each to its own limit. The guaranteed class requests the limits. The
/// burstable class requests what was asked for where that is below the limit,
/// and otherwise one less than the limit, but never nothing.
pub proof fn a_class_asks_for_its_amounts(class: QosClass, resources: PodResources)
    ensures
        match resources_block(class, resources) {
            None => class is BestEffort,
            Some(block) => {
                let (cpu, memory) = (
                    resources.cpu_limit_millis as int,
                    resources.memory_limit_mi as int,
                );
                let (own_cpu, own_memory) = (
                    resources.cpu_request_millis as int,
                    resources.memory_request_mi as int,
                );
                &&& !(class is BestEffort)
                &&& says_amounts(block.field("limits"@), cpu, memory)
                &&& class is Guaranteed ==> says_amounts(block.field("requests"@), cpu, memory)
                &&& class is Burstable && own_cpu < cpu && own_memory < memory ==> says_amounts(
                    block.field("requests"@),
                    own_cpu,
                    own_memory,
                )
                &&& class is Burstable && own_cpu >= cpu > 1 && own_memory >= memory > 1
                    ==> says_amounts(block.field("requests"@), cpu - 1, memory - 1)
                &&& class is Burstable && own_cpu >= cpu > 1 && own_memory < memory
                    ==> says_amounts(block.field("requests"@), cpu - 1, own_memory)
                &&& class is Burstable && own_cpu < cpu && own_memory >= memory > 1
                    ==> says_amounts(block.field("requests"@), own_cpu, memory - 1)
            },
        },
{
    reveal_strlit("requests");
    reveal_strlit("limits");
    reveal_strlit("cpu");
    reveal_strlit("memory");
    assert("requests"@.len() != "limits"@.len());
    assert("cpu"@.len() != "memory"@.len());
}

/// Stamping a class onto a pod changes its containers and, where one is given,
/// its runtime class, and nothing else that the pod says.
pub proof fn stamping_keeps_the_rest(
    block: Option<JsonView>,
    pod: JsonView,
    runtime_class: Option<Seq<char>>,
    key: Seq<char>,
)
    ensures
        key != "spec"@ ==> stamped_pod(block, pod, runtime_class).field(key) == pod.field(key),
        can_open(pod) && key != "containers"@ && key != "runtimeClassName"@ ==> field_or_null(
            stamped_pod(block, pod, runtime_class),
            "spec"@,
        ).field(key) == field_or_null(pod, "spec"@).field(key),
        can_open(pod) && runtime_class is None ==> field_or_null(
            stamped_pod(block, pod, runtime_class),
            "spec"@,
        ).field("runtimeClassName"@) == field_or_null(pod, "spec"@).field("runtimeClassName"@),
{
    reveal_strlit("containers");
    reveal_strlit("runtimeClassName");
    assert("containers"@.len() != "runtimeClassName"@.len());
}

}
