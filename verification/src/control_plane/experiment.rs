//! The vocabulary of a control plane experiment: what it asks of the API, what
//! comes back, and what it does next.
//!
//! An experiment is a function from the replies so far to its next step. The
//! caller performs the request of a step, appends the reply to the log and asks
//! again, until the step is a result.

use super::manifests::{create_minimal_object, minimal_object};
use crate::json::{empty_object, Json, JsonView};
use crate::objects::KubernetesObject;
use crate::text::{holds_text, joined4, string_from, texts};
use vstd::prelude::*;
use vstd::string::*;

verus! {

/// One of the two tenants of an experiment: the first owns what the second
/// tries to reach.
#[derive(Debug, Clone, Copy, PartialEq, Eq, Structural)]
pub enum Tenant {
    First,
    Second,
}

/// What a list of named values says.
pub open spec fn pair_views(pairs: Seq<(String, String)>) -> Seq<(Seq<char>, Seq<char>)> {
    Seq::new(pairs.len(), |i: int| (pairs[i].0@, pairs[i].1@))
}

/// The value that a list of named values gives to `key`: the last one of the
/// name.
pub open spec fn value_of(pairs: Seq<(Seq<char>, Seq<char>)>, key: Seq<char>) -> Option<Seq<char>>
    decreases pairs.len(),
{
    if pairs.len() == 0 {
        None
    } else if pairs.last().0 == key {
        Some(pairs.last().1)
    } else {
        value_of(pairs.drop_last(), key)
    }
}

/// The value that a list of named values gives to `key`.
pub fn find_value<'a>(pairs: &'a Vec<(String, String)>, key: &str) -> (r: Option<&'a String>)
    ensures
        match r {
            Some(value) => value_of(pair_views(pairs@), key@) == Some(value@),
            None => value_of(pair_views(pairs@), key@) is None,
        },
{
    let wanted = string_from(key);
    let mut i: usize = pairs.len();
    assert(pair_views(pairs@).take(pairs.len() as int) =~= pair_views(pairs@));
    while i > 0
        invariant
            i <= pairs.len(),
            wanted@ == key@,
            value_of(pair_views(pairs@), key@) == value_of(
                pair_views(pairs@).take(i as int),
                key@,
            ),
        decreases i,
    {
        let ghost seen = pair_views(pairs@).take(i as int);
        i -= 1;
        assert(seen.drop_last() =~= pair_views(pairs@).take(i as int));
        assert(seen.last() == (pairs[i as int].0@, pairs[i as int].1@));
        if pairs[i].0 == wanted {
            return Some(&pairs[i].1);
        }
    }
    None
}

/// An object as it is sent to the API server.
#[derive(Debug)]
pub struct DynamicObject {
    pub api_version: String,
    pub kind: String,
    pub name: String,
    pub annotations: Vec<(String, String)>,
    pub labels: Vec<(String, String)>,
    pub data: Json,
}

/// What an object to be sent says.
pub struct DynamicObjectView {
    pub api_version: Seq<char>,
    pub kind: Seq<char>,
    pub name: Seq<char>,
    pub annotations: Seq<(Seq<char>, Seq<char>)>,
    pub labels: Seq<(Seq<char>, Seq<char>)>,
    pub data: JsonView,
}

impl View for DynamicObject {
    type V = DynamicObjectView;

    open spec fn view(&self) -> DynamicObjectView {
        DynamicObjectView {
            api_version: self.api_version@,
            kind: self.kind@,
            name: self.name@,
            annotations: pair_views(self.annotations@),
            labels: pair_views(self.labels@),
            data: self.data@,
        }
    }
}

/// What an object called `name` says whose annotation names its creator.
pub open spec fn dynamic_object(
    kind: KubernetesObject,
    name: Seq<char>,
    data: JsonView,
    created_by: Seq<char>,
) -> DynamicObjectView {
    DynamicObjectView {
        api_version: kind.api_name(),
        kind: kind.kind_name(),
        name,
        annotations: seq![("kumuteva.io/created-by-tenant"@, created_by)],
        labels: seq![],
        data,
    }
}

/// Makes an object whose annotation names its creator.
pub fn create_dynamic_object(
    kind: &KubernetesObject,
    name: &str,
    data: Json,
    created_by: &str,
) -> (r: DynamicObject)
    ensures
        r@ == dynamic_object(*kind, name@, data@, created_by@),
{
    let annotations = vec![
        (string_from("kumuteva.io/created-by-tenant"), string_from(created_by)),
    ];
    let labels: Vec<(String, String)> = Vec::new();
    assert(pair_views(annotations@) =~= seq![("kumuteva.io/created-by-tenant"@, created_by@)]);
    assert(pair_views(labels@) =~= seq![]);
    DynamicObject {
        api_version: string_from(kind.api_version()),
        kind: string_from(kind.kind()),
        name: string_from(name),
        annotations,
        labels,
        data,
    }
}

/// An object as the API server returned it: of its metadata the parts that
/// decide, and all of it written out as one text.
#[derive(Debug)]
pub struct Observed {
    pub name: Option<String>,
    pub namespace: Option<String>,
    pub labels: Option<Vec<(String, String)>>,
    pub annotations: Option<Vec<(String, String)>>,
    /// The whole metadata, written so that equal metadata gives equal text.
    pub metadata: String,
}

/// What a returned object says.
pub struct ObservedView {
    pub name: Option<Seq<char>>,
    pub namespace: Option<Seq<char>>,
    pub labels: Option<Seq<(Seq<char>, Seq<char>)>>,
    pub annotations: Option<Seq<(Seq<char>, Seq<char>)>>,
    pub metadata: Seq<char>,
}

/// What an optional text says.
pub open spec fn text_view(text: Option<String>) -> Option<Seq<char>> {
    match text {
        Some(s) => Some(s@),
        None => None,
    }
}

/// What an optional list of named values says.
pub open spec fn pairs_view(pairs: Option<Vec<(String, String)>>) -> Option<
    Seq<(Seq<char>, Seq<char>)>,
> {
    match pairs {
        Some(list) => Some(pair_views(list@)),
        None => None,
    }
}

impl View for Observed {
    type V = ObservedView;

    open spec fn view(&self) -> ObservedView {
        ObservedView {
            name: text_view(self.name),
            namespace: text_view(self.namespace),
            labels: pairs_view(self.labels),
            annotations: pairs_view(self.annotations),
            metadata: self.metadata@,
        }
    }
}

impl ObservedView {
    /// The label `key`, where the object has labels and that one.
    pub open spec fn label(self, key: Seq<char>) -> Option<Seq<char>> {
        match self.labels {
            Some(labels) => value_of(labels, key),
            None => None,
        }
    }

    /// The annotation `key`.
    pub open spec fn annotation(self, key: Seq<char>) -> Option<Seq<char>> {
        match self.annotations {
            Some(annotations) => value_of(annotations, key),
            None => None,
        }
    }
}

impl Observed {
    /// The label `key`, where the object has labels and that one.
    pub fn label(&self, key: &str) -> (r: Option<&String>)
        ensures
            match r {
                Some(value) => self@.label(key@) == Some(value@),
                None => self@.label(key@) is None,
            },
    {
        match &self.labels {
            Some(labels) => find_value(labels, key),
            None => None,
        }
    }

    /// The annotation `key`.
    pub fn annotation(&self, key: &str) -> (r: Option<&String>)
        ensures
            match r {
                Some(value) => self@.annotation(key@) == Some(value@),
                None => self@.annotation(key@) is None,
            },
    {
        match &self.annotations {
            Some(annotations) => find_value(annotations, key),
            None => None,
        }
    }
}

/// Whether a returned object is the one that was asked for: some proxies answer
/// with an empty object in place of an error.
pub fn is_valid_get_result(obj: &Observed, expected_name: &str) -> (r: bool)
    ensures
        r == (obj@.name == Some(expected_name@)),
{
    match &obj.name {
        Some(name) => *name == string_from(expected_name),
        None => false,
    }
}

/// Whether a returned object has a name at all.
pub fn is_valid_object(obj: &Observed) -> (r: bool)
    ensures
        r == (obj@.name is Some),
{
    obj.name.is_some()
}

/// What an experiment asks its caller to do.
#[derive(Debug)]
pub enum Request {
    Create { tenant: Tenant, object: DynamicObject, namespace: Option<String> },
    Get { tenant: Tenant, name: String, namespace: Option<String> },
    List { tenant: Tenant, namespace: Option<String> },
    /// Applies a merge patch.
    Patch { tenant: Tenant, name: String, patch: Json, namespace: Option<String> },
    Delete { tenant: Tenant, name: String, namespace: Option<String> },
    /// Asks whether the object is there.
    Exists { tenant: Tenant, name: String, namespace: Option<String> },
    /// Waits until the object is there.
    AwaitCreation { tenant: Tenant, name: String, namespace: Option<String> },
    /// Asks whether the tenant may delete objects of the kind.
    MayDelete { tenant: Tenant, plural: String },
    /// Deletes a persistent volume claim in the namespace `within`.
    DeleteClaim { tenant: Tenant, name: String, within: String },
    /// Looks for an object of the kind that is already there.
    FindExisting { tenant: Tenant },
    /// Waits for so many milliseconds.
    Sleep { millis: u64 },
    /// Creates a pod in the namespace `within`.
    CreatePod { tenant: Tenant, manifest: Json, within: String },
    /// Deletes a pod in the namespace `within`.
    DeletePod { tenant: Tenant, name: String, within: String },
}

/// What a request says.
pub enum RequestView {
    Create { tenant: Tenant, object: DynamicObjectView, namespace: Option<Seq<char>> },
    Get { tenant: Tenant, name: Seq<char>, namespace: Option<Seq<char>> },
    List { tenant: Tenant, namespace: Option<Seq<char>> },
    Patch { tenant: Tenant, name: Seq<char>, patch: JsonView, namespace: Option<Seq<char>> },
    Delete { tenant: Tenant, name: Seq<char>, namespace: Option<Seq<char>> },
    Exists { tenant: Tenant, name: Seq<char>, namespace: Option<Seq<char>> },
    AwaitCreation { tenant: Tenant, name: Seq<char>, namespace: Option<Seq<char>> },
    MayDelete { tenant: Tenant, plural: Seq<char> },
    DeleteClaim { tenant: Tenant, name: Seq<char>, within: Seq<char> },
    FindExisting { tenant: Tenant },
    Sleep { millis: u64 },
    CreatePod { tenant: Tenant, manifest: JsonView, within: Seq<char> },
    DeletePod { tenant: Tenant, name: Seq<char>, within: Seq<char> },
}

impl View for Request {
    type V = RequestView;

    open spec fn view(&self) -> RequestView {
        match *self {
            Request::Create { tenant, object, namespace } => RequestView::Create {
                tenant,
                object: object@,
                namespace: text_view(namespace),
            },
            Request::Get { tenant, name, namespace } => RequestView::Get {
                tenant,
                name: name@,
                namespace: text_view(namespace),
            },
            Request::List { tenant, namespace } => RequestView::List {
                tenant,
                namespace: text_view(namespace),
            },
            Request::Patch { tenant, name, patch, namespace } => RequestView::Patch {
                tenant,
                name: name@,
                patch: patch@,
                namespace: text_view(namespace),
            },
            Request::Delete { tenant, name, namespace } => RequestView::Delete {
                tenant,
                name: name@,
                namespace: text_view(namespace),
            },
            Request::Exists { tenant, name, namespace } => RequestView::Exists {
                tenant,
                name: name@,
                namespace: text_view(namespace),
            },
            Request::AwaitCreation { tenant, name, namespace } => RequestView::AwaitCreation {
                tenant,
                name: name@,
                namespace: text_view(namespace),
            },
            Request::MayDelete { tenant, plural } => RequestView::MayDelete {
                tenant,
                plural: plural@,
            },
            Request::DeleteClaim { tenant, name, within } => RequestView::DeleteClaim {
                tenant,
                name: name@,
                within: within@,
            },
            Request::FindExisting { tenant } => RequestView::FindExisting { tenant },
            Request::Sleep { millis } => RequestView::Sleep { millis },
            Request::CreatePod { tenant, manifest, within } => RequestView::CreatePod {
                tenant,
                manifest: manifest@,
                within: within@,
            },
            Request::DeletePod { tenant, name, within } => RequestView::DeletePod {
                tenant,
                name: name@,
                within: within@,
            },
        }
    }
}

/// What came back from a request.
#[derive(Debug)]
pub enum Reply {
    /// It failed, with this message; `debug` is the whole error as debug output
    /// writes it, with what caused it.
    Failed { message: String, debug: String },
    /// It was done, and nothing came back that matters.
    Done,
    /// An object.
    Object(Observed),
    /// A list of objects.
    Items(Vec<Observed>),
    /// Yes or no.
    Answer(bool),
    /// The name of an object.
    Name(String),
}

/// What a reply says.
pub enum ReplyView {
    Failed { message: Seq<char>, debug: Seq<char> },
    Done,
    Object(ObservedView),
    Items(Seq<ObservedView>),
    Answer(bool),
    Name(Seq<char>),
}

/// What a list of returned objects says.
pub open spec fn observed_views(items: Seq<Observed>) -> Seq<ObservedView> {
    Seq::new(items.len(), |i: int| items[i]@)
}

impl View for Reply {
    type V = ReplyView;

    open spec fn view(&self) -> ReplyView {
        match *self {
            Reply::Failed { message, debug } => ReplyView::Failed {
                message: message@,
                debug: debug@,
            },
            Reply::Done => ReplyView::Done,
            Reply::Object(object) => ReplyView::Object(object@),
            Reply::Items(items) => ReplyView::Items(observed_views(items@)),
            Reply::Answer(yes) => ReplyView::Answer(yes),
            Reply::Name(name) => ReplyView::Name(name@),
        }
    }
}

/// The names of the objects in a list.
pub open spec fn name_set(items: Seq<ObservedView>) -> Set<Seq<char>>
    decreases items.len(),
{
    if items.len() == 0 {
        Set::empty()
    } else {
        match items.last().name {
            Some(name) => name_set(items.drop_last()).insert(name),
            None => name_set(items.drop_last()),
        }
    }
}

/// What a log of replies says.
pub open spec fn log_view(log: Seq<Reply>) -> Seq<ReplyView> {
    Seq::new(log.len(), |i: int| log[i]@)
}

impl ReplyView {
    /// The request failed.
    pub open spec fn failed(self) -> bool {
        self is Failed
    }

    /// The message of a failure, and nothing of any other reply.
    pub open spec fn message(self) -> Seq<char> {
        match self {
            ReplyView::Failed { message, .. } => message,
            _ => Seq::empty(),
        }
    }

    /// The whole error of a failure as debug output writes it, and nothing of any
    /// other reply.
    pub open spec fn debug(self) -> Seq<char> {
        match self {
            ReplyView::Failed { debug, .. } => debug,
            _ => Seq::empty(),
        }
    }

    /// The reply is an object called `name`.
    pub open spec fn is_object_named(self, name: Seq<char>) -> bool {
        match self {
            ReplyView::Object(object) => object.name == Some(name),
            _ => false,
        }
    }

    /// The label `key` of the object that came back.
    pub open spec fn label(self, key: Seq<char>) -> Option<Seq<char>> {
        match self {
            ReplyView::Object(object) => object.label(key),
            _ => None,
        }
    }

    /// The objects of a list.
    pub open spec fn items(self) -> Seq<ObservedView> {
        match self {
            ReplyView::Items(items) => items,
            _ => Seq::empty(),
        }
    }

    /// The name of the first object in a list, where the list has one and that
    /// one has a name.
    pub open spec fn first_name(self) -> Option<Seq<char>> {
        match self {
            ReplyView::Items(items) => if items.len() > 0 {
                items[0].name
            } else {
                None
            },
            _ => None,
        }
    }
}

/// A failure that nothing else caused.
pub open spec fn plain_failure(message: Seq<char>) -> ReplyView {
    ReplyView::Failed { message, debug: message }
}

impl Reply {
    /// Whether the request failed.
    pub fn failed(&self) -> (r: bool)
        ensures
            r == self@.failed(),
    {
        matches!(self, Reply::Failed { .. })
    }

    /// The message of a failure, and nothing of any other reply.
    pub fn message(&self) -> (r: String)
        ensures
            r@ == self@.message(),
    {
        match self {
            Reply::Failed { message, .. } => message.clone(),
            _ => String::new(),
        }
    }

    /// The whole error of a failure as debug output writes it, and nothing of any
    /// other reply.
    pub fn debug(&self) -> (r: String)
        ensures
            r@ == self@.debug(),
    {
        match self {
            Reply::Failed { debug, .. } => debug.clone(),
            _ => String::new(),
        }
    }

    /// A failure that nothing else caused: debug output writes its message.
    pub fn failure(message: &str) -> (r: Reply)
        ensures
            r@ == plain_failure(message@),
    {
        Reply::Failed { message: string_from(message), debug: string_from(message) }
    }

    /// Whether the reply is an object called `name`.
    pub fn is_object_named(&self, name: &str) -> (r: bool)
        ensures
            r == self@.is_object_named(name@),
    {
        match self {
            Reply::Object(object) => is_valid_get_result(object, name),
            _ => false,
        }
    }

    /// The label `key` of the object that came back.
    pub fn label(&self, key: &str) -> (r: Option<&String>)
        ensures
            match r {
                Some(value) => self@.label(key@) == Some(value@),
                None => self@.label(key@) is None,
            },
    {
        match self {
            Reply::Object(object) => object.label(key),
            _ => None,
        }
    }

    /// How many objects a list holds.
    pub fn item_count(&self) -> (r: usize)
        ensures
            r == self@.items().len(),
    {
        match self {
            Reply::Items(items) => items.len(),
            _ => 0,
        }
    }

    /// The names of the objects in a list, each once.
    pub fn distinct_names(&self) -> (r: Vec<String>)
        ensures
            texts(r@).no_duplicates(),
            texts(r@).to_set() == name_set(self@.items()),
            r.len() == name_set(self@.items()).len(),
    {
        let mut out: Vec<String> = Vec::new();
        assert(texts(out@).to_set() =~= Set::<Seq<char>>::empty());
        if let Reply::Items(items) = self {
            let ghost views = observed_views(items@);
            let mut i: usize = 0;
            assert(views.take(0) =~= seq![]);
            while i < items.len()
                invariant
                    i <= items.len(),
                    views == observed_views(items@),
                    texts(out@).no_duplicates(),
                    texts(out@).to_set() == name_set(views.take(i as int)),
                decreases items.len() - i,
            {
                let ghost seen = views.take(i + 1);
                assert(seen.drop_last() =~= views.take(i as int));
                assert(seen.last() == items[i as int]@);
                if let Some(name) = &items[i].name {
                    if !holds_text(&out, name) {
                        let ghost before = texts(out@);
                        out.push(name.clone());
                        assert(texts(out@) =~= before.push(name@));
                        assert(before.push(name@).to_set() =~= before.to_set().insert(name@)) by {
                            before.lemma_push_to_set_commute(name@);
                        }
                    } else {
                        assert(texts(out@).to_set().insert(name@) =~= texts(out@).to_set());
                    }
                }
                i += 1;
            }
            assert(views.take(items.len() as int) =~= views);
        } else {
            assert(self@.items() =~= seq![]);
        }
        proof {
            texts(out@).unique_seq_to_set();
        }
        out
    }

    /// The name of the first object in a list.
    pub fn first_name(&self) -> (r: Option<&String>)
        ensures
            match r {
                Some(name) => self@.first_name() == Some(name@),
                None => self@.first_name() is None,
            },
    {
        match self {
            Reply::Items(items) => if items.len() > 0 {
                match &items[0].name {
                    Some(name) => Some(name),
                    None => None,
                }
            } else {
                None
            },
            _ => None,
        }
    }
}

/// What an experiment does next: one more request, or its end.
#[derive(Debug)]
pub enum Step<T> {
    Ask(Request),
    Done(T),
    /// The run itself went wrong, with this message: no result can be given.
    Abort(String),
}

/// What a step says.
pub enum StepView<T> {
    Ask(RequestView),
    Done(T),
    Abort(Seq<char>),
}

impl<T: View> View for Step<T> {
    type V = StepView<T::V>;

    open spec fn view(&self) -> StepView<T::V> {
        match *self {
            Step::Ask(request) => StepView::Ask(request@),
            Step::Done(result) => StepView::Done(result@),
            Step::Abort(message) => StepView::Abort(message@),
        }
    }
}

/// One experiment: the kind it exercises, the name of its test object and the
/// namespace of the first tenant.
#[derive(Debug)]
pub struct Trial {
    pub kind: KubernetesObject,
    pub name: String,
    pub namespace: String,
}

/// What a trial says.
pub struct TrialView {
    pub kind: KubernetesObject,
    pub name: Seq<char>,
    pub namespace: Seq<char>,
}

impl View for Trial {
    type V = TrialView;

    open spec fn view(&self) -> TrialView {
        TrialView { kind: self.kind, name: self.name@, namespace: self.namespace@ }
    }
}

/// The namespace to name in a request: none for a kind that has none.
pub open spec fn namespace_param(kind: KubernetesObject, namespace: Seq<char>) -> Option<
    Seq<char>,
> {
    if kind.cluster_scoped() {
        None
    } else {
        Some(namespace)
    }
}

/// The namespace to name in a request: none for a kind that has none.
pub fn get_namespace_param<'a>(object_kind: &KubernetesObject, namespace: &'a str) -> (r: Option<
    &'a str,
>)
    ensures
        match r {
            Some(name) => namespace_param(*object_kind, namespace@) == Some(name@),
            None => namespace_param(*object_kind, namespace@) is None,
        },
{
    if object_kind.is_namespaced() {
        Some(namespace)
    } else {
        None
    }
}

/// The claim that a stateful set leaves behind for its first pod.
pub open spec fn claim_name(name: Seq<char>) -> Seq<char> {
    name + "-"@ + name + "-0"@
}

/// The claim that a stateful set leaves behind for its first pod.
pub fn claim_of(name: &str) -> (r: String)
    ensures
        r@ == claim_name(name@),
{
    joined4(name, "-", name, "-0")
}

/// A merge patch that sets one label.
pub open spec fn label_patch_view(key: Seq<char>, value: JsonView) -> JsonView {
    empty_object().with(
        "metadata"@,
        empty_object().with("labels"@, empty_object().with(key, value)),
    )
}

/// A merge patch that sets one label; null takes it away.
pub fn label_patch(key: &str, value: Json) -> (r: Json)
    ensures
        r@ == label_patch_view(key@, value@),
{
    Json::object().with(
        "metadata",
        Json::object().with("labels", Json::object().with(key, value)),
    )
}

impl TrialView {
    /// The namespace that the requests name.
    pub open spec fn scope(self) -> Option<Seq<char>> {
        namespace_param(self.kind, self.namespace)
    }

    /// The request that creates the test object.
    pub open spec fn create(self, tenant: Tenant, created_by: Seq<char>) -> RequestView {
        RequestView::Create {
            tenant,
            object: dynamic_object(
                self.kind,
                self.name,
                minimal_object(self.kind, self.name, self.namespace),
                created_by,
            ),
            namespace: self.scope(),
        }
    }

    /// The request that reads the test object.
    pub open spec fn get(self, tenant: Tenant) -> RequestView {
        RequestView::Get { tenant, name: self.name, namespace: self.scope() }
    }

    /// The request that deletes the test object.
    pub open spec fn delete(self, tenant: Tenant) -> RequestView {
        RequestView::Delete { tenant, name: self.name, namespace: self.scope() }
    }

    /// The request that waits for the test object.
    pub open spec fn await_creation(self, tenant: Tenant) -> RequestView {
        RequestView::AwaitCreation { tenant, name: self.name, namespace: self.scope() }
    }

    /// The request that sets a label of the test object.
    pub open spec fn patch(self, tenant: Tenant, patch: JsonView) -> RequestView {
        RequestView::Patch { tenant, name: self.name, patch, namespace: self.scope() }
    }

    /// The claim that has to go with the test object, where there is one.
    pub open spec fn claims(self) -> Seq<RequestView> {
        if self.kind is StatefulSet {
            seq![
                RequestView::DeleteClaim {
                    tenant: Tenant::First,
                    name: claim_name(self.name),
                    within: self.namespace,
                },
            ]
        } else {
            seq![]
        }
    }

    /// The requests that take away the test object and what it leaves behind.
    pub open spec fn cleanup(self) -> Seq<RequestView> {
        seq![self.delete(Tenant::First)] + self.claims()
    }
}

/// What is left to do once the result stands: the requests of `chores`, of
/// which the first `done` are behind, and then the result.
pub open spec fn chores_then<T>(chores: Seq<RequestView>, done: int, result: T) -> StepView<T> {
    if 0 <= done < chores.len() {
        StepView::Ask(chores[done])
    } else {
        StepView::Done(result)
    }
}

impl Trial {
    /// The namespace that the requests name.
    pub fn scope(&self) -> (r: Option<String>)
        ensures
            text_view(r) == self@.scope(),
    {
        match get_namespace_param(&self.kind, &self.namespace) {
            Some(namespace) => Some(string_from(namespace)),
            None => None,
        }
    }

    /// The request that creates the test object.
    pub fn create(&self, tenant: Tenant, created_by: &str) -> (r: Request)
        ensures
            r@ == self@.create(tenant, created_by@),
    {
        let data = create_minimal_object(&self.kind, &self.name, &self.namespace);
        Request::Create {
            tenant,
            object: create_dynamic_object(&self.kind, &self.name, data, created_by),
            namespace: self.scope(),
        }
    }

    /// The request that reads the test object.
    pub fn get(&self, tenant: Tenant) -> (r: Request)
        ensures
            r@ == self@.get(tenant),
    {
        Request::Get { tenant, name: self.name.clone(), namespace: self.scope() }
    }

    /// The request that deletes the test object.
    pub fn delete(&self, tenant: Tenant) -> (r: Request)
        ensures
            r@ == self@.delete(tenant),
    {
        Request::Delete { tenant, name: self.name.clone(), namespace: self.scope() }
    }

    /// The request that waits for the test object.
    pub fn await_creation(&self, tenant: Tenant) -> (r: Request)
        ensures
            r@ == self@.await_creation(tenant),
    {
        Request::AwaitCreation { tenant, name: self.name.clone(), namespace: self.scope() }
    }

    /// The request that sets a label of the test object.
    pub fn patch(&self, tenant: Tenant, patch: Json) -> (r: Request)
        ensures
            r@ == self@.patch(tenant, patch@),
    {
        Request::Patch { tenant, name: self.name.clone(), patch, namespace: self.scope() }
    }

    /// The request that deletes the claim a stateful set leaves behind.
    pub fn delete_claim(&self) -> (r: Request)
        requires
            self@.kind is StatefulSet,
        ensures
            r@ == self@.claims()[0],
    {
        Request::DeleteClaim {
            tenant: Tenant::First,
            name: claim_of(&self.name),
            within: self.namespace.clone(),
        }
    }

    /// The next step once the result stands: cleaning up after the test object,
    /// of which `done` requests are behind, and then the result.
    pub fn cleanup_test_resource<T: View>(&self, done: usize, result: T) -> (r: Step<T>)
        ensures
            r@ == chores_then(self@.cleanup(), done as int, result@),
    {
        if done == 0 {
            Step::Ask(self.delete(Tenant::First))
        } else if done == 1 && matches!(self.kind, KubernetesObject::StatefulSet) {
            assert(self@.cleanup()[1] == self@.claims()[0]);
            Step::Ask(self.delete_claim())
        } else {
            Step::Done(result)
        }
    }

    /// The next step once the test object itself is gone: taking away what it
    /// left behind, of which `done` requests are behind, and then the result.
    pub fn cleanup_claims<T: View>(&self, done: usize, result: T) -> (r: Step<T>)
        ensures
            r@ == chores_then(self@.claims(), done as int, result@),
    {
        if done == 0 && matches!(self.kind, KubernetesObject::StatefulSet) {
            Step::Ask(self.delete_claim())
        } else {
            Step::Done(result)
        }
    }
}

}
