//! Manual tests: the same operations one at a time, with every step told to the
//! person at the terminal.
//!
//! A manual test is a function from the replies so far to its next turn: lines
//! to print, and then the request to perform, if there is one more.

use super::errors::{is_absence_error, is_authorization_error, names_absence, names_refusal};
use super::experiment::{
    label_patch, label_patch_view, log_view, observed_views, pair_views, pairs_view, text_view,
    Observed, ObservedView, Reply, ReplyView, Request, RequestView, Tenant, Trial, TrialView,
};
use super::names::{fresh_name, is_name_with};
use super::resources::ControlPlaneOperation;
use crate::assessment::AssessableOperation;
use crate::json::{Json, JsonView};
use crate::objects::KubernetesObject;
use crate::text::{
    contains, debug_of, debug_option, debug_option_of, debug_text, decimal, decimal_of, has_text,
    join, joined, joined3, joined4, joined5, joined6, joined7, lowercase, lowercase_of, separated,
    string_from, texts,
};
use vstd::prelude::*;
use vstd::string::*;

verus! {

/// One turn of a manual test.
#[derive(Debug)]
pub struct Turn {
    /// What to print.
    pub lines: Vec<String>,
    /// What to do then; nothing where the test is over.
    pub request: Option<Request>,
}

/// What a turn says.
pub struct TurnView {
    pub lines: Seq<Seq<char>>,
    pub request: Option<RequestView>,
}

impl View for Turn {
    type V = TurnView;

    open spec fn view(&self) -> TurnView {
        TurnView {
            lines: texts(self.lines@),
            request: match self.request {
                Some(request) => Some(request@),
                None => None,
            },
        }
    }
}

/// The rule above and below a test.
pub open spec fn double_rule() -> Seq<char> {
    "======================================================="@
}

/// The rule between the parts of a test.
pub open spec fn single_rule() -> Seq<char> {
    "-------------------------------------------------------"@
}

/// A truth value as text.
pub open spec fn bool_text(b: bool) -> Seq<char> {
    if b {
        "true"@
    } else {
        "false"@
    }
}

/// A truth value as text.
fn bool_of(b: bool) -> (r: &'static str)
    ensures
        r@ == bool_text(b),
{
    if b {
        "true"
    } else {
        "false"
    }
}

/// The name of the operation.
pub open spec fn operation_name(operation: ControlPlaneOperation) -> Seq<char> {
    match operation {
        ControlPlaneOperation::Create => "Create"@,
        ControlPlaneOperation::Get => "Get"@,
        ControlPlaneOperation::List => "List"@,
        ControlPlaneOperation::Update => "Update"@,
        ControlPlaneOperation::Delete => "Delete"@,
    }
}

/// The name of the operation.
fn name_of_operation(operation: &ControlPlaneOperation) -> (r: &'static str)
    ensures
        r@ == operation_name(*operation),
{
    match operation {
        ControlPlaneOperation::Create => "Create",
        ControlPlaneOperation::Get => "Get",
        ControlPlaneOperation::List => "List",
        ControlPlaneOperation::Update => "Update",
        ControlPlaneOperation::Delete => "Delete",
    }
}

/// What came of an operation, told to the person at the terminal.
pub open spec fn operation_result(operation: Seq<char>, reply: ReplyView) -> Seq<char> {
    let said = "  RESULT: "@ + operation;
    if !reply.failed() {
        said + " SUCCEEDED (potential isolation breach!)"@
    } else if names_refusal(reply.message()) {
        said + " BLOCKED (Forbidden/NotAllowed) - GOOD ISOLATION"@
    } else if names_absence(reply.message()) {
        said + " BLOCKED (NotFound) - HARD ISOLATION"@
    } else {
        said + " FAILED: "@ + reply.message()
    }
}

/// What came of an operation, told to the person at the terminal.
pub fn print_operation_result(operation: &str, reply: &Reply) -> (r: String)
    ensures
        r@ == operation_result(operation@, reply@),
{
    if !reply.failed() {
        return joined3("  RESULT: ", operation, " SUCCEEDED (potential isolation breach!)");
    }
    let error = reply.message();
    if is_authorization_error(&error) {
        joined3("  RESULT: ", operation, " BLOCKED (Forbidden/NotAllowed) - GOOD ISOLATION")
    } else if is_absence_error(&error) {
        joined3("  RESULT: ", operation, " BLOCKED (NotFound) - HARD ISOLATION")
    } else {
        joined4("  RESULT: ", operation, " FAILED: ", &error)
    }
}

/// The trial of a manual test of `kind`, with a fresh name for its object.
pub fn manual_trial(kind: KubernetesObject, namespace: &str) -> (r: Trial)
    ensures
        r@.kind == kind,
        r@.namespace == namespace@,
        is_name_with(r@.name, "manual-test-"@),
{
    Trial { kind, name: fresh_name("manual-test-"), namespace: string_from(namespace) }
}

/// The trial of a manual autonomy test of `kind`, with a fresh name for its
/// object.
pub fn manual_autonomy_trial(kind: KubernetesObject, namespace: &str) -> (r: Trial)
    ensures
        r@.kind == kind,
        r@.namespace == namespace@,
        is_name_with(r@.name, "autonomy-test-"@),
{
    Trial { kind, name: fresh_name("autonomy-test-"), namespace: string_from(namespace) }
}

/// A manual test of what one tenant can do to another.
#[derive(Debug)]
pub struct ManualTest {
    pub trial: Trial,
    /// The namespace of the second tenant.
    pub other_namespace: String,
    pub operation: ControlPlaneOperation,
    /// Whether what the test creates is deleted afterwards.
    pub cleanup: bool,
}

/// What a manual test says.
pub struct ManualView {
    pub trial: TrialView,
    pub other_namespace: Seq<char>,
    pub operation: ControlPlaneOperation,
    pub cleanup: bool,
}

impl View for ManualTest {
    type V = ManualView;

    open spec fn view(&self) -> ManualView {
        ManualView {
            trial: self.trial@,
            other_namespace: self.other_namespace@,
            operation: self.operation,
            cleanup: self.cleanup,
        }
    }
}

/// What the test says before it begins.
pub open spec fn opening(test: ManualView) -> Seq<Seq<char>> {
    let kind = test.trial.kind;
    seq![
        double_rule(),
        "MANUAL CROSS-TENANT TEST"@,
        double_rule(),
        "Resource: "@ + kind.kind_name() + " ("@ + kind.api_name() + ")"@,
        "Operation: "@ + operation_name(test.operation),
        "Tenant1 namespace: "@ + test.trial.namespace,
        "Tenant2 namespace: "@ + test.other_namespace,
        "Is namespaced: "@ + bool_text(!kind.cluster_scoped()),
        "Cleanup: "@ + bool_text(test.cleanup),
        single_rule(),
        "\n[STEP 1] Creating test object as Tenant1..."@,
        "  Object name: "@ + test.trial.name,
        "  Namespace: "@ + debug_option(test.trial.scope()),
    ]
}

/// What the second tenant is about to try.
pub open spec fn attempt_line(operation: ControlPlaneOperation) -> Seq<char> {
    match operation {
        ControlPlaneOperation::Create =>
            "  Tenant2 trying to CREATE with same name in tenant1's namespace..."@,
        ControlPlaneOperation::Get => "  Tenant2 trying to GET tenant1's object..."@,
        ControlPlaneOperation::List => "  Tenant2 trying to LIST in tenant1's namespace..."@,
        ControlPlaneOperation::Update => "  Tenant2 trying to UPDATE tenant1's object..."@,
        ControlPlaneOperation::Delete => "  Tenant2 trying to DELETE tenant1's object..."@,
    }
}

/// What the second tenant tries.
pub open spec fn attempt_request(test: ManualView) -> RequestView {
    match test.operation {
        ControlPlaneOperation::Create => test.trial.create(Tenant::Second, "tenant2"@),
        ControlPlaneOperation::Get => test.trial.get(Tenant::Second),
        ControlPlaneOperation::List => RequestView::List {
            tenant: Tenant::Second,
            namespace: test.trial.scope(),
        },
        ControlPlaneOperation::Update => test.trial.patch(
            Tenant::Second,
            label_patch_view("malicious-update"@, JsonView::Text("tenant2-was-here"@)),
        ),
        ControlPlaneOperation::Delete => test.trial.delete(Tenant::Second),
    }
}

/// Named values as Rust's debug output writes them.
pub open spec fn debug_pair_texts(pairs: Seq<(Seq<char>, Seq<char>)>) -> Seq<Seq<char>> {
    Seq::new(pairs.len(), |i: int| debug_text(pairs[i].0) + ": "@ + debug_text(pairs[i].1))
}

/// An optional list of named values as Rust's debug output writes it.
pub open spec fn debug_pairs(pairs: Option<Seq<(Seq<char>, Seq<char>)>>) -> Seq<char> {
    match pairs {
        Some(list) => "Some({"@ + separated(debug_pair_texts(list), ", "@) + "})"@,
        None => "None"@,
    }
}

/// What the second tenant's read came back with.
pub open spec fn get_lines(trial: TrialView, reply: ReplyView) -> Seq<Seq<char>> {
    match reply {
        ReplyView::Object(object) => seq![
            "  [DETAILS] Object retrieved:"@,
            "    Name: "@ + debug_option(object.name),
            "    Namespace: "@ + debug_option(object.namespace),
            "    Annotations: "@ + debug_pairs(object.annotations),
        ] + if object.name == Some(trial.name) {
            seq!["  RESULT: GET SUCCEEDED with valid object - ISOLATION BREACH!"@]
        } else {
            seq![
                "  RESULT: GET returned Ok but with EMPTY/INVALID object - GOOD ISOLATION"@,
                "    (Proxy returned empty object instead of error - this is hard isolation)"@,
            ]
        },
        other => seq![operation_result("GET"@, other)],
    }
}

/// The name of a listed object.
pub open spec fn shown_name(item: ObservedView) -> Seq<char> {
    match item.name {
        Some(name) => name,
        None => "<unnamed>"@,
    }
}

/// Who created a listed object.
pub open spec fn shown_creator(item: ObservedView) -> Seq<char> {
    match item.annotation("kumuteva.io/created-by-tenant"@) {
        Some(creator) => creator,
        None => "<unknown>"@,
    }
}

/// What a list shows, one object after another; the test object is pointed out.
pub open spec fn item_lines(trial: TrialView, items: Seq<ObservedView>) -> Seq<Seq<char>>
    decreases items.len(),
{
    if items.len() == 0 {
        Seq::empty()
    } else {
        let item = items.last();
        item_lines(trial, items.drop_last()).push(
            "    - "@ + shown_name(item) + " (created by: "@ + shown_creator(item) + ")"@,
        ) + if shown_name(item) == trial.name {
            seq!["      ^^^ THIS IS TENANT1's TEST OBJECT - ISOLATION BREACH!"@]
        } else {
            seq![]
        }
    }
}

/// What came of the second tenant's attempt.
pub open spec fn result_lines(test: ManualView, reply: ReplyView) -> Seq<Seq<char>> {
    match test.operation {
        ControlPlaneOperation::Create => seq![operation_result("CREATE"@, reply)],
        ControlPlaneOperation::Get => get_lines(test.trial, reply),
        ControlPlaneOperation::List => if reply.failed() {
            seq!["  BLOCKED: "@ + reply.message()]
        } else {
            seq!["  SUCCESS: LIST returned "@ + decimal(reply.items().len()) + " items"@]
                + item_lines(test.trial, reply.items())
        },
        ControlPlaneOperation::Update => seq![operation_result("UPDATE"@, reply)] + if reply
            .failed() {
            seq![]
        } else {
            seq!["  [VERIFICATION] Checking if update was applied..."@]
        },
        ControlPlaneOperation::Delete => seq![operation_result("DELETE"@, reply)] + if reply
            .failed() {
            seq![]
        } else {
            seq!["  [VERIFICATION] Checking if object still exists..."@]
        },
    }
}

/// What the check after a successful attempt shows.
pub open spec fn check_lines(operation: ControlPlaneOperation, reply: ReplyView) -> Seq<Seq<char>> {
    if operation is Update {
        match reply {
            ReplyView::Object(object) => if object.label("malicious-update"@) is Some {
                seq!["    ISOLATION BREACH: Update was applied!"@]
            } else {
                seq!["    Update call succeeded but label not found (might be filtered)"@]
            },
            _ => seq![],
        }
    } else if !reply.failed() {
        seq!["    Object still exists (delete might have been blocked)"@]
    } else if has_text(reply.message(), "NotFound"@) {
        seq!["    ISOLATION BREACH: Object was deleted!"@]
    } else {
        seq!["    Verification error: "@ + reply.message()]
    }
}

/// How `kubectl` is told the namespace.
pub open spec fn kubectl_namespace(scope: Option<Seq<char>>) -> Seq<char> {
    match scope {
        Some(namespace) => "-n "@ + namespace,
        None => Seq::empty(),
    }
}

/// How to look at the test object by hand.
pub open spec fn inspection(trial: TrialView) -> Seq<Seq<char>> {
    let kind = lowercase(trial.kind.kind_name());
    let get = "  kubectl get "@ + kind + " "@ + trial.name + " "@ + kubectl_namespace(trial.scope())
        + " -o yaml"@;
    seq![
        "\n"@ + single_rule(),
        "MANUAL INSPECTION COMMANDS:"@,
        single_rule(),
        "# As Tenant1:"@,
        get,
        ""@,
        "# As Tenant2 (to verify cross-tenant access):"@,
        get,
        ""@,
    ] + if trial.kind.cluster_scoped() {
        seq![
            "# NOTE: This is a cluster-scoped resource (no namespace)"@,
            "  kubectl get "@ + kind + " "@ + trial.name + " -o yaml"@,
        ]
    } else {
        seq![]
    }
}

/// The last line of a test.
pub open spec fn last_rule() -> Seq<char> {
    double_rule() + "\n"@
}

/// What the test says once the attempt is behind it.
pub open spec fn closing(test: ManualView) -> Seq<Seq<char>> {
    inspection(test.trial) + if test.cleanup {
        seq!["\n[CLEANUP] Deleting test object..."@]
    } else {
        seq![
            "\n[NO CLEANUP] Test object left in place for manual inspection:"@,
            "  Resource: "@ + test.trial.kind.kind_name(),
            "  Name: "@ + test.trial.name,
            "  Namespace: "@ + debug_option(test.trial.scope()),
            "\nTo cleanup manually:"@,
            "  kubectl delete "@ + lowercase(test.trial.kind.kind_name()) + " "@ + test.trial.name
                + " "@ + kubectl_namespace(test.trial.scope()),
            last_rule(),
        ]
    }
}

/// The turn that ends the attempt and begins the cleaning up.
pub open spec fn closing_turn(test: ManualView, said: Seq<Seq<char>>) -> TurnView {
    TurnView {
        lines: said + closing(test),
        request: if test.cleanup {
            Some(test.trial.delete(Tenant::First))
        } else {
            None
        },
    }
}

/// The turns after the test object's deletion was asked for: `log` holds the
/// replies from that one on.
pub open spec fn cleanup_turn(test: ManualView, log: Seq<ReplyView>) -> TurnView {
    let told = if log[0].failed() {
        "  Cleanup failed: "@ + log[0].message()
    } else {
        "  Cleanup successful"@
    };
    if log.len() == 1 && test.trial.kind is StatefulSet {
        TurnView { lines: seq![told], request: Some(test.trial.claims()[0]) }
    } else if log.len() == 1 {
        TurnView { lines: seq![told, last_rule()], request: None }
    } else {
        TurnView { lines: seq![last_rule()], request: None }
    }
}

/// How many replies the attempt and the check after it take: a successful
/// update is read back, a successful delete after a pause.
pub open spec fn attempt_length(operation: ControlPlaneOperation, attempt: ReplyView) -> nat {
    if attempt.failed() {
        2
    } else {
        match operation {
            ControlPlaneOperation::Update => 3,
            ControlPlaneOperation::Delete => 4,
            _ => 2,
        }
    }
}

/// The manual cross-tenant test.
pub open spec fn manual_turn(test: ManualView, log: Seq<ReplyView>) -> TurnView {
    if log.len() == 0 {
        TurnView {
            lines: opening(test),
            request: Some(test.trial.create(Tenant::First, "tenant1"@)),
        }
    } else if log[0].failed() {
        TurnView {
            lines: seq![
                "  FAILED: "@ + log[0].message(),
                "\n[INFO] Cannot proceed with cross-tenant test - Tenant1 creation failed"@,
            ],
            request: None,
        }
    } else if log.len() == 1 {
        TurnView {
            lines: seq![
                "  SUCCESS: Object created by Tenant1"@,
                "\n[STEP 2] Tenant2 attempting "@ + test.operation.text() + " operation..."@,
                attempt_line(test.operation),
            ],
            request: Some(attempt_request(test)),
        }
    } else {
        let length = attempt_length(test.operation, log[1]);
        if log.len() < length {
            TurnView {
                lines: if log.len() == 2 {
                    result_lines(test, log[1])
                } else {
                    seq![]
                },
                request: Some(
                    if test.operation is Delete && log.len() == 2 {
                        RequestView::Sleep { millis: 500 }
                    } else {
                        test.trial.get(Tenant::First)
                    },
                ),
            }
        } else if log.len() == length {
            closing_turn(
                test,
                if length == 2 {
                    result_lines(test, log[1])
                } else {
                    check_lines(test.operation, log[length - 1])
                },
            )
        } else if test.cleanup {
            cleanup_turn(test, log.skip(length as int))
        } else {
            TurnView { lines: seq![], request: None }
        }
    }
}

/// What the test says before it begins.
fn open_test(test: &ManualTest) -> (r: Vec<String>)
    ensures
        texts(r@) == opening(test@),
{
    let kind = test.trial.kind;
    let scope = test.trial.scope();
    let lines = vec![
        string_from("======================================================="),
        string_from("MANUAL CROSS-TENANT TEST"),
        string_from("======================================================="),
        joined5("Resource: ", kind.kind(), " (", kind.api_version(), ")"),
        joined("Operation: ", name_of_operation(&test.operation)),
        joined("Tenant1 namespace: ", &test.trial.namespace),
        joined("Tenant2 namespace: ", &test.other_namespace),
        joined("Is namespaced: ", bool_of(kind.is_namespaced())),
        joined("Cleanup: ", bool_of(test.cleanup)),
        string_from("-------------------------------------------------------"),
        string_from("\n[STEP 1] Creating test object as Tenant1..."),
        joined("  Object name: ", &test.trial.name),
        joined("  Namespace: ", &debug_text_option(&scope)),
    ];
    assert(texts(lines@) =~= opening(test@));
    lines
}

/// An optional text as Rust's debug output writes it.
fn debug_text_option(text: &Option<String>) -> (r: String)
    ensures
        r@ == debug_option(text_view(*text)),
{
    match text {
        Some(s) => debug_option_of(Some(s.as_str())),
        None => debug_option_of(None),
    }
}

/// What the second tenant is about to try.
fn announce(operation: &ControlPlaneOperation) -> (r: &'static str)
    ensures
        r@ == attempt_line(*operation),
{
    match operation {
        ControlPlaneOperation::Create => {
            "  Tenant2 trying to CREATE with same name in tenant1's namespace..."
        },
        ControlPlaneOperation::Get => "  Tenant2 trying to GET tenant1's object...",
        ControlPlaneOperation::List => "  Tenant2 trying to LIST in tenant1's namespace...",
        ControlPlaneOperation::Update => "  Tenant2 trying to UPDATE tenant1's object...",
        ControlPlaneOperation::Delete => "  Tenant2 trying to DELETE tenant1's object...",
    }
}

/// What the second tenant tries.
fn attempt(test: &ManualTest) -> (r: Request)
    ensures
        r@ == attempt_request(test@),
{
    match test.operation {
        ControlPlaneOperation::Create => test.trial.create(Tenant::Second, "tenant2"),
        ControlPlaneOperation::Get => test.trial.get(Tenant::Second),
        ControlPlaneOperation::List => Request::List {
            tenant: Tenant::Second,
            namespace: test.trial.scope(),
        },
        ControlPlaneOperation::Update => test.trial.patch(
            Tenant::Second,
            label_patch("malicious-update", Json::text("tenant2-was-here")),
        ),
        ControlPlaneOperation::Delete => test.trial.delete(Tenant::Second),
    }
}

/// An optional list of named values as Rust's debug output writes it.
fn debug_of_pairs(pairs: &Option<Vec<(String, String)>>) -> (r: String)
    ensures
        r@ == debug_pairs(pairs_view(*pairs)),
{
    let list = match pairs {
        Some(list) => list,
        None => {
            return string_from("None");
        },
    };
    let mut parts: Vec<String> = Vec::new();
    let ghost views = pair_views(list@);
    let mut i: usize = 0;
    while i < list.len()
        invariant
            i <= list.len(),
            views == pair_views(list@),
            texts(parts@) == debug_pair_texts(views).take(i as int),
        decreases list.len() - i,
    {
        let ghost before = texts(parts@);
        parts.push(joined3(&debug_of(&list[i].0), ": ", &debug_of(&list[i].1)));
        assert(texts(parts@) =~= before.push(debug_pair_texts(views)[i as int]));
        assert(debug_pair_texts(views).take(i + 1) =~= debug_pair_texts(views).take(i as int).push(
            debug_pair_texts(views)[i as int],
        ));
        i += 1;
    }
    assert(debug_pair_texts(views).take(list.len() as int) =~= debug_pair_texts(views));
    joined3("Some({", &join(&parts, ", "), "})")
}

/// What the second tenant's read came back with.
fn tell_get(trial: &Trial, reply: &Reply) -> (r: Vec<String>)
    ensures
        texts(r@) == get_lines(trial@, reply@),
{
    match reply {
        Reply::Object(object) => {
            let mut lines = vec![
                string_from("  [DETAILS] Object retrieved:"),
                joined("    Name: ", &debug_text_option(&object.name)),
                joined("    Namespace: ", &debug_text_option(&object.namespace)),
                joined("    Annotations: ", &debug_of_pairs(&object.annotations)),
            ];
            if super::experiment::is_valid_get_result(object, &trial.name) {
                lines.push(
                    string_from("  RESULT: GET SUCCEEDED with valid object - ISOLATION BREACH!"),
                );
            } else {
                lines.push(
                    string_from(
                        "  RESULT: GET returned Ok but with EMPTY/INVALID object - GOOD ISOLATION",
                    ),
                );
                lines.push(
                    string_from(
                        "    (Proxy returned empty object instead of error - this is hard isolation)",
                    ),
                );
            }
            assert(texts(lines@) =~= get_lines(trial@, reply@));
            lines
        },
        _ => {
            let lines = vec![print_operation_result("GET", reply)];
            assert(texts(lines@) =~= get_lines(trial@, reply@));
            lines
        },
    }
}

/// What a list shows, one object after another, behind the lines so far.
fn tell_items(trial: &Trial, items: &Vec<Observed>, lines: &mut Vec<String>)
    ensures
        texts(final(lines)@) == texts(old(lines)@) + item_lines(
            trial@,
            observed_views(items@),
        ),
{
    let ghost views = observed_views(items@);
    let ghost before = texts(lines@);
    let mut i: usize = 0;
    assert(views.take(0) =~= seq![]);
    assert(texts(lines@) =~= before + item_lines(trial@, views.take(0)));
    while i < items.len()
        invariant
            i <= items.len(),
            views == observed_views(items@),
            texts(lines@) == before + item_lines(trial@, views.take(i as int)),
        decreases items.len() - i,
    {
        let item = &items[i];
        assert(views.take(i + 1).drop_last() =~= views.take(i as int));
        assert(views.take(i + 1).last() == item@);
        let name = match &item.name {
            Some(name) => name.clone(),
            None => string_from("<unnamed>"),
        };
        let creator = match item.annotation("kumuteva.io/created-by-tenant") {
            Some(creator) => creator.clone(),
            None => string_from("<unknown>"),
        };
        let ghost seen = item_lines(trial@, views.take(i as int));
        let line = joined5("    - ", &name, " (created by: ", &creator, ")");
        let ghost told = line@;
        let ghost earlier = texts(lines@);
        lines.push(line);
        assert(texts(lines@) =~= earlier.push(told));
        assert(earlier.push(told) =~= before + seen.push(told));
        if name == trial.name {
            let ghost so_far = texts(lines@);
            let notice = string_from(
                "      ^^^ THIS IS TENANT1's TEST OBJECT - ISOLATION BREACH!",
            );
            let ghost noticed = notice@;
            lines.push(notice);
            assert(texts(lines@) =~= so_far.push(noticed));
            assert(item_lines(trial@, views.take(i + 1)) =~= seen.push(told).push(noticed));
        } else {
            assert(item_lines(trial@, views.take(i + 1)) =~= seen.push(told));
        }
        assert(texts(lines@) =~= before + item_lines(trial@, views.take(i + 1)));
        i += 1;
    }
    assert(views.take(items.len() as int) =~= views);
}

/// What came of the second tenant's attempt.
fn tell_result(test: &ManualTest, reply: &Reply) -> (r: Vec<String>)
    ensures
        texts(r@) == result_lines(test@, reply@),
{
    let mut lines: Vec<String> = Vec::new();
    match test.operation {
        ControlPlaneOperation::Create => {
            lines.push(print_operation_result("CREATE", reply));
        },
        ControlPlaneOperation::Get => {
            return tell_get(&test.trial, reply);
        },
        ControlPlaneOperation::List => {
            if reply.failed() {
                lines.push(joined("  BLOCKED: ", &reply.message()));
            } else {
                lines.push(
                    joined3(
                        "  SUCCESS: LIST returned ",
                        &decimal_of(reply.item_count() as u64),
                        " items",
                    ),
                );
                let ghost first = texts(lines@);
                if let Reply::Items(items) = reply {
                    tell_items(&test.trial, items, &mut lines);
                } else {
                    assert(item_lines(test@.trial, reply@.items()) =~= seq![]);
                }
                assert(texts(lines@) =~= first + item_lines(test@.trial, reply@.items()));
                assert(first =~= seq![
                    "  SUCCESS: LIST returned "@ + decimal(reply@.items().len()) + " items"@,
                ]);
            }
        },
        ControlPlaneOperation::Update => {
            lines.push(print_operation_result("UPDATE", reply));
            if !reply.failed() {
                lines.push(string_from("  [VERIFICATION] Checking if update was applied..."));
            }
        },
        ControlPlaneOperation::Delete => {
            lines.push(print_operation_result("DELETE", reply));
            if !reply.failed() {
                lines.push(string_from("  [VERIFICATION] Checking if object still exists..."));
            }
        },
    }
    assert(texts(lines@) =~= result_lines(test@, reply@));
    lines
}

/// What the check after a successful attempt shows.
fn tell_check(operation: &ControlPlaneOperation, reply: &Reply) -> (r: Vec<String>)
    ensures
        texts(r@) == check_lines(*operation, reply@),
{
    let mut lines: Vec<String> = Vec::new();
    if matches!(operation, ControlPlaneOperation::Update) {
        if let Reply::Object(object) = reply {
            if object.label("malicious-update").is_some() {
                lines.push(string_from("    ISOLATION BREACH: Update was applied!"));
            } else {
                lines.push(
                    string_from(
                        "    Update call succeeded but label not found (might be filtered)",
                    ),
                );
            }
        }
    } else if !reply.failed() {
        lines.push(string_from("    Object still exists (delete might have been blocked)"));
    } else if contains(&reply.message(), "NotFound") {
        lines.push(string_from("    ISOLATION BREACH: Object was deleted!"));
    } else {
        lines.push(joined("    Verification error: ", &reply.message()));
    }
    assert(texts(lines@) =~= check_lines(*operation, reply@));
    lines
}

/// How `kubectl` is told the namespace.
fn tell_namespace(trial: &Trial) -> (r: String)
    ensures
        r@ == kubectl_namespace(trial@.scope()),
{
    match trial.scope() {
        Some(namespace) => joined("-n ", &namespace),
        None => String::new(),
    }
}

/// How to look at the test object by hand.
fn tell_inspection(trial: &Trial) -> (r: Vec<String>)
    ensures
        texts(r@) == inspection(trial@),
{
    let kind = lowercase_of(trial.kind.kind());
    let get = joined7(
        "  kubectl get ",
        &kind,
        " ",
        &trial.name,
        " ",
        &tell_namespace(trial),
        " -o yaml",
    );
    let mut lines = vec![
        joined("\n", "-------------------------------------------------------"),
        string_from("MANUAL INSPECTION COMMANDS:"),
        string_from("-------------------------------------------------------"),
        string_from("# As Tenant1:"),
        get.clone(),
        string_from(""),
        string_from("# As Tenant2 (to verify cross-tenant access):"),
        get,
        string_from(""),
    ];
    if !trial.kind.is_namespaced() {
        lines.push(string_from("# NOTE: This is a cluster-scoped resource (no namespace)"));
        lines.push(joined5("  kubectl get ", &kind, " ", &trial.name, " -o yaml"));
    }
    assert(texts(lines@) =~= inspection(trial@));
    lines
}

/// The last line of a test.
fn end_rule() -> (r: String)
    ensures
        r@ == last_rule(),
{
    joined("=======================================================", "\n")
}

/// The turn that ends the attempt and begins the cleaning up.
fn close_test(test: &ManualTest, said: Vec<String>) -> (r: Turn)
    ensures
        r@ == closing_turn(test@, texts(said@)),
{
    let ghost told = texts(said@);
    let mut lines = said;
    let mut inspect = tell_inspection(&test.trial);
    lines.append(&mut inspect);
    assert(texts(lines@) =~= told + inspection(test@.trial));
    if test.cleanup {
        lines.push(string_from("\n[CLEANUP] Deleting test object..."));
        assert(texts(lines@) =~= told + closing(test@));
        return Turn { lines, request: Some(test.trial.delete(Tenant::First)) };
    }
    let scope = test.trial.scope();
    lines.push(string_from("\n[NO CLEANUP] Test object left in place for manual inspection:"));
    lines.push(joined("  Resource: ", test.trial.kind.kind()));
    lines.push(joined("  Name: ", &test.trial.name));
    lines.push(joined("  Namespace: ", &debug_text_option(&scope)));
    lines.push(string_from("\nTo cleanup manually:"));
    lines.push(
        joined6(
            "  kubectl delete ",
            &lowercase_of(test.trial.kind.kind()),
            " ",
            &test.trial.name,
            " ",
            &tell_namespace(&test.trial),
        ),
    );
    lines.push(end_rule());
    assert(texts(lines@) =~= told + closing(test@));
    Turn { lines, request: None }
}

/// The turns after the test object's deletion was asked for: the replies from
/// that one on stand in `log` from `from` on.
fn clean_up(test: &ManualTest, log: &Vec<Reply>, from: usize) -> (r: Turn)
    requires
        from < log.len(),
    ensures
        r@ == cleanup_turn(test@, log_view(log@).skip(from as int)),
{
    let mut lines: Vec<String> = Vec::new();
    let mut request: Option<Request> = None;
    if log.len() - from > 1 {
        lines.push(end_rule());
    } else {
        if log[from].failed() {
            lines.push(joined("  Cleanup failed: ", &log[from].message()));
        } else {
            lines.push(string_from("  Cleanup successful"));
        }
        if matches!(test.trial.kind, KubernetesObject::StatefulSet) {
            request = Some(test.trial.delete_claim());
        } else {
            lines.push(end_rule());
        }
    }
    assert(texts(lines@) =~= cleanup_turn(test@, log_view(log@).skip(from as int)).lines);
    Turn { lines, request }
}

/// A test of one cross-tenant operation for debugging: it tells every step, and
/// leaves its object in place where no cleaning up was asked for.
pub fn manual_test_cross_tenant_operation(test: &ManualTest, log: &Vec<Reply>) -> (r: Turn)
    ensures
        r@ == manual_turn(test@, log_view(log@)),
{
    if log.len() == 0 {
        return Turn {
            lines: open_test(test),
            request: Some(test.trial.create(Tenant::First, "tenant1")),
        };
    }
    if log[0].failed() {
        let lines = vec![
            joined("  FAILED: ", &log[0].message()),
            string_from(
                "\n[INFO] Cannot proceed with cross-tenant test - Tenant1 creation failed",
            ),
        ];
        assert(texts(lines@) =~= manual_turn(test@, log_view(log@)).lines);
        return Turn { lines, request: None };
    }
    if log.len() == 1 {
        let lines = vec![
            string_from("  SUCCESS: Object created by Tenant1"),
            joined3(
                "\n[STEP 2] Tenant2 attempting ",
                &test.operation.label(),
                " operation...",
            ),
            string_from(announce(&test.operation)),
        ];
        assert(texts(lines@) =~= manual_turn(test@, log_view(log@)).lines);
        return Turn { lines, request: Some(attempt(test)) };
    }
    let length: usize = if log[1].failed() {
        2
    } else {
        match test.operation {
            ControlPlaneOperation::Update => 3,
            ControlPlaneOperation::Delete => 4,
            _ => 2,
        }
    };
    if log.len() < length {
        let lines = if log.len() == 2 {
            tell_result(test, &log[1])
        } else {
            let none: Vec<String> = Vec::new();
            assert(texts(none@) =~= seq![]);
            none
        };
        let request = if matches!(test.operation, ControlPlaneOperation::Delete) && log.len() == 2 {
            Request::Sleep { millis: 500 }
        } else {
            test.trial.get(Tenant::First)
        };
        Turn { lines, request: Some(request) }
    } else if log.len() == length {
        let said = if length == 2 {
            tell_result(test, &log[1])
        } else {
            tell_check(&test.operation, &log[length - 1])
        };
        close_test(test, said)
    } else if test.cleanup {
        clean_up(test, log, length)
    } else {
        let lines: Vec<String> = Vec::new();
        assert(texts(lines@) =~= seq![]);
        Turn { lines, request: None }
    }
}

// ---- One tenant on its own --------------------------------------------------

/// A manual test of what a tenant can do on its own.
#[derive(Debug)]
pub struct ManualAutonomyTest {
    pub trial: Trial,
    pub operation: ControlPlaneOperation,
    /// Whether what the test creates is deleted afterwards.
    pub cleanup: bool,
}

/// What a manual autonomy test says.
pub struct ManualAutonomyView {
    pub trial: TrialView,
    pub operation: ControlPlaneOperation,
    pub cleanup: bool,
}

impl View for ManualAutonomyTest {
    type V = ManualAutonomyView;

    open spec fn view(&self) -> ManualAutonomyView {
        ManualAutonomyView {
            trial: self.trial@,
            operation: self.operation,
            cleanup: self.cleanup,
        }
    }
}

/// What the test says before it begins.
pub open spec fn autonomy_opening(test: ManualAutonomyView) -> Seq<Seq<char>> {
    let kind = test.trial.kind;
    seq![
        double_rule(),
        "MANUAL AUTONOMY TEST"@,
        double_rule(),
        "Resource: "@ + kind.kind_name() + " ("@ + kind.api_name() + ")"@,
        "Operation: "@ + operation_name(test.operation),
        "Tenant namespace: "@ + test.trial.namespace,
        "Is namespaced: "@ + bool_text(!kind.cluster_scoped()),
        single_rule(),
    ] + if test.operation is List {
        seq!["\n[TEST] Attempting LIST..."@]
    } else {
        seq!["\n[SETUP] Creating test object..."@, "  Name: "@ + test.trial.name]
    } + if test.operation is Create {
        seq!["\n[TEST] Attempting CREATE..."@]
    } else {
        seq![]
    }
}

/// The first objects of a list, by name.
pub open spec fn name_lines(items: Seq<ObservedView>) -> Seq<Seq<char>> {
    Seq::new(items.len(), |i: int| "    - "@ + shown_name(items[i]))
}

/// How many objects of a list are shown.
pub const SHOWN_ITEMS: usize = 10;

/// What a tenant's list shows: the first objects, and how many more there are.
pub open spec fn list_lines(reply: ReplyView) -> Seq<Seq<char>> {
    let items = reply.items();
    if reply.failed() {
        seq!["  FAILED: "@ + reply.message()]
    } else if items.len() <= SHOWN_ITEMS {
        seq!["  SUCCESS: LIST returned "@ + decimal(items.len()) + " items"@] + name_lines(items)
    } else {
        seq!["  SUCCESS: LIST returned "@ + decimal(items.len()) + " items"@] + name_lines(
            items.take(SHOWN_ITEMS as int),
        ) + seq![
            "    ... and "@ + decimal((items.len() - SHOWN_ITEMS) as nat) + " more"@,
        ]
    }
}

/// The end of a test: what is said, then the requests of `chores`, of which
/// `done` are behind, and the last line after the last of them.
pub open spec fn chores_turn(
    said: Seq<Seq<char>>,
    chores: Seq<RequestView>,
    done: nat,
) -> TurnView {
    let last = done >= chores.len();
    TurnView {
        lines: (if done == 0 {
            said
        } else {
            seq![]
        }) + if last {
            seq![last_rule()]
        } else {
            seq![]
        },
        request: if last {
            None
        } else {
            Some(chores[done as int])
        },
    }
}

/// What is left to do after the operation.
pub open spec fn autonomy_chores(test: ManualAutonomyView, reply: ReplyView) -> Seq<RequestView> {
    match test.operation {
        ControlPlaneOperation::List => seq![],
        ControlPlaneOperation::Delete => test.trial.claims(),
        ControlPlaneOperation::Create => if test.cleanup && !reply.failed() {
            test.trial.cleanup()
        } else {
            seq![]
        },
        _ => if test.cleanup {
            test.trial.cleanup()
        } else {
            seq![]
        },
    }
}

/// The operation itself, on the object that the test created.
pub open spec fn own_request(test: ManualAutonomyView) -> RequestView {
    match test.operation {
        ControlPlaneOperation::Update => test.trial.patch(
            Tenant::First,
            label_patch_view("autonomy-test"@, JsonView::Text("updated"@)),
        ),
        ControlPlaneOperation::Delete => test.trial.delete(Tenant::First),
        _ => test.trial.get(Tenant::First),
    }
}

/// The test of a read without an object of its own: the first one that can be
/// listed is read. `log` holds the replies after the failed creation.
pub open spec fn borrowed_get_turn(trial: TrialView, log: Seq<ReplyView>) -> TurnView {
    if log.len() == 0 {
        TurnView {
            lines: seq!["  Cannot create test object, trying to GET existing..."@],
            request: Some(
                RequestView::List { tenant: Tenant::First, namespace: trial.scope() },
            ),
        }
    } else {
        match log[0].first_name() {
            Some(name) => if log.len() == 1 {
                TurnView {
                    lines: seq!["\n[TEST] Attempting GET on existing '"@ + name + "'..."@],
                    request: Some(
                        RequestView::Get {
                            tenant: Tenant::First,
                            name,
                            namespace: trial.scope(),
                        },
                    ),
                }
            } else {
                TurnView { lines: seq![operation_result("GET"@, log[1])], request: None }
            },
            None => TurnView {
                lines: seq!["  No existing resources to test GET"@],
                request: None,
            },
        }
    }
}

/// The manual autonomy test.
pub open spec fn manual_autonomy_turn(test: ManualAutonomyView, log: Seq<ReplyView>) -> TurnView {
    let name = test.operation.text();
    if log.len() == 0 {
        TurnView {
            lines: autonomy_opening(test),
            request: Some(
                if test.operation is List {
                    RequestView::List { tenant: Tenant::First, namespace: test.trial.scope() }
                } else {
                    test.trial.create(Tenant::First, "autonomy-test"@)
                },
            ),
        }
    } else if test.operation is List {
        chores_turn(list_lines(log[0]), seq![], (log.len() - 1) as nat)
    } else if test.operation is Create {
        chores_turn(
            seq![operation_result(name, log[0])],
            autonomy_chores(test, log[0]),
            (log.len() - 1) as nat,
        )
    } else if log[0].failed() {
        if test.operation is Get {
            borrowed_get_turn(test.trial, log.skip(1))
        } else {
            TurnView {
                lines: seq![
                    "  Cannot create test object: Some("@ + log[0].debug() + ")"@,
                ],
                request: None,
            }
        }
    } else if log.len() == 1 {
        TurnView {
            lines: seq!["\n[TEST] Attempting "@ + name + "..."@],
            request: Some(own_request(test)),
        }
    } else {
        chores_turn(
            seq![operation_result(name, log[1])],
            autonomy_chores(test, log[1]),
            (log.len() - 2) as nat,
        )
    }
}

/// What the test says before it begins.
fn open_autonomy_test(test: &ManualAutonomyTest) -> (r: Vec<String>)
    ensures
        texts(r@) == autonomy_opening(test@),
{
    let kind = test.trial.kind;
    let mut lines = vec![
        string_from("======================================================="),
        string_from("MANUAL AUTONOMY TEST"),
        string_from("======================================================="),
        joined5("Resource: ", kind.kind(), " (", kind.api_version(), ")"),
        joined("Operation: ", name_of_operation(&test.operation)),
        joined("Tenant namespace: ", &test.trial.namespace),
        joined("Is namespaced: ", bool_of(kind.is_namespaced())),
        string_from("-------------------------------------------------------"),
    ];
    if matches!(test.operation, ControlPlaneOperation::List) {
        lines.push(string_from("\n[TEST] Attempting LIST..."));
    } else {
        lines.push(string_from("\n[SETUP] Creating test object..."));
        lines.push(joined("  Name: ", &test.trial.name));
    }
    if matches!(test.operation, ControlPlaneOperation::Create) {
        lines.push(string_from("\n[TEST] Attempting CREATE..."));
    }
    assert(texts(lines@) =~= autonomy_opening(test@));
    lines
}

/// What a tenant's list shows: the first objects, and how many more there are.
fn tell_list(reply: &Reply) -> (r: Vec<String>)
    ensures
        texts(r@) == list_lines(reply@),
{
    let mut lines: Vec<String> = Vec::new();
    if reply.failed() {
        lines.push(joined("  FAILED: ", &reply.message()));
        assert(texts(lines@) =~= list_lines(reply@));
        return lines;
    }
    let count: usize = reply.item_count();
    lines.push(joined3("  SUCCESS: LIST returned ", &decimal_of(count as u64), " items"));
    let ghost head = texts(lines@);
    assert(head =~= seq![
        "  SUCCESS: LIST returned "@ + decimal(reply@.items().len()) + " items"@,
    ]);
    if let Reply::Items(items) = reply {
        let ghost views = observed_views(items@);
        let shown: usize = if items.len() < SHOWN_ITEMS {
            items.len()
        } else {
            SHOWN_ITEMS
        };
        let mut i: usize = 0;
        assert(head =~= head + name_lines(views.take(0)));
        while i < shown
            invariant
                i <= shown <= items.len(),
                views == observed_views(items@),
                texts(lines@) == head + name_lines(views.take(i as int)),
            decreases shown - i,
        {
            let name = match &items[i].name {
                Some(name) => name.clone(),
                None => string_from("<unnamed>"),
            };
            let line = joined("    - ", &name);
            let ghost earlier = texts(lines@);
            let ghost told = line@;
            assert(told == "    - "@ + shown_name(views[i as int]));
            lines.push(line);
            assert(texts(lines@) =~= earlier.push(told));
            assert(name_lines(views.take(i + 1)) =~= name_lines(views.take(i as int)).push(told));
            assert(earlier.push(told) =~= head + name_lines(views.take(i + 1)));
            i += 1;
        }
        assert(views.take(items.len() as int) =~= views);
        if items.len() > SHOWN_ITEMS {
            let more = joined3(
                "    ... and ",
                &decimal_of((items.len() - SHOWN_ITEMS) as u64),
                " more",
            );
            let ghost earlier = texts(lines@);
            let ghost told = more@;
            lines.push(more);
            assert(texts(lines@) =~= earlier.push(told));
            assert(texts(lines@) =~= list_lines(reply@));
        } else {
            assert(texts(lines@) =~= list_lines(reply@));
        }
    } else {
        assert(name_lines(reply@.items()) =~= seq![]);
        assert(texts(lines@) =~= list_lines(reply@));
    }
    lines
}

/// The end of a test: what is said, then cleaning up where it is asked for, and
/// the last line.
fn finish(
    trial: &Trial,
    said: Vec<String>,
    whole: bool,
    claims: bool,
    done: usize,
) -> (r: Turn)
    ensures
        r@ == chores_turn(
            texts(said@),
            if whole {
                trial@.cleanup()
            } else if claims {
                trial@.claims()
            } else {
                seq![]
            },
            done as nat,
        ),
{
    let ghost told = texts(said@);
    let mut lines: Vec<String> = Vec::new();
    if done == 0 {
        lines = said;
    } else {
        assert(texts(lines@) =~= seq![]);
    }
    let ghost begun = texts(lines@);
    let stateful = matches!(trial.kind, KubernetesObject::StatefulSet);
    let mut request: Option<Request> = None;
    if whole && done == 0 {
        request = Some(trial.delete(Tenant::First));
        assert(trial@.cleanup()[0] == trial@.delete(Tenant::First));
    } else if stateful && (whole && done == 1 || !whole && claims && done == 0) {
        request = Some(trial.delete_claim());
        assert(trial@.cleanup()[1] == trial@.claims()[0]);
    } else {
        lines.push(end_rule());
        assert(texts(lines@) =~= begun.push(last_rule()));
    }
    assert(begun =~= (if done == 0 {
        told
    } else {
        seq![]
    }) + seq![]);
    assert(begun.push(last_rule()) =~= (if done == 0 {
        told
    } else {
        seq![]
    }) + seq![last_rule()]);
    Turn { lines, request }
}

/// The operation itself, on the object that the test created.
fn request_own(test: &ManualAutonomyTest) -> (r: Request)
    ensures
        r@ == own_request(test@),
{
    match test.operation {
        ControlPlaneOperation::Update => test.trial.patch(
            Tenant::First,
            label_patch("autonomy-test", Json::text("updated")),
        ),
        ControlPlaneOperation::Delete => test.trial.delete(Tenant::First),
        _ => test.trial.get(Tenant::First),
    }
}

/// A turn with one line.
fn one_line(line: String, request: Option<Request>) -> (r: Turn)
    ensures
        r@.lines == seq![line@],
        r.request == request,
{
    let lines = vec![line];
    assert(texts(lines@) =~= seq![line@]);
    Turn { lines, request }
}

/// The test of a read without an object of its own; the replies after the
/// failed creation stand in `log` from the second on.
fn borrowed_get(trial: &Trial, log: &Vec<Reply>) -> (r: Turn)
    requires
        log.len() >= 1,
    ensures
        r@ == borrowed_get_turn(trial@, log_view(log@).skip(1)),
{
    if log.len() == 1 {
        return one_line(
            string_from("  Cannot create test object, trying to GET existing..."),
            Some(Request::List { tenant: Tenant::First, namespace: trial.scope() }),
        );
    }
    match log[1].first_name() {
        Some(name) => if log.len() == 2 {
            one_line(
                joined3("\n[TEST] Attempting GET on existing '", name, "'..."),
                Some(
                    Request::Get {
                        tenant: Tenant::First,
                        name: name.clone(),
                        namespace: trial.scope(),
                    },
                ),
            )
        } else {
            one_line(print_operation_result("GET", &log[2]), None)
        },
        None => one_line(string_from("  No existing resources to test GET"), None),
    }
}

/// A test of what one tenant can do on its own, for debugging: it tells every
/// step. The error of a failed creation is told by its message.
pub fn manual_test_autonomy(test: &ManualAutonomyTest, log: &Vec<Reply>) -> (r: Turn)
    ensures
        r@ == manual_autonomy_turn(test@, log_view(log@)),
{
    let is_list = matches!(test.operation, ControlPlaneOperation::List);
    let is_create = matches!(test.operation, ControlPlaneOperation::Create);
    if log.len() == 0 {
        let request = if is_list {
            Request::List { tenant: Tenant::First, namespace: test.trial.scope() }
        } else {
            test.trial.create(Tenant::First, "autonomy-test")
        };
        return Turn { lines: open_autonomy_test(test), request: Some(request) };
    }
    if is_list {
        return finish(&test.trial, tell_list(&log[0]), false, false, log.len() - 1);
    }
    let name = test.operation.label();
    if is_create {
        let said = vec![print_operation_result(&name, &log[0])];
        assert(texts(said@) =~= seq![operation_result(name@, log[0]@)]);
        let clean = test.cleanup && !log[0].failed();
        return finish(&test.trial, said, clean, false, log.len() - 1);
    }
    if log[0].failed() {
        if matches!(test.operation, ControlPlaneOperation::Get) {
            return borrowed_get(&test.trial, log);
        }
        return one_line(
            joined3("  Cannot create test object: Some(", &log[0].debug(), ")"),
            None,
        );
    }
    if log.len() == 1 {
        return one_line(
            joined3("\n[TEST] Attempting ", &name, "..."),
            Some(request_own(test)),
        );
    }
    let said = vec![print_operation_result(&name, &log[1])];
    assert(texts(said@) =~= seq![operation_result(name@, log[1]@)]);
    let is_delete = matches!(test.operation, ControlPlaneOperation::Delete);
    finish(&test.trial, said, test.cleanup && !is_delete, is_delete, log.len() - 2)
}

}
