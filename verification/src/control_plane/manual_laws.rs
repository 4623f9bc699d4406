//! What holds of every run of a manual test: who acts, on what, and what the
//! person at the terminal is told of it.

use super::assessor::{autonomy_prefix, effect_prefix};
use super::conduct::{is_about, performs, place, requester, sets_label};
use super::experiment::{ObservedView, ReplyView, RequestView, Tenant, TrialView};
use super::manual::{
    attempt_request, check_lines, get_lines, inspection, item_lines, kubectl_namespace, list_lines,
    manual_autonomy_turn, manual_turn, operation_name, operation_result, shown_creator, shown_name,
    ManualAutonomyView, ManualView,
};
use super::resources::ControlPlaneOperation;
use crate::assessment::AssessableOperation;
use crate::json::JsonView;
use crate::text::{decimal, has_text, lowercase, occurs_at, sums_hold_their_parts};
use vstd::prelude::*;
use vstd::string::*;

verus! {

/// In a manual test the second tenant makes one request: the operation under
/// test, on the object that the first tenant has just created. Everything else
/// is the first tenant's, about the same object or the claim it leaves behind.
pub proof fn the_manual_attempt_is_the_second_tenants(
    test: ManualView,
    log: Seq<ReplyView>,
    request: RequestView,
)
    requires
        manual_turn(test, log).request == Some(request),
    ensures
        requester(request) == Some(Tenant::Second) <==> log.len() == 1,
        log.len() == 1 ==> {
            &&& !(log[0] is Failed)
            &&& performs(test.operation, request)
            &&& is_about(request, test.trial.name, place(test.trial))
        },
        log.len() == 0 ==> request is Create,
        match request {
            RequestView::Sleep { .. } => true,
            RequestView::DeleteClaim { name, within, .. } => {
                &&& test.trial.kind is StatefulSet
                &&& name == test.trial.name + "-"@ + test.trial.name + "-0"@
                &&& within == test.trial.namespace
            },
            _ => is_about(request, test.trial.name, place(test.trial)),
        },
{
    if log.len() > 2 {
        assert(log.skip(2).len() == log.len() - 2);
        assert(log.skip(3).len() == log.len() - 3);
        assert(log.len() >= 4 ==> log.skip(4).len() == log.len() - 4);
    }
}

/// A manual test keeps its word on cleaning up: told to, it asks for the
/// object's deletion as the first tenant before it ends, whatever came of the
/// attempt; told not to, it never does.
pub proof fn a_manual_test_cleans_up_as_told(test: ManualView, log: Seq<ReplyView>)
    requires
        log.len() >= 2,
        !(log[0] is Failed),
        manual_turn(test, log).request is None,
    ensures
        test.cleanup ==> exists|i: int|
            0 <= i < log.len() && manual_turn(test, #[trigger] log.take(i)).request == Some(
                RequestView::Delete {
                    tenant: Tenant::First,
                    name: test.trial.name,
                    namespace: place(test.trial),
                },
            ),
        test.cleanup && test.trial.kind is StatefulSet ==> exists|i: int|
            0 <= i < log.len() && match manual_turn(test, #[trigger] log.take(i)).request {
                Some(RequestView::DeleteClaim { .. }) => true,
                _ => false,
            },
        !test.cleanup ==> forall|i: int|
            0 <= i < log.len() ==> match manual_turn(test, #[trigger] log.take(i)).request {
                Some(RequestView::Delete { tenant, .. }) => tenant == Tenant::Second,
                Some(RequestView::DeleteClaim { .. }) => false,
                _ => true,
            },
{
    assert forall|i: int, k: int| 0 <= k < i <= log.len() implies #[trigger] log.take(i)[k]
        == log[k] by {}
    let length: int = if log[1] is Failed {
        2
    } else if test.operation is Update {
        3
    } else if test.operation is Delete {
        4
    } else {
        2
    };
    if test.cleanup {
        assert(log.len() > length);
        assert(manual_turn(test, log.take(length)).request == Some(
            test.trial.delete(Tenant::First),
        ));
        if test.trial.kind is StatefulSet {
            assert(log.skip(length).len() == log.len() - length);
            assert(log.len() > length + 1);
            assert(log.take(length + 1).skip(length).len() == 1);
            assert(manual_turn(test, log.take(length + 1)).request is Some);
        }
    }
}

/// The person is told of a read across tenants exactly where the second tenant
/// got the object of the name that the first one gave it.
pub proof fn a_manual_read_is_told(trial: TrialView, reply: ReplyView)
    ensures
        get_lines(trial, reply).contains(
            "  RESULT: GET SUCCEEDED with valid object - ISOLATION BREACH!"@,
        ) <==> match reply {
            ReplyView::Object(object) => object.name == Some(trial.name),
            _ => false,
        },
{
    let breach = "  RESULT: GET SUCCEEDED with valid object - ISOLATION BREACH!"@;
    reveal_strlit("  RESULT: GET SUCCEEDED with valid object - ISOLATION BREACH!");
    reveal_strlit("  [DETAILS] Object retrieved:");
    reveal_strlit("    Name: ");
    reveal_strlit("    Namespace: ");
    reveal_strlit("    Annotations: ");
    reveal_strlit("  RESULT: GET returned Ok but with EMPTY/INVALID object - GOOD ISOLATION");
    reveal_strlit("    (Proxy returned empty object instead of error - this is hard isolation)");
    reveal_strlit("  RESULT: ");
    reveal_strlit("GET");
    reveal_strlit(" SUCCEEDED (potential isolation breach!)");
    reveal_strlit(" BLOCKED (Forbidden/NotAllowed) - GOOD ISOLATION");
    reveal_strlit(" BLOCKED (NotFound) - HARD ISOLATION");
    reveal_strlit(" FAILED: ");
    assert(breach[2] == 'R' && breach[14] == 'S' && breach[24] == 'w');
    let lines = get_lines(trial, reply);
    match reply {
        ReplyView::Object(object) => {
            if object.name == Some(trial.name) {
                assert(lines[4] == breach);
            } else {
                assert(lines.len() == 6);
                assert(lines[0][2] == '[');
                assert(lines[1][2] == ' ' && lines[2][2] == ' ' && lines[3][2] == ' ');
                assert(lines[4][14] == 'r');
                assert(lines[5][2] == ' ');
                assert forall|i: int| 0 <= i < lines.len() implies lines[i] != breach by {}
            }
        },
        _ => {
            assert(lines.len() == 1);
            let line = lines[0];
            if reply is Failed {
                assert(line[14] == 'B' || line[14] == 'F');
            } else {
                assert(line[24] == '(');
            }
            assert forall|i: int| 0 <= i < lines.len() implies lines[i] != breach by {}
        },
    }
}

/// The person is told of a list across tenants exactly where the first tenant's
/// object is in it; every listed object is shown with its name and its creator.
pub proof fn a_manual_list_is_told(trial: TrialView, items: Seq<ObservedView>)
    ensures
        item_lines(trial, items).contains(
            "      ^^^ THIS IS TENANT1's TEST OBJECT - ISOLATION BREACH!"@,
        ) <==> exists|i: int| 0 <= i < items.len() && #[trigger] shown_name(items[i]) == trial.name,
        forall|i: int|
            0 <= i < items.len() ==> item_lines(trial, items).contains(
                "    - "@ + #[trigger] shown_name(items[i]) + " (created by: "@ + shown_creator(
                    items[i],
                ) + ")"@,
            ),
    decreases items.len(),
{
    let breach = "      ^^^ THIS IS TENANT1's TEST OBJECT - ISOLATION BREACH!"@;
    reveal_strlit("      ^^^ THIS IS TENANT1's TEST OBJECT - ISOLATION BREACH!");
    reveal_strlit("    - ");
    assert(breach[4] == ' ');
    if items.len() > 0 {
        let before = items.drop_last();
        a_manual_list_is_told(trial, before);
        let item = items.last();
        let line = "    - "@ + shown_name(item) + " (created by: "@ + shown_creator(item) + ")"@;
        let old_lines = item_lines(trial, before);
        let lines = item_lines(trial, items);
        let n = old_lines.len() as int;
        assert(line[4] == '-');
        assert(lines[n] == line);
        assert forall|k: int| 0 <= k < n implies lines[k] == old_lines[k] by {}
        assert forall|other: Seq<char>| old_lines.contains(other) implies lines.contains(other) by {
            let k = choose|k: int| 0 <= k < old_lines.len() && old_lines[k] == other;
            assert(lines[k] == other);
        }
        assert(shown_name(items[items.len() - 1]) == shown_name(item));
        if shown_name(item) == trial.name {
            assert(lines[n + 1] == breach);
        }
        if lines.contains(breach) {
            let k = choose|k: int| 0 <= k < lines.len() && lines[k] == breach;
            if k < n {
                assert(old_lines[k] == breach);
                assert(old_lines.contains(breach));
                let i = choose|i: int|
                    0 <= i < before.len() && #[trigger] shown_name(before[i]) == trial.name;
                assert(shown_name(items[i]) == trial.name);
            }
        }
        if exists|i: int| 0 <= i < items.len() && #[trigger] shown_name(items[i]) == trial.name {
            let i = choose|i: int|
                0 <= i < items.len() && #[trigger] shown_name(items[i]) == trial.name;
            if i < before.len() {
                assert(shown_name(before[i]) == trial.name);
                assert(old_lines.contains(breach));
            }
        }
        assert forall|i: int| 0 <= i < items.len() implies lines.contains(
            "    - "@ + #[trigger] shown_name(items[i]) + " (created by: "@ + shown_creator(
                items[i],
            ) + ")"@,
        ) by {
            if i < before.len() {
                assert(shown_name(before[i]) == shown_name(items[i]));
            } else {
                assert(lines[n] == line);
            }
        }
    }
}

/// The person is told of a change across tenants exactly where the label that
/// the second tenant's patch sets is on the object that the first one reads
/// afterwards, and of a deletion exactly where the first tenant's read finds
/// nothing.
pub proof fn a_manual_check_is_told(test: ManualView, reply: ReplyView)
    ensures
        test.operation is Update ==> match attempt_request(test) {
            RequestView::Patch { patch, .. } => exists|key: Seq<char>, value: Seq<char>|
                #[trigger] sets_label(patch, key, JsonView::Text(value)) && (check_lines(
                    test.operation,
                    reply,
                ) == seq!["    ISOLATION BREACH: Update was applied!"@] <==> match reply {
                    ReplyView::Object(object) => object.label(key) is Some,
                    _ => false,
                }),
            _ => false,
        },
        test.operation is Delete ==> (check_lines(test.operation, reply) == seq![
            "    ISOLATION BREACH: Object was deleted!"@,
        ] <==> reply is Failed && has_text(reply.message(), "NotFound"@)),
{
    reveal_strlit("metadata");
    reveal_strlit("labels");
    reveal_strlit("    ISOLATION BREACH: Update was applied!");
    reveal_strlit("    Update call succeeded but label not found (might be filtered)");
    reveal_strlit("    ISOLATION BREACH: Object was deleted!");
    reveal_strlit("    Object still exists (delete might have been blocked)");
    reveal_strlit("    Verification error: ");
    let told = check_lines(test.operation, reply);
    if test.operation is Update {
        let breach = seq!["    ISOLATION BREACH: Update was applied!"@];
        assert(breach[0][4] == 'I');
        assert(told.len() > 0 && told[0][4] == 'U' ==> told != breach);
        assert(told.len() == 0 ==> told != breach);
        match attempt_request(test) {
            RequestView::Patch { patch, .. } => {
                assert(sets_label(
                    patch,
                    "malicious-update"@,
                    JsonView::Text("tenant2-was-here"@),
                ));
            },
            _ => {},
        }
    }
    if test.operation is Delete {
        let breach = seq!["    ISOLATION BREACH: Object was deleted!"@];
        assert(breach[0][4] == 'I');
        assert(told[0][4] == 'O' || told[0][4] == 'V' ==> told != breach);
    }
}

/// What the person is told of an attempt: success only where nothing failed; a
/// refusal, an absence or the error itself otherwise. The operation is named.
pub proof fn an_operation_result_names_the_operation(operation: Seq<char>, reply: ReplyView)
    ensures
        has_text(operation_result(operation, reply), operation),
        !(reply is Failed) ==> operation_result(operation, reply) == "  RESULT: "@ + operation
            + " SUCCEEDED (potential isolation breach!)"@,
        reply is Failed ==> {
            let told = operation_result(operation, reply);
            let said = "  RESULT: "@ + operation;
            ||| told == said + " BLOCKED (Forbidden/NotAllowed) - GOOD ISOLATION"@
            ||| told == said + " BLOCKED (NotFound) - HARD ISOLATION"@
            ||| told == said + " FAILED: "@ + reply.message()
        },
{
    sums_hold_their_parts(operation);
}

/// The commands for looking at the object by hand are about the object: each
/// names its kind, its name and, where it has one, its namespace.
pub proof fn the_inspection_is_of_the_object(trial: TrialView, i: int)
    requires
        i == 4 || i == 7,
    ensures
        inspection(trial).len() >= 9,
        has_text(inspection(trial)[i], lowercase(trial.kind.kind_name())),
        has_text(inspection(trial)[i], trial.name),
        match place(trial) {
            Some(namespace) => has_text(inspection(trial)[i], "-n "@ + namespace),
            None => true,
        },
{
    sums_hold_their_parts(lowercase(trial.kind.kind_name()));
    sums_hold_their_parts(trial.name);
    sums_hold_their_parts(kubectl_namespace(trial.scope()));
}

/// A manual autonomy test is the one tenant's own affair: all its requests are
/// made as the first tenant and are about its own object, but for a read without
/// one, which borrows the first object of a list.
pub proof fn a_manual_autonomy_test_is_the_tenants_own(
    test: ManualAutonomyView,
    log: Seq<ReplyView>,
    request: RequestView,
)
    requires
        manual_autonomy_turn(test, log).request == Some(request),
    ensures
        requester(request) == Some(Tenant::First),
        match request {
            RequestView::DeleteClaim { name, within, .. } => {
                &&& test.trial.kind is StatefulSet
                &&& name == test.trial.name + "-"@ + test.trial.name + "-0"@
                &&& within == test.trial.namespace
            },
            RequestView::Get { .. } if log[0] is Failed => {
                &&& log.len() == 2
                &&& log[1].items().len() > 0
                &&& log[1].items()[0].name is Some
                &&& is_about(request, log[1].items()[0].name->Some_0, place(test.trial))
            },
            _ => is_about(request, test.trial.name, place(test.trial)),
        },
        log.len() == 1 && !(log[0] is Failed) && !(test.operation is Create) ==> performs(
            test.operation,
            request,
        ),
        log.len() == 0 ==> if test.operation is List {
            request is List
        } else {
            request is Create
        },
{
    if log.len() > 0 {
        assert(log.skip(1).len() == log.len() - 1);
        if log.len() > 1 {
            assert(log.skip(1)[0] == log[1]);
        }
    }
    if test.trial.kind is StatefulSet {
        assert(test.trial.cleanup()[1] == test.trial.claims()[0]);
    }
}

/// What a manual autonomy test created is deleted where the person wants it
/// deleted, and by a deletion that is the operation itself in any case; nothing
/// else is deleted.
pub proof fn a_manual_autonomy_test_cleans_up_as_told(
    test: ManualAutonomyView,
    log: Seq<ReplyView>,
)
    requires
        log.len() > 0,
        !(log[0] is Failed),
        !(test.operation is List),
        manual_autonomy_turn(test, log).request is None,
    ensures
        (exists|i: int|
            0 <= i < log.len() && manual_autonomy_turn(test, #[trigger] log.take(i)).request
                == Some(
                RequestView::Delete {
                    tenant: Tenant::First,
                    name: test.trial.name,
                    namespace: place(test.trial),
                },
            )) <==> test.cleanup || test.operation is Delete,
{
    assert forall|i: int, k: int| 0 <= k < i <= log.len() implies #[trigger] log.take(i)[k]
        == log[k] by {}
    let gone = RequestView::Delete {
        tenant: Tenant::First,
        name: test.trial.name,
        namespace: place(test.trial),
    };
    assert(test.trial.cleanup()[0] == gone);
    let at: int = if test.operation is Create || test.operation is Delete {
        1
    } else {
        2
    };
    if test.cleanup || test.operation is Delete {
        assert(log.len() > at);
        assert(manual_autonomy_turn(test, log.take(at)).request == Some(gone));
    }
}


/// The head of a manual test names what is tested and between whom: the kind,
/// the operation, the first tenant's namespace and the second's, each in its
/// line.
pub proof fn a_manual_test_is_announced(test: ManualView)
    ensures
        ({
            let lines = manual_turn(test, seq![]).lines;
            &&& lines.len() == 13
            &&& has_text(lines[3], test.trial.kind.kind_name())
            &&& lines[4] == "Operation: "@ + operation_name(test.operation)
            &&& lines[5] == "Tenant1 namespace: "@ + test.trial.namespace
            &&& lines[6] == "Tenant2 namespace: "@ + test.other_namespace
            &&& lines[8] == "Cleanup: "@ + (if test.cleanup {
                "true"@
            } else {
                "false"@
            })
            &&& lines[11] == "  Object name: "@ + test.trial.name
        }),
{
    sums_hold_their_parts(test.trial.kind.kind_name());
}

/// A tenant's list is shown as far as a page carries it: at most ten names in
/// their order, the number of all before them and the number of the rest behind.
pub proof fn a_list_is_shown_in_part(items: Seq<ObservedView>, i: int)
    ensures
        ({
            let lines = list_lines(ReplyView::Items(items));
            let shown: int = if items.len() <= 10 {
                items.len() as int
            } else {
                10
            };
            &&& has_text(lines[0], decimal(items.len()))
            &&& lines.len() == 1 + shown + (if items.len() > 10 {
                1int
            } else {
                0
            })
            &&& 0 <= i < shown ==> lines[1 + i] == "    - "@ + shown_name(items[i])
            &&& items.len() > 10 ==> has_text(lines[11], decimal((items.len() - 10) as nat))
        }),
{
    sums_hold_their_parts(decimal(items.len()));
    if items.len() > 10 {
        sums_hold_their_parts(decimal((items.len() - 10) as nat));
    }
}

/// An operation has one name, however it is written: in a test's head, in a
/// report, and in the names of the objects it is tried on.
pub proof fn an_operation_has_one_name(operation: ControlPlaneOperation)
    ensures
        lowercase(operation_name(operation)) == lowercase(operation.text()),
        has_text(autonomy_prefix(operation), lowercase(operation.text())),
        has_text(effect_prefix(operation), lowercase(operation.text())),
{
    match operation {
        ControlPlaneOperation::Create => {
            reveal_strlit("Create");
            reveal_strlit("CREATE");
            reveal_strlit("autonomy-create-");
            reveal_strlit("create-test-");
        },
        ControlPlaneOperation::Get => {
            reveal_strlit("Get");
            reveal_strlit("GET");
            reveal_strlit("autonomy-get-");
            reveal_strlit("get-test-");
        },
        ControlPlaneOperation::List => {
            reveal_strlit("List");
            reveal_strlit("LIST");
            reveal_strlit("autonomy-list-");
            reveal_strlit("list-test-");
        },
        ControlPlaneOperation::Update => {
            reveal_strlit("Update");
            reveal_strlit("UPDATE");
            reveal_strlit("autonomy-update-");
            reveal_strlit("update-test-");
        },
        ControlPlaneOperation::Delete => {
            reveal_strlit("Delete");
            reveal_strlit("DELETE");
            reveal_strlit("autonomy-delete-");
            reveal_strlit("delete-test-");
        },
    }
    let name = lowercase(operation.text());
    assert(lowercase(operation_name(operation)) =~= name);
    let own = autonomy_prefix(operation);
    assert(own.subrange(9, 9int + name.len()) =~= name);
    assert(occurs_at(own, name, 9));
    let cross = effect_prefix(operation);
    assert(cross.subrange(0, name.len() as int) =~= name);
    assert(occurs_at(cross, name, 0));
}

}
