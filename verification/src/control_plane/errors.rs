//! What an API error says about the isolation between tenants.

use crate::isolation::{IsolationLevel, IsolationView};
use crate::text::{
    after_last, chars_of, contains, decimal_value, has_text, joined, leading_digits, leading_u16,
    occurs_at, parse_leading_u16, rest_after_last, rfind_from,
};
use vstd::prelude::*;
use vstd::string::*;

verus! {

/// The message names a refusal: forbidden, unauthorized, or one of the errors
/// that filtering proxies answer with.
pub open spec fn names_refusal(message: Seq<char>) -> bool {
    ||| has_text(message, "Forbidden"@)
    ||| has_text(message, "forbidden"@)
    ||| has_text(message, "Unauthorized"@)
    ||| has_text(message, "unauthorized"@)
    ||| has_text(message, "BadRequest"@)
    ||| has_text(message, "not allowed"@)
}

/// The message names an absent object.
pub open spec fn names_absence(message: Seq<char>) -> bool {
    has_text(message, "NotFound"@) || has_text(message, "not found"@)
}

/// The message names an object that is already there.
pub open spec fn names_collision(message: Seq<char>) -> bool {
    has_text(message, "AlreadyExists"@) || has_text(message, "already exists"@)
}

/// The HTTP status that the message carries after its last `code: `.
pub open spec fn status_code(message: Seq<char>) -> Option<u16> {
    match after_last(message, "code: "@) {
        Some(rest) => leading_u16(rest),
        None => None,
    }
}

/// The isolation that an answer with a telling status stands for.
pub open spec fn isolation_of_status(status: Option<u16>) -> Option<IsolationView> {
    match status {
        Some(404) => Some(IsolationView::Hard),
        Some(401) => Some(IsolationView::Soft("Access forbidden - reveals shared environment"@)),
        Some(403) => Some(IsolationView::Soft("Access forbidden - reveals shared environment"@)),
        Some(409) => Some(IsolationView::Soft("Name collision - reveals resource exists"@)),
        _ => None,
    }
}

/// The isolation that the wording of an error stands for.
pub open spec fn isolation_of_wording(message: Seq<char>) -> IsolationView {
    if names_absence(message) {
        IsolationView::Hard
    } else if names_refusal(message) {
        IsolationView::Soft("Access forbidden - reveals shared environment"@)
    } else if names_collision(message) {
        IsolationView::Soft("Name collision - reveals resource exists"@)
    } else {
        IsolationView::Soft("Error reveals shared state: "@ + message)
    }
}

/// The isolation that an error stands for: by its status where that is
/// telling, else by its wording.
pub open spec fn inferred_isolation(message: Seq<char>) -> IsolationView {
    match isolation_of_status(status_code(message)) {
        Some(level) => level,
        None => isolation_of_wording(message),
    }
}

/// Whether an error says that the operation is not authorized or not allowed.
/// Only clear authorization failures count.
pub fn is_authorization_error(error_msg: &str) -> (r: bool)
    ensures
        r == names_refusal(error_msg@),
{
    contains(error_msg, "Forbidden") || contains(error_msg, "forbidden") || contains(
        error_msg,
        "Unauthorized",
    ) || contains(error_msg, "unauthorized") || contains(error_msg, "BadRequest") || contains(
        error_msg,
        "not allowed",
    )
}

/// Whether an error says that the object is absent.
pub fn is_absence_error(error_msg: &str) -> (r: bool)
    ensures
        r == names_absence(error_msg@),
{
    contains(error_msg, "NotFound") || contains(error_msg, "not found")
}

/// The HTTP status the API server returned, if the message carries one.
pub fn status_code_in(error_msg: &str) -> (r: Option<u16>)
    ensures
        r == status_code(error_msg@),
{
    match rest_after_last(&chars_of(error_msg), &chars_of("code: ")) {
        Some(rest) => parse_leading_u16(&rest),
        None => None,
    }
}

/// Infers the isolation level from an error during a cross-tenant operation.
pub fn infer_isolation_from_error(error_msg: &str) -> (r: IsolationLevel)
    ensures
        r@ == inferred_isolation(error_msg@),
{
    match status_code_in(error_msg) {
        // Absent from the intruder's scope: what a single-tenant cluster says.
        Some(404) => return IsolationLevel::Hard,
        // Refused, but the refusal confirms there was something to refuse.
        Some(401) | Some(403) => {
            return IsolationLevel::soft("Access forbidden - reveals shared environment");
        },
        // The name is taken, so another tenant holds it.
        Some(409) => return IsolationLevel::soft("Name collision - reveals resource exists"),
        _ => {},
    }
    if is_absence_error(error_msg) {
        IsolationLevel::Hard
    } else if is_authorization_error(error_msg) {
        IsolationLevel::soft("Access forbidden - reveals shared environment")
    } else if contains(error_msg, "AlreadyExists") || contains(error_msg, "already exists") {
        IsolationLevel::soft("Name collision - reveals resource exists")
    } else {
        IsolationLevel::Soft(joined("Error reveals shared state: ", error_msg))
    }
}

/// An error never reads as a breach, and never leaves the level undetermined.
pub proof fn an_error_is_soft_or_hard(message: Seq<char>)
    ensures
        inferred_isolation(message) is Soft || inferred_isolation(message) is Hard,
{
}

/// A telling status decides, whatever the wording says.
pub proof fn the_status_wins_over_the_wording(message: Seq<char>)
    ensures
        status_code(message) == Some(404u16) ==> inferred_isolation(message) is Hard,
        status_code(message) == Some(401u16) || status_code(message) == Some(403u16)
            || status_code(message) == Some(409u16) ==> inferred_isolation(message) is Soft,
{
}

/// Without a telling status a message that names both an absence and a refusal
/// reads as an absence.
pub proof fn absence_wins_over_refusal(message: Seq<char>)
    requires
        isolation_of_status(status_code(message)) is None,
        names_absence(message),
    ensures
        inferred_isolation(message) is Hard,
{
}


/// What `after_last` gives is what follows the last occurrence, and it gives
/// nothing exactly where there is none.
proof fn the_last_occurrence_is_taken(text: Seq<char>, part: Seq<char>, from: int)
    requires
        from <= text.len(),
    ensures
        match rfind_from(text, part, from) {
            Some(at) => {
                &&& at <= from
                &&& occurs_at(text, part, at)
                &&& forall|later: int| at < later <= from ==> !occurs_at(text, part, later)
            },
            None => forall|at: int| at <= from ==> !occurs_at(text, part, at),
        },
    decreases from + 1,
{
    if from >= 0 && !occurs_at(text, part, from) {
        the_last_occurrence_is_taken(text, part, from - 1);
    }
}

/// The status of a message is the number right behind its last `code: `, where
/// there is one and it is a number that a status can be.
pub proof fn the_last_code_is_the_status(message: Seq<char>)
    ensures
        match status_code(message) {
            Some(status) => exists|at: int|
                #[trigger] occurs_at(message, "code: "@, at) && (forall|later: int|
                    later > at ==> !occurs_at(message, "code: "@, later)) && decimal_value(
                    leading_digits(message.skip(at + 6)),
                ) == status && leading_digits(message.skip(at + 6)).len() > 0,
            None => forall|at: int|
                #[trigger] occurs_at(message, "code: "@, at) && (forall|later: int|
                    later > at ==> !occurs_at(message, "code: "@, later)) ==> leading_digits(
                    message.skip(at + 6),
                ).len() == 0 || decimal_value(leading_digits(message.skip(at + 6))) > u16::MAX,
        },
{
    reveal_strlit("code: ");
    let part = "code: "@;
    let len = message.len() as int;
    the_last_occurrence_is_taken(message, part, len);
    match rfind_from(message, part, len) {
        Some(at) => {
            assert(message.skip(at + 6) =~= message.subrange(at + 6, len));
            assert forall|later: int| later > at implies !occurs_at(message, part, later) by {}
            assert forall|other: int|
                #[trigger] occurs_at(message, part, other) && (forall|later: int|
                    later > other ==> !occurs_at(message, part, later)) implies other == at by {
                if other < at {
                    assert(!occurs_at(message, part, at));
                }
            }
        },
        None => {
            assert forall|at: int| !occurs_at(message, part, at) by {}
        },
    }
}

/// How an error reads by its words, where its status says nothing: absence is
/// hard isolation; without it a refusal, a collision and anything else are soft,
/// the last with the error itself as its reason.
pub proof fn the_wording_decides_without_a_status(message: Seq<char>)
    requires
        !(status_code(message) == Some(404u16) || status_code(message) == Some(401u16)
            || status_code(message) == Some(403u16) || status_code(message) == Some(409u16)),
    ensures
        ({
            let absent = has_text(message, "NotFound"@) || has_text(message, "not found"@);
            let refused = has_text(message, "Forbidden"@) || has_text(message, "forbidden"@)
                || has_text(message, "Unauthorized"@) || has_text(message, "unauthorized"@)
                || has_text(message, "BadRequest"@) || has_text(message, "not allowed"@);
            let taken = has_text(message, "AlreadyExists"@) || has_text(
                message,
                "already exists"@,
            );
            &&& inferred_isolation(message) is Hard <==> absent
            &&& !absent && refused ==> inferred_isolation(message) == IsolationView::Soft(
                "Access forbidden - reveals shared environment"@,
            )
            &&& !absent && !refused && taken ==> inferred_isolation(message)
                == IsolationView::Soft("Name collision - reveals resource exists"@)
            &&& !absent && !refused && !taken ==> inferred_isolation(message)
                == IsolationView::Soft("Error reveals shared state: "@ + message)
        }),
{
}

/// How an error reads by its status: not found is hard, unauthorized and
/// forbidden are soft for the refusal, a conflict is soft for the collision.
pub proof fn the_status_decides_which_isolation(message: Seq<char>)
    ensures
        status_code(message) == Some(404u16) ==> inferred_isolation(message) is Hard,
        status_code(message) == Some(401u16) || status_code(message) == Some(403u16)
            ==> inferred_isolation(message) == IsolationView::Soft(
            "Access forbidden - reveals shared environment"@,
        ),
        status_code(message) == Some(409u16) ==> inferred_isolation(message)
            == IsolationView::Soft("Name collision - reveals resource exists"@),
{
}

}
