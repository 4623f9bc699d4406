//! From a probe's report to a verdict.

use crate::isolation::{CrossTenantResult, CrossTenantView, IsolationLevel, IsolationView};
use crate::text::{
    chars_of, contains, find, find_from, has_text, joined, joined3, joined4, lowercase,
    lowercase_of, occurs_at, slice_of, string_from, string_of, sums_hold_their_parts,
};
use crate::words::{
    char_views, first_word, first_word_of, lines, lines_of, parts, parts_of, trim, trimmed,
};
use crate::words_laws::{
    a_text_without_separators_is_its_only_part, the_first_part_ends_at_the_first_separator,
};
use vstd::prelude::*;
use vstd::string::*;

verus! {

/// The first `n` characters of a text, or all of it.
pub open spec fn at_most(text: Seq<char>, n: nat) -> Seq<char> {
    if text.len() <= n {
        text
    } else {
        text.take(n as int)
    }
}

/// The first `n` characters of a text, or all of it.
pub fn at_most_of(chars: &Vec<char>, n: usize) -> (r: String)
    ensures
        r@ == at_most(chars@, n as nat),
{
    let end: usize = if chars.len() <= n {
        chars.len()
    } else {
        n
    };
    assert(chars@.subrange(0, end as int) =~= at_most(chars@, n as nat));
    string_of(chars, 0, end)
}

/// The line is one in which a probe reports.
pub open spec fn is_report(line: Seq<char>) -> bool {
    has_text(line, "NETWORK_ACCESS_"@) || has_text(line, "DNS_"@)
}

/// The first line in which a probe reports.
pub open spec fn first_report(list: Seq<Seq<char>>) -> Option<Seq<char>>
    decreases list.len(),
{
    if list.len() == 0 {
        None
    } else if is_report(list[0]) {
        Some(list[0])
    } else {
        first_report(list.skip(1))
    }
}

/// The probe's own words: the line in which it reports, or without one its
/// whole output, cut to what a table can carry.
pub open spec fn own_words(output: Seq<char>) -> Seq<char> {
    at_most(
        match first_report(lines(output)) {
            Some(line) => line,
            None => output,
        },
        160,
    )
}

/// The probe's own words, cut to what a table can carry.
pub fn first_line(output: &str) -> (r: String)
    ensures
        r@ == own_words(output@),
{
    let chars = chars_of(output);
    let found = lines_of(&chars);
    let ghost views = char_views(found@);
    let mut i: usize = 0;
    assert(views.skip(0) =~= views);
    while i < found.len()
        invariant
            i <= found.len(),
            views == char_views(found@),
            views == lines(output@),
            first_report(views) == first_report(views.skip(i as int)),
        decreases found.len() - i,
    {
        assert(views.skip(i as int)[0] == found[i as int]@);
        assert(views.skip(i as int).skip(1) =~= views.skip(i + 1));
        let line = string_of(&found[i], 0, found[i].len());
        assert(line@ =~= found[i as int]@);
        if contains(&line, "NETWORK_ACCESS_") || contains(&line, "DNS_") {
            return at_most_of(&found[i], 160);
        }
        i += 1;
    }
    at_most_of(&chars, 160)
}

/// What a reachability probe's report stands for. What matters is the line
/// between an answer and silence: reaching the other tenant is a breach; an
/// answer that rejects can only come over a shared network and shows that a
/// rule exists; silence, no route or no address is what a lone tenant sees; and
/// a probe that cannot say what happened has measured nothing.
pub open spec fn reachability_verdict(what: Seq<char>, output: Seq<char>) -> CrossTenantView {
    let words = own_words(output);
    if has_text(output, "NETWORK_ACCESS_SUCCESS"@) {
        CrossTenantView {
            isolation: IsolationView::NoIsolation,
            autonomy: true,
            details: what + ": the intruder observed the other tenant's secret — not isolated"@,
        }
    } else if has_text(output, "NETWORK_ACCESS_NO_HOST"@) {
        CrossTenantView {
            isolation: IsolationView::Hard,
            autonomy: true,
            details: what + ": the other tenant has no route or address from here — "@ + words,
        }
    } else if has_text(output, "NETWORK_ACCESS_NO_ANSWER"@) {
        CrossTenantView {
            isolation: IsolationView::Hard,
            autonomy: true,
            details: what
                + ": nothing answered at the other tenant's address, which is what a lone tenant sees — "@
                + words,
        }
    } else if has_text(output, "NETWORK_ACCESS_REFUSED"@) {
        CrossTenantView {
            isolation: IsolationView::Soft("The connection was answered and rejected"@),
            autonomy: true,
            details: what
                + ": something answered and rejected the connection, so the network is shared and a rule forbade the attempt — "@
                + words,
        }
    } else {
        CrossTenantView {
            isolation: IsolationView::Unknown,
            autonomy: true,
            details: what + ": the intruder reported nothing usable — "@ + words,
        }
    }
}

/// Judges a reachability probe between pods.
pub fn judge_pod_reachability(output: &str) -> (r: CrossTenantResult)
    ensures
        r@ == reachability_verdict("pod-to-pod reachability"@, output@),
{
    judge_reachability("pod-to-pod reachability", output)
}

/// Judges a reachability probe of a service.
pub fn judge_service_reachability(output: &str) -> (r: CrossTenantResult)
    ensures
        r@ == reachability_verdict("service reachability"@, output@),
{
    judge_reachability("service reachability", output)
}

/// Judges a reachability probe.
pub fn judge_reachability(what: &str, output: &str) -> (r: CrossTenantResult)
    ensures
        r@ == reachability_verdict(what@, output@),
{
    if contains(output, "NETWORK_ACCESS_SUCCESS") {
        return CrossTenantResult {
            isolation: IsolationLevel::NoIsolation,
            autonomy: true,
            details: joined(
                what,
                ": the intruder observed the other tenant's secret — not isolated",
            ),
        };
    }
    let words = first_line(output);
    if contains(output, "NETWORK_ACCESS_NO_HOST") {
        return CrossTenantResult {
            isolation: IsolationLevel::Hard,
            autonomy: true,
            details: joined3(
                what,
                ": the other tenant has no route or address from here — ",
                &words,
            ),
        };
    }
    if contains(output, "NETWORK_ACCESS_NO_ANSWER") {
        return CrossTenantResult {
            isolation: IsolationLevel::Hard,
            autonomy: true,
            details: joined3(
                what,
                ": nothing answered at the other tenant's address, which is what a lone tenant sees — ",
                &words,
            ),
        };
    }
    if contains(output, "NETWORK_ACCESS_REFUSED") {
        return CrossTenantResult {
            isolation: IsolationLevel::soft("The connection was answered and rejected"),
            autonomy: true,
            details: joined3(
                what,
                ": something answered and rejected the connection, so the network is shared and a rule forbade the attempt — ",
                &words,
            ),
        };
    }
    CrossTenantResult {
        isolation: IsolationLevel::Unknown,
        autonomy: true,
        details: joined3(what, ": the intruder reported nothing usable — ", &words),
    }
}

/// What a DNS probe's report stands for. A record that resolves is the
/// disclosure, whether or not anything listens behind it. No record is what a
/// lone tenant sees; a record that is withheld shows a rule; and a resolver that
/// failed or never answered has told nothing.
pub open spec fn dns_verdict(output: Seq<char>) -> CrossTenantView {
    if has_text(output, "DNS_RESOLVED"@) {
        CrossTenantView {
            isolation: IsolationView::NoIsolation,
            autonomy: true,
            details:
                "cross-tenant DNS resolution: the other tenant's record resolved here — not isolated"@,
        }
    } else if has_text(output, "DNS_NXDOMAIN"@) {
        CrossTenantView {
            isolation: IsolationView::Hard,
            autonomy: true,
            details:
                "cross-tenant DNS resolution: the server holds no record of the other tenant for this client"@,
        }
    } else if has_text(output, "DNS_REFUSED"@) {
        CrossTenantView {
            isolation: IsolationView::Soft("A policy forbade the cross-tenant operation"@),
            autonomy: true,
            details:
                "cross-tenant DNS resolution: the record exists and the server declined to disclose it"@,
        }
    } else if has_text(output, "DNS_SERVER_BROKEN"@) {
        CrossTenantView {
            isolation: IsolationView::Unknown,
            autonomy: false,
            details:
                "cross-tenant DNS resolution: the resolver failed rather than answered — "@
                + own_words(output),
        }
    } else {
        CrossTenantView {
            isolation: IsolationView::Unknown,
            autonomy: false,
            details:
                "cross-tenant DNS resolution: no DNS server answered, so nothing was learned — "@
                + own_words(output),
        }
    }
}

/// Judges a DNS probe.
pub fn judge_dns_resolution(output: &str) -> (r: CrossTenantResult)
    ensures
        r@ == dns_verdict(output@),
{
    if contains(output, "DNS_RESOLVED") {
        return CrossTenantResult {
            isolation: IsolationLevel::NoIsolation,
            autonomy: true,
            details: string_from(
                "cross-tenant DNS resolution: the other tenant's record resolved here — not isolated",
            ),
        };
    }
    if contains(output, "DNS_NXDOMAIN") {
        return CrossTenantResult {
            isolation: IsolationLevel::Hard,
            autonomy: true,
            details: string_from(
                "cross-tenant DNS resolution: the server holds no record of the other tenant for this client",
            ),
        };
    }
    if contains(output, "DNS_REFUSED") {
        return CrossTenantResult {
            isolation: IsolationLevel::soft("A policy forbade the cross-tenant operation"),
            autonomy: true,
            details: string_from(
                "cross-tenant DNS resolution: the record exists and the server declined to disclose it",
            ),
        };
    }
    if contains(output, "DNS_SERVER_BROKEN") {
        return CrossTenantResult {
            isolation: IsolationLevel::Unknown,
            autonomy: false,
            details: joined(
                "cross-tenant DNS resolution: the resolver failed rather than answered — ",
                &first_line(output),
            ),
        };
    }
    CrossTenantResult {
        isolation: IsolationLevel::Unknown,
        autonomy: false,
        details: joined(
            "cross-tenant DNS resolution: no DNS server answered, so nothing was learned — ",
            &first_line(output),
        ),
    }
}

/// The word behind the first `rc=`: the exit code that the probe reported.
pub open spec fn reported_code(output: Seq<char>) -> Seq<char> {
    let pieces = parts(output, "rc="@);
    if pieces.len() > 1 {
        first_word(pieces[1])
    } else {
        Seq::empty()
    }
}

/// What the probe said behind its word for a failed connection.
pub open spec fn reported_detail(output: Seq<char>) -> Seq<char> {
    match find_from(output, "CONNECTION_FAILED"@, 0) {
        Some(at) => at_most(
            trimmed(output.subrange(at + "CONNECTION_FAILED"@.len(), output.len() as int)),
            90,
        ),
        None => Seq::empty(),
    }
}

/// The way a connection failed, by curl's exit code: having no route to the
/// address, an answer that rejects, and silence are three findings. The word for
/// the first is found in any case. Of all capitals only those of ASCII become
/// letters of that word.
pub open spec fn failure_name(output: Seq<char>) -> Seq<char> {
    let code = reported_code(output);
    if code == "6"@ {
        "the address did not resolve"@
    } else if code == "7"@ {
        if has_text(lowercase(output), "unreachable"@) {
            "no route to the address from here"@
        } else {
            "the connection was refused — the address was reached and nothing listens"@
        }
    } else if code == "28"@ {
        "no answer before the timeout"@
    } else {
        "failed"@
    }
}

/// The word behind the first `rc=`.
fn code_in(output: &Vec<char>) -> (r: String)
    ensures
        r@ == reported_code(output@),
{
    let marker = chars_of("rc=");
    proof {
        reveal_strlit("rc=");
    }
    let pieces = parts_of(output, &marker);
    let ghost views = char_views(pieces@);
    if pieces.len() > 1 {
        assert(views[1] == pieces[1]@);
        first_word_of(&pieces[1])
    } else {
        String::new()
    }
}

/// What the probe said behind its word for a failed connection.
fn detail_in(output: &Vec<char>) -> (r: String)
    ensures
        r@ == reported_detail(output@),
{
    let marker = chars_of("CONNECTION_FAILED");
    match find(output, &marker, 0) {
        Some(at) => {
            assert(at + marker@.len() <= output.len());
            let rest = slice_of(output, at + marker.len(), output.len());
            at_most_of(&trim(&rest), 90)
        },
        None => String::new(),
    }
}

/// Names the way a connection failed, with the probe's own words.
pub fn describe_failure(output: &str) -> (r: String)
    ensures
        r@ == failure_name(output@) + " ("@ + reported_detail(output@) + ")"@,
{
    let chars = chars_of(output);
    let code = code_in(&chars);
    let detail = detail_in(&chars);
    let named = if code == string_from("6") {
        "the address did not resolve"
    } else if code == string_from("7") {
        if contains(&lowercase_of(output), "unreachable") {
            "no route to the address from here"
        } else {
            "the connection was refused — the address was reached and nothing listens"
        }
    } else if code == string_from("28") {
        "no answer before the timeout"
    } else {
        "failed"
    };
    joined4(named, " (", &detail, ")")
}

/// A reachability report is read as a breach exactly where it reports success,
/// and as full isolation only where nothing answered.
pub proof fn reachability_needs_evidence(what: Seq<char>, output: Seq<char>)
    ensures
        (reachability_verdict(what, output).isolation is NoIsolation) == has_text(
            output,
            "NETWORK_ACCESS_SUCCESS"@,
        ),
        reachability_verdict(what, output).isolation is Hard ==> has_text(
            output,
            "NETWORK_ACCESS_NO_HOST"@,
        ) || has_text(output, "NETWORK_ACCESS_NO_ANSWER"@),
{
}

/// A DNS report is read as full isolation only where the server answered that
/// it holds no record; a tenant without a working resolver has no autonomy.
pub proof fn dns_isolation_needs_an_answer(output: Seq<char>)
    ensures
        dns_verdict(output).isolation is Hard ==> has_text(output, "DNS_NXDOMAIN"@),
        (dns_verdict(output).isolation is Unknown) == !dns_verdict(output).autonomy,
{
}


/// How a reachability report is read, whatever else it holds: a success is a
/// breach; without one, a host that is not there and one that does not answer
/// are full isolation; without these, a refusal is soft; and a report with none
/// of these words decides nothing. The tenant is autonomous in every case: its
/// probe ran.
pub proof fn reachability_reports_are_read_in_order(what: Seq<char>, output: Seq<char>)
    ensures
        ({
            let result = reachability_verdict(what, output);
            let reached = has_text(output, "NETWORK_ACCESS_SUCCESS"@);
            let silent = has_text(output, "NETWORK_ACCESS_NO_HOST"@) || has_text(
                output,
                "NETWORK_ACCESS_NO_ANSWER"@,
            );
            let refused = has_text(output, "NETWORK_ACCESS_REFUSED"@);
            &&& result.autonomy
            &&& result.isolation is NoIsolation <==> reached
            &&& result.isolation is Hard <==> !reached && silent
            &&& result.isolation is Soft <==> !reached && !silent && refused
            &&& result.isolation is Unknown <==> !reached && !silent && !refused
            &&& has_text(result.details, what)
            &&& !reached ==> has_text(result.details, own_words(output))
        }),
{
    sums_hold_their_parts(what);
    sums_hold_their_parts(own_words(output));
}

/// How a DNS report is read: a name that resolved is a breach; without that, an
/// answer that there is no such name is full isolation; without these, a refused
/// answer is soft; and with none of them nothing was learnt, and the tenant has
/// no working resolver.
pub proof fn dns_reports_are_read_in_order(output: Seq<char>)
    ensures
        ({
            let result = dns_verdict(output);
            let resolved = has_text(output, "DNS_RESOLVED"@);
            let absent = has_text(output, "DNS_NXDOMAIN"@);
            let refused = has_text(output, "DNS_REFUSED"@);
            &&& result.isolation is NoIsolation <==> resolved
            &&& result.isolation is Hard <==> !resolved && absent
            &&& result.isolation is Soft <==> !resolved && !absent && refused
            &&& result.isolation is Unknown <==> !resolved && !absent && !refused
            &&& result.autonomy <==> resolved || absent || refused
            &&& !result.autonomy ==> has_text(result.details, own_words(output))
        }),
{
    sums_hold_their_parts(own_words(output));
}

/// The probe's own words are its own: a part of its output from the start of a
/// line that reports, and of the whole output where no line does; never longer
/// than a table can carry.
pub proof fn own_words_come_from_the_report(output: Seq<char>)
    ensures
        own_words(output).len() <= 160,
        ({
            let list = lines(output);
            ||| exists|i: int|
                0 <= i < list.len() && #[trigger] is_report(list[i]) && own_words(output)
                    == list[i].take(own_words(output).len() as int) && (own_words(output).len()
                    == list[i].len() || own_words(output).len() == 160) && forall|j: int|
                    0 <= j < i ==> !#[trigger] is_report(list[j])
            ||| own_words(output) == output.take(own_words(output).len() as int) && (own_words(
                output,
            ).len() == output.len() || own_words(output).len() == 160) && forall|j: int|
                0 <= j < list.len() ==> !#[trigger] is_report(list[j])
        }),
{
    let list = lines(output);
    first_report_is_first(list);
    match first_report(list) {
        Some(line) => {
            let i = choose|i: int|
                0 <= i < list.len() && is_report(list[i]) && list[i] == line && forall|j: int|
                    0 <= j < i ==> !#[trigger] is_report(list[j]);
            assert(is_report(list[i]));
            assert(line.take(line.len() as int) =~= line);
        },
        None => {
            assert(output.take(output.len() as int) =~= output);
        },
    }
}

proof fn first_report_is_first(list: Seq<Seq<char>>)
    ensures
        match first_report(list) {
            Some(line) => exists|i: int|
                0 <= i < list.len() && #[trigger] is_report(list[i]) && list[i] == line && forall|
                    j: int,
                |
                    0 <= j < i ==> !#[trigger] is_report(list[j]),
            None => forall|j: int| 0 <= j < list.len() ==> !#[trigger] is_report(list[j]),
        },
    decreases list.len(),
{
    if list.len() > 0 && !is_report(list[0]) {
        let rest = list.skip(1);
        first_report_is_first(rest);
        match first_report(rest) {
            Some(line) => {
                let i = choose|i: int|
                    0 <= i < rest.len() && #[trigger] is_report(rest[i]) && rest[i] == line
                        && forall|j: int| 0 <= j < i ==> !#[trigger] is_report(rest[j]);
                assert(is_report(list[i + 1]));
                assert forall|j: int| 0 <= j < i + 1 implies !#[trigger] is_report(list[j]) by {
                    if j > 0 {
                        assert(!is_report(rest[j - 1]));
                    }
                }
            },
            None => {
                assert forall|j: int| 0 <= j < list.len() implies !#[trigger] is_report(list[j]) by {
                    if j > 0 {
                        assert(!is_report(rest[j - 1]));
                    }
                }
            },
        }
    } else if list.len() > 0 {
        assert(is_report(list[0]));
    }
}


/// The code of a failed connection is the word right behind its mark, where the
/// mark stands once; a report without the mark has none.
pub proof fn the_code_stands_behind_its_mark(output: Seq<char>, at: int)
    requires
        occurs_at(output, "rc="@, at),
        forall|i: int| i != at ==> !occurs_at(output, "rc="@, i),
    ensures
        reported_code(output) == first_word(output.skip(at + 3)),
{
    reveal_strlit("rc=");
    let mark = "rc="@;
    let rest = output.skip(at + 3);
    the_first_part_ends_at_the_first_separator(output, mark, at);
    assert forall|i: int| 0 <= i implies !occurs_at(rest, mark, i) by {
        if occurs_at(rest, mark, i) {
            assert(output.subrange(at + 3 + i, at + 3 + i + 3) =~= rest.subrange(i, i + 3));
            assert(occurs_at(output, mark, at + 3 + i));
        }
    }
    a_text_without_separators_is_its_only_part(rest, mark);
    assert(parts(output, mark) =~= seq![output.take(at), rest]);
}

/// How a failed connection is named: by the code that curl ends with, and one
/// that could not connect by whether there was a route.
pub proof fn a_failure_is_named_by_its_code(output: Seq<char>)
    ensures
        reported_code(output) == "6"@ ==> failure_name(output) == "the address did not resolve"@,
        reported_code(output) == "28"@ ==> failure_name(output)
            == "no answer before the timeout"@,
        reported_code(output) == "7"@ && has_text(lowercase(output), "unreachable"@)
            ==> failure_name(output) == "no route to the address from here"@,
        reported_code(output) == "7"@ && !has_text(lowercase(output), "unreachable"@)
            ==> failure_name(output)
            == "the connection was refused — the address was reached and nothing listens"@,
        reported_code(output) != "6"@ && reported_code(output) != "7"@ && reported_code(output)
            != "28"@ ==> failure_name(output) == "failed"@,
{
    reveal_strlit("6");
    reveal_strlit("7");
    reveal_strlit("28");
    assert("6"@[0] == '6' && "7"@[0] == '7' && "28"@.len() == 2);
}

}
