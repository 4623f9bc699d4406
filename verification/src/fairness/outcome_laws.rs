//! What the lines and figures of a fairness result stand for.

use super::grade::{delivered, graded, MeasuredView, QuotientsView};
use super::measure::Measure;
use super::outcome::{
    bandwidth_text, conclusion, fairness_lines, level_of, phase_text, right_aligned, tenant_text,
    with_bandwidth, with_escalation, with_grade, with_phases, FairnessLevel, FairnessView, LoadView,
    PhaseView, ResultView, TenantView, EXCELLENT_BOUND, GOOD_BOUND, INTRUDER_LOAD_THRESHOLD,
    MODERATE_BOUND, POOR_BOUND, SUSTAINED_BOUND,
};
use super::runner::{run_turn, RunNextView, RunReplyView, RunView};
use crate::render::SpanView;
use crate::text::{decimal, has_text, occurs_at, sums_hold_their_parts};
use vstd::prelude::*;
use vstd::string::*;

verus! {

/// The bound that the given percentage marks, to the nearest quantity that can
/// be written: the hundredfold of a quantity between one and two is `percent` up
/// to half a step.
pub open spec fn marks_above_one(bits: u64, percent: int) -> bool {
    let step = bits - 0x3FF0_0000_0000_0000;
    &&& 0 <= step < 0x10_0000_0000_0000
    &&& -50 <= 100 * step - (percent - 100) * 0x10_0000_0000_0000 <= 50
}

/// The same for a quantity between a half and one, whose steps are half as wide.
pub open spec fn marks_below_one(bits: u64, percent: int) -> bool {
    let step = bits - 0x3FE0_0000_0000_0000;
    &&& 0 <= step < 0x10_0000_0000_0000
    &&& -50 <= 100 * step - (2 * percent - 100) * 0x10_0000_0000_0000 <= 50
}

/// The bounds of the levels are those that their names give: five, fifteen,
/// thirty and fifty percent more than before. A tenant sustains its rate from
/// ninety-five percent of it on, and an intruder its load from ninety.
pub proof fn the_bounds_are_as_named()
    ensures
        marks_above_one(EXCELLENT_BOUND, 105),
        marks_above_one(GOOD_BOUND, 115),
        marks_above_one(MODERATE_BOUND, 130),
        marks_above_one(POOR_BOUND, 150),
        marks_below_one(SUSTAINED_BOUND, 95),
        marks_below_one(INTRUDER_LOAD_THRESHOLD, 90),
{
}

/// A degradation is graded by the bounds that it keeps: each level is given
/// exactly up to its own bound and beyond the one before.
pub proof fn a_level_keeps_its_bound(degradation: Measure)
    requires
        degradation.finite(),
    ensures
        ({
            let within = |bound: u64| degradation.at_most(Measure { bits: bound });
            let level = level_of(degradation);
            &&& level is Excellent <==> within(EXCELLENT_BOUND)
            &&& level is Good <==> within(GOOD_BOUND) && !within(EXCELLENT_BOUND)
            &&& level is Moderate <==> within(MODERATE_BOUND) && !within(GOOD_BOUND)
            &&& level is Poor <==> within(POOR_BOUND) && !within(MODERATE_BOUND)
            &&& level is Critical <==> !within(POOR_BOUND)
        }),
{
}

/// The text of a line without its styles.
pub open spec fn plain_text(spans: Seq<SpanView>) -> Seq<char>
    decreases spans.len(),
{
    if spans.len() == 0 {
        Seq::empty()
    } else {
        plain_text(spans.drop_last()) + spans.last().text
    }
}

proof fn plain_text_of_one(span: SpanView)
    ensures
        plain_text(seq![span]) == span.text,
{
    assert(seq![span].drop_last() =~= seq![]);
    assert(plain_text(seq![]) =~= Seq::empty());
    assert(Seq::<char>::empty() + span.text =~= span.text);
}

proof fn aligned_text_stands_before(text: Seq<char>, width: nat, after: Seq<char>, head: Seq<char>, rest: Seq<char>)
    ensures
        has_text(head + right_aligned(text, width) + after + rest, text + after),
{
    let padded = right_aligned(text, width);
    let whole = head + padded + after + rest;
    let part = text + after;
    let at: int = head.len() + padded.len() - text.len();
    assert(whole.subrange(at, at + part.len()) =~= part);
    assert(occurs_at(whole, part, at));
}

/// Each figure of a tenant stands in its line before its own unit.
pub proof fn a_tenants_line_says_its_figures(head: Seq<char>, tenant: TenantView, width: nat)
    ensures
        ({
            let text = tenant_text(head, tenant, width);
            &&& occurs_at(text, head, 0)
            &&& has_text(text, tenant.latency + "ms ± "@)
            &&& has_text(text, tenant.deviation + "ms  ("@)
            &&& has_text(text, decimal(tenant.operations) + " ops, "@)
            &&& has_text(text, tenant.rate + " ops/s, "@)
            &&& has_text(text, tenant.errors + "% err)"@)
        }),
{
    let text = tenant_text(head, tenant, width);
    let (a, b, c) = (
        right_aligned(tenant.latency, 8),
        right_aligned(tenant.deviation, 6),
        right_aligned(decimal(tenant.operations), width),
    );
    let (d, e) = (right_aligned(tenant.rate, 9), right_aligned(tenant.errors, 5));
    let (u, v, w, x, y) = ("ms ± "@, "ms  ("@, " ops, "@, " ops/s, "@, "% err)"@);
    assert(text == head + a + u + b + v + c + w + d + x + e + y);
    assert(text.subrange(0, head.len() as int) =~= head);
    aligned_text_stands_before(tenant.latency, 8, u, head, b + v + c + w + d + x + e + y);
    assert(head + a + u + (b + v + c + w + d + x + e + y) =~= text);
    aligned_text_stands_before(tenant.deviation, 6, v, head + a + u, c + w + d + x + e + y);
    assert(head + a + u + b + v + (c + w + d + x + e + y) =~= text);
    aligned_text_stands_before(
        decimal(tenant.operations),
        width,
        w,
        head + a + u + b + v,
        d + x + e + y,
    );
    assert(head + a + u + b + v + c + w + (d + x + e + y) =~= text);
    aligned_text_stands_before(tenant.rate, 9, x, head + a + u + b + v + c + w, e + y);
    assert(head + a + u + b + v + c + w + d + x + (e + y) =~= text);
    aligned_text_stands_before(
        tenant.errors,
        5,
        y,
        head + a + u + b + v + c + w + d + x,
        Seq::empty(),
    );
    assert(head + a + u + b + v + c + w + d + x + e + y + Seq::empty() =~= text);
}

/// The line is the one of `tenant`, which it calls `name`.
pub open spec fn is_line_of(spans: Seq<SpanView>, name: Seq<char>, tenant: TenantView) -> bool {
    let text = plain_text(spans);
    &&& occurs_at(text, name, 0)
    &&& has_text(text, tenant.latency + "ms ± "@)
    &&& has_text(text, tenant.deviation + "ms  ("@)
    &&& has_text(text, decimal(tenant.operations) + " ops, "@)
    &&& has_text(text, tenant.rate + " ops/s, "@)
    &&& has_text(text, tenant.errors + "% err)"@)
}

/// Each tenant stands in the line of its phase and its role: under the baseline
/// the first and the second tenant, under the unbalanced phase the regular
/// tenant, which is the first one, and the malicious one, which is the second.
pub proof fn each_tenant_stands_in_its_line(lines: Seq<Seq<SpanView>>, result: ResultView)
    ensures
        ({
            let shown = with_phases(lines, result);
            let n = lines.len() as int;
            &&& shown.len() == n + 11
            &&& plain_text(shown[n + 4]) == "Baseline:"@
            &&& is_line_of(shown[n + 5], "  Tenant1: "@, result.baseline.tenant1)
            &&& is_line_of(shown[n + 6], "  Tenant2: "@, result.baseline.tenant2)
            &&& plain_text(shown[n + 8]) == "Unbalanced:"@
            &&& is_line_of(shown[n + 9], "  Regular:   "@, result.unbalanced.tenant1)
            &&& is_line_of(shown[n + 10], "  Malicious: "@, result.unbalanced.tenant2)
            &&& has_text(plain_text(shown[n + 1]), result.subsystem)
        }),
{
    let shown = with_phases(lines, result);
    let n = lines.len() as int;
    a_tenants_line_says_its_figures("  Tenant1: "@, result.baseline.tenant1, 5);
    a_tenants_line_says_its_figures("  Tenant2: "@, result.baseline.tenant2, 5);
    a_tenants_line_says_its_figures("  Regular:   "@, result.unbalanced.tenant1, 6);
    a_tenants_line_says_its_figures("  Malicious: "@, result.unbalanced.tenant2, 6);
    plain_text_of_one(shown[n + 1][0]);
    plain_text_of_one(shown[n + 4][0]);
    plain_text_of_one(shown[n + 5][0]);
    plain_text_of_one(shown[n + 6][0]);
    plain_text_of_one(shown[n + 8][0]);
    plain_text_of_one(shown[n + 9][0]);
    plain_text_of_one(shown[n + 10][0]);
    sums_hold_their_parts(result.subsystem);
}


/// The bandwidths stand in their order: the baseline's before the word for the
/// unbalanced phase, and that phase's after it.
pub proof fn a_bandwidth_line_says_both(
    head: Seq<char>,
    baseline: Seq<char>,
    unbalanced: Seq<char>,
)
    ensures
        occurs_at(bandwidth_text(head, baseline, unbalanced), head, 0),
        has_text(
            bandwidth_text(head, baseline, unbalanced),
            baseline + " Mbps   unbalanced "@ + right_aligned(unbalanced, 9) + " Mbps"@,
        ),
        has_text(bandwidth_text(head, baseline, unbalanced), unbalanced + " Mbps"@),
{
    let text = bandwidth_text(head, baseline, unbalanced);
    let (a, b) = (right_aligned(baseline, 9), right_aligned(unbalanced, 9));
    let (u, v) = (" Mbps   unbalanced "@, " Mbps"@);
    assert(text.subrange(0, head.len() as int) =~= head);
    aligned_text_stands_before(baseline, 9, u + b + v, head, Seq::empty());
    assert(head + a + (u + b + v) + Seq::empty() =~= text);
    assert(baseline + (u + b + v) =~= baseline + u + b + v);
    aligned_text_stands_before(unbalanced, 9, v, head + a + u, Seq::empty());
    assert(head + a + u + b + v + Seq::empty() =~= text);
}

/// Bandwidth is shown where both phases of the regular tenant know it: the
/// regular tenant's, which is the first, and below it the malicious tenant's,
/// where both phases know that.
pub proof fn each_bandwidth_stands_in_its_line(lines: Seq<Seq<SpanView>>, result: ResultView)
    ensures
        ({
            let shown = with_bandwidth(lines, result);
            let n = lines.len() as int;
            match (result.baseline.tenant1.bandwidth, result.unbalanced.tenant1.bandwidth) {
                (Some(before), Some(under)) => {
                    &&& shown.len() >= n + 3
                    &&& plain_text(shown[n + 2]) == bandwidth_text(
                        "  regular    baseline "@,
                        before,
                        under,
                    )
                    &&& match (
                        result.baseline.tenant2.bandwidth,
                        result.unbalanced.tenant2.bandwidth,
                    ) {
                        (Some(before), Some(under)) => shown.len() == n + 4 && plain_text(
                            shown[n + 3],
                        ) == bandwidth_text("  malicious  baseline "@, before, under),
                        _ => shown.len() == n + 3,
                    }
                },
                _ => shown == lines,
            }
        }),
{
    let shown = with_bandwidth(lines, result);
    let n = lines.len() as int;
    if shown.len() >= n + 3 {
        plain_text_of_one(shown[n + 2][0]);
        assert(shown[n + 2] =~= seq![shown[n + 2][0]]);
    }
    if shown.len() >= n + 4 {
        plain_text_of_one(shown[n + 3][0]);
        assert(shown[n + 3] =~= seq![shown[n + 3][0]]);
    }
}

/// The grade names the degradation and its level, and the share that the
/// regular tenant kept; that the degradation is only a lower bound is said
/// exactly where the tenant did not sustain its rate.
pub proof fn the_grade_says_what_was_found(lines: Seq<Seq<SpanView>>, result: ResultView)
    ensures
        ({
            let shown = with_grade(lines, result);
            let n = lines.len() as int;
            &&& shown.len() >= n + 4
            &&& plain_text(shown[n + 2]) == "  "@ + result.degradation_text
                + "x latency degradation — "@ + level_of(result.latency_degradation).text()
            &&& has_text(plain_text(shown[n + 3]), result.retention_text + "% throughput"@)
            &&& shown.len() > n + 4 <==> result.throughput_retention.less(
                Measure { bits: SUSTAINED_BOUND },
            )
        }),
{
    let shown = with_grade(lines, result);
    let n = lines.len() as int;
    plain_text_of_one(shown[n + 2][0]);
    plain_text_of_one(shown[n + 3][0]);
    assert(shown[n + 2] =~= seq![shown[n + 2][0]]);
    assert(shown[n + 3] =~= seq![shown[n + 3][0]]);
    let (lead, kept, tail) = (
        "  "@,
        result.retention_text,
        "% throughput retained by the regular tenant"@,
    );
    reveal_strlit("% throughput retained by the regular tenant");
    reveal_strlit("% throughput");
    let part = kept + "% throughput"@;
    let text = lead + kept + tail;
    assert(text.subrange(lead.len() as int, lead.len() as int + part.len()) =~= part);
    assert(occurs_at(text, part, lead.len() as int));
}

/// How far the malicious tenant's load grew is told from the baseline's rate to
/// that under stress, where the baseline had one.
pub proof fn the_escalation_is_told(lines: Seq<Seq<SpanView>>, result: ResultView)
    ensures
        ({
            let shown = with_escalation(lines, result);
            let n = lines.len() as int;
            if (Measure { bits: 0 }).less(result.baseline_load) {
                &&& shown.len() == n + 1
                &&& has_text(
                    plain_text(shown[n]),
                    result.escalation_text + "x the baseline load ("@
                        + result.baseline.tenant2.rate + " → "@ + result.unbalanced.tenant2.rate
                        + " ops/s)"@,
                )
            } else {
                shown == lines
            }
        }),
{
    let told = with_escalation(lines, result);
    let n = lines.len() as int;
    if told.len() > lines.len() {
        plain_text_of_one(told[n][0]);
        assert(told[n] =~= seq![told[n][0]]);
        let (e, l, b, m) = (
            result.escalation_text,
            "x the baseline load ("@,
            result.baseline.tenant2.rate,
            " → "@,
        );
        let (u, o) = (result.unbalanced.tenant2.rate, " ops/s)"@);
        a_sum_holds_its_end("    ↳ "@, e, l, b, m, u, o);
    }
}

proof fn a_sum_holds_its_end(
    p: Seq<char>,
    e: Seq<char>,
    l: Seq<char>,
    b: Seq<char>,
    m: Seq<char>,
    u: Seq<char>,
    o: Seq<char>,
)
    ensures
        has_text(p + e + l + b + m + u + o, e + l + b + m + u + o),
{
    let whole = p + e + l + b + m + u + o;
    let end = e + l + b + m + u + o;
    assert(whole =~= p + end);
    assert((p + end).subrange(p.len() as int, p.len() as int + end.len()) =~= end);
    assert(occurs_at(whole, end, p.len() as int));
}

/// The worst result is one of the results, and there is one unless there is no
/// result at all; the summary names it and the average.
pub proof fn the_summary_names_the_worst(report: FairnessView, average: Seq<char>)
    ensures
        report.worst() is None <==> report.control_plane is None && report.network is None
            && report.storage is None,
        report.worst() is Some ==> report.worst() == report.control_plane || report.worst()
            == report.network || report.worst() == report.storage,
        ({
            let shown = fairness_lines(report, average);
            match report.worst() {
                Some(worst) => {
                    &&& shown.len() >= 2
                    &&& plain_text(shown[shown.len() - 2]) == "Average Latency Degradation: "@
                        + average + "x"@
                    &&& plain_text(shown[shown.len() - 1]) == "Worst Subsystem: "@
                        + worst.subsystem + " ("@ + worst.degradation_text + "x degradation)"@
                },
                None => {
                    &&& shown.len() >= 1
                    &&& plain_text(shown[shown.len() - 1])
                        == "No fairness assessments completed."@
                },
            }
        }),
{
    let shown = fairness_lines(report, average);
    let n = shown.len() as int;
    if report.worst() is Some {
        plain_text_of_one(shown[n - 2][0]);
        assert(shown[n - 2] =~= seq![shown[n - 2][0]]);
    }
    plain_text_of_one(shown[n - 1][0]);
    assert(shown[n - 1] =~= seq![shown[n - 1][0]]);
}

/// What is told between and after the phases is of the phase that was just
/// measured: both tenants with their latency and their rate, the first tenant
/// first.
pub proof fn a_phase_is_told_by_its_tenants(first: Seq<char>, second: Seq<char>, phase: PhaseView)
    ensures
        has_text(
            phase_text(first, second, phase),
            first + phase.tenant1.latency + "ms @ "@ + phase.tenant1.rate + " ops/s, "@,
        ),
        has_text(
            phase_text(first, second, phase),
            second + phase.tenant2.latency + "ms @ "@ + phase.tenant2.rate + " ops/s"@,
        ),
{
    let text = phase_text(first, second, phase);
    let one = first + phase.tenant1.latency + "ms @ "@ + phase.tenant1.rate + " ops/s, "@;
    let two = second + phase.tenant2.latency + "ms @ "@ + phase.tenant2.rate + " ops/s"@;
    assert(text =~= "      "@ + one + two);
    sums_hold_their_parts(one);
    sums_hold_their_parts(two);
}

/// What each turn of a run tells is of that run: the announcement names the
/// subsystem, the metric and the baseline's length; after the baseline its
/// figures are told, and how long and under what load the next phase runs;
/// after the divisions the figures of the unbalanced phase and the degradation.
pub proof fn a_run_tells_what_it_measured(run: RunView, log: Seq<RunReplyView>)
    requires
        log.len() <= 3,
        log.len() > 0 ==> log[0] is Measured,
        log.len() > 1 ==> log[1] is Measured,
        log.len() > 2 ==> log[2] is Divided,
    ensures
        ({
            let lines = run_turn(run, log).lines;
            if log.len() == 0 {
                &&& lines.len() == 3
                &&& has_text(plain_text(lines[1]), " "@ + run.name + " ("@ + run.metric + ")..."@)
                &&& has_text(
                    plain_text(lines[2]),
                    " Baseline ("@ + decimal(run.baseline_secs) + "s)..."@,
                )
            } else if log.len() == 1 {
                &&& lines.len() == 2
                &&& plain_text(lines[0]) == phase_text(
                    "Tenant1: "@,
                    "Tenant2: "@,
                    log[0]->Measured_0.figures,
                )
                &&& has_text(
                    plain_text(lines[1]),
                    " Unbalanced ("@ + decimal(run.test_secs) + "s, "@ + run.stress
                        + "x effective load on tenant2)..."@,
                )
            } else if log.len() == 2 {
                lines.len() == 0
            } else {
                &&& lines.len() >= 3
                &&& plain_text(lines[0]) == phase_text(
                    "Regular: "@,
                    "Malicious: "@,
                    log[1]->Measured_0.figures,
                )
            }
        }),
{
    let lines = run_turn(run, log).lines;
    if log.len() == 0 {
        plain_text_of_three(lines[1]);
        plain_text_of_three(lines[2]);
        sums_hold_their_parts(lines[1][2].text);
        sums_hold_their_parts(lines[2][2].text);
    } else if log.len() == 1 {
        plain_text_of_one(lines[0][0]);
        assert(lines[0] =~= seq![lines[0][0]]);
        plain_text_of_three(lines[1]);
        sums_hold_their_parts(lines[1][2].text);
    } else if log.len() == 3 {
        assert(log.skip(2)[0] == log[2]);
        plain_text_of_one(lines[0][0]);
        assert(lines[0] =~= seq![lines[0][0]]);
    }
}

proof fn plain_text_of_three(spans: Seq<SpanView>)
    requires
        spans.len() == 3,
    ensures
        plain_text(spans) == spans[0].text + spans[1].text + spans[2].text,
{
    reveal_with_fuel(plain_text, 4);
    let two = spans.drop_last();
    let one = two.drop_last();
    assert(one.drop_last() =~= seq![]);
    assert(plain_text(one) == Seq::<char>::empty() + one.last().text);
    assert(Seq::<char>::empty() + one.last().text =~= spans[0].text);
    assert(two.last() == spans[1]);
}

/// What the quotients stand for: the regular tenant's latency and rate under
/// stress are divided by those of the baseline, the intruder's rate under stress
/// by what it was aimed at and by its own baseline.
pub proof fn the_stress_is_divided_by_the_baseline(run: RunView, log: Seq<RunReplyView>)
    requires
        log.len() == 2,
        log[0] is Measured,
        log[1] is Measured,
    ensures
        match run_turn(run, log).next {
            RunNextView::Divide(divisions) => {
                let (baseline, stress) = (log[0]->Measured_0, log[1]->Measured_0);
                &&& divisions.latency.dividend == stress.latency
                &&& divisions.latency.divisor == baseline.latency
                &&& divisions.rate.dividend == stress.rate
                &&& divisions.rate.divisor == baseline.rate
                &&& divisions.load.dividend == stress.load
                &&& divisions.load.divisor == run.target
                &&& divisions.escalation.dividend == stress.load
                &&& divisions.escalation.divisor == baseline.load
            },
            _ => false,
        },
{
    assert(log.skip(2).len() == 0);
}

/// A result takes each quotient for what it is: the degradation is that of the
/// latencies wherever both phases have one, and not measured otherwise; the
/// share kept is that of the rates, all where the baseline had none and none
/// where it is not positive; the load is that of the target, where there is one.
/// What is written beside each is the text of the same quotient.
pub proof fn a_result_takes_each_quotient(
    name: Seq<char>,
    baseline: MeasuredView,
    stress: MeasuredView,
    quotients: QuotientsView,
    target: Measure,
    target_text: Seq<char>,
)
    ensures
        ({
            let zero = Measure { bits: 0 };
            let result = graded(name, baseline, stress, quotients);
            let load = delivered(stress, target, target_text, quotients);
            &&& if baseline.latency.at_most(zero) || stress.latency.at_most(zero) {
                result.latency_degradation.no_number() && result.degradation_text == "NaN"@
            } else {
                result.latency_degradation == quotients.latency && result.degradation_text
                    == quotients.latency_text
            }
            &&& if baseline.rate.at_most(zero) {
                result.throughput_retention == (Measure { bits: 0x3FF0_0000_0000_0000 })
                    && result.retention_text == "100.0"@
            } else if zero.less(quotients.rate) {
                result.throughput_retention == quotients.rate && result.retention_text
                    == quotients.rate_text
            } else {
                result.throughput_retention == zero && result.retention_text == "0.0"@
            }
            &&& result.escalation_text == quotients.escalation_text
            &&& result.baseline_load == baseline.load
            &&& result.subsystem == name
            &&& result.baseline == baseline.figures
            &&& result.unbalanced == stress.figures
            &&& load.rate == stress.load
            &&& load.achieved == quotients.achieved_text
            &&& load.target == target_text
            &&& if target.at_most(zero) {
                load.ratio.no_number() && load.percentage == "NaN"@
            } else {
                load.ratio == quotients.load && load.percentage == quotients.load_text
            }
        }),
{
}

/// What is told at the end warns where it has to: the share kept is ticked off
/// exactly where the regular tenant sustained its rate, and that the intruder
/// delivered too little is told exactly where it stayed below its threshold,
/// with the rate it reached and the one it was aimed at.
pub proof fn the_conclusion_warns_where_it_has_to(result: ResultView, load: LoadView)
    ensures
        ({
            let lines = conclusion(result, load);
            let sustained = (Measure { bits: SUSTAINED_BOUND }).at_most(
                result.throughput_retention,
            );
            let short = load.ratio.finite() && load.ratio.less(
                Measure { bits: INTRUDER_LOAD_THRESHOLD },
            );
            let slowed = result.throughput_retention.less(Measure { bits: SUSTAINED_BOUND });
            &&& lines.len() == 3 + (if slowed {
                2int
            } else {
                0
            }) + (if short {
                3int
            } else {
                0
            })
            &&& has_text(
                plain_text(lines[1]),
                " "@ + result.degradation_text + "x latency degradation ("@ + level_of(
                    result.latency_degradation,
                ).text() + ")"@,
            )
            &&& sustained <==> lines[2][1].text == "✓"@
            &&& has_text(
                plain_text(lines[2]),
                " "@ + result.retention_text + "% throughput retained by the regular tenant"@,
            )
            &&& short ==> has_text(
                plain_text(lines[lines.len() - 3]),
                " intruder delivered "@ + load.percentage + "% of its configured load ("@
                    + load.achieved + " of "@ + load.target + " ops/s)"@,
            )
        }),
{
    let lines = conclusion(result, load);
    reveal_strlit("✓");
    reveal_strlit("⚠");
    assert("✓"@[0] == '✓');
    assert("⚠"@[0] == '⚠');
    plain_text_of_three(lines[1]);
    plain_text_of_three(lines[2]);
    sums_hold_their_parts(lines[1][2].text);
    sums_hold_their_parts(lines[2][2].text);
    if load.ratio.finite() && load.ratio.less(Measure { bits: INTRUDER_LOAD_THRESHOLD }) {
        plain_text_of_three(lines[lines.len() - 3]);
        sums_hold_their_parts(lines[lines.len() - 3][2].text);
    }
}


/// A run measures the baseline first and the unbalanced phase after it, then has
/// its quotients made, and only then comes to a result.
pub proof fn the_phases_come_in_order(run: RunView, log: Seq<RunReplyView>)
    requires
        log.len() <= 2,
        log.len() > 0 ==> log[0] is Measured,
        log.len() > 1 ==> log[1] is Measured,
    ensures
        log.len() == 0 <==> run_turn(run, log).next is Baseline,
        log.len() == 1 <==> run_turn(run, log).next is Unbalanced,
        log.len() == 2 <==> run_turn(run, log).next is Divide,
{
    if log.len() == 2 {
        assert(log.skip(2).len() == 0);
    }
}


/// A level is written with the percentage that bounds it, and shown green only
/// where it is good.
pub proof fn a_level_is_written_with_its_bound(level: FairnessLevel)
    ensures
        level is Excellent ==> has_text(level.text(), "≤"@ + decimal(5) + "%"@),
        level is Good ==> has_text(level.text(), "≤"@ + decimal(15) + "%"@),
        level is Moderate ==> has_text(level.text(), "≤"@ + decimal(30) + "%"@),
        level is Poor ==> has_text(level.text(), "≤"@ + decimal(50) + "%"@),
        level is Critical ==> has_text(level.text(), ">"@ + decimal(50) + "%"@),
        level.sign() == "🟢"@ <==> level is Excellent || level is Good,
        level.sign() == "🔴"@ <==> level is Critical,
        level.sign() == "❔"@ <==> level is Unknown,
{
    reveal_with_fuel(decimal, 3);
    reveal_strlit("≤");
    reveal_strlit(">");
    reveal_strlit("%");
    reveal_strlit("🟢");
    reveal_strlit("🟡");
    reveal_strlit("🟠");
    reveal_strlit("🔴");
    reveal_strlit("❔");
    assert("🟢"@[0] == '🟢' && "🟡"@[0] == '🟡' && "🟠"@[0] == '🟠' && "🔴"@[0] == '🔴');
    assert("❔"@[0] == '❔');
    assert(decimal(5) =~= seq!['5']);
    assert(decimal(15) =~= seq!['1', '5']);
    assert(decimal(30) =~= seq!['3', '0']);
    assert(decimal(50) =~= seq!['5', '0']);
    let text = level.text();
    match level {
        FairnessLevel::Excellent => {
            reveal_strlit("Excellent (≤5%)");
            assert(text.subrange(11, 14) =~= "≤"@ + decimal(5) + "%"@);
            assert(occurs_at(text, "≤"@ + decimal(5) + "%"@, 11));
        },
        FairnessLevel::Good => {
            reveal_strlit("Good (≤15%)");
            assert(text.subrange(6, 10) =~= "≤"@ + decimal(15) + "%"@);
            assert(occurs_at(text, "≤"@ + decimal(15) + "%"@, 6));
        },
        FairnessLevel::Moderate => {
            reveal_strlit("Moderate (≤30%)");
            assert(text.subrange(10, 14) =~= "≤"@ + decimal(30) + "%"@);
            assert(occurs_at(text, "≤"@ + decimal(30) + "%"@, 10));
        },
        FairnessLevel::Poor => {
            reveal_strlit("Poor (≤50%)");
            assert(text.subrange(6, 10) =~= "≤"@ + decimal(50) + "%"@);
            assert(occurs_at(text, "≤"@ + decimal(50) + "%"@, 6));
        },
        FairnessLevel::Critical => {
            reveal_strlit("Critical (>50%)");
            assert(text.subrange(10, 14) =~= ">"@ + decimal(50) + "%"@);
            assert(occurs_at(text, ">"@ + decimal(50) + "%"@, 10));
        },
        FairnessLevel::Unknown => {},
    }
}

/// The load that is written beside a result is the one that the intruder
/// delivered in this run, held against this run's own target.
pub proof fn the_load_is_that_of_the_run(run: RunView, log: Seq<RunReplyView>)
    requires
        log.len() == 3,
        run_turn(run, log).next is Export,
    ensures
        match run_turn(run, log).next {
            RunNextView::Export(result, load) => {
                &&& log[1] is Measured && log[2] is Divided
                &&& load.rate == log[1]->Measured_0.load
                &&& load.target == run.target_text
                &&& load.achieved == log[2]->Divided_0.achieved_text
                &&& !run.target.at_most(Measure { bits: 0 }) ==> load.ratio
                    == log[2]->Divided_0.load && load.percentage == log[2]->Divided_0.load_text
                &&& run.target.at_most(Measure { bits: 0 }) ==> load.ratio.no_number()
            },
            _ => false,
        },
{
    assert(log.skip(2)[0] == log[2]);
}

}
