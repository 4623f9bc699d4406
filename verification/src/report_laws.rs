//! What the reports stand for: which checks their findings rest on, and where a
//! reader finds them.

use crate::assessment::{
    AssessableOperation, AssessableResource, AssessmentConfig, AutonomyRatio, OperationView, System,
};
use crate::isolation::{overall_level, overall_level_is_the_first_minimum, IsolationView};
use crate::multitenancy::{
    category_rows, level_in, level_name, level_summary, level_text, plain_level_text, ratio_text,
    report_around, report_rows, report_title, section_rows, MultitenancyView, PercentagesView,
    SectionView,
};
use crate::render::{
    autonomy_sign, details_style, findings, isolation_sign, label_order, operation_labels,
    operation_lines, operation_sign, operation_spans, operations_are_shown_in_order,
    operations_lines, ratio_sign, report_head, report_lines, resource_head, resource_lines,
    resources_lines, text_lines, under_branch, warning_lines, warning_wrap, SpanView, Style,
};
use crate::report::{
    allowed_count, allowed_in, assessments_of, collected, operation_count, operation_levels,
    position_is_where, position_of, ReportView, ResourceView,
};
use crate::run::{
    covers, report_of, run_step, sweep_step, AssessmentView, CheckedView, JudgementView, SweepView,
};
use crate::text::{a_sum_holds_its_end, decimal, has_text, occurs_at};
use crate::wrap::{wrapped, WrapView};
use vstd::prelude::*;
use vstd::string::*;

verus! {

/// How the levels are ordered: a breach is the lowest, then what could not be
/// determined, then soft isolation whatever its reason, and hard isolation is
/// the highest.
pub proof fn the_levels_are_ordered(reason: Seq<char>, other: Seq<char>)
    ensures
        IsolationView::NoIsolation.rank() < IsolationView::Unknown.rank(),
        IsolationView::Unknown.rank() < IsolationView::Soft(reason).rank(),
        IsolationView::Soft(reason).rank() == IsolationView::Soft(other).rank(),
        IsolationView::Soft(reason).rank() < IsolationView::Hard.rank(),
{
}

// ---- Findings --------------------------------------------------------------

/// The finding is what the check showed: an operation that the tenant may not
/// perform has no autonomy and no way into another tenant; one that it may is
/// found to be what its effect was.
pub open spec fn rests_on(finding: OperationView, check: CheckedView) -> bool {
    match check.authorized {
        Ok(true) => match check.effect {
            Some(Ok(effect)) => {
                &&& finding.isolation == effect.isolation
                &&& finding.autonomy == effect.autonomy
                &&& finding.details == Some(effect.details)
            },
            _ => false,
        },
        Ok(false) => finding.isolation is Hard && !finding.autonomy,
        Err(_) => false,
    }
}

proof fn a_sweep_rests_on_its_checks<O>(
    operations: Seq<O>,
    log: Seq<CheckedView>,
    k: int,
    at: int,
    found: Seq<(O, OperationView)>,
)
    requires
        0 <= k <= operations.len(),
        found.len() == k,
        0 <= at,
    ensures
        match sweep_step(operations, log, k, at, found) {
            SweepView::Found(all, next) => {
                &&& all.len() == operations.len()
                &&& next == at + (operations.len() - k)
                &&& forall|j: int| 0 <= j < k ==> #[trigger] all[j] == found[j]
                &&& forall|j: int|
                    k <= j < operations.len() ==> (#[trigger] all[j]).0 == operations[j]
                        && rests_on(all[j].1, log[at + j - k])
            },
            SweepView::Authorization(operation) => {
                &&& log.len() - at + k < operations.len()
                &&& log.len() >= at ==> operation == operations[log.len() - at + k]
            },
            SweepView::Effect(operation) => exists|j: int|
                k <= j < operations.len() && operation == #[trigger] operations[j] && log.len() > at
                    + j - k && log[at + j - k].authorized == Ok::<bool, Seq<char>>(true)
                    && log[at + j - k].effect is None,
            SweepView::Failed(error) => exists|i: int|
                at <= i < log.len() && ((#[trigger] log[i]).authorized == Err::<bool, Seq<char>>(
                    error,
                ) || log[i].effect == Some(Err::<crate::isolation::CrossTenantView, Seq<char>>(
                    error,
                ))),
        },
    decreases operations.len() - k,
{
    if k < operations.len() && at < log.len() {
        match log[at].judgement() {
            JudgementView::Assessed(assessment) => {
                let more = found.push((operations[k], assessment));
                a_sweep_rests_on_its_checks(operations, log, k + 1, at + 1, more);
                if let SweepView::Found(all, next) = sweep_step(
                    operations,
                    log,
                    k + 1,
                    at + 1,
                    more,
                ) {
                    assert forall|j: int| 0 <= j < k implies #[trigger] all[j] == found[j] by {
                        assert(all[j] == more[j]);
                    }
                    assert forall|j: int| k <= j < operations.len() implies (
                    #[trigger] all[j]).0 == operations[j] && rests_on(
                        all[j].1,
                        log[at + j - k],
                    ) by {
                        if j == k {
                            assert(all[j] == more[j]);
                        }
                    }
                }
                if let SweepView::Effect(operation) = sweep_step(
                    operations,
                    log,
                    k + 1,
                    at + 1,
                    more,
                ) {
                    let j = choose|j: int|
                        k + 1 <= j < operations.len() && operation == #[trigger] operations[j]
                            && log.len() > (at + 1) + j - (k + 1) && log[(at + 1) + j - (k
                            + 1)].authorized == Ok::<bool, Seq<char>>(true) && log[(at + 1) + j - (
                        k + 1)].effect is None;
                    assert(operations[j] == operation);
                }
            },
            JudgementView::Pending => {
                assert(operations[k] == operations[k]);
            },
            JudgementView::Failed(error) => {
                assert(log[at] == log[at]);
            },
        }
    }
}

/// How many operations the first `n` resources have.
pub open spec fn operations_before<R: AssessableResource>(resources: Seq<R>, n: int) -> nat
    decreases n,
{
    if n <= 0 {
        0
    } else {
        operations_before(resources, n - 1) + resources[n - 1].operations().len()
    }
}

/// The findings rest on the checks of a run, each on its own: the checks come in
/// the order of the resources and their operations.
pub open spec fn rest_on_their_checks<R: AssessableResource>(
    findings: Seq<(R, Seq<(R::Operation, OperationView)>)>,
    resources: Seq<R>,
    log: Seq<CheckedView>,
) -> bool {
    forall|k: int, j: int|
        #![trigger findings[k].1[j]]
        0 <= k < findings.len() && 0 <= j < findings[k].1.len() ==> rests_on(
            findings[k].1[j].1,
            log[operations_before(resources, k) + j],
        )
}

proof fn the_rest_rests_on_its_checks<R: AssessableResource>(
    name: Seq<char>,
    resources: Seq<R>,
    log: Seq<CheckedView>,
    k: int,
    findings: Seq<(R, Seq<(R::Operation, OperationView)>)>,
)
    requires
        0 <= k <= resources.len(),
        covers(findings, resources.take(k)),
        rest_on_their_checks(findings, resources, log),
    ensures
        match run_step(
            name,
            resources,
            log,
            k,
            operations_before(resources, k) as int,
            findings,
        ) {
            AssessmentView::Done(report) => exists|
                all: Seq<(R, Seq<(R::Operation, OperationView)>)>,
            |
                #![trigger report_of(name, all)]
                covers(all, resources) && rest_on_their_checks(all, resources, log) && report
                    == report_of(name, all),
            _ => true,
        },
    decreases resources.len() - k,
{
    let at = operations_before(resources, k) as int;
    if k == resources.len() {
        assert(resources.take(k) =~= resources);
        assert(report_of(name, findings) == report_of(name, findings));
    } else {
        let operations = resources[k].operations();
        a_sweep_rests_on_its_checks(operations, log, 0, at, seq![]);
        if let SweepView::Found(found, next) = sweep_step(operations, log, 0, at, seq![]) {
            let more = findings.push((resources[k], found));
            assert forall|m: int| 0 <= m < k + 1 implies (#[trigger] more[m]).0 == resources.take(
                k + 1,
            )[m] && more[m].1.len() == resources.take(k + 1)[m].operations().len() by {
                if m < k {
                    assert(more[m] == findings[m]);
                    assert(resources.take(k)[m] == resources.take(k + 1)[m]);
                }
            }
            assert forall|m: int, j: int|
                #![trigger more[m].1[j]]
                0 <= m < k + 1 && 0 <= j < resources.take(k + 1)[m].operations().len() implies
                more[m].1[j].0 == resources.take(k + 1)[m].operations()[j] by {
                if m < k {
                    assert(more[m] == findings[m]);
                    assert(resources.take(k)[m] == resources.take(k + 1)[m]);
                    assert(findings[m].1[j].0 == resources.take(k)[m].operations()[j]);
                }
            }
            assert forall|m: int, j: int|
                #![trigger more[m].1[j]]
                0 <= m < more.len() && 0 <= j < more[m].1.len() implies rests_on(
                more[m].1[j].1,
                log[operations_before(resources, m) + j],
            ) by {
                if m < k {
                    assert(more[m] == findings[m]);
                    assert(rests_on(
                        findings[m].1[j].1,
                        log[operations_before(resources, m) + j],
                    ));
                } else {
                    assert(more[m].1[j] == found[j]);
                }
            }
            assert(next == operations_before(resources, k + 1));
            the_rest_rests_on_its_checks(name, resources, log, k + 1, more);
        }
    }
}

/// A report says of each operation what the check of that operation showed: a
/// finished assessment rests on findings for all operations of all resources,
/// each of them taken from the check made for it.
pub proof fn a_report_rests_on_its_checks<R: AssessableResource>(
    name: Seq<char>,
    resources: Seq<R>,
    log: Seq<CheckedView>,
)
    ensures
        match run_step(name, resources, log, 0, 0, seq![]) {
            AssessmentView::Done(report) => exists|
                all: Seq<(R, Seq<(R::Operation, OperationView)>)>,
            |
                #![trigger report_of(name, all)]
                covers(all, resources) && rest_on_their_checks(all, resources, log) && report
                    == report_of(name, all) && report.name == name,
            _ => true,
        },
{
    let none: Seq<(R, Seq<(R::Operation, OperationView)>)> = seq![];
    assert(covers(none, resources.take(0)));
    the_rest_rests_on_its_checks(name, resources, log, 0, none);
}

/// Of several findings on one operation the last one counts, every operation
/// that was found something of is there, and nothing else is.
#[verifier::spinoff_prover]
#[verifier::rlimit(40)]
pub proof fn the_last_finding_counts<O>(findings: Seq<(O, OperationView)>)
    ensures
        forall|i: int|
            0 <= i < findings.len() && (forall|k: int|
                i < k < findings.len() ==> (#[trigger] findings[k]).0 != findings[i].0)
                ==> collected(findings).contains(#[trigger] findings[i]),
        forall|j: int|
            0 <= j < collected(findings).len() ==> exists|i: int|
                0 <= i < findings.len() && #[trigger] findings[i] == (#[trigger] collected(
                    findings,
                )[j]) && forall|k: int|
                    i < k < findings.len() ==> (#[trigger] findings[k]).0 != findings[i].0,
    decreases findings.len(),
{
    if findings.len() > 0 {
        let rest = findings.drop_last();
        let n = rest.len() as int;
        let (operation, assessment) = findings.last();
        let before = collected(rest);
        let after = collected(findings);
        the_last_finding_counts(rest);
        crate::report::collected_operations_are_distinct(rest);
        position_is_where(before, operation);
        assert(findings[n] == findings.last());
        let at: int = match position_of(before, operation) {
            Some(at) => at,
            None => before.len() as int,
        };
        assert(after[at] == findings.last());
        assert forall|i: int|
            0 <= i < findings.len() && (forall|k: int|
                i < k < findings.len() ==> (#[trigger] findings[k]).0 != findings[i].0) implies
            after.contains(#[trigger] findings[i]) by {
            if i < n {
                assert(rest[i] == findings[i]);
                assert forall|k: int| i < k < rest.len() implies (#[trigger] rest[k]).0 != rest[i].0 by {
                    assert(rest[k] == findings[k]);
                }
                assert(before.contains(rest[i]));
                let j = choose|j: int| 0 <= j < before.len() && before[j] == rest[i];
                assert(findings[n].0 != findings[i].0);
                assert(j != at);
                assert(after[j] == before[j]);
            } else {
                assert(after[at] == findings[i]);
            }
        }
        assert forall|j: int| 0 <= j < after.len() implies exists|i: int|
            0 <= i < findings.len() && #[trigger] findings[i] == (#[trigger] after[j]) && forall|
                k: int,
            |
                i < k < findings.len() ==> (#[trigger] findings[k]).0 != findings[i].0 by {
            if j == at {
                assert(findings[n] == after[j]);
            } else {
                assert(after[j] == before[j]);
                let i = choose|i: int|
                    0 <= i < rest.len() && #[trigger] rest[i] == before[j] && forall|k: int|
                        i < k < rest.len() ==> (#[trigger] rest[k]).0 != rest[i].0;
                assert(findings[i] == rest[i]);
                assert(before[j].0 != operation) by {
                    if at < before.len() {
                        assert(before[at].0 == operation);
                        if j < at {
                            assert(before[j].0 != before[at].0);
                        } else {
                            assert(before[at].0 != before[j].0);
                        }
                    }
                }
                assert forall|k: int| i < k < findings.len() implies (#[trigger] findings[k]).0
                    != findings[i].0 by {
                    if k < n {
                        assert(rest[k] == findings[k]);
                    }
                }
            }
        }
    }
}

/// Counting adds up: what is allowed and what was tried in two lists together
/// is what is in each; one operation counts once, as allowed exactly where the
/// tenant has the autonomy.
pub proof fn counts_add_up<R: AssessableResource>(
    a: Seq<ResourceView<R>>,
    b: Seq<ResourceView<R>>,
)
    ensures
        allowed_count(a + b) == allowed_count(a) + allowed_count(b),
        operation_count(a + b) == operation_count(a) + operation_count(b),
        a.len() == 1 ==> operation_count(a) == a[0].operations.len(),
        a.len() == 1 ==> allowed_count(a) == allowed_in(a[0].operations),
    decreases b.len(),
{
    if b.len() > 0 {
        counts_add_up(a, b.drop_last());
        assert((a + b).drop_last() =~= a + b.drop_last());
    } else {
        assert(a + b =~= a);
    }
    if a.len() == 1 {
        assert(operation_count(a.drop_last()) == 0);
        assert(allowed_count(a.drop_last()) == 0);
    }
}

/// The same for the operations of one resource.
pub proof fn allowed_operations_add_up<O>(a: Seq<(O, OperationView)>, b: Seq<(O, OperationView)>)
    ensures
        allowed_in(a + b) == allowed_in(a) + allowed_in(b),
        a.len() == 1 ==> allowed_in(a) == (if a[0].1.autonomy {
            1nat
        } else {
            0
        }),
        allowed_in(a) == a.len() <==> forall|i: int|
            0 <= i < a.len() ==> (#[trigger] a[i]).1.autonomy,
        allowed_in(a) <= a.len(),
    decreases a.len() + b.len(),
{
    if b.len() > 0 {
        allowed_operations_add_up(a, b.drop_last());
        assert((a + b).drop_last() =~= a + b.drop_last());
    } else {
        assert(a + b =~= a);
        if a.len() > 0 {
            let rest = a.drop_last();
            allowed_operations_add_up(rest, b);
            assert(a[a.len() - 1] == a.last());
            if forall|i: int| 0 <= i < a.len() ==> (#[trigger] a[i]).1.autonomy {
                assert forall|i: int| 0 <= i < rest.len() implies (#[trigger] rest[i]).1.autonomy by {
                    assert(a[i].1.autonomy);
                }
            }
            if allowed_in(a) == a.len() {
                assert forall|i: int| 0 <= i < a.len() implies (#[trigger] a[i]).1.autonomy by {
                    if i < rest.len() {
                        assert(rest[i].1.autonomy);
                    }
                }
            }
        }
    }
    if a.len() == 1 {
        assert(allowed_in(a.drop_last()) == 0);
    }
}


// ---- The whole report ------------------------------------------------------

/// The rows show the section of `system`: its isolation, and right below it its
/// autonomy.
pub open spec fn shows_section(
    rows: Seq<Seq<Seq<char>>>,
    system: Seq<char>,
    section: SectionView,
    percentage: Seq<char>,
    i: int,
) -> bool {
    &&& 0 <= i < rows.len() - 1
    &&& rows[i] == seq![
        system,
        "Isolation"@,
        level_text(section.isolation, section.min_known),
    ]
    &&& rows[i + 1] == seq![""@, "Autonomy"@, ratio_text(section.ratio, percentage)]
}

proof fn a_section_is_shown(
    before: Seq<Seq<Seq<char>>>,
    system: Seq<char>,
    section: Option<SectionView>,
    percentage: Seq<char>,
)
    ensures
        ({
            let rows = section_rows(before, system, section, percentage);
            &&& rows.len() >= before.len()
            &&& forall|k: int| 0 <= k < before.len() ==> #[trigger] rows[k] == before[k]
            &&& match section {
                Some(section) => shows_section(
                    rows,
                    system,
                    section,
                    percentage,
                    rows.len() - 2,
                ),
                None => rows == before,
            }
        }),
{
}

/// Every subsystem stands in the table with its own values: its isolation and
/// its autonomy under its own name. The control plane's autonomy is broken down
/// below it, each category with its own ratio.
pub proof fn every_subsystem_is_shown(report: MultitenancyView, percentages: PercentagesView)
    ensures
        ({
            let rows = report_rows(report, percentages);
            &&& report.control_plane is Some ==> {
                &&& shows_section(
                    rows,
                    "Control Plane"@,
                    report.control_plane->Some_0,
                    percentages.control_plane,
                    0,
                )
                &&& report.levels is Some ==> {
                    let levels = report.levels->Some_0;
                    &&& rows.len() >= 6
                    &&& rows[2] == seq![
                        ""@,
                        "  ├─ Workload"@,
                        ratio_text(levels.workload, percentages.workload_level),
                    ]
                    &&& rows[3] == seq![
                        ""@,
                        "  ├─ Scope"@,
                        ratio_text(levels.scope, percentages.scope_level),
                    ]
                    &&& rows[4] == seq![
                        ""@,
                        "  ├─ Infrastructure"@,
                        ratio_text(levels.infrastructure, percentages.infrastructure_level),
                    ]
                    &&& rows[5] == seq![
                        ""@,
                        "  └─ Cluster"@,
                        ratio_text(levels.cluster, percentages.cluster_level),
                    ]
                }
            }
            &&& report.storage is Some ==> exists|i: int|
                shows_section(
                    rows,
                    "Storage"@,
                    report.storage->Some_0,
                    percentages.storage,
                    i,
                )
            &&& report.network is Some ==> exists|i: int|
                shows_section(
                    rows,
                    "Network"@,
                    report.network->Some_0,
                    percentages.network,
                    i,
                )
            &&& report.workload is Some ==> exists|i: int|
                shows_section(
                    rows,
                    "Workload"@,
                    report.workload->Some_0,
                    percentages.workload,
                    i,
                )
        }),
{
    let top = section_rows(
        seq![],
        "Control Plane"@,
        report.control_plane,
        percentages.control_plane,
    );
    a_section_is_shown(
        seq![],
        "Control Plane"@,
        report.control_plane,
        percentages.control_plane,
    );
    let first = top + if report.control_plane is Some {
        category_rows(report.levels, percentages)
    } else {
        seq![]
    };
    assert forall|k: int| 0 <= k < top.len() implies #[trigger] first[k] == top[k] by {}
    let second = section_rows(first, "Storage"@, report.storage, percentages.storage);
    a_section_is_shown(first, "Storage"@, report.storage, percentages.storage);
    let third = section_rows(second, "Network"@, report.network, percentages.network);
    a_section_is_shown(second, "Network"@, report.network, percentages.network);
    let rows = section_rows(third, "Workload"@, report.workload, percentages.workload);
    a_section_is_shown(third, "Workload"@, report.workload, percentages.workload);
    assert(rows == report_rows(report, percentages));
    assert forall|k: int| 0 <= k < second.len() implies #[trigger] rows[k] == second[k] by {
        assert(third[k] == second[k]);
    }
    assert forall|k: int| 0 <= k < first.len() implies #[trigger] rows[k] == first[k] by {
        assert(second[k] == first[k]);
    }
    if let Some(section) = report.control_plane {
        assert(top.len() == 2);
        assert(first[0] == top[0] && first[1] == top[1]);
        assert(rows[0] == first[0] && rows[1] == first[1]);
        if report.levels is Some {
            let below = category_rows(report.levels, percentages);
            assert(first[2] == below[0] && first[3] == below[1]);
            assert(first[4] == below[2] && first[5] == below[3]);
            assert(rows[2] == first[2] && rows[3] == first[3]);
            assert(rows[4] == first[4] && rows[5] == first[5]);
        }
    }
    if let Some(section) = report.storage {
        let i = second.len() - 2;
        assert(rows[i] == second[i] && rows[i + 1] == second[i + 1]);
        assert(shows_section(rows, "Storage"@, section, percentages.storage, i));
    }
    if let Some(section) = report.network {
        let i = third.len() - 2;
        assert(rows[i] == third[i] && rows[i + 1] == third[i + 1]);
        assert(shows_section(rows, "Network"@, section, percentages.network, i));
    }
    if let Some(section) = report.workload {
        assert(shows_section(
            rows,
            "Workload"@,
            section,
            percentages.workload,
            rows.len() - 2,
        ));
    }
}

/// The report's level is that of one of its subsystems, and no subsystem that
/// was assessed is below it; without any it is undetermined. What is allowed and
/// what was tried is added up over the subsystems.
pub proof fn the_overall_level_is_the_lowest(report: MultitenancyView, section: SectionView)
    requires
        report.control_plane == Some(section) || report.storage == Some(section)
            || report.network == Some(section) || report.workload == Some(section),
    ensures
        report.isolation().rank() <= section.isolation.rank(),
        ({
            let level = report.isolation();
            ||| report.control_plane is Some && report.control_plane->Some_0.isolation == level
            ||| report.storage is Some && report.storage->Some_0.isolation == level
            ||| report.network is Some && report.network->Some_0.isolation == level
            ||| report.workload is Some && report.workload->Some_0.isolation == level
        }),
        report.allowed() >= section.ratio.allowed,
        report.total() >= section.ratio.total,
{
    let seen = report.levels_seen();
    overall_level_is_the_first_minimum(seen);
    let (a, b, c) = (
        level_in(report.control_plane).len() as int,
        level_in(report.storage).len() as int,
        level_in(report.network).len() as int,
    );
    if report.control_plane == Some(section) {
        assert(seen[0] == section.isolation);
    }
    if report.storage == Some(section) {
        assert(seen[a] == section.isolation);
    }
    if report.network == Some(section) {
        assert(seen[a + b] == section.isolation);
    }
    if report.workload == Some(section) {
        assert(seen[a + b + c] == section.isolation);
    }
}

/// How a level is told: by its own sign and name; one that could not be
/// determined also by the bound that is known of it.
pub proof fn a_level_is_told_with_its_bound(level: IsolationView, bound: Option<IsolationView>)
    ensures
        !(level is Unknown) || bound is None ==> level_text(level, bound) == isolation_sign(level)
            + " "@ + level_name(level) && level_summary(level, bound) == isolation_sign(level)
            + " "@ + level_name(level),
        level is Unknown && bound is Some && !(bound->Some_0 is Unknown) ==> has_text(
            level_text(level, bound),
            "/"@ + level_name(bound->Some_0),
        ) && has_text(
            level_summary(level, bound),
            " but no more than "@ + isolation_sign(bound->Some_0) + " "@ + level_name(
                bound->Some_0,
            ),
        ),
{
    if let Some(known) = bound {
        if level is Unknown && !(known is Unknown) {
            let part = "/"@ + level_name(known);
            let head = isolation_sign(level) + "/"@ + isolation_sign(known) + " "@ + level_name(
                level,
            );
            a_sum_holds_its_end(head, part);
            regrouped(head, "/"@, level_name(known));
            let tail = " but no more than "@ + isolation_sign(known) + " "@ + level_name(known);
            let start = plain_level_text(level) + " but no more than "@;
            a_sum_holds_its_end(plain_level_text(level), tail);
            regrouped(start, isolation_sign(known) + " "@, level_name(known));
            regrouped(start, isolation_sign(known), " "@);
            regrouped(
                plain_level_text(level),
                " but no more than "@ + isolation_sign(known) + " "@,
                level_name(known),
            );
            regrouped(
                plain_level_text(level),
                " but no more than "@ + isolation_sign(known),
                " "@,
            );
            regrouped(plain_level_text(level), " but no more than "@, isolation_sign(known));
        }
    }
}

proof fn regrouped(a: Seq<char>, b: Seq<char>, c: Seq<char>)
    ensures
        a + (b + c) == a + b + c,
{
    assert(a + (b + c) =~= a + b + c);
}

/// The signs tell the levels apart, and the good from the bad: only hard
/// isolation is ticked off, only a breach is crossed out.
pub proof fn the_signs_tell_the_levels_apart(level: IsolationView, autonomy: bool)
    ensures
        isolation_sign(level) == "✅"@ <==> level is Hard,
        isolation_sign(level) == "🟠"@ <==> level is Soft,
        isolation_sign(level) == "❌"@ <==> level is NoIsolation,
        isolation_sign(level) == "❓"@ <==> level is Unknown,
        operation_sign(level) == "🟢"@ <==> level is Hard,
        operation_sign(level) == "🟠"@ <==> level is Soft,
        operation_sign(level) == "⚠️"@ <==> level is NoIsolation,
        operation_sign(level) == "❓"@ <==> level is Unknown,
        autonomy_sign(autonomy) == "🟢"@ <==> autonomy,
        details_style(level) is Green <==> level is Hard,
        details_style(level) is Yellow <==> level is Soft,
        details_style(level) is Red <==> level is NoIsolation,
        details_style(level) is Dimmed <==> level is Unknown,
        level_name(level) == "Hard"@ <==> level is Hard,
        level_name(level) == "Soft"@ <==> level is Soft,
        level_name(level) == "None"@ <==> level is NoIsolation,
        level_name(level) == "Unknown"@ <==> level is Unknown,
{
    reveal_strlit("✅");
    reveal_strlit("🟠");
    reveal_strlit("❌");
    reveal_strlit("❓");
    reveal_strlit("🟢");
    reveal_strlit("🔴");
    reveal_strlit("⚠️");
    reveal_strlit("Hard");
    reveal_strlit("Soft");
    reveal_strlit("None");
    reveal_strlit("Unknown");
    assert("✅"@[0] == '✅' && "🟠"@[0] == '🟠' && "❌"@[0] == '❌' && "❓"@[0] == '❓');
    assert("🟢"@[0] == '🟢' && "🔴"@[0] == '🔴' && "⚠️"@[0] == '⚠');
    assert("Hard"@[0] == 'H' && "Soft"@[0] == 'S' && "None"@[0] == 'N' && "Unknown"@[0] == 'U');
}

// ---- What is shown of a subsystem ------------------------------------------

/// The operations of a resource are shown one after another, each with its own
/// finding.
proof fn an_operation_is_among_the_lines<O: AssessableOperation>(
    width: int,
    under: Seq<char>,
    operations: Seq<(O, OperationView)>,
    order: Seq<int>,
    n: int,
    k: int,
)
    requires
        0 <= k < n <= order.len(),
    ensures
        operations_lines(width, under, operations, order, n).contains(
            operation_lines(width, under, operations[order[k]], k + 1 == order.len())[0],
        ),
    decreases n,
{
    let before = operations_lines(width, under, operations, order, n - 1);
    let lines = operations_lines(width, under, operations, order, n);
    let shown = operation_lines(width, under, operations[order[k]], k + 1 == order.len())[0];
    if k == n - 1 {
        assert(lines[before.len() as int] == shown);
    } else {
        an_operation_is_among_the_lines(width, under, operations, order, n - 1, k);
        let i = choose|i: int| 0 <= i < before.len() && before[i] == shown;
        assert(lines[i] == shown);
    }
}

/// The line shows an operation: its label, and behind it the sign of its
/// isolation and that of its authorization.
pub open spec fn shows_operation(
    line: Seq<SpanView>,
    label: Seq<char>,
    assessment: OperationView,
) -> bool {
    &&& line.len() == 9
    &&& line[1].text == "├──"@ || line[1].text == "└──"@
    &&& line[3].text == label
    &&& line[5].text == operation_sign(assessment.isolation)
    &&& line[6].text == "Isolation"@
    &&& line[7].text == "  "@ + autonomy_sign(assessment.autonomy)
    &&& line[8].text == "Authorization"@
}

/// Every operation of a resource is shown below the resource with its own
/// finding.
pub proof fn every_operation_is_shown<R: AssessableResource>(
    width: int,
    assessment: ResourceView<R>,
    last: bool,
    k: int,
)
    requires
        0 <= k < assessment.operations.len(),
    ensures
        exists|i: int|
            0 < i < resource_lines(width, assessment, last).len() && shows_operation(
                #[trigger] resource_lines(width, assessment, last)[i],
                assessment.operations[k].0.text(),
                assessment.operations[k].1,
            ),
{
    let count = assessment.operations.len() as int;
    let labels = operation_labels(assessment.operations);
    let order = label_order(labels, count);
    let at = every_position_is_in_the_order(labels, count, k);
    let under = under_branch(last);
    an_operation_is_among_the_lines(width, under, assessment.operations, order, count, at);
    an_operations_line_shows_it(
        width,
        under,
        assessment.operations[k],
        at + 1 == order.len(),
    );
    let below = operations_lines(width, under, assessment.operations, order, count);
    let shown = operation_lines(
        width,
        under,
        assessment.operations[k],
        at + 1 == order.len(),
    )[0];
    let i = choose|i: int| 0 <= i < below.len() && below[i] == shown;
    assert(resource_lines(width, assessment, last)[i + 1] == shown);
}

/// Every operation has a place in the order in which they are shown.
proof fn every_position_is_in_the_order(labels: Seq<Seq<char>>, n: int, k: int) -> (at: int)
    requires
        0 <= k < n,
    ensures
        0 <= at < label_order(labels, n).len(),
        label_order(labels, n)[at] == k,
        label_order(labels, n).len() == n,
{
    let order = label_order(labels, n);
    operations_are_shown_in_order(labels, n);
    order.to_multiset_ensures();
    assert(order.to_multiset().count(k) == 1);
    assert(order.contains(k));
    choose|at: int| 0 <= at < order.len() && order[at] == k
}

proof fn an_operations_line_shows_it<O: AssessableOperation>(
    width: int,
    under: Seq<char>,
    entry: (O, OperationView),
    last: bool,
)
    ensures
        shows_operation(operation_lines(width, under, entry, last)[0], entry.0.text(), entry.1),
{
    let shown = operation_lines(width, under, entry, last)[0];
    let spans = operation_spans(entry.1);
    assert(shown[5] == spans[0] && shown[6] == spans[1]);
    assert(shown[7] == spans[2] && shown[8] == spans[3]);
}

proof fn a_resource_is_among_the_lines<R: AssessableResource>(
    width: int,
    assessments: Seq<ResourceView<R>>,
    n: int,
    k: int,
)
    requires
        0 <= k < n <= assessments.len(),
    ensures
        resources_lines(width, assessments, n).contains(
            resource_head(assessments[k], k + 1 == assessments.len()),
        ),
    decreases n,
{
    let before = resources_lines(width, assessments, n - 1);
    let lines = resources_lines(width, assessments, n);
    let head = resource_head(assessments[k], k + 1 == assessments.len());
    if k == n - 1 {
        assert(resource_lines(width, assessments[k], n == assessments.len())[0] == head);
        assert(lines[before.len() as int] == head);
    } else {
        a_resource_is_among_the_lines(width, assessments, n - 1, k);
        let i = choose|i: int| 0 <= i < before.len() && before[i] == head;
        assert(lines[i] == head);
    }
}

/// A report shows its subsystem's name and level at its head, and every
/// resource below with its own name and level, on a branch that ends at the last
/// of them.
pub proof fn every_resource_is_shown<R: AssessableResource>(
    width: int,
    report: ReportView<R>,
    k: int,
)
    requires
        0 <= k < report.assessments.len(),
    ensures
        ({
            let lines = report_lines(width, report);
            &&& lines.len() > 0
            &&& lines[0].len() == 6
            &&& lines[0][1].text == report.name
            &&& lines[0][2].text == " → "@ + isolation_sign(report.isolation_level)
            &&& lines[0][4].text == "  "@ + ratio_sign(report.autonomy_ratio)
            &&& exists|i: int|
                0 < i < lines.len() && #[trigger] lines[i].len() == 7 && lines[i][2].text
                    == report.assessments[k].resource.text() && lines[i][3].text == " → "@
                    + isolation_sign(report.assessments[k].overall_isolation)
                    && lines[i][5].text == "  "@ + ratio_sign(
                    AutonomyRatio {
                        allowed: allowed_in(report.assessments[k].operations) as usize,
                        total: report.assessments[k].operations.len() as usize,
                    },
                ) && lines[i][0].text == (if k + 1 == report.assessments.len() {
                    "└──"@
                } else {
                    "├──"@
                })
        }),
{
    let count = report.assessments.len() as int;
    a_resource_is_among_the_lines(width, report.assessments, count, k);
    let lines = report_lines(width, report);
    let below = resources_lines(width, report.assessments, count);
    let head = resource_head(report.assessments[k], k + 1 == count);
    let i = choose|i: int| 0 <= i < below.len() && below[i] == head;
    let at: int = lines.len() - below.len() + i;
    assert(lines[0] == report_head(report));
    assert(lines[at] == head);
    assert(lines[at].len() == 7);
}

// ---- What is assessed ------------------------------------------------------

/// The name of a system.
pub open spec fn name_of_system(system: System) -> Seq<char> {
    match system {
        System::ControlPlane => "control-plane"@,
        System::Storage => "storage"@,
        System::Network => "network"@,
        System::Workload => "workload"@,
    }
}

/// What is enabled is assessed and named, and nothing else: the systems of the
/// plan are the enabled ones, each once, under their own names. The cluster
/// rests ten seconds after the control plane, two after storage and network and
/// not at all after the workload, which comes last.
pub proof fn the_plan_is_what_is_enabled(config: AssessmentConfig, i: int)
    ensures
        config.order().len() == config.system_names().len(),
        0 <= i < config.order().len() ==> {
            &&& config.system_names()[i] == name_of_system(config.order()[i].0)
            &&& match config.order()[i] {
                (System::ControlPlane, rest) => config.control_plane && rest == 10,
                (System::Storage, rest) => config.storage && rest == 2,
                (System::Network, rest) => config.network && rest == 2,
                (System::Workload, rest) => config.workload && rest == 0,
            }
        },
        config.order().len() == (if config.control_plane {
            1int
        } else {
            0
        }) + (if config.storage {
            1int
        } else {
            0
        }) + (if config.network {
            1int
        } else {
            0
        }) + (if config.workload {
            1int
        } else {
            0
        }),
        forall|k: int, j: int|
            0 <= k < j < config.order().len() ==> (#[trigger] config.order()[k]).0 != (
            #[trigger] config.order()[j]).0,
{
}


/// A ratio is told by what is allowed, then by what was tried, then in percent;
/// its sign is a tick exactly where all that was tried is allowed, and a cross
/// exactly where nothing is.
pub proof fn a_ratio_is_told_by_its_counts(ratio: AutonomyRatio, percentage: Seq<char>)
    requires
        ratio.well_formed(),
    ensures
        has_text(
            ratio_text(ratio, percentage),
            decimal(ratio.allowed as nat) + "/"@ + decimal(ratio.total as nat) + " ("@ + percentage
                + "%)"@,
        ),
        ratio_sign(ratio) == "✅"@ <==> ratio.total > 0 && ratio.allowed == ratio.total,
        ratio_sign(ratio) == "❌"@ <==> ratio.allowed == 0,
        ratio_sign(ratio) == "🟡"@ <==> ratio.allowed < ratio.total && 2 * ratio.allowed
            >= ratio.total,
        ratio_sign(ratio) == "🟠"@ <==> 0 < 2 * ratio.allowed < ratio.total,
{
    reveal_strlit("✅");
    reveal_strlit("🟠");
    reveal_strlit("❌");
    reveal_strlit("🟡");
    assert("✅"@[0] == '✅' && "🟠"@[0] == '🟠' && "❌"@[0] == '❌' && "🟡"@[0] == '🟡');
    a_sum_holds_its_end(ratio_sign(ratio) + " "@, ratio.text(percentage));
}

/// The summary below the table tells the report's own level, with what is known
/// of it where it is undetermined, and the counts of all subsystems together.
pub proof fn the_summary_is_of_the_whole_report(
    report: MultitenancyView,
    percentages: PercentagesView,
    table: Seq<char>,
)
    requires
        report.allowed() <= usize::MAX,
        report.total() <= usize::MAX,
    ensures
        has_text(
            report_around(report, percentages, table),
            "Overall Isolation: "@ + level_summary(report.isolation(), report.known_isolation())
                + "\n"@,
        ),
        has_text(
            report_around(report, percentages, table),
            "Overall Autonomy:  "@ + ratio_text(
                AutonomyRatio {
                    allowed: report.allowed() as usize,
                    total: report.total() as usize,
                },
                percentages.overall,
            ) + "\n"@,
        ),
        has_text(report_around(report, percentages, table), table),
{
    reveal_strlit("\n📋 Summary:\n   Overall Isolation: ");
    reveal_strlit("Overall Isolation: ");
    reveal_strlit("\n   Overall Autonomy:  ");
    reveal_strlit("Overall Autonomy:  ");
    reveal_strlit("\n");
    let overall = AutonomyRatio {
        allowed: report.allowed() as usize,
        total: report.total() as usize,
    };
    let level = level_summary(report.isolation(), report.known_isolation());
    let ratio = ratio_text(overall, percentages.overall);
    let (a, b) = ("\n📋 Summary:\n   Overall Isolation: "@, "\n   Overall Autonomy:  "@);
    let title = report_title();
    let whole = title + table + a + level + b + ratio + "\n"@;
    assert(whole == report_around(report, percentages, table));
    assert(whole.subrange(title.len() as int, title.len() as int + table.len()) =~= table);
    assert(occurs_at(whole, table, title.len() as int));
    let first = "Overall Isolation: "@ + level + "\n"@;
    let at: int = title.len() + table.len() + a.len() - "Overall Isolation: "@.len();
    assert(whole.subrange(at, at + first.len()) =~= first);
    assert(occurs_at(whole, first, at));
    let second = "Overall Autonomy:  "@ + ratio + "\n"@;
    let at: int = title.len() + table.len() + a.len() + level.len() + b.len()
        - "Overall Autonomy:  "@.len();
    assert(whole.subrange(at, at + second.len()) =~= second);
    assert(occurs_at(whole, second, at));
}


proof fn a_warning_is_among_the_lines(
    width: int,
    more: bool,
    warnings: Seq<Seq<char>>,
    n: int,
    k: int,
    j: int,
)
    requires
        0 <= k < n <= warnings.len(),
        0 <= j < wrapped(warning_wrap(width, more, k + 1 == warnings.len()), warnings[k]).len(),
    ensures
        warning_lines(width, more, warnings, n).contains(
            text_lines(
                warning_wrap(width, more, k + 1 == warnings.len()),
                warnings[k],
                Style::Yellow,
            )[j],
        ),
    decreases n,
{
    let before = warning_lines(width, more, warnings, n - 1);
    let lines = warning_lines(width, more, warnings, n);
    let shown = text_lines(
        warning_wrap(width, more, k + 1 == warnings.len()),
        warnings[k],
        Style::Yellow,
    )[j];
    if k == n - 1 {
        assert(lines[before.len() as int + j] == shown);
    } else {
        a_warning_is_among_the_lines(width, more, warnings, n - 1, k, j);
        let i = choose|i: int| 0 <= i < before.len() && before[i] == shown;
        assert(lines[i] == shown);
    }
}

/// Every warning of a report is shown, every line of it.
pub proof fn every_warning_is_shown<R: AssessableResource>(
    width: int,
    report: ReportView<R>,
    k: int,
    j: int,
)
    requires
        0 <= k < report.warnings.len(),
        0 <= j < wrapped(
            warning_wrap(
                width,
                report.assessments.len() > 0,
                k + 1 == report.warnings.len(),
            ),
            report.warnings[k],
        ).len(),
    ensures
        exists|i: int|
            0 < i < report_lines(width, report).len() && (#[trigger] report_lines(
                width,
                report,
            )[i]).len() == 2 && report_lines(width, report)[i][1].text == wrapped(
                warning_wrap(
                    width,
                    report.assessments.len() > 0,
                    k + 1 == report.warnings.len(),
                ),
                report.warnings[k],
            )[j].1 && report_lines(width, report)[i][1].style is Yellow,
{
    let more = report.assessments.len() > 0;
    let count = report.warnings.len() as int;
    a_warning_is_among_the_lines(width, more, report.warnings, count, k, j);
    let shown = text_lines(
        warning_wrap(width, more, k + 1 == count),
        report.warnings[k],
        Style::Yellow,
    )[j];
    let warned = warning_lines(width, more, report.warnings, count);
    let i = choose|i: int| 0 <= i < warned.len() && warned[i] == shown;
    assert(findings(width, more, report.warnings)[i + 1] == shown);
    assert(report_lines(width, report)[i + 2] == shown);
}


/// What is told of an operation is shown below it, every line of it, in the
/// colour of its level: behind a comment's branch, under the branch on which the
/// operation stands.
pub proof fn the_details_of_an_operation_are_shown<O: AssessableOperation>(
    width: int,
    under: Seq<char>,
    entry: (O, OperationView),
    last: bool,
    details: Seq<char>,
    j: int,
)
    requires
        entry.1.details == Some(details),
    ensures
        ({
            let shown = operation_lines(width, under, entry, last);
            let below = under + (if last {
                "    "@
            } else {
                "│   "@
            });
            let wrap = WrapView {
                max_width: width,
                first_prefix: below + "└── 💬 "@,
                continuation_prefix: below + "       "@,
            };
            &&& shown.len() == 1 + wrapped(wrap, details).len()
            &&& 0 <= j < wrapped(wrap, details).len() ==> shown[1 + j].len() == 2 && shown[1
                + j][0].text == wrapped(wrap, details)[j].0 && shown[1 + j][1].text == wrapped(
                wrap,
                details,
            )[j].1 && shown[1 + j][1].style == details_style(entry.1.isolation)
        }),
{
}

/// A level is written by its name, and soft isolation with its reason.
pub proof fn a_level_is_written_by_its_name(level: IsolationView)
    ensures
        match level {
            IsolationView::Soft(reason) => level.text() == "Soft ("@ + reason + ")"@,
            _ => level.text() == level_name(level),
        },
{
}


/// Every resource of which something was found is in the report, with what was
/// found of it and at the lowest of its levels; one of which nothing was found
/// is not, and nothing else is.
pub proof fn every_finding_is_in_the_report<R: AssessableResource>(
    findings: Seq<(R, Seq<(R::Operation, OperationView)>)>,
)
    ensures
        forall|i: int|
            0 <= i < findings.len() && (#[trigger] findings[i]).1.len() > 0 ==> assessments_of(
                findings,
            ).contains(
                ResourceView {
                    resource: findings[i].0,
                    operations: collected(findings[i].1),
                    overall_isolation: overall_level(operation_levels(collected(findings[i].1))),
                },
            ),
        forall|j: int|
            0 <= j < assessments_of(findings).len() ==> is_of_a_finding(
                findings,
                #[trigger] assessments_of(findings)[j],
            ),
    decreases findings.len(),
{
    if findings.len() > 0 {
        let rest = findings.drop_last();
        let before = assessments_of(rest);
        let after = assessments_of(findings);
        every_finding_is_in_the_report(rest);
        assert forall|i: int| 0 <= i < findings.len() && (#[trigger] findings[i]).1.len() > 0 implies
            after.contains(
            ResourceView {
                resource: findings[i].0,
                operations: collected(findings[i].1),
                overall_isolation: overall_level(operation_levels(collected(findings[i].1))),
            },
        ) by {
            let entry = ResourceView {
                resource: findings[i].0,
                operations: collected(findings[i].1),
                overall_isolation: overall_level(operation_levels(collected(findings[i].1))),
            };
            if i < rest.len() {
                assert(rest[i] == findings[i]);
                assert(before.contains(entry));
                let j = choose|j: int| 0 <= j < before.len() && before[j] == entry;
                assert(after[j] == entry);
            } else {
                assert(after[before.len() as int] == entry);
            }
        }
        assert forall|j: int| 0 <= j < after.len() implies is_of_a_finding(
            findings,
            #[trigger] after[j],
        ) by {
            if j < before.len() {
                assert(after[j] == before[j]);
                assert(is_of_a_finding(rest, before[j]));
                let i = choose|i: int|
                    0 <= i < rest.len() && (#[trigger] rest[i]).0 == before[j].resource
                        && rest[i].1.len() > 0 && collected(rest[i].1) == before[j].operations;
                assert(findings[i] == rest[i]);
            } else {
                assert(findings[findings.len() - 1] == findings.last());
            }
        }
    }
}

/// The assessment is that of a resource of which something was found.
pub open spec fn is_of_a_finding<R: AssessableResource>(
    findings: Seq<(R, Seq<(R::Operation, OperationView)>)>,
    assessment: ResourceView<R>,
) -> bool {
    exists|i: int|
        0 <= i < findings.len() && (#[trigger] findings[i]).0 == assessment.resource
            && findings[i].1.len() > 0 && collected(findings[i].1) == assessment.operations
}

}
