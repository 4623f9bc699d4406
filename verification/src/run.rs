//! The run of an assessment: every applicable operation of every resource is
//! checked, and the findings become a report.

use crate::assessment::{
    assess_operation, of_effect, unauthorized, AssessableOperation, AssessableResource,
    AutonomyRatio, OperationAssessment, OperationView,
};
use crate::isolation::{
    overall_level, overall_level_is_the_first_minimum, CrossTenantResult, CrossTenantView,
};
use crate::report::{
    allowed_count, assessments_of, collected, compile_report, finding_views, operation_count,
    operation_levels, operation_views, position_is_where, resource_levels, resource_of, warning_of,
    warnings_of, ReportView, ResourceView, SubsystemReport,
};
use vstd::prelude::*;
use vstd::string::*;

verus! {

/// What came back of the checks of an operation. The effect is checked only
/// where the operation is authorized.
#[derive(Debug)]
pub struct Checked {
    pub authorized: Result<bool, String>,
    pub effect: Option<Result<CrossTenantResult, String>>,
}

/// What the checks of an operation say.
pub struct CheckedView {
    pub authorized: Result<bool, Seq<char>>,
    pub effect: Option<Result<CrossTenantView, Seq<char>>>,
}

impl View for Checked {
    type V = CheckedView;

    open spec fn view(&self) -> CheckedView {
        CheckedView {
            authorized: match self.authorized {
                Ok(authorized) => Ok(authorized),
                Err(error) => Err(error@),
            },
            effect: match self.effect {
                Some(Ok(effect)) => Some(Ok(effect@)),
                Some(Err(error)) => Some(Err(error@)),
                None => None,
            },
        }
    }
}

/// What a list of checks says.
pub open spec fn checked_views(log: Seq<Checked>) -> Seq<CheckedView> {
    Seq::new(log.len(), |i: int| log[i]@)
}

/// What is to be done about an operation.
#[derive(Debug)]
pub enum Judgement {
    /// Its effect on the other tenant has to be checked.
    Pending,
    /// A check could not be made.
    Failed(String),
    /// It is assessed.
    Assessed(OperationAssessment),
}

/// What a judgement says.
pub enum JudgementView {
    Pending,
    Failed(Seq<char>),
    Assessed(OperationView),
}

impl View for Judgement {
    type V = JudgementView;

    open spec fn view(&self) -> JudgementView {
        match self {
            Judgement::Pending => JudgementView::Pending,
            Judgement::Failed(error) => JudgementView::Failed(error@),
            Judgement::Assessed(assessment) => JudgementView::Assessed(assessment@),
        }
    }
}

impl CheckedView {
    /// What the checks come to: an unauthorized operation is assessed at once,
    /// an authorized one by its effect.
    pub open spec fn judgement(self) -> JudgementView {
        match self.authorized {
            Err(error) => JudgementView::Failed(error),
            Ok(false) => JudgementView::Assessed(unauthorized()),
            Ok(true) => match self.effect {
                None => JudgementView::Pending,
                Some(Err(error)) => JudgementView::Failed(error),
                Some(Ok(effect)) => JudgementView::Assessed(of_effect(effect)),
            },
        }
    }
}

impl Checked {
    /// What the checks come to.
    fn judge(&self) -> (r: Judgement)
        ensures
            r@ == self@.judgement(),
    {
        let authorized = match &self.authorized {
            Ok(authorized) => *authorized,
            Err(error) => {
                return Judgement::Failed(error.clone());
            },
        };
        let effect = match &self.effect {
            Some(Ok(effect)) => Some(effect.clone()),
            Some(Err(error)) => {
                if authorized {
                    return Judgement::Failed(error.clone());
                }
                None
            },
            None => None,
        };
        match assess_operation(authorized, effect) {
            Some(assessment) => Judgement::Assessed(assessment),
            None => Judgement::Pending,
        }
    }
}

/// What has come of a resource's operations.
pub enum Sweep<O> {
    /// Whether the tenant may perform this operation has to be checked.
    Authorization(O),
    /// The effect of this operation has to be checked.
    Effect(O),
    /// A check could not be made.
    Failed(String),
    /// All of them are assessed, and so many checks are used up.
    Found(Vec<(O, OperationAssessment)>, usize),
}

/// What has come of a resource's operations, as a report sees it.
pub enum SweepView<O> {
    Authorization(O),
    Effect(O),
    Failed(Seq<char>),
    Found(Seq<(O, OperationView)>, int),
}

impl<O> View for Sweep<O> {
    type V = SweepView<O>;

    open spec fn view(&self) -> SweepView<O> {
        match self {
            Sweep::Authorization(operation) => SweepView::Authorization(*operation),
            Sweep::Effect(operation) => SweepView::Effect(*operation),
            Sweep::Failed(error) => SweepView::Failed(error@),
            Sweep::Found(found, at) => SweepView::Found(operation_views(found@), *at as int),
        }
    }
}

/// Checking the operations from number `k` on, with the checks from number `at`
/// on; `found` is what the operations before came to.
pub open spec fn sweep_step<O>(
    operations: Seq<O>,
    log: Seq<CheckedView>,
    k: int,
    at: int,
    found: Seq<(O, OperationView)>,
) -> SweepView<O>
    decreases operations.len() - k,
{
    if k < 0 || k >= operations.len() {
        SweepView::Found(found, at)
    } else if log.len() <= at {
        SweepView::Authorization(operations[k])
    } else {
        match log[at].judgement() {
            JudgementView::Pending => SweepView::Effect(operations[k]),
            JudgementView::Failed(error) => SweepView::Failed(error),
            JudgementView::Assessed(assessment) => sweep_step(
                operations,
                log,
                k + 1,
                at + 1,
                found.push((operations[k], assessment)),
            ),
        }
    }
}

/// Checks a resource's operations.
fn sweep<O: AssessableOperation>(operations: &Vec<O>, log: &Vec<Checked>, from: usize) -> (r: Sweep<
    O,
>)
    requires
        from <= log.len(),
    ensures
        r@ == sweep_step(operations@, checked_views(log@), 0, from as int, seq![]),
        r matches Sweep::Found(found, at) ==> at <= log.len() && found.len() == operations.len()
            && at == from + found.len(),
{
    let ghost views = checked_views(log@);
    let mut found: Vec<(O, OperationAssessment)> = Vec::new();
    assert(operation_views(found@) =~= seq![]);
    let mut k: usize = 0;
    let mut at: usize = from;
    while k < operations.len()
        invariant
            k <= operations.len(),
            at <= log.len(),
            found.len() == k,
            at == from + k,
            views == checked_views(log@),
            sweep_step(operations@, views, 0, from as int, seq![]) == sweep_step(
                operations@,
                views,
                k as int,
                at as int,
                operation_views(found@),
            ),
        decreases operations.len() - k,
    {
        if log.len() == at {
            return Sweep::Authorization(operations[k].duplicate());
        }
        match log[at].judge() {
            Judgement::Pending => {
                return Sweep::Effect(operations[k].duplicate());
            },
            Judgement::Failed(error) => {
                return Sweep::Failed(error);
            },
            Judgement::Assessed(assessment) => {
                let ghost before = operation_views(found@);
                let ghost entry = (operations[k as int], assessment@);
                found.push((operations[k].duplicate(), assessment));
                assert(operation_views(found@) =~= before.push(entry));
            },
        }
        k += 1;
        at += 1;
    }
    Sweep::Found(found, at)
}

/// What an assessment does next.
pub enum AssessmentStep<R: AssessableResource> {
    /// Checks whether the first tenant may perform the operation.
    CheckAuthorization(R, R::Operation),
    /// Checks the operation's effect on the other tenant.
    CheckEffect(R, R::Operation),
    /// A check could not be made: the assessment ends with its error.
    Failed(String),
    /// Everything is assessed.
    Done(SubsystemReport<R>),
}

/// What the next step of an assessment says.
pub enum AssessmentView<R: AssessableResource> {
    CheckAuthorization(R, R::Operation),
    CheckEffect(R, R::Operation),
    Failed(Seq<char>),
    Done(ReportView<R>),
}

impl<R: AssessableResource> View for AssessmentStep<R> {
    type V = AssessmentView<R>;

    open spec fn view(&self) -> AssessmentView<R> {
        match self {
            AssessmentStep::CheckAuthorization(resource, operation) => {
                AssessmentView::CheckAuthorization(*resource, *operation)
            },
            AssessmentStep::CheckEffect(resource, operation) => AssessmentView::CheckEffect(
                *resource,
                *operation,
            ),
            AssessmentStep::Failed(error) => AssessmentView::Failed(error@),
            AssessmentStep::Done(report) => AssessmentView::Done(report@),
        }
    }
}

/// The report that findings come to.
pub open spec fn report_of<R: AssessableResource>(
    name: Seq<char>,
    findings: Seq<(R, Seq<(R::Operation, OperationView)>)>,
) -> ReportView<R> {
    let assessments = assessments_of(findings);
    ReportView {
        name,
        assessments,
        isolation_level: overall_level(resource_levels(assessments)),
        autonomy_ratio: AutonomyRatio {
            allowed: allowed_count(assessments) as usize,
            total: operation_count(assessments) as usize,
        },
        warnings: warnings_of(assessments),
    }
}

/// Assessing the resources from number `k` on, with the checks from number `at`
/// on; `findings` are those on the resources before.
pub open spec fn run_step<R: AssessableResource>(
    name: Seq<char>,
    resources: Seq<R>,
    log: Seq<CheckedView>,
    k: int,
    at: int,
    findings: Seq<(R, Seq<(R::Operation, OperationView)>)>,
) -> AssessmentView<R>
    decreases resources.len() - k,
{
    if k < 0 || k >= resources.len() {
        AssessmentView::Done(report_of(name, findings))
    } else {
        match sweep_step(resources[k].operations(), log, 0, at, seq![]) {
            SweepView::Authorization(operation) => AssessmentView::CheckAuthorization(
                resources[k],
                operation,
            ),
            SweepView::Effect(operation) => AssessmentView::CheckEffect(resources[k], operation),
            SweepView::Failed(error) => AssessmentView::Failed(error),
            SweepView::Found(found, next) => run_step(
                name,
                resources,
                log,
                k + 1,
                next,
                findings.push((resources[k], found)),
            ),
        }
    }
}

/// How many findings there are.
pub open spec fn findings_count<R: AssessableResource>(
    findings: Seq<(R, Seq<(R::Operation, OperationView)>)>,
) -> nat
    decreases findings.len(),
{
    if findings.len() == 0 {
        0
    } else {
        findings_count(findings.drop_last()) + findings.last().1.len()
    }
}

/// Entering findings one by one yields no more of them.
proof fn collected_are_no_more<O>(findings: Seq<(O, OperationView)>)
    ensures
        collected(findings).len() <= findings.len(),
    decreases findings.len(),
{
    if findings.len() > 0 {
        collected_are_no_more(findings.drop_last());
        position_is_where(collected(findings.drop_last()), findings.last().0);
    }
}

/// The report counts no operation that was not found.
proof fn operations_are_findings<R: AssessableResource>(
    findings: Seq<(R, Seq<(R::Operation, OperationView)>)>,
)
    ensures
        operation_count(assessments_of(findings)) <= findings_count(findings),
    decreases findings.len(),
{
    if findings.len() > 0 {
        operations_are_findings(findings.drop_last());
        collected_are_no_more(findings.last().1);
        let before = assessments_of(findings.drop_last());
        let last = resource_of(findings.last().0, findings.last().1);
        assert(before.push(last).drop_last() =~= before);
    }
}

/// Runs the assessment of a subsystem: the step after the checks so far.
pub fn run_assessment<R: AssessableResource>(name: &str, log: &Vec<Checked>) -> (r: AssessmentStep<
    R,
>)
    ensures
        r@ == run_step(name@, R::every(), checked_views(log@), 0, 0, seq![]),
{
    let ghost views = checked_views(log@);
    let ghost every = R::every();
    let mut pending: Vec<R> = R::all();
    let mut findings: Vec<(R, Vec<(R::Operation, OperationAssessment)>)> = Vec::new();
    let mut at: usize = 0;
    let ghost mut done: int = 0;
    assert(finding_views(findings@) =~= seq![]);
    assert(every.skip(0) =~= every);
    while pending.len() > 0
        invariant
            0 <= done <= every.len(),
            pending@ == every.skip(done),
            every == R::every(),
            views == checked_views(log@),
            at <= log.len(),
            findings_count(finding_views(findings@)) == at,
            run_step(name@, every, views, 0, 0, seq![]) == run_step(
                name@,
                every,
                views,
                done,
                at as int,
                finding_views(findings@),
            ),
        decreases pending.len(),
    {
        let resource = pending.remove(0);
        assert(pending@ =~= every.skip(done + 1));
        assert(resource == every[done]);
        let operations = resource.applicable_operations();
        match sweep(&operations, log, at) {
            Sweep::Authorization(operation) => {
                return AssessmentStep::CheckAuthorization(resource, operation);
            },
            Sweep::Effect(operation) => {
                return AssessmentStep::CheckEffect(resource, operation);
            },
            Sweep::Failed(error) => {
                return AssessmentStep::Failed(error);
            },
            Sweep::Found(found, next) => {
                let ghost before = finding_views(findings@);
                let ghost entry = (resource, operation_views(found@));
                findings.push((resource, found));
                assert(finding_views(findings@) =~= before.push(entry));
                assert(before.push(entry).drop_last() =~= before);
                at = next;
            },
        }
        proof {
            done = done + 1;
        }
    }
    proof {
        operations_are_findings(finding_views(findings@));
        crate::report::allowed_is_bounded(assessments_of(finding_views(findings@)));
    }
    AssessmentStep::Done(compile_report(name, findings))
}

// ---- What holds of every run -----------------------------------------------

/// A resource's level is the lowest of its operations' levels.
proof fn levels_are_lowest<R: AssessableResource>(
    findings: Seq<(R, Seq<(R::Operation, OperationView)>)>,
    i: int,
)
    requires
        0 <= i < assessments_of(findings).len(),
    ensures
        assessments_of(findings)[i].overall_isolation == overall_level(
            operation_levels(assessments_of(findings)[i].operations),
        ),
    decreases findings.len(),
{
    let before = assessments_of(findings.drop_last());
    if i < before.len() {
        levels_are_lowest(findings.drop_last(), i);
    }
}

/// A resource that has to be warned of is warned of.
proof fn warnings_are_complete<R: AssessableResource>(list: Seq<ResourceView<R>>, i: int)
    requires
        0 <= i < list.len(),
        warning_of(list[i]) is Some,
    ensures
        warnings_of(list).contains(warning_of(list[i])->0),
    decreases list.len(),
{
    let before = warnings_of(list.drop_last());
    if i == list.len() - 1 {
        assert(warnings_of(list)[before.len() as int] == warning_of(list[i])->0);
    } else {
        assert(list.drop_last()[i] == list[i]);
        warnings_are_complete(list.drop_last(), i);
        let k = choose|k: int|
            0 <= k < before.len() && before[k] == warning_of(list[i])->0;
        assert(warnings_of(list)[k] == before[k]);
    }
}

/// No operation is less isolated than the report says of its resource, and no
/// resource less than the report says of the subsystem.
pub proof fn no_operation_is_below_the_report<R: AssessableResource>(
    name: Seq<char>,
    findings: Seq<(R, Seq<(R::Operation, OperationView)>)>,
    i: int,
    j: int,
)
    requires
        0 <= i < assessments_of(findings).len(),
        0 <= j < assessments_of(findings)[i].operations.len(),
    ensures
        ({
            let report = report_of(name, findings);
            let resource = report.assessments[i];
            &&& report.isolation_level.rank() <= resource.overall_isolation.rank()
            &&& resource.overall_isolation.rank() <= resource.operations[j].1.isolation.rank()
        }),
{
    let report = report_of(name, findings);
    let operations = report.assessments[i].operations;
    levels_are_lowest(findings, i);
    overall_level_is_the_first_minimum(operation_levels(operations));
    overall_level_is_the_first_minimum(resource_levels(report.assessments));
    assert(operation_levels(operations)[j] == operations[j].1.isolation);
    assert(resource_levels(report.assessments)[i] == report.assessments[i].overall_isolation);
}

/// A breach of one operation is the verdict on its resource and on the
/// subsystem, and the resource is warned of as unsafe.
pub proof fn a_breach_is_never_hidden<R: AssessableResource>(
    name: Seq<char>,
    findings: Seq<(R, Seq<(R::Operation, OperationView)>)>,
    i: int,
    j: int,
)
    requires
        0 <= i < assessments_of(findings).len(),
        0 <= j < assessments_of(findings)[i].operations.len(),
        assessments_of(findings)[i].operations[j].1.isolation is NoIsolation,
    ensures
        ({
            let report = report_of(name, findings);
            let resource = report.assessments[i];
            &&& report.isolation_level is NoIsolation
            &&& resource.overall_isolation is NoIsolation
            &&& report.warnings.contains(
                "Resource "@ + resource.resource.text() + " has unsafe cross-tenant operations"@,
            )
        }),
{
    no_operation_is_below_the_report(name, findings, i, j);
    warnings_are_complete(assessments_of(findings), i);
}

/// An operation whose isolation could not be determined keeps its resource and
/// the subsystem from being reported as isolated, and the resource is warned of.
pub proof fn an_undetermined_operation_is_never_hidden<R: AssessableResource>(
    name: Seq<char>,
    findings: Seq<(R, Seq<(R::Operation, OperationView)>)>,
    i: int,
    j: int,
)
    requires
        0 <= i < assessments_of(findings).len(),
        0 <= j < assessments_of(findings)[i].operations.len(),
        assessments_of(findings)[i].operations[j].1.isolation is Unknown,
    ensures
        ({
            let report = report_of(name, findings);
            let resource = report.assessments[i];
            &&& !(report.isolation_level is Soft) && !(report.isolation_level is Hard)
            &&& !(resource.overall_isolation is Soft) && !(resource.overall_isolation is Hard)
            &&& warning_of(resource) is Some
            &&& report.warnings.contains(warning_of(resource)->0)
        }),
{
    no_operation_is_below_the_report(name, findings, i, j);
    let resource = assessments_of(findings)[i];
    assert(operation_levels(resource.operations)[j] is Unknown);
    warnings_are_complete(assessments_of(findings), i);
}

/// The findings cover the resources, each with its operations in their order.
pub open spec fn covers<R: AssessableResource>(
    findings: Seq<(R, Seq<(R::Operation, OperationView)>)>,
    resources: Seq<R>,
) -> bool {
    &&& findings.len() == resources.len()
    &&& forall|k: int|
        0 <= k < resources.len() ==> (#[trigger] findings[k]).0 == resources[k]
            && findings[k].1.len() == resources[k].operations().len()
    &&& forall|k: int, j: int|
        #![trigger findings[k].1[j]]
        0 <= k < resources.len() && 0 <= j < resources[k].operations().len()
            ==> findings[k].1[j].0 == resources[k].operations()[j]
}

/// A sweep that has come to its end has found something on every operation.
proof fn a_sweep_covers_its_operations<O>(
    operations: Seq<O>,
    log: Seq<CheckedView>,
    k: int,
    at: int,
    found: Seq<(O, OperationView)>,
)
    requires
        0 <= k <= operations.len(),
        found.len() == k,
        forall|j: int| 0 <= j < k ==> (#[trigger] found[j]).0 == operations[j],
    ensures
        sweep_step(operations, log, k, at, found) matches SweepView::Found(all, next) ==> {
            &&& all.len() == operations.len()
            &&& next == at + (operations.len() - k)
            &&& forall|j: int| 0 <= j < operations.len() ==> (#[trigger] all[j]).0 == operations[j]
        },
    decreases operations.len() - k,
{
    if k < operations.len() && at < log.len() {
        if let JudgementView::Assessed(assessment) = log[at].judgement() {
            a_sweep_covers_its_operations(
                operations,
                log,
                k + 1,
                at + 1,
                found.push((operations[k], assessment)),
            );
        }
    }
}

/// What is left of a run covers the resources that are left.
proof fn the_rest_is_covered<R: AssessableResource>(
    name: Seq<char>,
    resources: Seq<R>,
    log: Seq<CheckedView>,
    k: int,
    at: int,
    findings: Seq<(R, Seq<(R::Operation, OperationView)>)>,
)
    requires
        0 <= k <= resources.len(),
        covers(findings, resources.take(k)),
    ensures
        run_step(name, resources, log, k, at, findings) matches AssessmentView::Done(report)
            ==> exists|all: Seq<(R, Seq<(R::Operation, OperationView)>)>|
            #![trigger report_of(name, all)]
            covers(all, resources) && report == report_of(name, all),
    decreases resources.len() - k,
{
    if k == resources.len() {
        assert(resources.take(k) =~= resources);
        assert(report_of(name, findings) == report_of(name, findings));
    } else {
        let operations = resources[k].operations();
        a_sweep_covers_its_operations(operations, log, 0, at, seq![]);
        if let SweepView::Found(found, next) = sweep_step(operations, log, 0, at, seq![]) {
            let more = findings.push((resources[k], found));
            assert forall|m: int, j: int|
                #![trigger more[m].1[j]]
                0 <= m < k + 1 && 0 <= j < resources.take(k + 1)[m].operations().len() implies
                more[m].1[j].0 == resources.take(k + 1)[m].operations()[j] by {
                if m < k {
                    assert(more[m] == findings[m]);
                    assert(resources.take(k)[m] == resources.take(k + 1)[m]);
                    assert(findings[m].1[j].0 == resources.take(k)[m].operations()[j]);
                }
            }
            assert forall|m: int| 0 <= m < k + 1 implies (#[trigger] more[m]).0 == resources.take(
                k + 1,
            )[m] && more[m].1.len() == resources.take(k + 1)[m].operations().len() by {
                if m < k {
                    assert(more[m] == findings[m]);
                    assert(resources.take(k)[m] == resources.take(k + 1)[m]);
                }
            }
            assert(covers(more, resources.take(k + 1)));
            the_rest_is_covered(name, resources, log, k + 1, next, more);
        }
    }
}

/// A finished assessment rests on a finding for every applicable operation of
/// every resource of the subsystem: none is left out.
pub proof fn a_finished_run_covers_everything<R: AssessableResource>(
    name: Seq<char>,
    resources: Seq<R>,
    log: Seq<CheckedView>,
)
    ensures
        run_step(name, resources, log, 0, 0, seq![]) matches AssessmentView::Done(report)
            ==> exists|all: Seq<(R, Seq<(R::Operation, OperationView)>)>|
            #![trigger report_of(name, all)]
            covers(all, resources) && report == report_of(name, all),
{
    let none: Seq<(R, Seq<(R::Operation, OperationView)>)> = seq![];
    assert(covers(none, resources.take(0)));
    the_rest_is_covered(name, resources, log, 0, 0, none);
}

/// How many operations apply to the resources from number `k` on.
pub open spec fn operations_from<R: AssessableResource>(resources: Seq<R>, k: int) -> nat
    decreases resources.len() - k,
{
    if k < 0 || k >= resources.len() {
        0
    } else {
        resources[k].operations().len() + operations_from(resources, k + 1)
    }
}

/// A sweep asks only for checks that were not made.
proof fn a_sweep_ends<O>(
    operations: Seq<O>,
    log: Seq<CheckedView>,
    k: int,
    at: int,
    found: Seq<(O, OperationView)>,
)
    requires
        0 <= k <= operations.len(),
        0 <= at,
        at + (operations.len() - k) <= log.len(),
        forall|i: int| 0 <= i < log.len() ==> !((#[trigger] log[i]).judgement() is Pending),
    ensures
        sweep_step(operations, log, k, at, found) is Failed || sweep_step(
            operations,
            log,
            k,
            at,
            found,
        ) is Found,
    decreases operations.len() - k,
{
    if k < operations.len() {
        if let JudgementView::Assessed(assessment) = log[at].judgement() {
            a_sweep_ends(operations, log, k + 1, at + 1, found.push((operations[k], assessment)));
        }
    }
}

/// The rest of a run asks only for checks that were not made.
proof fn the_rest_ends<R: AssessableResource>(
    name: Seq<char>,
    resources: Seq<R>,
    log: Seq<CheckedView>,
    k: int,
    at: int,
    findings: Seq<(R, Seq<(R::Operation, OperationView)>)>,
)
    requires
        0 <= k <= resources.len(),
        0 <= at,
        at + operations_from(resources, k) <= log.len(),
        forall|i: int| 0 <= i < log.len() ==> !((#[trigger] log[i]).judgement() is Pending),
    ensures
        run_step(name, resources, log, k, at, findings) is Failed || run_step(
            name,
            resources,
            log,
            k,
            at,
            findings,
        ) is Done,
    decreases resources.len() - k,
{
    if k < resources.len() {
        let operations = resources[k].operations();
        a_sweep_ends(operations, log, 0, at, seq![]);
        a_sweep_covers_its_operations(operations, log, 0, at, seq![]);
        if let SweepView::Found(found, next) = sweep_step(operations, log, 0, at, seq![]) {
            the_rest_ends(
                name,
                resources,
                log,
                k + 1,
                next,
                findings.push((resources[k], found)),
            );
        }
    }
}

/// An assessment ends: once there is a decided check for every applicable
/// operation, it is done, or it has failed.
pub proof fn every_run_ends<R: AssessableResource>(
    name: Seq<char>,
    resources: Seq<R>,
    log: Seq<CheckedView>,
)
    requires
        operations_from(resources, 0) <= log.len(),
        forall|i: int| 0 <= i < log.len() ==> !((#[trigger] log[i]).judgement() is Pending),
    ensures
        run_step(name, resources, log, 0, 0, seq![]) is Failed || run_step(
            name,
            resources,
            log,
            0,
            0,
            seq![],
        ) is Done,
{
    the_rest_ends(name, resources, log, 0, 0, seq![]);
}

}
