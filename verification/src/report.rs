//! From the findings on single operations to the report on a subsystem.

use crate::assessment::{
    AssessableOperation, AssessableResource, AutonomyRatio, OperationAssessment, OperationView,
};
use crate::isolation::{
    compute_min_known_isolation_level, compute_overall_isolation_level, level_views,
    min_known_level, overall_level, IsolationLevel, IsolationView,
};
use crate::text::{joined3, string_from, texts};
use vstd::prelude::*;
use vstd::string::*;

verus! {

/// What a list of assessed operations says.
pub open spec fn operation_views<O>(operations: Seq<(O, OperationAssessment)>) -> Seq<
    (O, OperationView),
> {
    Seq::new(operations.len(), |i: int| (operations[i].0, operations[i].1@))
}

/// No operation stands in the list twice.
pub open spec fn distinct_operations<O>(operations: Seq<(O, OperationView)>) -> bool {
    forall|i: int, j: int|
        0 <= i < j < operations.len() ==> (#[trigger] operations[i]).0 != (
        #[trigger] operations[j]).0
}

/// Where `operation` stands in the list.
pub open spec fn position_of<O>(operations: Seq<(O, OperationView)>, operation: O) -> Option<int>
    decreases operations.len(),
{
    if operations.len() == 0 {
        None
    } else if operations.last().0 == operation {
        Some(operations.len() - 1)
    } else {
        position_of(operations.drop_last(), operation)
    }
}

/// The list with the assessment of one operation entered: it replaces an
/// earlier one of the same operation.
pub open spec fn entered<O>(
    operations: Seq<(O, OperationView)>,
    operation: O,
    assessment: OperationView,
) -> Seq<(O, OperationView)> {
    match position_of(operations, operation) {
        Some(at) => operations.update(at, (operation, assessment)),
        None => operations.push((operation, assessment)),
    }
}

/// The findings on a resource's operations, each operation once.
pub open spec fn collected<O>(findings: Seq<(O, OperationView)>) -> Seq<(O, OperationView)>
    decreases findings.len(),
{
    if findings.len() == 0 {
        findings
    } else {
        entered(collected(findings.drop_last()), findings.last().0, findings.last().1)
    }
}

/// The position of an operation is where it stands, where it does.
pub proof fn position_is_where<O>(operations: Seq<(O, OperationView)>, operation: O)
    ensures
        match position_of(operations, operation) {
            Some(at) => 0 <= at < operations.len() && operations[at].0 == operation,
            None => forall|i: int|
                0 <= i < operations.len() ==> (#[trigger] operations[i]).0 != operation,
        },
    decreases operations.len(),
{
    if operations.len() > 0 && operations.last().0 != operation {
        position_is_where(operations.drop_last(), operation);
        if position_of(operations, operation) is None {
            assert forall|i: int| 0 <= i < operations.len() implies (#[trigger] operations[i]).0
                != operation by {
                if i < operations.len() - 1 {
                    assert(operations.drop_last()[i] == operations[i]);
                }
            }
        }
    }
}

/// Collecting findings enters every operation once, however often it was found,
/// and the last finding on it counts.
pub proof fn collected_operations_are_distinct<O>(findings: Seq<(O, OperationView)>)
    ensures
        distinct_operations(collected(findings)),
        findings.len() > 0 ==> collected(findings).contains(findings.last()),
        (collected(findings).len() == 0) == (findings.len() == 0),
    decreases findings.len(),
{
    if findings.len() > 0 {
        let before = collected(findings.drop_last());
        collected_operations_are_distinct(findings.drop_last());
        position_is_where(before, findings.last().0);
        match position_of(before, findings.last().0) {
            Some(at) => {
                assert(collected(findings)[at] == findings.last());
            },
            None => {
                assert(collected(findings)[before.len() as int] == findings.last());
            },
        }
    }
}

/// Assessment of a single resource with all its operations.
pub struct ResourceAssessment<R: AssessableResource> {
    pub resource: R,
    pub operations: Vec<(R::Operation, OperationAssessment)>,
    pub overall_isolation: IsolationLevel,
}

/// What the assessment of a resource says.
pub struct ResourceView<R: AssessableResource> {
    pub resource: R,
    pub operations: Seq<(R::Operation, OperationView)>,
    pub overall_isolation: IsolationView,
}

impl<R: AssessableResource> View for ResourceAssessment<R> {
    type V = ResourceView<R>;

    open spec fn view(&self) -> ResourceView<R> {
        ResourceView {
            resource: self.resource,
            operations: operation_views(self.operations@),
            overall_isolation: self.overall_isolation@,
        }
    }
}

/// What a list of assessed resources says.
pub open spec fn resource_views<R: AssessableResource>(list: Seq<ResourceAssessment<R>>) -> Seq<
    ResourceView<R>,
> {
    Seq::new(list.len(), |i: int| list[i]@)
}

/// The levels of the operations of a resource.
pub open spec fn operation_levels<O>(operations: Seq<(O, OperationView)>) -> Seq<IsolationView> {
    Seq::new(operations.len(), |i: int| operations[i].1.isolation)
}

/// The levels of the resources of a subsystem.
pub open spec fn resource_levels<R: AssessableResource>(list: Seq<ResourceView<R>>) -> Seq<
    IsolationView,
> {
    Seq::new(list.len(), |i: int| list[i].overall_isolation)
}

/// How many of the operations are allowed.
pub open spec fn allowed_in<O>(operations: Seq<(O, OperationView)>) -> nat
    decreases operations.len(),
{
    if operations.len() == 0 {
        0
    } else {
        allowed_in(operations.drop_last()) + if operations.last().1.autonomy {
            1nat
        } else {
            0nat
        }
    }
}

/// How many operations of the resources are allowed.
pub open spec fn allowed_count<R: AssessableResource>(list: Seq<ResourceView<R>>) -> nat
    decreases list.len(),
{
    if list.len() == 0 {
        0
    } else {
        allowed_count(list.drop_last()) + allowed_in(list.last().operations)
    }
}

/// How many operations the resources have.
pub open spec fn operation_count<R: AssessableResource>(list: Seq<ResourceView<R>>) -> nat
    decreases list.len(),
{
    if list.len() == 0 {
        0
    } else {
        operation_count(list.drop_last()) + list.last().operations.len()
    }
}

/// No more operations are allowed than there are.
pub proof fn allowed_is_bounded<R: AssessableResource>(list: Seq<ResourceView<R>>)
    ensures
        allowed_count(list) <= operation_count(list),
    decreases list.len(),
{
    if list.len() > 0 {
        allowed_is_bounded(list.drop_last());
        allowed_in_is_bounded(list.last().operations);
    }
}

proof fn allowed_in_is_bounded<O>(operations: Seq<(O, OperationView)>)
    ensures
        allowed_in(operations) <= operations.len(),
    decreases operations.len(),
{
    if operations.len() > 0 {
        allowed_in_is_bounded(operations.drop_last());
    }
}

/// Fewer resources have no more operations.
proof fn operation_count_grows<R: AssessableResource>(list: Seq<ResourceView<R>>, n: int)
    requires
        0 <= n <= list.len(),
    ensures
        operation_count(list.take(n)) <= operation_count(list),
    decreases list.len() - n,
{
    if n == list.len() {
        assert(list.take(n) =~= list);
    } else {
        assert(list.take(n + 1).drop_last() =~= list.take(n));
        operation_count_grows(list, n + 1);
    }
}

/// Final report for a subsystem.
pub struct SubsystemReport<R: AssessableResource> {
    pub name: String,
    pub assessments: Vec<ResourceAssessment<R>>,
    pub isolation_level: IsolationLevel,
    pub autonomy_ratio: AutonomyRatio,
    pub warnings: Vec<String>,
}

/// What the report on a subsystem says.
pub struct ReportView<R: AssessableResource> {
    pub name: Seq<char>,
    pub assessments: Seq<ResourceView<R>>,
    pub isolation_level: IsolationView,
    pub autonomy_ratio: AutonomyRatio,
    pub warnings: Seq<Seq<char>>,
}

impl<R: AssessableResource> View for SubsystemReport<R> {
    type V = ReportView<R>;

    open spec fn view(&self) -> ReportView<R> {
        ReportView {
            name: self.name@,
            assessments: resource_views(self.assessments@),
            isolation_level: self.isolation_level@,
            autonomy_ratio: self.autonomy_ratio,
            warnings: texts(self.warnings@),
        }
    }
}

/// Counts the operations of one resource that are allowed.
pub fn count_allowed<O>(operations: &Vec<(O, OperationAssessment)>) -> (r: usize)
    ensures
        r == allowed_in(operation_views(operations@)),
        r <= operations.len(),
{
    let ghost views = operation_views(operations@);
    let mut allowed: usize = 0;
    let mut i: usize = 0;
    while i < operations.len()
        invariant
            i <= operations.len(),
            views == operation_views(operations@),
            allowed <= i,
            allowed == allowed_in(views.take(i as int)),
        decreases operations.len() - i,
    {
        assert(views.take(i + 1).drop_last() =~= views.take(i as int));
        assert(views.take(i + 1).last() == views[i as int]);
        if operations[i].1.autonomy {
            allowed += 1;
        }
        i += 1;
    }
    assert(views.take(operations.len() as int) =~= views);
    allowed
}

impl<R: AssessableResource> SubsystemReport<R> {
    /// Calculates the autonomy ratio from assessments.
    pub fn calculate_autonomy_ratio(assessments: &Vec<ResourceAssessment<R>>) -> (r: AutonomyRatio)
        requires
            operation_count(resource_views(assessments@)) <= usize::MAX,
        ensures
            r.allowed == allowed_count(resource_views(assessments@)),
            r.total == operation_count(resource_views(assessments@)),
            r.well_formed(),
    {
        let ghost views = resource_views(assessments@);
        let mut ratio = AutonomyRatio::default();
        let mut i: usize = 0;
        while i < assessments.len()
            invariant
                i <= assessments.len(),
                views == resource_views(assessments@),
                operation_count(views) <= usize::MAX,
                ratio.allowed == allowed_count(views.take(i as int)),
                ratio.total == operation_count(views.take(i as int)),
                ratio.allowed <= ratio.total,
            decreases assessments.len() - i,
        {
            assert(views.take(i + 1).drop_last() =~= views.take(i as int));
            assert(views.take(i + 1).last() == views[i as int]);
            proof {
                operation_count_grows(views, i + 1);
            }
            let allowed: usize = count_allowed(&assessments[i].operations);
            ratio.allowed = ratio.allowed + allowed;
            ratio.total = ratio.total + assessments[i].operations.len();
            i += 1;
        }
        assert(views.take(assessments.len() as int) =~= views);
        ratio
    }

    /// The lowest determined isolation level of the assessed resources; nothing
    /// where none was determined.
    pub fn min_known_isolation(&self) -> (r: Option<IsolationLevel>)
        ensures
            match r {
                Some(level) => min_known_level(resource_levels(self@.assessments)) == Some(level@),
                None => min_known_level(resource_levels(self@.assessments)) is None,
            },
    {
        compute_min_known_isolation_level(&levels_of_resources(&self.assessments))
    }
}

/// The levels of the resources of a subsystem.
fn levels_of_resources<R: AssessableResource>(list: &Vec<ResourceAssessment<R>>) -> (r: Vec<
    IsolationLevel,
>)
    ensures
        level_views(r@) == resource_levels(resource_views(list@)),
{
    let mut levels: Vec<IsolationLevel> = Vec::new();
    let mut i: usize = 0;
    while i < list.len()
        invariant
            i <= list.len(),
            levels.len() == i,
            forall|k: int| 0 <= k < i ==> (#[trigger] levels[k])@ == list[k].overall_isolation@,
        decreases list.len() - i,
    {
        levels.push(list[i].overall_isolation.clone());
        i += 1;
    }
    assert(level_views(levels@) =~= resource_levels(resource_views(list@)));
    levels
}

/// The levels of the operations of a resource.
fn levels_of_operations<O>(list: &Vec<(O, OperationAssessment)>) -> (r: Vec<IsolationLevel>)
    ensures
        level_views(r@) == operation_levels(operation_views(list@)),
{
    let mut levels: Vec<IsolationLevel> = Vec::new();
    let mut i: usize = 0;
    while i < list.len()
        invariant
            i <= list.len(),
            levels.len() == i,
            forall|k: int| 0 <= k < i ==> (#[trigger] levels[k])@ == list[k].1.isolation@,
        decreases list.len() - i,
    {
        levels.push(list[i].1.isolation.clone());
        i += 1;
    }
    assert(level_views(levels@) =~= operation_levels(operation_views(list@)));
    levels
}

// ---- Assembling a report ----------------------------------------------------

/// What the findings on one resource amount to.
pub open spec fn resource_of<R: AssessableResource>(
    resource: R,
    findings: Seq<(R::Operation, OperationView)>,
) -> ResourceView<R> {
    ResourceView {
        resource,
        operations: collected(findings),
        overall_isolation: overall_level(operation_levels(collected(findings))),
    }
}

/// What has to be warned of: operations that reach across tenants, else
/// operations of which nothing is known.
pub open spec fn warning_of<R: AssessableResource>(assessment: ResourceView<R>) -> Option<
    Seq<char>,
> {
    let levels = operation_levels(assessment.operations);
    if assessment.overall_isolation is NoIsolation {
        Some("Resource "@ + assessment.resource.text() + " has unsafe cross-tenant operations"@)
    } else if exists|i: int| 0 <= i < levels.len() && (#[trigger] levels[i]) is Unknown {
        Some(
            "Resource "@ + assessment.resource.text()
                + " has unknown isolation for some operations"@,
        )
    } else {
        None
    }
}

/// The warnings of a list of assessments, in order.
pub open spec fn warnings_of<R: AssessableResource>(list: Seq<ResourceView<R>>) -> Seq<Seq<char>>
    decreases list.len(),
{
    if list.len() == 0 {
        Seq::empty()
    } else {
        match warning_of(list.last()) {
            Some(warning) => warnings_of(list.drop_last()).push(warning),
            None => warnings_of(list.drop_last()),
        }
    }
}

/// The assessments of all resources on which there are findings.
pub open spec fn assessments_of<R: AssessableResource>(
    findings: Seq<(R, Seq<(R::Operation, OperationView)>)>,
) -> Seq<ResourceView<R>>
    decreases findings.len(),
{
    if findings.len() == 0 {
        Seq::empty()
    } else if findings.last().1.len() == 0 {
        assessments_of(findings.drop_last())
    } else {
        assessments_of(findings.drop_last()).push(
            resource_of(findings.last().0, findings.last().1),
        )
    }
}

/// What the findings on a resource's operations say, for every resource.
pub open spec fn finding_views<R: AssessableResource>(
    findings: Seq<(R, Vec<(R::Operation, OperationAssessment)>)>,
) -> Seq<(R, Seq<(R::Operation, OperationView)>)> {
    Seq::new(findings.len(), |i: int| (findings[i].0, operation_views(findings[i].1@)))
}

/// Enters the assessment of one operation: it replaces an earlier one of the
/// same operation.
fn enter<O: AssessableOperation>(
    operations: &mut Vec<(O, OperationAssessment)>,
    operation: O,
    assessment: OperationAssessment,
)
    ensures
        operation_views(final(operations)@) == entered(
            operation_views(old(operations)@),
            operation,
            assessment@,
        ),
{
    let ghost before = operation_views(operations@);
    let mut i: usize = operations.len();
    assert(before.take(i as int) =~= before);
    while i > 0
        invariant
            i <= operations.len(),
            operations@ == old(operations)@,
            before == operation_views(operations@),
            position_of(before, operation) == position_of(before.take(i as int), operation),
        decreases i,
    {
        i -= 1;
        assert(before.take(i + 1).drop_last() =~= before.take(i as int));
        assert(before.take(i + 1).last() == before[i as int]);
        if operations[i].0.same(&operation) {
            operations[i] = (operation, assessment);
            assert(operation_views(operations@) =~= before.update(
                i as int,
                (operation, assessment@),
            ));
            return ;
        }
    }
    operations.push((operation, assessment));
    assert(operation_views(operations@) =~= before.push((operation, assessment@)));
}

/// Assesses a resource by the findings on its operations.
fn assess_resource<R: AssessableResource>(
    resource: R,
    findings: &Vec<(R::Operation, OperationAssessment)>,
) -> (r: ResourceAssessment<R>)
    ensures
        r@ == resource_of(resource, operation_views(findings@)),
{
    let ghost views = operation_views(findings@);
    let mut operations: Vec<(R::Operation, OperationAssessment)> = Vec::new();
    assert(operation_views(operations@) =~= views.take(0));
    let mut i: usize = 0;
    while i < findings.len()
        invariant
            i <= findings.len(),
            views == operation_views(findings@),
            operation_views(operations@) == collected(views.take(i as int)),
        decreases findings.len() - i,
    {
        assert(views.take(i + 1).drop_last() =~= views.take(i as int));
        assert(views.take(i + 1).last() == views[i as int]);
        enter(&mut operations, findings[i].0.duplicate(), findings[i].1.clone());
        i += 1;
    }
    assert(views.take(findings.len() as int) =~= views);
    let overall_isolation = compute_overall_isolation_level(&levels_of_operations(&operations));
    ResourceAssessment { resource, operations, overall_isolation }
}

/// Whether one of the operations has an undetermined level.
fn has_unknown<O>(operations: &Vec<(O, OperationAssessment)>) -> (r: bool)
    ensures
        r == (exists|i: int|
            0 <= i < operations.len() && (#[trigger] operation_levels(
                operation_views(operations@),
            )[i]) is Unknown),
{
    let ghost levels = operation_levels(operation_views(operations@));
    let mut i: usize = 0;
    while i < operations.len()
        invariant
            i <= operations.len(),
            levels == operation_levels(operation_views(operations@)),
            forall|k: int| 0 <= k < i ==> !((#[trigger] levels[k]) is Unknown),
        decreases operations.len() - i,
    {
        assert(levels[i as int] == operations[i as int].1.isolation@);
        if matches!(operations[i].1.isolation, IsolationLevel::Unknown) {
            return true;
        }
        i += 1;
    }
    false
}

/// What has to be warned of.
fn warn_of<R: AssessableResource>(assessment: &ResourceAssessment<R>) -> (r: Option<String>)
    ensures
        match r {
            Some(warning) => warning_of(assessment@) == Some(warning@),
            None => warning_of(assessment@) is None,
        },
{
    if matches!(assessment.overall_isolation, IsolationLevel::NoIsolation) {
        Some(
            joined3(
                "Resource ",
                &assessment.resource.label(),
                " has unsafe cross-tenant operations",
            ),
        )
    } else if has_unknown(&assessment.operations) {
        Some(
            joined3(
                "Resource ",
                &assessment.resource.label(),
                " has unknown isolation for some operations",
            ),
        )
    } else {
        None
    }
}

/// Assembles the report on a subsystem from the findings on the operations of
/// its resources. A resource without applicable operations is passed over.
pub fn compile_report<R: AssessableResource>(
    name: &str,
    findings: Vec<(R, Vec<(R::Operation, OperationAssessment)>)>,
) -> (r: SubsystemReport<R>)
    requires
        operation_count(assessments_of(finding_views(findings@))) <= usize::MAX,
    ensures
        r@.name == name@,
        r@.assessments == assessments_of(finding_views(findings@)),
        r@.isolation_level == overall_level(resource_levels(r@.assessments)),
        r@.autonomy_ratio.allowed == allowed_count(r@.assessments),
        r@.autonomy_ratio.total == operation_count(r@.assessments),
        r@.warnings == warnings_of(r@.assessments),
{
    let ghost views = finding_views(findings@);
    let ghost given = findings@;
    let mut pending = findings;
    let mut assessments: Vec<ResourceAssessment<R>> = Vec::new();
    let mut warnings: Vec<String> = Vec::new();
    let ghost mut done: int = 0;
    assert(resource_views(assessments@) =~= seq![]);
    assert(texts(warnings@) =~= seq![]);
    assert(views.take(0) =~= seq![]);
    assert(given.skip(0) =~= given);
    while pending.len() > 0
        invariant
            0 <= done <= given.len(),
            pending@ == given.skip(done),
            views == finding_views(given),
            resource_views(assessments@) == assessments_of(views.take(done)),
            texts(warnings@) == warnings_of(resource_views(assessments@)),
        decreases pending.len(),
    {
        let (resource, operations) = pending.remove(0);
        assert(pending@ =~= given.skip(done + 1));
        assert(views.take(done + 1).drop_last() =~= views.take(done));
        assert(views.take(done + 1).last() == (resource, operation_views(operations@)));
        if operations.len() > 0 {
            let assessment = assess_resource(resource, &operations);
            let ghost before = resource_views(assessments@);
            let ghost warned = texts(warnings@);
            if let Some(warning) = warn_of(&assessment) {
                warnings.push(warning);
                assert(texts(warnings@) =~= warned.push(warning@));
            }
            let ghost view = assessment@;
            assessments.push(assessment);
            assert(resource_views(assessments@) =~= before.push(view));
            assert(before.push(view).drop_last() =~= before);
        }
        proof {
            done = done + 1;
        }
    }
    assert(views.take(given.len() as int) =~= views);
    let overall_isolation = compute_overall_isolation_level(&levels_of_resources(&assessments));
    let autonomy_ratio = SubsystemReport::<R>::calculate_autonomy_ratio(&assessments);
    SubsystemReport {
        name: string_from(name),
        assessments,
        isolation_level: overall_isolation,
        autonomy_ratio,
        warnings,
    }
}

}
