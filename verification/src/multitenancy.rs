//! The report on all subsystems together.

use crate::assessment::{AssessableResource, AutonomyRatio};
use crate::control_plane::resources::{
    ControlPlaneAutonomyCategory, ControlPlaneAutonomyLevels, ControlPlaneResource,
};
use crate::isolation::{
    compute_overall_isolation_level, level_views, min_known_level, overall_level, IsolationLevel,
    IsolationView,
};
use crate::network::resources::NetworkResource;
use crate::render::{isolation_sign, ratio_sign, sign_of_isolation, sign_of_ratio};
use crate::report::{
    allowed_in, count_allowed, resource_levels, resource_views, ResourceAssessment, ResourceView,
    SubsystemReport,
};
use crate::text::{joined, joined3, joined7, string_from, texts};
use vstd::prelude::*;
use vstd::string::*;

verus! {

/// The report on all subsystems that were assessed. `S` and `W` are the
/// resources of the storage and the workload subsystem.
pub struct MultitenancyReport<S: AssessableResource, W: AssessableResource> {
    pub control_plane: Option<SubsystemReport<ControlPlaneResource>>,
    pub control_plane_autonomy_levels: Option<ControlPlaneAutonomyLevels>,
    pub storage: Option<SubsystemReport<S>>,
    pub network: Option<SubsystemReport<NetworkResource>>,
    pub workload: Option<SubsystemReport<W>>,
}

/// What the report on all subsystems needs of the report on one.
pub struct SectionView {
    pub isolation: IsolationView,
    pub min_known: Option<IsolationView>,
    pub ratio: AutonomyRatio,
}

/// What the report on all subsystems needs of the report on one.
pub open spec fn section_of<R: AssessableResource>(report: Option<SubsystemReport<R>>) -> Option<
    SectionView,
> {
    match report {
        Some(report) => Some(
            SectionView {
                isolation: report@.isolation_level,
                min_known: min_known_level(resource_levels(report@.assessments)),
                ratio: report@.autonomy_ratio,
            },
        ),
        None => None,
    }
}

/// What the report on all subsystems says.
pub struct MultitenancyView {
    pub control_plane: Option<SectionView>,
    pub levels: Option<ControlPlaneAutonomyLevels>,
    pub storage: Option<SectionView>,
    pub network: Option<SectionView>,
    pub workload: Option<SectionView>,
}

impl<S: AssessableResource, W: AssessableResource> View for MultitenancyReport<S, W> {
    type V = MultitenancyView;

    open spec fn view(&self) -> MultitenancyView {
        MultitenancyView {
            control_plane: section_of(self.control_plane),
            levels: self.control_plane_autonomy_levels,
            storage: section_of(self.storage),
            network: section_of(self.network),
            workload: section_of(self.workload),
        }
    }
}

/// The level of a section, where it was assessed.
pub open spec fn level_in(section: Option<SectionView>) -> Seq<IsolationView> {
    match section {
        Some(section) => seq![section.isolation],
        None => seq![],
    }
}

/// The lowest determined level of a section, where there is one.
pub open spec fn known_in(section: Option<SectionView>) -> Seq<IsolationView> {
    match section {
        Some(section) => match section.min_known {
            Some(level) => seq![level],
            None => seq![],
        },
        None => seq![],
    }
}

/// The counts of a section, and none where it was not assessed.
pub open spec fn ratio_in(section: Option<SectionView>) -> AutonomyRatio {
    match section {
        Some(section) => section.ratio,
        None => AutonomyRatio { allowed: 0, total: 0 },
    }
}

impl MultitenancyView {
    /// The levels of the sections that were assessed.
    pub open spec fn levels_seen(self) -> Seq<IsolationView> {
        level_in(self.control_plane) + level_in(self.storage) + level_in(self.network) + level_in(
            self.workload,
        )
    }

    /// The lowest determined levels of the sections that have one.
    pub open spec fn levels_known(self) -> Seq<IsolationView> {
        known_in(self.control_plane) + known_in(self.storage) + known_in(self.network) + known_in(
            self.workload,
        )
    }

    /// The lowest level of all; undetermined where nothing was assessed.
    pub open spec fn isolation(self) -> IsolationView {
        if self.levels_seen().len() == 0 {
            IsolationView::Unknown
        } else {
            overall_level(self.levels_seen())
        }
    }

    /// The lowest determined level of all, where there is one.
    pub open spec fn known_isolation(self) -> Option<IsolationView> {
        if self.levels_known().len() == 0 {
            None
        } else {
            Some(overall_level(self.levels_known()))
        }
    }

    /// How many operations are allowed in all sections.
    pub open spec fn allowed(self) -> int {
        ratio_in(self.control_plane).allowed + ratio_in(self.storage).allowed + ratio_in(
            self.network,
        ).allowed + ratio_in(self.workload).allowed
    }

    /// How many operations were tried in all sections.
    pub open spec fn total(self) -> int {
        ratio_in(self.control_plane).total + ratio_in(self.storage).total + ratio_in(
            self.network,
        ).total + ratio_in(self.workload).total
    }
}

/// Adds the level of a section that was assessed.
fn add_level<R: AssessableResource>(
    levels: &mut Vec<IsolationLevel>,
    report: &Option<SubsystemReport<R>>,
)
    ensures
        level_views(final(levels)@) == level_views(old(levels)@) + level_in(section_of(*report)),
{
    let ghost before = level_views(levels@);
    match report {
        Some(report) => {
            let level = report.isolation_level.clone();
            let ghost said = level@;
            levels.push(level);
            assert(level_views(levels@) =~= before + seq![said]);
        },
        None => {
            assert(before =~= before + seq![]);
        },
    }
}

/// Adds the lowest determined level of a section that has one.
fn add_known<R: AssessableResource>(
    levels: &mut Vec<IsolationLevel>,
    report: &Option<SubsystemReport<R>>,
)
    ensures
        level_views(final(levels)@) == level_views(old(levels)@) + known_in(section_of(*report)),
{
    let ghost before = level_views(levels@);
    assert(before =~= before + seq![]);
    if let Some(report) = report {
        if let Some(level) = report.min_known_isolation() {
            let ghost said = level@;
            levels.push(level);
            assert(level_views(levels@) =~= before + seq![said]);
        }
    }
}

/// Adds the counts of a section that was assessed.
fn add_ratio<R: AssessableResource>(
    total: &mut AutonomyRatio,
    report: &Option<SubsystemReport<R>>,
)
    requires
        old(total).allowed + ratio_in(section_of(*report)).allowed <= usize::MAX,
        old(total).total + ratio_in(section_of(*report)).total <= usize::MAX,
    ensures
        final(total).allowed == old(total).allowed + ratio_in(section_of(*report)).allowed,
        final(total).total == old(total).total + ratio_in(section_of(*report)).total,
{
    if let Some(report) = report {
        total.add(&report.autonomy_ratio);
    }
}

impl<S: AssessableResource, W: AssessableResource> MultitenancyReport<S, W> {
    /// The lowest level of all subsystems; undetermined where none was assessed.
    pub fn overall_isolation(&self) -> (r: IsolationLevel)
        ensures
            r@ == self@.isolation(),
    {
        let mut levels: Vec<IsolationLevel> = Vec::new();
        assert(level_views(levels@) =~= seq![]);
        add_level(&mut levels, &self.control_plane);
        add_level(&mut levels, &self.storage);
        add_level(&mut levels, &self.network);
        add_level(&mut levels, &self.workload);
        assert(level_views(levels@) =~= self@.levels_seen());
        if levels.len() == 0 {
            return IsolationLevel::Unknown;
        }
        compute_overall_isolation_level(&levels)
    }

    /// The lowest determined level of the resources of all subsystems; nothing
    /// where none was determined.
    pub fn min_known_isolation(&self) -> (r: Option<IsolationLevel>)
        ensures
            match r {
                Some(level) => self@.known_isolation() == Some(level@),
                None => self@.known_isolation() is None,
            },
    {
        let mut levels: Vec<IsolationLevel> = Vec::new();
        assert(level_views(levels@) =~= seq![]);
        add_known(&mut levels, &self.control_plane);
        add_known(&mut levels, &self.storage);
        add_known(&mut levels, &self.network);
        add_known(&mut levels, &self.workload);
        assert(level_views(levels@) =~= self@.levels_known());
        if levels.len() == 0 {
            return None;
        }
        Some(compute_overall_isolation_level(&levels))
    }

    /// The counts of all subsystems together.
    pub fn overall_autonomy_ratio(&self) -> (r: AutonomyRatio)
        requires
            self@.allowed() <= usize::MAX,
            self@.total() <= usize::MAX,
        ensures
            r.allowed == self@.allowed(),
            r.total == self@.total(),
    {
        let mut total = AutonomyRatio::default();
        add_ratio(&mut total, &self.control_plane);
        add_ratio(&mut total, &self.storage);
        add_ratio(&mut total, &self.network);
        add_ratio(&mut total, &self.workload);
        total
    }
}

// ---- Autonomy by category --------------------------------------------------

/// How many operations of the resources in a category are allowed.
pub open spec fn allowed_in_category(
    list: Seq<ResourceView<ControlPlaneResource>>,
    category: ControlPlaneAutonomyCategory,
) -> nat
    decreases list.len(),
{
    if list.len() == 0 {
        0
    } else {
        allowed_in_category(list.drop_last(), category) + if list.last().resource.category()
            == category {
            allowed_in(list.last().operations)
        } else {
            0
        }
    }
}

/// How many operations the resources in a category have.
pub open spec fn total_in_category(
    list: Seq<ResourceView<ControlPlaneResource>>,
    category: ControlPlaneAutonomyCategory,
) -> nat
    decreases list.len(),
{
    if list.len() == 0 {
        0
    } else {
        total_in_category(list.drop_last(), category) + if list.last().resource.category()
            == category {
            list.last().operations.len()
        } else {
            0
        }
    }
}

/// The ratio counts the operations of the resources in a category.
pub open spec fn counts_category(
    ratio: AutonomyRatio,
    list: Seq<ResourceView<ControlPlaneResource>>,
    category: ControlPlaneAutonomyCategory,
) -> bool {
    &&& ratio.allowed == allowed_in_category(list, category)
    &&& ratio.total == total_in_category(list, category)
    &&& ratio.well_formed()
}

/// The levels count the operations of the resources, each in its category.
pub open spec fn counts_categories(
    levels: ControlPlaneAutonomyLevels,
    list: Seq<ResourceView<ControlPlaneResource>>,
) -> bool {
    &&& counts_category(levels.workload, list, ControlPlaneAutonomyCategory::Workload)
    &&& counts_category(levels.scope, list, ControlPlaneAutonomyCategory::Scope)
    &&& counts_category(
        levels.infrastructure,
        list,
        ControlPlaneAutonomyCategory::Infrastructure,
    )
    &&& counts_category(levels.cluster, list, ControlPlaneAutonomyCategory::Cluster)
}

/// The categories together have every operation once.
pub proof fn categories_share_out_the_operations(list: Seq<ResourceView<ControlPlaneResource>>)
    ensures
        total_in_category(list, ControlPlaneAutonomyCategory::Workload) + total_in_category(
            list,
            ControlPlaneAutonomyCategory::Scope,
        ) + total_in_category(list, ControlPlaneAutonomyCategory::Infrastructure)
            + total_in_category(list, ControlPlaneAutonomyCategory::Cluster)
            == crate::report::operation_count(list),
        allowed_in_category(list, ControlPlaneAutonomyCategory::Workload) + allowed_in_category(
            list,
            ControlPlaneAutonomyCategory::Scope,
        ) + allowed_in_category(list, ControlPlaneAutonomyCategory::Infrastructure)
            + allowed_in_category(list, ControlPlaneAutonomyCategory::Cluster)
            == crate::report::allowed_count(list),
    decreases list.len(),
{
    if list.len() > 0 {
        categories_share_out_the_operations(list.drop_last());
    }
}

proof fn operation_count_of_prefix(list: Seq<ResourceView<ControlPlaneResource>>, n: int)
    requires
        0 <= n <= list.len(),
    ensures
        crate::report::operation_count(list.take(n)) <= crate::report::operation_count(list),
    decreases list.len() - n,
{
    if n == list.len() {
        assert(list.take(n) =~= list);
    } else {
        assert(list.take(n + 1).drop_last() =~= list.take(n));
        operation_count_of_prefix(list, n + 1);
    }
}

/// Counts the control plane's operations by the category of their resource.
pub fn calculate_control_plane_autonomy_levels(
    assessments: &Vec<ResourceAssessment<ControlPlaneResource>>,
) -> (r: ControlPlaneAutonomyLevels)
    requires
        crate::report::operation_count(resource_views(assessments@)) <= usize::MAX,
    ensures
        counts_categories(r, resource_views(assessments@)),
{
    let ghost views = resource_views(assessments@);
    let mut levels = ControlPlaneAutonomyLevels::default();
    let mut i: usize = 0;
    assert(views.take(0) =~= seq![]);
    while i < assessments.len()
        invariant
            i <= assessments.len(),
            views == resource_views(assessments@),
            crate::report::operation_count(views) <= usize::MAX,
            counts_categories(levels, views.take(i as int)),
        decreases assessments.len() - i,
    {
        proof {
            assert(views.take(i + 1).drop_last() =~= views.take(i as int));
            assert(views.take(i + 1).last() == views[i as int]);
            operation_count_of_prefix(views, i + 1);
            categories_share_out_the_operations(views.take(i as int));
            categories_share_out_the_operations(views.take(i + 1));
        }
        let counted = AutonomyRatio {
            allowed: count_allowed(&assessments[i].operations),
            total: assessments[i].operations.len(),
        };
        match assessments[i].resource.autonomy_category() {
            ControlPlaneAutonomyCategory::Workload => levels.workload.add(&counted),
            ControlPlaneAutonomyCategory::Scope => levels.scope.add(&counted),
            ControlPlaneAutonomyCategory::Infrastructure => levels.infrastructure.add(&counted),
            ControlPlaneAutonomyCategory::Cluster => levels.cluster.add(&counted),
        }
        i += 1;
    }
    assert(views.take(assessments.len() as int) =~= views);
    levels
}

// ---- The text of the report ------------------------------------------------

/// A ratio with its sign: the counts, and the percentage as it was written out.
pub open spec fn ratio_text(ratio: AutonomyRatio, percentage: Seq<char>) -> Seq<char> {
    ratio_sign(ratio) + " "@ + ratio.text(percentage)
}

/// A ratio with its sign. The percentage, with one decimal, is written out by
/// the caller.
pub fn format_ratio_with_icon(ratio: &AutonomyRatio, percentage: &str) -> (r: String)
    ensures
        r@ == ratio_text(*ratio, percentage@),
{
    joined3(sign_of_ratio(ratio), " ", &ratio.label(percentage))
}

/// The name of a level.
pub open spec fn level_name(level: IsolationView) -> Seq<char> {
    match level {
        IsolationView::Hard => "Hard"@,
        IsolationView::Soft(_) => "Soft"@,
        IsolationView::NoIsolation => "None"@,
        IsolationView::Unknown => "Unknown"@,
    }
}

/// The name of a level.
fn name_of_level(level: &IsolationLevel) -> (r: &'static str)
    ensures
        r@ == level_name(level@),
{
    match level {
        IsolationLevel::Hard => "Hard",
        IsolationLevel::Soft(_) => "Soft",
        IsolationLevel::NoIsolation => "None",
        IsolationLevel::Unknown => "Unknown",
    }
}

/// A level with its sign.
pub open spec fn plain_level_text(level: IsolationView) -> Seq<char> {
    isolation_sign(level) + " "@ + level_name(level)
}

/// A level with its sign; beside an undetermined one the bound that is known.
pub open spec fn level_text(level: IsolationView, min_known: Option<IsolationView>) -> Seq<char> {
    match min_known {
        Some(bound) => if level is Unknown && !(bound is Unknown) {
            isolation_sign(level) + "/"@ + isolation_sign(bound) + " "@ + level_name(level) + "/"@
                + level_name(bound)
        } else {
            plain_level_text(level)
        },
        None => plain_level_text(level),
    }
}

/// A level with its sign; of an undetermined one, in words, the bound that is
/// known.
pub open spec fn level_summary(level: IsolationView, min_known: Option<IsolationView>) -> Seq<
    char,
> {
    match min_known {
        Some(bound) => if level is Unknown && !(bound is Unknown) {
            plain_level_text(level) + " but no more than "@ + plain_level_text(bound)
        } else {
            plain_level_text(level)
        },
        None => plain_level_text(level),
    }
}

/// A level with its sign.
pub fn format_isolation(level: &IsolationLevel) -> (r: String)
    ensures
        r@ == level_text(level@, None),
{
    format_isolation_with_bound(level, None)
}

/// A level with its sign; beside an undetermined one the bound that is known.
pub fn format_isolation_with_bound(level: &IsolationLevel, min_known: Option<&IsolationLevel>) -> (r:
    String)
    ensures
        r@ == level_text(
            level@,
            match min_known {
                Some(bound) => Some(bound@),
                None => None,
            },
        ),
{
    if let Some(bound) = min_known {
        if matches!(level, IsolationLevel::Unknown) && !matches!(bound, IsolationLevel::Unknown) {
            return joined7(
                sign_of_isolation(level),
                "/",
                sign_of_isolation(bound),
                " ",
                name_of_level(level),
                "/",
                name_of_level(bound),
            );
        }
    }
    joined3(sign_of_isolation(level), " ", name_of_level(level))
}

/// A level with its sign; of an undetermined one, in words, the bound that is
/// known.
pub fn format_isolation_summary(level: &IsolationLevel, min_known: Option<&IsolationLevel>) -> (r:
    String)
    ensures
        r@ == level_summary(
            level@,
            match min_known {
                Some(bound) => Some(bound@),
                None => None,
            },
        ),
{
    let plain = joined3(sign_of_isolation(level), " ", name_of_level(level));
    if let Some(bound) = min_known {
        if matches!(level, IsolationLevel::Unknown) && !matches!(bound, IsolationLevel::Unknown) {
            let limit = joined3(sign_of_isolation(bound), " ", name_of_level(bound));
            return joined3(&plain, " but no more than ", &limit);
        }
    }
    plain
}

/// The percentages of the report, each written out with one decimal.
#[derive(Debug)]
pub struct Percentages {
    pub control_plane: String,
    pub workload_level: String,
    pub scope_level: String,
    pub infrastructure_level: String,
    pub cluster_level: String,
    pub storage: String,
    pub network: String,
    pub workload: String,
    pub overall: String,
}

/// What the percentages say.
pub struct PercentagesView {
    pub control_plane: Seq<char>,
    pub workload_level: Seq<char>,
    pub scope_level: Seq<char>,
    pub infrastructure_level: Seq<char>,
    pub cluster_level: Seq<char>,
    pub storage: Seq<char>,
    pub network: Seq<char>,
    pub workload: Seq<char>,
    pub overall: Seq<char>,
}

impl View for Percentages {
    type V = PercentagesView;

    open spec fn view(&self) -> PercentagesView {
        PercentagesView {
            control_plane: self.control_plane@,
            workload_level: self.workload_level@,
            scope_level: self.scope_level@,
            infrastructure_level: self.infrastructure_level@,
            cluster_level: self.cluster_level@,
            storage: self.storage@,
            network: self.network@,
            workload: self.workload@,
            overall: self.overall@,
        }
    }
}

/// What a table of strings says.
pub open spec fn row_texts(rows: Seq<Vec<String>>) -> Seq<Seq<Seq<char>>> {
    Seq::new(rows.len(), |i: int| texts(rows[i]@))
}

/// The row between two sections.
pub open spec fn separator_row() -> Seq<Seq<char>> {
    seq!["─────────────"@, "─────────────────"@, "─────────────────"@]
}

/// The rows of a section, below those of the sections before it.
pub open spec fn section_rows(
    before: Seq<Seq<Seq<char>>>,
    system: Seq<char>,
    section: Option<SectionView>,
    percentage: Seq<char>,
) -> Seq<Seq<Seq<char>>> {
    match section {
        None => before,
        Some(section) => before + (if before.len() > 0 {
            seq![separator_row()]
        } else {
            seq![]
        }) + seq![
            seq![system, "Isolation"@, level_text(section.isolation, section.min_known)],
            seq![""@, "Autonomy"@, ratio_text(section.ratio, percentage)],
        ],
    }
}

/// The rows on the categories of the control plane.
pub open spec fn category_rows(
    levels: Option<ControlPlaneAutonomyLevels>,
    percentages: PercentagesView,
) -> Seq<Seq<Seq<char>>> {
    match levels {
        None => seq![],
        Some(levels) => seq![
            seq![
                ""@,
                "  ├─ Workload"@,
                ratio_text(levels.workload, percentages.workload_level),
            ],
            seq![""@, "  ├─ Scope"@, ratio_text(levels.scope, percentages.scope_level)],
            seq![
                ""@,
                "  ├─ Infrastructure"@,
                ratio_text(levels.infrastructure, percentages.infrastructure_level),
            ],
            seq![""@, "  └─ Cluster"@, ratio_text(levels.cluster, percentages.cluster_level)],
        ],
    }
}

/// The rows of the report, without the heading.
pub open spec fn report_rows(report: MultitenancyView, percentages: PercentagesView) -> Seq<
    Seq<Seq<char>>,
> {
    let first = section_rows(
        seq![],
        "Control Plane"@,
        report.control_plane,
        percentages.control_plane,
    ) + if report.control_plane is Some {
        category_rows(report.levels, percentages)
    } else {
        seq![]
    };
    let second = section_rows(first, "Storage"@, report.storage, percentages.storage);
    let third = section_rows(second, "Network"@, report.network, percentages.network);
    section_rows(third, "Workload"@, report.workload, percentages.workload)
}

/// The text of a table with rounded corners, its first row centred and the
/// others aligned to the left.
pub uninterp spec fn rounded_table(rows: Seq<Seq<Seq<char>>>) -> Seq<char>;

/// `tabled::Table`, made by `tabled::builder::Builder::from` of the rows, styled
/// with `Style::rounded`, the first row centred and the rest aligned to the
/// left, and written with its `Display`. The text depends on the rows alone;
/// how the cells are padded and framed is not stated.
#[verifier::external_body]
fn draw_table(rows: Vec<Vec<String>>) -> (r: String)
    requires
        rows.len() > 1,
    ensures
        r@ == rounded_table(row_texts(rows@)),
{
    let first = tabled::settings::object::Rows::first();
    let others = tabled::settings::object::Rows::new(1..);
    let centred = tabled::settings::Alignment::center();
    let left = tabled::settings::Alignment::left();
    tabled::builder::Builder::from(rows)
        .build()
        .with(tabled::settings::Style::rounded())
        .with(tabled::settings::Modify::new(first).with(centred))
        .with(tabled::settings::Modify::new(others).with(left))
        .to_string()
}

/// The head of the report.
pub open spec fn report_title() -> Seq<char> {
    "\n📊 Multi-Tenancy Assessment Report\n══════════════════════════════════\n\n"@
}

/// The report around a table that was drawn: the title, the table, the summary.
pub open spec fn report_around(
    report: MultitenancyView,
    percentages: PercentagesView,
    table: Seq<char>,
) -> Seq<char> {
    let overall = AutonomyRatio {
        allowed: report.allowed() as usize,
        total: report.total() as usize,
    };
    report_title() + table + "\n📋 Summary:\n   Overall Isolation: "@ + level_summary(
        report.isolation(),
        report.known_isolation(),
    ) + "\n   Overall Autonomy:  "@ + ratio_text(overall, percentages.overall) + "\n"@
}

/// The heading of the table.
pub open spec fn table_heading() -> Seq<Seq<char>> {
    seq!["System"@, "Property"@, "Value"@]
}

/// The whole report as text; where nothing was assessed, that.
pub open spec fn report_text(report: MultitenancyView, percentages: PercentagesView) -> Seq<char> {
    let rows = report_rows(report, percentages);
    if rows.len() == 0 {
        report_title() + "No assessments were run.\n"@
    } else {
        report_around(report, percentages, rounded_table(seq![table_heading()] + rows))
    }
}

/// A row of the table.
fn row(system: &str, property: &str, value: String) -> (r: Vec<String>)
    ensures
        texts(r@) == seq![system@, property@, value@],
{
    let cells = vec![string_from(system), string_from(property), value];
    assert(texts(cells@) =~= seq![system@, property@, value@]);
    cells
}

/// Adds a row.
fn push_row(rows: &mut Vec<Vec<String>>, cells: Vec<String>)
    ensures
        row_texts(final(rows)@) == row_texts(old(rows)@).push(texts(cells@)),
{
    let ghost before = row_texts(rows@);
    let ghost said = texts(cells@);
    rows.push(cells);
    assert(row_texts(rows@) =~= before.push(said));
}

/// Adds the rows of a section.
fn add_section<R: AssessableResource>(
    rows: &mut Vec<Vec<String>>,
    system: &str,
    report: &Option<SubsystemReport<R>>,
    percentage: &str,
)
    ensures
        row_texts(final(rows)@) == section_rows(
            row_texts(old(rows)@),
            system@,
            section_of(*report),
            percentage@,
        ),
{
    let ghost before = row_texts(rows@);
    let report = match report {
        Some(report) => report,
        None => {
            return ;
        },
    };
    if rows.len() > 0 {
        push_row(
            rows,
            row("─────────────", "─────────────────", string_from("─────────────────")),
        );
    }
    let min_known = report.min_known_isolation();
    let level = format_isolation_with_bound(&report.isolation_level, min_known.as_ref());
    push_row(rows, row(system, "Isolation", level));
    push_row(
        rows,
        row("", "Autonomy", format_ratio_with_icon(&report.autonomy_ratio, percentage)),
    );
    assert(row_texts(rows@) =~= section_rows(
        before,
        system@,
        section_of(Some(*report)),
        percentage@,
    ));
}

/// Adds the rows on the categories of the control plane.
fn add_categories(
    rows: &mut Vec<Vec<String>>,
    levels: &Option<ControlPlaneAutonomyLevels>,
    percentages: &Percentages,
)
    ensures
        row_texts(final(rows)@) == row_texts(old(rows)@) + category_rows(*levels, percentages@),
{
    let ghost before = row_texts(rows@);
    if let Some(levels) = levels {
        push_row(
            rows,
            row(
                "",
                "  ├─ Workload",
                format_ratio_with_icon(&levels.workload, &percentages.workload_level),
            ),
        );
        push_row(
            rows,
            row(
                "",
                "  ├─ Scope",
                format_ratio_with_icon(&levels.scope, &percentages.scope_level),
            ),
        );
        push_row(
            rows,
            row(
                "",
                "  ├─ Infrastructure",
                format_ratio_with_icon(&levels.infrastructure, &percentages.infrastructure_level),
            ),
        );
        push_row(
            rows,
            row(
                "",
                "  └─ Cluster",
                format_ratio_with_icon(&levels.cluster, &percentages.cluster_level),
            ),
        );
    }
    assert(row_texts(rows@) =~= before + category_rows(*levels, percentages@));
}

impl<S: AssessableResource, W: AssessableResource> MultitenancyReport<S, W> {
    /// The rows of the report, without the heading.
    pub fn rows(&self, percentages: &Percentages) -> (r: Vec<Vec<String>>)
        ensures
            row_texts(r@) == report_rows(self@, percentages@),
    {
        let mut rows: Vec<Vec<String>> = Vec::new();
        assert(row_texts(rows@) =~= seq![]);
        add_section(&mut rows, "Control Plane", &self.control_plane, &percentages.control_plane);
        let ghost first = row_texts(rows@);
        if self.control_plane.is_some() {
            add_categories(&mut rows, &self.control_plane_autonomy_levels, percentages);
        } else {
            assert(first + seq![] =~= first);
        }
        add_section(&mut rows, "Storage", &self.storage, &percentages.storage);
        add_section(&mut rows, "Network", &self.network, &percentages.network);
        add_section(&mut rows, "Workload", &self.workload, &percentages.workload);
        rows
    }

    /// The report around a table that was drawn.
    pub fn around(&self, percentages: &Percentages, table: &str) -> (r: String)
        requires
            self@.allowed() <= usize::MAX,
            self@.total() <= usize::MAX,
        ensures
            r@ == report_around(self@, percentages@, table@),
    {
        let isolation = self.overall_isolation();
        let min_known = self.min_known_isolation();
        let ratio = self.overall_autonomy_ratio();
        joined7(
            "\n📊 Multi-Tenancy Assessment Report\n══════════════════════════════════\n\n",
            table,
            "\n📋 Summary:\n   Overall Isolation: ",
            &format_isolation_summary(&isolation, min_known.as_ref()),
            "\n   Overall Autonomy:  ",
            &format_ratio_with_icon(&ratio, &percentages.overall),
            "\n",
        )
    }

    /// The whole report as text.
    pub fn render(&self, percentages: &Percentages) -> (r: String)
        requires
            self@.allowed() <= usize::MAX,
            self@.total() <= usize::MAX,
        ensures
            r@ == report_text(self@, percentages@),
    {
        let mut rows = self.rows(percentages);
        if rows.len() == 0 {
            return joined(
                "\n📊 Multi-Tenancy Assessment Report\n══════════════════════════════════\n\n",
                "No assessments were run.\n",
            );
        }
        let mut whole: Vec<Vec<String>> = Vec::new();
        assert(row_texts(whole@) =~= seq![]);
        push_row(&mut whole, row("System", "Property", string_from("Value")));
        let ghost body = row_texts(rows@);
        let ghost head = row_texts(whole@);
        whole.append(&mut rows);
        assert(row_texts(whole@) =~= head + body);
        assert(head =~= seq![table_heading()]);
        let table = draw_table(whole);
        self.around(percentages, &table)
    }
}

/// The report's level is as low as that of any subsystem in it.
pub proof fn no_subsystem_is_below_the_report(report: MultitenancyView, i: int)
    requires
        0 <= i < report.levels_seen().len(),
    ensures
        report.isolation().rank() <= report.levels_seen()[i].rank(),
{
    crate::isolation::overall_level_is_the_first_minimum(report.levels_seen());
}

}
