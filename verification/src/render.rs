//! The report on a subsystem as a tree of styled lines.

use crate::assessment::{
    AssessableOperation, AssessableResource, AutonomyRatio, OperationAssessment, OperationView,
};
use crate::control_plane::experiment::pair_views;
use crate::isolation::{IsolationLevel, IsolationView};
use crate::report::{
    allowed_in, count_allowed, ReportView, ResourceAssessment, ResourceView, SubsystemReport,
};
use crate::text::{joined, joined3, string_from, text_at_most, text_le, texts};
use crate::wrap::{wrap_text_lines, wrapped, WrapView};
use vstd::prelude::*;
use vstd::string::*;

verus! {

/// How a piece of text is shown.
#[derive(Debug, Clone, Copy, PartialEq, Eq, Structural)]
pub enum Style {
    Plain,
    Bold,
    Dimmed,
    Blue,
    Cyan,
    Green,
    Yellow,
    YellowBold,
    Red,
}

/// A piece of text with its style.
#[derive(Debug)]
pub struct Span {
    pub text: String,
    pub style: Style,
}

/// What a piece of text says.
pub struct SpanView {
    pub text: Seq<char>,
    pub style: Style,
}

impl View for Span {
    type V = SpanView;

    open spec fn view(&self) -> SpanView {
        SpanView { text: self.text@, style: self.style }
    }
}

/// What a line says.
pub open spec fn span_views(line: Seq<Span>) -> Seq<SpanView> {
    Seq::new(line.len(), |i: int| line[i]@)
}

/// What a list of lines says.
pub open spec fn line_views(lines: Seq<Vec<Span>>) -> Seq<Seq<SpanView>> {
    Seq::new(lines.len(), |i: int| span_views(lines[i]@))
}

/// A piece of text in the given style.
pub open spec fn styled(text: Seq<char>, style: Style) -> SpanView {
    SpanView { text, style }
}

/// A piece of text in the given style.
fn span(text: &str, style: Style) -> (r: Span)
    ensures
        r@ == styled(text@, style),
{
    Span { text: string_from(text), style }
}

/// The sign for an isolation level of a resource or a subsystem.
pub open spec fn isolation_sign(level: IsolationView) -> Seq<char> {
    match level {
        IsolationView::Hard => "✅"@,
        IsolationView::Soft(_) => "🟠"@,
        IsolationView::NoIsolation => "❌"@,
        IsolationView::Unknown => "❓"@,
    }
}

/// The sign for an isolation level of a resource or a subsystem.
pub fn sign_of_isolation(level: &IsolationLevel) -> (r: &'static str)
    ensures
        r@ == isolation_sign(level@),
{
    match level {
        IsolationLevel::Hard => "✅",
        IsolationLevel::Soft(_) => "🟠",
        IsolationLevel::NoIsolation => "❌",
        IsolationLevel::Unknown => "❓",
    }
}

/// The sign for an autonomy ratio: everything allowed, at least half, something,
/// nothing.
pub open spec fn ratio_sign(ratio: AutonomyRatio) -> Seq<char> {
    if ratio.total > 0 && ratio.allowed == ratio.total {
        "✅"@
    } else if ratio.total > 0 && 2 * ratio.allowed >= ratio.total {
        "🟡"@
    } else if ratio.allowed > 0 {
        "🟠"@
    } else {
        "❌"@
    }
}

/// The sign for an autonomy ratio.
pub fn sign_of_ratio(ratio: &AutonomyRatio) -> (r: &'static str)
    ensures
        r@ == ratio_sign(*ratio),
{
    if ratio.is_perfect() {
        "✅"
    } else if ratio.is_half() {
        "🟡"
    } else if ratio.allowed > 0 {
        "🟠"
    } else {
        "❌"
    }
}

/// The sign for an operation's isolation level.
pub open spec fn operation_sign(level: IsolationView) -> Seq<char> {
    match level {
        IsolationView::Hard => "🟢"@,
        IsolationView::Soft(_) => "🟠"@,
        IsolationView::NoIsolation => "⚠️"@,
        IsolationView::Unknown => "❓"@,
    }
}

/// The sign for an operation's autonomy.
pub open spec fn autonomy_sign(autonomy: bool) -> Seq<char> {
    if autonomy {
        "🟢"@
    } else {
        "🔴"@
    }
}

/// An operation's assessment in one line.
pub open spec fn operation_spans(assessment: OperationView) -> Seq<SpanView> {
    seq![
        styled(operation_sign(assessment.isolation), Style::Plain),
        styled("Isolation"@, Style::Dimmed),
        styled("  "@ + autonomy_sign(assessment.autonomy), Style::Plain),
        styled("Authorization"@, Style::Dimmed),
    ]
}

/// An operation's assessment in one line.
pub fn render_operation(assessment: &OperationAssessment) -> (r: Vec<Span>)
    ensures
        span_views(r@) == operation_spans(assessment@),
{
    let safe = match assessment.isolation {
        IsolationLevel::Hard => "🟢",
        IsolationLevel::Soft(_) => "🟠",
        IsolationLevel::NoIsolation => "⚠️",
        IsolationLevel::Unknown => "❓",
    };
    let auth = if assessment.autonomy {
        "🟢"
    } else {
        "🔴"
    };
    let spans = vec![
        span(safe, Style::Plain),
        span("Isolation", Style::Dimmed),
        span(&joined("  ", auth), Style::Plain),
        span("Authorization", Style::Dimmed),
    ];
    assert(span_views(spans@) =~= operation_spans(assessment@));
    spans
}

/// The style of the details on an operation.
pub open spec fn details_style(level: IsolationView) -> Style {
    match level {
        IsolationView::Hard => Style::Green,
        IsolationView::Soft(_) => Style::Yellow,
        IsolationView::NoIsolation => Style::Red,
        IsolationView::Unknown => Style::Dimmed,
    }
}

/// The branch of a tree before an entry.
pub open spec fn branch(last: bool) -> Seq<char> {
    if last {
        "└──"@
    } else {
        "├──"@
    }
}

/// What stands below a branch of a tree before the entries under it.
pub open spec fn under_branch(last: bool) -> Seq<char> {
    if last {
        "    "@
    } else {
        "│   "@
    }
}

/// The branch of a tree before an entry.
fn branch_of(last: bool) -> (r: &'static str)
    ensures
        r@ == branch(last),
{
    if last {
        "└──"
    } else {
        "├──"
    }
}

/// What stands below a branch of a tree before the entries under it.
fn under_branch_of(last: bool) -> (r: &'static str)
    ensures
        r@ == under_branch(last),
{
    if last {
        "    "
    } else {
        "│   "
    }
}

/// Wrapped text as lines: the prefixes dimmed, the contents in `style`.
pub open spec fn text_lines(wrap: WrapView, text: Seq<char>, style: Style) -> Seq<Seq<SpanView>> {
    Seq::new(
        wrapped(wrap, text).len(),
        |i: int|
            seq![
                styled(wrapped(wrap, text)[i].0, Style::Dimmed),
                styled(wrapped(wrap, text)[i].1, style),
            ],
    )
}

/// Adds wrapped text to the lines.
fn add_text(
    lines: &mut Vec<Vec<Span>>,
    text: &str,
    width: usize,
    first: &str,
    continuation: &str,
    style: Style,
)
    ensures
        line_views(final(lines)@) == line_views(old(lines)@) + text_lines(
            WrapView {
                max_width: width as int,
                first_prefix: first@,
                continuation_prefix: continuation@,
            },
            text@,
            style,
        ),
{
    let ghost wrap = WrapView {
        max_width: width as int,
        first_prefix: first@,
        continuation_prefix: continuation@,
    };
    let pairs = wrap_text_lines(text, width, first, continuation);
    let ghost views = pair_views(pairs@);
    let ghost before = line_views(lines@);
    let ghost whole = text_lines(wrap, text@, style);
    let mut i: usize = 0;
    assert(before + whole.take(0) =~= before);
    while i < pairs.len()
        invariant
            i <= pairs.len(),
            views == pair_views(pairs@),
            views == wrapped(wrap, text@),
            whole == text_lines(wrap, text@, style),
            line_views(lines@) == before + whole.take(i as int),
        decreases pairs.len() - i,
    {
        assert(views[i as int] == (pairs[i as int].0@, pairs[i as int].1@));
        let line = vec![span(&pairs[i].0, Style::Dimmed), span(&pairs[i].1, style)];
        assert(span_views(line@) =~= whole[i as int]);
        push_line(lines, line);
        assert(before + whole.take(i as int).push(whole[i as int]) =~= before + whole.take(i + 1));
        assert((before + whole.take(i as int)).push(whole[i as int]) =~= before + whole.take(
            i as int,
        ).push(whole[i as int]));
        i += 1;
    }
    assert(whole.take(pairs.len() as int) =~= whole);
}

/// Adds a line.
fn push_line(lines: &mut Vec<Vec<Span>>, line: Vec<Span>)
    ensures
        line_views(final(lines)@) == line_views(old(lines)@).push(span_views(line@)),
{
    let ghost before = line_views(lines@);
    let ghost said = span_views(line@);
    lines.push(line);
    assert(line_views(lines@) =~= before.push(said));
}

// ---- The order of operations -----------------------------------------------

/// The positions with one more put in its place by the labels, behind those with
/// the same label.
pub open spec fn placed(order: Seq<int>, labels: Seq<Seq<char>>, position: int) -> Seq<int>
    decreases order.len(),
{
    if order.len() == 0 || text_le(labels[order.last()], labels[position]) {
        order.push(position)
    } else {
        placed(order.drop_last(), labels, position).push(order.last())
    }
}

/// The first `n` positions in the order of their labels.
pub open spec fn label_order(labels: Seq<Seq<char>>, n: int) -> Seq<int>
    decreases n,
{
    if n <= 0 {
        seq![]
    } else {
        placed(label_order(labels, n - 1), labels, n - 1)
    }
}

/// The positions of a list of numbers.
pub open spec fn positions(order: Seq<usize>) -> Seq<int> {
    Seq::new(order.len(), |i: int| order[i] as int)
}

proof fn placed_where(order: Seq<int>, labels: Seq<Seq<char>>, position: int, at: int)
    requires
        0 <= at <= order.len(),
        at > 0 ==> text_le(labels[order[at - 1]], labels[position]),
        forall|i: int| at <= i < order.len() ==> !text_le(labels[#[trigger] order[i]], labels[position]),
    ensures
        placed(order, labels, position) == order.insert(at, position),
    decreases order.len(),
{
    if at == order.len() {
        assert(order.insert(at, position) =~= order.push(position));
    } else {
        let last = order.last();
        assert(!text_le(labels[order[order.len() - 1]], labels[position]));
        assert forall|i: int| at <= i < order.drop_last().len() implies !text_le(
            labels[#[trigger] order.drop_last()[i]],
            labels[position],
        ) by {
            assert(order.drop_last()[i] == order[i]);
        }
        placed_where(order.drop_last(), labels, position, at);
        assert(order.drop_last().insert(at, position).push(last) =~= order.insert(at, position));
    }
}

/// The positions of the labels in their order.
fn order_labels(labels: &Vec<String>) -> (r: Vec<usize>)
    ensures
        positions(r@) == label_order(texts(labels@), labels.len() as int),
        r.len() == labels.len(),
        forall|i: int| 0 <= i < r.len() ==> (#[trigger] r[i]) < labels.len(),
{
    let ghost views = texts(labels@);
    let mut order: Vec<usize> = Vec::new();
    assert(positions(order@) =~= seq![]);
    let mut n: usize = 0;
    while n < labels.len()
        invariant
            n <= labels.len(),
            views == texts(labels@),
            order.len() == n,
            forall|i: int| 0 <= i < order.len() ==> (#[trigger] order[i]) < labels.len(),
            positions(order@) == label_order(views, n as int),
        decreases labels.len() - n,
    {
        let ghost before = positions(order@);
        let mut at: usize = order.len();
        while at > 0 && !text_at_most(&labels[order[at - 1]], &labels[n])
            invariant
                at <= order.len(),
                n < labels.len(),
                order.len() == n,
                views == texts(labels@),
                before == positions(order@),
                forall|i: int| 0 <= i < order.len() ==> (#[trigger] order[i]) < labels.len(),
                forall|i: int|
                    at <= i < before.len() ==> !text_le(
                        views[#[trigger] before[i]],
                        views[n as int],
                    ),
            decreases at,
        {
            at -= 1;
            assert(before[at as int] == order[at as int]);
        }
        proof {
            if at > 0 {
                assert(before[at - 1] == order[at - 1]);
            }
            placed_where(before, views, n as int, at as int);
        }
        order.insert(at, n);
        assert(positions(order@) =~= before.insert(at as int, n as int));
        n += 1;
    }
    order
}

/// The labels come in their order: each is no greater than the next.
pub open spec fn in_order(labels: Seq<Seq<char>>, order: Seq<int>) -> bool {
    forall|i: int|
        0 <= i < order.len() - 1 ==> text_le(labels[#[trigger] order[i]], labels[order[i + 1]])
}

proof fn placing_keeps_order(order: Seq<int>, labels: Seq<Seq<char>>, position: int)
    requires
        in_order(labels, order),
    ensures
        in_order(labels, placed(order, labels, position)),
        placed(order, labels, position).len() == order.len() + 1,
        placed(order, labels, position).last() == position || order.len() > 0 && placed(
            order,
            labels,
            position,
        ).last() == order.last(),
        placed(order, labels, position).to_multiset() == order.to_multiset().insert(position),
    decreases order.len(),
{
    let after = placed(order, labels, position);
    if order.len() == 0 || text_le(labels[order.last()], labels[position]) {
        assert forall|i: int| 0 <= i < after.len() - 1 implies text_le(
            labels[#[trigger] after[i]],
            labels[after[i + 1]],
        ) by {
            assert(after[i] == order[i]);
            if i < order.len() - 1 {
                assert(after[i + 1] == order[i + 1]);
            }
        }
        order.to_multiset_ensures();
    } else {
        let front = order.drop_last();
        assert forall|i: int| 0 <= i < front.len() - 1 implies text_le(
            labels[#[trigger] front[i]],
            labels[front[i + 1]],
        ) by {
            assert(front[i] == order[i] && front[i + 1] == order[i + 1]);
        }
        placing_keeps_order(front, labels, position);
        let inner = placed(front, labels, position);
        text_order_is_total(labels[order.last()], labels[position]);
        assert forall|i: int| 0 <= i < after.len() - 1 implies text_le(
            labels[#[trigger] after[i]],
            labels[after[i + 1]],
        ) by {
            assert(after[i] == inner[i]);
            if i < inner.len() - 1 {
                assert(after[i + 1] == inner[i + 1]);
            } else {
                assert(after[i] == inner.last());
                if inner.last() != position {
                    assert(order[order.len() - 2] == front.last());
                    assert(text_le(labels[order[order.len() - 2]], labels[order[order.len() - 1]]));
                }
            }
        }
        front.to_multiset_ensures();
        inner.to_multiset_ensures();
        assert(order =~= front.push(order.last()));
        assert(order.to_multiset() =~= front.to_multiset().insert(order.last()));
        assert(after.to_multiset() =~= order.to_multiset().insert(position));
    }
}

/// The operations of a resource are shown in the order of their labels, each
/// once.
pub proof fn operations_are_shown_in_order(labels: Seq<Seq<char>>, n: int)
    requires
        0 <= n,
    ensures
        in_order(labels, label_order(labels, n)),
        label_order(labels, n).len() == n,
        forall|i: int| 0 <= i < n ==> #[trigger] label_order(labels, n).to_multiset().count(i) == 1,
    decreases n,
{
    if n > 0 {
        operations_are_shown_in_order(labels, n - 1);
        let before = label_order(labels, n - 1);
        placing_keeps_order(before, labels, n - 1);
        positions_are_below(labels, n - 1);
        assert forall|i: int| 0 <= i < n implies #[trigger] label_order(
            labels,
            n,
        ).to_multiset().count(i) == 1 by {
            if i < n - 1 {
                assert(before.to_multiset().count(i) == 1);
            } else {
                before.to_multiset_ensures();
                assert(!before.contains(n - 1));
            }
        }
    } else {
        assert(label_order(labels, n) =~= seq![]);
    }
}

proof fn positions_are_below(labels: Seq<Seq<char>>, n: int)
    ensures
        forall|i: int|
            0 <= i < label_order(labels, n).len() ==> 0 <= #[trigger] label_order(labels, n)[i] < n,
    decreases n,
{
    if n > 0 {
        positions_are_below(labels, n - 1);
        placed_holds(label_order(labels, n - 1), labels, n - 1, n);
    }
}

proof fn placed_holds(order: Seq<int>, labels: Seq<Seq<char>>, position: int, n: int)
    requires
        0 <= position < n,
        forall|i: int| 0 <= i < order.len() ==> 0 <= #[trigger] order[i] < n,
    ensures
        forall|i: int|
            0 <= i < placed(order, labels, position).len() ==> 0 <= #[trigger] placed(
                order,
                labels,
                position,
            )[i] < n,
    decreases order.len(),
{
    let after = placed(order, labels, position);
    if order.len() == 0 || text_le(labels[order.last()], labels[position]) {
        assert(after == order.push(position));
    } else {
        let front = order.drop_last();
        assert forall|i: int| 0 <= i < front.len() implies 0 <= #[trigger] front[i] < n by {
            assert(front[i] == order[i]);
        }
        placed_holds(front, labels, position, n);
        let inner = placed(front, labels, position);
        assert(after == inner.push(order[order.len() - 1]));
        assert forall|i: int| 0 <= i < after.len() implies 0 <= #[trigger] after[i] < n by {
            if i < inner.len() {
                assert(after[i] == inner[i]);
            }
        }
    }
}

/// Of two texts one is no greater than the other.
proof fn text_order_is_total(a: Seq<char>, b: Seq<char>)
    ensures
        text_le(a, b) || text_le(b, a),
    decreases a.len(),
{
    if a.len() > 0 && b.len() > 0 {
        text_order_is_total(a.skip(1), b.skip(1));
    }
}

// ---- The tree --------------------------------------------------------------

/// The first line of a report.
pub open spec fn report_head<R: AssessableResource>(report: ReportView<R>) -> Seq<SpanView> {
    seq![
        styled("⚙️  "@, Style::Plain),
        styled(report.name, Style::Bold),
        styled(" → "@ + isolation_sign(report.isolation_level), Style::Plain),
        styled("Isolation"@, Style::Dimmed),
        styled("  "@ + ratio_sign(report.autonomy_ratio), Style::Plain),
        styled("Autonomy"@, Style::Dimmed),
    ]
}

/// How a warning is wrapped: `last` says whether it is the last one, and `more`
/// whether anything follows the warnings.
pub open spec fn warning_wrap(width: int, more: bool, last: bool) -> WrapView {
    let under = under_branch(!more);
    WrapView {
        max_width: width,
        first_prefix: under + branch(last) + " ⚠️  "@,
        continuation_prefix: under + "       "@,
    }
}

/// The first `n` warnings, each below the other.
pub open spec fn warning_lines(
    width: int,
    more: bool,
    warnings: Seq<Seq<char>>,
    n: int,
) -> Seq<Seq<SpanView>>
    decreases n,
{
    if n <= 0 {
        seq![]
    } else {
        warning_lines(width, more, warnings, n - 1) + text_lines(
            warning_wrap(width, more, n == warnings.len()),
            warnings[n - 1],
            Style::Yellow,
        )
    }
}

/// The warnings under their heading; nothing where there is none.
pub open spec fn findings(width: int, more: bool, warnings: Seq<Seq<char>>) -> Seq<Seq<SpanView>> {
    if warnings.len() == 0 {
        seq![]
    } else {
        seq![
            seq![
                styled(branch(!more), Style::Dimmed),
                styled(" 📌 "@, Style::Plain),
                styled("Findings"@, Style::YellowBold),
            ],
        ] + warning_lines(width, more, warnings, warnings.len() as int)
    }
}

/// The autonomy ratio of one resource.
pub open spec fn resource_ratio<R: AssessableResource>(assessment: ResourceView<R>) -> AutonomyRatio {
    AutonomyRatio {
        allowed: allowed_in(assessment.operations) as usize,
        total: assessment.operations.len() as usize,
    }
}

/// The line of a resource.
pub open spec fn resource_head<R: AssessableResource>(
    assessment: ResourceView<R>,
    last: bool,
) -> Seq<SpanView> {
    seq![
        styled(branch(last), Style::Dimmed),
        styled(" 📦 "@, Style::Plain),
        styled(assessment.resource.text(), Style::Bold),
        styled(" → "@ + isolation_sign(assessment.overall_isolation), Style::Plain),
        styled("Isolation"@, Style::Dimmed),
        styled("  "@ + ratio_sign(resource_ratio(assessment)), Style::Plain),
        styled("Autonomy"@, Style::Dimmed),
    ]
}

/// The labels of the operations of a resource.
pub open spec fn operation_labels<O: AssessableOperation>(operations: Seq<(O, OperationView)>) -> Seq<
    Seq<char>,
> {
    Seq::new(operations.len(), |i: int| operations[i].0.text())
}

/// The lines of one operation: its own, and below it the details.
pub open spec fn operation_lines<O: AssessableOperation>(
    width: int,
    under: Seq<char>,
    entry: (O, OperationView),
    last: bool,
) -> Seq<Seq<SpanView>> {
    seq![
        seq![
            styled(under, Style::Dimmed),
            styled(branch(last), Style::Dimmed),
            styled(" "@, Style::Plain),
            styled(entry.0.text(), Style::Cyan),
            styled(" → "@, Style::Plain),
        ] + operation_spans(entry.1),
    ] + match entry.1.details {
        Some(details) => text_lines(
            WrapView {
                max_width: width,
                first_prefix: under + under_branch(last) + "└── 💬 "@,
                continuation_prefix: under + under_branch(last) + "       "@,
            },
            details,
            details_style(entry.1.isolation),
        ),
        None => seq![],
    }
}

/// The lines of the first `n` operations in the given order.
pub open spec fn operations_lines<O: AssessableOperation>(
    width: int,
    under: Seq<char>,
    operations: Seq<(O, OperationView)>,
    order: Seq<int>,
    n: int,
) -> Seq<Seq<SpanView>>
    decreases n,
{
    if n <= 0 {
        seq![]
    } else {
        operations_lines(width, under, operations, order, n - 1) + operation_lines(
            width,
            under,
            operations[order[n - 1]],
            n == order.len(),
        )
    }
}

/// The lines of one resource: its own, and below it its operations in the order
/// of their labels.
pub open spec fn resource_lines<R: AssessableResource>(
    width: int,
    assessment: ResourceView<R>,
    last: bool,
) -> Seq<Seq<SpanView>> {
    let count = assessment.operations.len() as int;
    let order = label_order(operation_labels(assessment.operations), count);
    seq![resource_head(assessment, last)] + operations_lines(
        width,
        under_branch(last),
        assessment.operations,
        order,
        count,
    )
}

/// The lines of the first `n` resources.
pub open spec fn resources_lines<R: AssessableResource>(
    width: int,
    assessments: Seq<ResourceView<R>>,
    n: int,
) -> Seq<Seq<SpanView>>
    decreases n,
{
    if n <= 0 {
        seq![]
    } else {
        resources_lines(width, assessments, n - 1) + resource_lines(
            width,
            assessments[n - 1],
            n == assessments.len(),
        )
    }
}

/// The report as a tree: its head, the warnings, and the resources.
pub open spec fn report_lines<R: AssessableResource>(width: int, report: ReportView<R>) -> Seq<
    Seq<SpanView>,
> {
    seq![report_head(report)] + findings(width, report.assessments.len() > 0, report.warnings)
        + resources_lines(width, report.assessments, report.assessments.len() as int)
}

/// Adds the warnings under their heading.
fn add_findings(lines: &mut Vec<Vec<Span>>, width: usize, more: bool, warnings: &Vec<String>)
    ensures
        line_views(final(lines)@) == line_views(old(lines)@) + findings(
            width as int,
            more,
            texts(warnings@),
        ),
{
    let ghost before = line_views(lines@);
    let ghost views = texts(warnings@);
    if warnings.len() == 0 {
        assert(before + seq![] =~= before);
        return ;
    }
    let heading = vec![
        span(branch_of(!more), Style::Dimmed),
        span(" 📌 ", Style::Plain),
        span("Findings", Style::YellowBold),
    ];
    let ghost head = seq![
        styled(branch(!more), Style::Dimmed),
        styled(" 📌 "@, Style::Plain),
        styled("Findings"@, Style::YellowBold),
    ];
    assert(span_views(heading@) =~= head);
    push_line(lines, heading);
    let under = under_branch_of(!more);
    let continuation = joined(under, "       ");
    let mut i: usize = 0;
    let ghost begun = before.push(head);
    assert(begun + warning_lines(width as int, more, views, 0) =~= begun);
    while i < warnings.len()
        invariant
            i <= warnings.len(),
            views == texts(warnings@),
            under@ == under_branch(!more),
            continuation@ == under_branch(!more) + "       "@,
            line_views(lines@) == begun + warning_lines(width as int, more, views, i as int),
        decreases warnings.len() - i,
    {
        assert(views[i as int] == warnings[i as int]@);
        let last = i == warnings.len() - 1;
        let first = joined3(under, branch_of(last), " ⚠️  ");
        add_text(lines, &warnings[i], width, &first, &continuation, Style::Yellow);
        let ghost so_far = warning_lines(width as int, more, views, i as int);
        let ghost added = text_lines(
            warning_wrap(width as int, more, i + 1 == views.len()),
            views[i as int],
            Style::Yellow,
        );
        assert((begun + so_far) + added =~= begun + (so_far + added));
        i += 1;
    }
    let ghost all = warning_lines(width as int, more, views, views.len() as int);
    assert(before.push(head) + all =~= before + (seq![head] + all));
}

/// Adds the lines of one operation.
fn add_operation<O: AssessableOperation>(
    lines: &mut Vec<Vec<Span>>,
    width: usize,
    under: &str,
    entry: &(O, OperationAssessment),
    last: bool,
)
    ensures
        line_views(final(lines)@) == line_views(old(lines)@) + operation_lines(
            width as int,
            under@,
            (entry.0, entry.1@),
            last,
        ),
{
    let ghost before = line_views(lines@);
    let mut line = vec![
        span(under, Style::Dimmed),
        span(branch_of(last), Style::Dimmed),
        span(" ", Style::Plain),
        span(&entry.0.label(), Style::Cyan),
        span(" → ", Style::Plain),
    ];
    let ghost begun = span_views(line@);
    let mut rest = render_operation(&entry.1);
    let ghost shown = span_views(rest@);
    line.append(&mut rest);
    let ghost head = seq![
        styled(under@, Style::Dimmed),
        styled(branch(last), Style::Dimmed),
        styled(" "@, Style::Plain),
        styled(entry.0.text(), Style::Cyan),
        styled(" → "@, Style::Plain),
    ] + operation_spans(entry.1@);
    assert(begun =~= seq![
        styled(under@, Style::Dimmed),
        styled(branch(last), Style::Dimmed),
        styled(" "@, Style::Plain),
        styled(entry.0.text(), Style::Cyan),
        styled(" → "@, Style::Plain),
    ]);
    assert(span_views(line@) =~= begun + shown);
    push_line(lines, line);
    if let Some(details) = &entry.1.details {
        let below = under_branch_of(last);
        let first = joined3(under, below, "└── 💬 ");
        let continuation = joined3(under, below, "       ");
        let style = match entry.1.isolation {
            IsolationLevel::Hard => Style::Green,
            IsolationLevel::Soft(_) => Style::Yellow,
            IsolationLevel::NoIsolation => Style::Red,
            IsolationLevel::Unknown => Style::Dimmed,
        };
        add_text(lines, details, width, &first, &continuation, style);
        let ghost added = text_lines(
            WrapView {
                max_width: width as int,
                first_prefix: under@ + under_branch(last) + "└── 💬 "@,
                continuation_prefix: under@ + under_branch(last) + "       "@,
            },
            details@,
            details_style(entry.1@.isolation),
        );
        assert(before.push(head) + added =~= before + (seq![head] + added));
    } else {
        assert(before.push(head) =~= before + (seq![head] + seq![]));
    }
}

/// Adds the lines of one resource.
fn add_resource<R: AssessableResource>(
    lines: &mut Vec<Vec<Span>>,
    width: usize,
    assessment: &ResourceAssessment<R>,
    last: bool,
)
    ensures
        line_views(final(lines)@) == line_views(old(lines)@) + resource_lines(
            width as int,
            assessment@,
            last,
        ),
{
    let ghost before = line_views(lines@);
    let ghost operations = assessment@.operations;
    let ratio = AutonomyRatio {
        allowed: count_allowed(&assessment.operations),
        total: assessment.operations.len(),
    };
    assert(ratio == resource_ratio(assessment@));
    let line = vec![
        span(branch_of(last), Style::Dimmed),
        span(" 📦 ", Style::Plain),
        span(&assessment.resource.label(), Style::Bold),
        span(&joined(" → ", sign_of_isolation(&assessment.overall_isolation)), Style::Plain),
        span("Isolation", Style::Dimmed),
        span(&joined("  ", sign_of_ratio(&ratio)), Style::Plain),
        span("Autonomy", Style::Dimmed),
    ];
    let ghost head = resource_head(assessment@, last);
    assert(span_views(line@) =~= head);
    push_line(lines, line);
    let mut labels: Vec<String> = Vec::new();
    let mut i: usize = 0;
    while i < assessment.operations.len()
        invariant
            i <= assessment.operations.len(),
            labels.len() == i,
            operations == assessment@.operations,
            forall|k: int| 0 <= k < i ==> (#[trigger] labels[k])@ == operations[k].0.text(),
        decreases assessment.operations.len() - i,
    {
        labels.push(assessment.operations[i].0.label());
        i += 1;
    }
    assert(texts(labels@) =~= operation_labels(operations));
    let order = order_labels(&labels);
    let ghost places = positions(order@);
    let under = under_branch_of(last);
    let ghost begun = before.push(head);
    let mut j: usize = 0;
    assert(begun + seq![] =~= begun);
    while j < order.len()
        invariant
            j <= order.len(),
            order.len() == assessment.operations.len(),
            forall|k: int| 0 <= k < order.len() ==> (#[trigger] order[k]) < order.len(),
            places == positions(order@),
            operations == assessment@.operations,
            under@ == under_branch(last),
            line_views(lines@) == begun + operations_lines(
                width as int,
                under_branch(last),
                operations,
                places,
                j as int,
            ),
        decreases order.len() - j,
    {
        let place: usize = order[j];
        assert(places[j as int] == place);
        let entry = &assessment.operations[place];
        assert(operations[place as int] == (entry.0, entry.1@));
        let ghost so_far = operations_lines(
            width as int,
            under_branch(last),
            operations,
            places,
            j as int,
        );
        let ghost added = operation_lines(
            width as int,
            under_branch(last),
            operations[place as int],
            j + 1 == places.len(),
        );
        add_operation(lines, width, under, entry, j == order.len() - 1);
        assert((begun + so_far) + added =~= begun + (so_far + added));
        j += 1;
    }
    let ghost all = operations_lines(
        width as int,
        under_branch(last),
        operations,
        places,
        places.len() as int,
    );
    assert(before.push(head) + all =~= before + (seq![head] + all));
}

impl<R: AssessableResource> SubsystemReport<R> {
    /// The report as a tree of styled lines for a terminal of the given width.
    pub fn render(&self, width: usize) -> (r: Vec<Vec<Span>>)
        ensures
            line_views(r@) == report_lines(width as int, self@),
    {
        let head = vec![
            span("⚙️  ", Style::Plain),
            span(&self.name, Style::Bold),
            span(&joined(" → ", sign_of_isolation(&self.isolation_level)), Style::Plain),
            span("Isolation", Style::Dimmed),
            span(&joined("  ", sign_of_ratio(&self.autonomy_ratio)), Style::Plain),
            span("Autonomy", Style::Dimmed),
        ];
        assert(span_views(head@) =~= report_head(self@));
        let mut lines: Vec<Vec<Span>> = Vec::new();
        lines.push(head);
        let ghost first = seq![report_head(self@)];
        assert(line_views(lines@) =~= first);
        let total: usize = self.assessments.len();
        add_findings(&mut lines, width, total > 0, &self.warnings);
        let ghost begun = first + findings(width as int, total > 0, self@.warnings);
        let ghost views = self@.assessments;
        let mut i: usize = 0;
        assert(begun + seq![] =~= begun);
        while i < total
            invariant
                i <= total,
                total == self.assessments.len(),
                views == self@.assessments,
                line_views(lines@) == begun + resources_lines(width as int, views, i as int),
            decreases total - i,
        {
            assert(views[i as int] == self.assessments[i as int]@);
            let ghost so_far = resources_lines(width as int, views, i as int);
            let ghost added = resource_lines(
                width as int,
                views[i as int],
                i + 1 == views.len(),
            );
            add_resource(&mut lines, width, &self.assessments[i], i == total - 1);
            assert((begun + so_far) + added =~= begun + (so_far + added));
            i += 1;
        }
        lines
    }
}

/// The width to wrap at in a terminal of the given width: a margin of two is
/// left, and eighty is taken where the width is not known.
pub open spec fn width_for(columns: Option<u16>) -> int {
    match columns {
        Some(columns) => columns - 2,
        None => 80,
    }
}

/// The width to wrap at in a terminal of the given width.
pub fn get_terminal_width(columns: Option<u16>) -> (r: usize)
    requires
        columns matches Some(c) ==> c >= 2,
    ensures
        r == width_for(columns),
{
    match columns {
        Some(columns) => columns as usize - 2,
        None => 80,
    }
}

}
