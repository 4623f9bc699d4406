//! The outcome of a fairness assessment: how it is graded and reported.

use crate::fairness::measure::{not_measured, Measure};
use crate::render::{line_views, span_views, styled, Span, SpanView, Style};
use crate::text::{decimal, decimal_of, joined3, joined4, joined5, joined7, string_from};
use vstd::prelude::*;
use vstd::string::*;

verus! {

/// Qualitative fairness levels.
#[derive(Debug, Clone, Copy, PartialEq, Eq, Structural)]
pub enum FairnessLevel {
    /// A phase produced no samples; there is no measurement to grade.
    Unknown,
    /// At most 5% degradation.
    Excellent,
    /// At most 15% degradation.
    Good,
    /// At most 30% degradation.
    Moderate,
    /// At most 50% degradation.
    Poor,
    /// More than 50% degradation.
    Critical,
}

/// 1.05: no more than this is excellent.
pub const EXCELLENT_BOUND: u64 = 0x3FF0_CCCC_CCCC_CCCD;

/// 1.15: no more than this is good.
pub const GOOD_BOUND: u64 = 0x3FF2_6666_6666_6666;

/// 1.30: no more than this is moderate.
pub const MODERATE_BOUND: u64 = 0x3FF4_CCCC_CCCC_CCCD;

/// 1.50: no more than this is poor, and more is critical.
pub const POOR_BOUND: u64 = 0x3FF8_0000_0000_0000;

/// 0.95: a tenant that keeps less of its rate was throttled.
pub const SUSTAINED_BOUND: u64 = 0x3FEE_6666_6666_6666;

/// 0.90: below this share of its configured rate, the intruder did not apply the
/// load that the experiment specifies, and the run should not be compared with
/// one that did.
pub const INTRUDER_LOAD_THRESHOLD: u64 = 0x3FEC_CCCC_CCCC_CCCD;

/// The level of a degradation. What is no finite number was not measured.
pub open spec fn level_of(degradation: Measure) -> FairnessLevel {
    if !degradation.finite() {
        FairnessLevel::Unknown
    } else if degradation.rank() <= EXCELLENT_BOUND {
        FairnessLevel::Excellent
    } else if degradation.rank() <= GOOD_BOUND {
        FairnessLevel::Good
    } else if degradation.rank() <= MODERATE_BOUND {
        FairnessLevel::Moderate
    } else if degradation.rank() <= POOR_BOUND {
        FairnessLevel::Poor
    } else {
        FairnessLevel::Critical
    }
}

impl FairnessLevel {
    /// How bad a level is: the greater, the worse.
    pub open spec fn badness(self) -> int {
        match self {
            FairnessLevel::Unknown => 0,
            FairnessLevel::Excellent => 1,
            FairnessLevel::Good => 2,
            FairnessLevel::Moderate => 3,
            FairnessLevel::Poor => 4,
            FairnessLevel::Critical => 5,
        }
    }

    /// How a level is written.
    pub open spec fn text(self) -> Seq<char> {
        match self {
            FairnessLevel::Unknown => "Unknown (no data)"@,
            FairnessLevel::Excellent => "Excellent (≤5%)"@,
            FairnessLevel::Good => "Good (≤15%)"@,
            FairnessLevel::Moderate => "Moderate (≤30%)"@,
            FairnessLevel::Poor => "Poor (≤50%)"@,
            FairnessLevel::Critical => "Critical (>50%)"@,
        }
    }

    /// The sign for a level.
    pub open spec fn sign(self) -> Seq<char> {
        match self {
            FairnessLevel::Unknown => "❔"@,
            FairnessLevel::Excellent | FairnessLevel::Good => "🟢"@,
            FairnessLevel::Moderate => "🟡"@,
            FairnessLevel::Poor => "🟠"@,
            FairnessLevel::Critical => "🔴"@,
        }
    }

    /// How a level is written.
    pub fn label(&self) -> (r: &'static str)
        ensures
            r@ == self.text(),
    {
        match self {
            FairnessLevel::Unknown => "Unknown (no data)",
            FairnessLevel::Excellent => "Excellent (≤5%)",
            FairnessLevel::Good => "Good (≤15%)",
            FairnessLevel::Moderate => "Moderate (≤30%)",
            FairnessLevel::Poor => "Poor (≤50%)",
            FairnessLevel::Critical => "Critical (>50%)",
        }
    }

    /// The sign for a level.
    pub fn icon(&self) -> (r: &'static str)
        ensures
            r@ == self.sign(),
    {
        match self {
            FairnessLevel::Unknown => "❔",
            FairnessLevel::Excellent | FairnessLevel::Good => "🟢",
            FairnessLevel::Moderate => "🟡",
            FairnessLevel::Poor => "🟠",
            FairnessLevel::Critical => "🔴",
        }
    }
}

/// More degradation is never graded better, and only what was not measured is
/// left ungraded.
pub proof fn more_degradation_is_graded_no_better(a: Measure, b: Measure)
    ensures
        a.finite() && b.finite() && a.at_most(b) ==> level_of(a).badness() <= level_of(b).badness(),
        level_of(a) == FairnessLevel::Unknown <==> !a.finite(),
{
}

// ---- Figures ---------------------------------------------------------------

/// A tenant's figures in a phase, written out: the latency and its deviation in
/// milliseconds and the share of errors in percent with two decimals, the rate
/// per second with one, and the bandwidth in Mbps with one, where it is known.
#[derive(Debug)]
pub struct TenantFigures {
    pub latency: String,
    pub deviation: String,
    pub operations: u64,
    pub rate: String,
    pub errors: String,
    pub bandwidth: Option<String>,
}

/// What a tenant's figures say.
pub struct TenantView {
    pub latency: Seq<char>,
    pub deviation: Seq<char>,
    pub operations: nat,
    pub rate: Seq<char>,
    pub errors: Seq<char>,
    pub bandwidth: Option<Seq<char>>,
}

impl View for TenantFigures {
    type V = TenantView;

    open spec fn view(&self) -> TenantView {
        TenantView {
            latency: self.latency@,
            deviation: self.deviation@,
            operations: self.operations as nat,
            rate: self.rate@,
            errors: self.errors@,
            bandwidth: match self.bandwidth {
                Some(text) => Some(text@),
                None => None,
            },
        }
    }
}

impl Clone for TenantFigures {
    fn clone(&self) -> (r: TenantFigures)
        ensures
            r@ == self@,
    {
        TenantFigures {
            latency: self.latency.clone(),
            deviation: self.deviation.clone(),
            operations: self.operations,
            rate: self.rate.clone(),
            errors: self.errors.clone(),
            bandwidth: match &self.bandwidth {
                Some(text) => Some(text.clone()),
                None => None,
            },
        }
    }
}

/// The figures of both tenants in a phase.
#[derive(Debug)]
pub struct PhaseFigures {
    pub tenant1: TenantFigures,
    pub tenant2: TenantFigures,
}

/// What the figures of a phase say.
pub struct PhaseView {
    pub tenant1: TenantView,
    pub tenant2: TenantView,
}

impl View for PhaseFigures {
    type V = PhaseView;

    open spec fn view(&self) -> PhaseView {
        PhaseView { tenant1: self.tenant1@, tenant2: self.tenant2@ }
    }
}

impl Clone for PhaseFigures {
    fn clone(&self) -> (r: PhaseFigures)
        ensures
            r@ == self@,
    {
        PhaseFigures { tenant1: self.tenant1.clone(), tenant2: self.tenant2.clone() }
    }
}

/// Complete result of a fairness assessment.
#[derive(Debug)]
pub struct FairnessResult {
    /// Name of the subsystem tested.
    pub subsystem: String,
    /// Baseline phase results.
    pub baseline: PhaseFigures,
    /// Unbalanced phase results.
    pub unbalanced: PhaseFigures,
    /// Latency degradation ratio: 1.0 is no change, 2.0 is doubled.
    pub latency_degradation: Measure,
    /// The degradation with two decimals.
    pub degradation_text: String,
    /// The share of its rate that the regular tenant kept.
    pub throughput_retention: Measure,
    /// That share in percent, with one decimal.
    pub retention_text: String,
    /// The malicious tenant's rate in the baseline.
    pub baseline_load: Measure,
    /// How many times that rate it reached in the unbalanced phase, with one
    /// decimal.
    pub escalation_text: String,
}

/// What a result says.
pub struct ResultView {
    pub subsystem: Seq<char>,
    pub baseline: PhaseView,
    pub unbalanced: PhaseView,
    pub latency_degradation: Measure,
    pub degradation_text: Seq<char>,
    pub throughput_retention: Measure,
    pub retention_text: Seq<char>,
    pub baseline_load: Measure,
    pub escalation_text: Seq<char>,
}

impl View for FairnessResult {
    type V = ResultView;

    open spec fn view(&self) -> ResultView {
        ResultView {
            subsystem: self.subsystem@,
            baseline: self.baseline@,
            unbalanced: self.unbalanced@,
            latency_degradation: self.latency_degradation,
            degradation_text: self.degradation_text@,
            throughput_retention: self.throughput_retention,
            retention_text: self.retention_text@,
            baseline_load: self.baseline_load,
            escalation_text: self.escalation_text@,
        }
    }
}

/// One.
pub open spec fn one() -> Measure {
    Measure { bits: 0x3FF0_0000_0000_0000 }
}

/// The degradation of two latencies whose quotient is given: where either phase
/// has no usable latency, nothing was measured.
pub open spec fn degradation_of(baseline: Measure, unbalanced: Measure, quotient: Measure) -> Measure {
    if baseline.at_most(Measure { bits: 0 }) || unbalanced.at_most(Measure { bits: 0 }) {
        not_measured()
    } else {
        quotient
    }
}

/// The share of its rate that a tenant kept, where the quotient of the two rates
/// is given: all of it where it had none, and never less than nothing.
pub open spec fn retention_of(baseline: Measure, quotient: Measure) -> Measure {
    if baseline.at_most(Measure { bits: 0 }) {
        one()
    } else if (Measure { bits: 0 }).less(quotient) {
        quotient
    } else {
        Measure { bits: 0 }
    }
}

/// The share of its target that the intruder delivered, where the quotient of
/// the two rates is given: without a target there is none.
pub open spec fn load_ratio_of(target: Measure, quotient: Measure) -> Measure {
    if target.at_most(Measure { bits: 0 }) {
        not_measured()
    } else {
        quotient
    }
}

/// The regular tenant did not keep its rate, so that the degradation is a lower
/// bound.
pub open spec fn throttled(retention: Measure) -> bool {
    retention.less(Measure { bits: SUSTAINED_BOUND })
}

/// The intruder delivered much less than its configured rate.
pub open spec fn underloaded(load_ratio: Measure) -> bool {
    load_ratio.less(Measure { bits: INTRUDER_LOAD_THRESHOLD })
}

impl FairnessResult {
    /// The degradation from the baseline to the unbalanced phase, where the
    /// quotient of the two latencies is given. Nothing where either phase
    /// produced no usable latency, so that an absent measurement cannot be
    /// mistaken for an excellent one.
    pub fn calculate_degradation(baseline: Measure, unbalanced: Measure, quotient: Measure) -> (r:
        Measure)
        ensures
            r == degradation_of(baseline, unbalanced, quotient),
    {
        if baseline.is_at_most(Measure::zero()) || unbalanced.is_at_most(Measure::zero()) {
            Measure::unmeasured()
        } else {
            quotient
        }
    }

    /// Fraction of the baseline rate that the regular tenant sustained under
    /// stress, where the quotient of the two rates is given.
    pub fn calculate_throughput_retention(baseline: Measure, quotient: Measure) -> (r: Measure)
        ensures
            r == retention_of(baseline, quotient),
    {
        if baseline.is_at_most(Measure::zero()) {
            Measure::from_bits(0x3FF0_0000_0000_0000)
        } else if Measure::zero().is_below(quotient) {
            quotient
        } else {
            Measure::zero()
        }
    }

    /// Whether this result rests on actual measurements in both phases.
    pub fn is_valid(&self) -> (r: bool)
        ensures
            r == self.latency_degradation.finite(),
    {
        self.latency_degradation.is_finite()
    }

    /// The qualitative fairness level.
    pub fn fairness_level(&self) -> (r: FairnessLevel)
        ensures
            r == level_of(self.latency_degradation),
    {
        let ratio = self.latency_degradation;
        if !ratio.is_finite() {
            FairnessLevel::Unknown
        } else if ratio.is_at_most(Measure::from_bits(EXCELLENT_BOUND)) {
            FairnessLevel::Excellent
        } else if ratio.is_at_most(Measure::from_bits(GOOD_BOUND)) {
            FairnessLevel::Good
        } else if ratio.is_at_most(Measure::from_bits(MODERATE_BOUND)) {
            FairnessLevel::Moderate
        } else if ratio.is_at_most(Measure::from_bits(POOR_BOUND)) {
            FairnessLevel::Poor
        } else {
            FairnessLevel::Critical
        }
    }

    /// Whether the regular tenant did not keep its rate.
    pub fn owner_throttled(&self) -> (r: bool)
        ensures
            r == throttled(self.throughput_retention),
    {
        self.throughput_retention.is_below(Measure::from_bits(SUSTAINED_BOUND))
    }
}

/// What share of its configured rate the intruder delivered, where the quotient
/// of the two rates is given. Without a target there is none, so that a missing
/// value is no pass.
pub fn intruder_load_ratio(target: Measure, quotient: Measure) -> (r: Measure)
    ensures
        r == load_ratio_of(target, quotient),
{
    if target.is_at_most(Measure::zero()) {
        Measure::unmeasured()
    } else {
        quotient
    }
}

/// Whether the intruder delivered much less than its configured rate.
pub fn intruder_underloaded(load_ratio: Measure) -> (r: bool)
    ensures
        r == underloaded(load_ratio),
{
    load_ratio.is_below(Measure::from_bits(INTRUDER_LOAD_THRESHOLD))
}

/// A phase without a usable latency is never graded: neither as excellent nor as
/// critical.
pub proof fn a_phase_without_samples_is_not_graded(
    baseline: Measure,
    unbalanced: Measure,
    quotient: Measure,
)
    requires
        baseline.at_most(Measure { bits: 0 }) || unbalanced.at_most(Measure { bits: 0 }),
    ensures
        level_of(degradation_of(baseline, unbalanced, quotient)) == FairnessLevel::Unknown,
{
}

/// A missing target never counts as an intruder that delivered too little.
pub proof fn no_target_is_no_shortfall(target: Measure, quotient: Measure)
    requires
        target.at_most(Measure { bits: 0 }),
    ensures
        !underloaded(load_ratio_of(target, quotient)),
{
}

// ---- Lines -----------------------------------------------------------------

/// A text aligned to the right in a field of the given width.
pub open spec fn right_aligned(text: Seq<char>, width: nat) -> Seq<char> {
    if text.len() >= width {
        text
    } else {
        Seq::new((width - text.len()) as nat, |i: int| ' ') + text
    }
}

/// A text aligned to the right in a field of the given width.
fn align_right(text: &str, width: usize) -> (r: String)
    ensures
        r@ == right_aligned(text@, width as nat),
{
    let length: usize = text.unicode_len();
    if length >= width {
        return string_from(text);
    }
    let mut out = String::new();
    let missing: usize = width - length;
    let mut i: usize = 0;
    while i < missing
        invariant
            i <= missing,
            out@ == Seq::new(i as nat, |k: int| ' '),
        decreases missing - i,
    {
        out.push(' ');
        assert(Seq::new((i + 1) as nat, |k: int| ' ') =~= Seq::new(i as nat, |k: int| ' ').push(' '));
        i += 1;
    }
    out.concat(text)
}

/// A line in one style.
pub open spec fn line(text: Seq<char>, style: Style) -> Seq<SpanView> {
    seq![styled(text, style)]
}

/// An empty line.
pub open spec fn empty_line() -> Seq<SpanView> {
    seq![]
}

/// A line that begins with a piece in a style of its own.
pub open spec fn marked(before: Seq<char>, mark: Seq<char>, style: Style, after: Seq<char>) -> Seq<
    SpanView,
> {
    seq![styled(before, Style::Plain), styled(mark, style), styled(after, Style::Plain)]
}

/// Adds a line in one style.
fn push_line(lines: &mut Vec<Vec<Span>>, text: String, style: Style)
    ensures
        line_views(final(lines)@) == line_views(old(lines)@).push(line(text@, style)),
{
    let ghost before = line_views(lines@);
    let ghost said = line(text@, style);
    let spans = vec![Span { text, style }];
    assert(span_views(spans@) =~= said);
    lines.push(spans);
    assert(line_views(lines@) =~= before.push(said));
}

/// Adds an empty line.
fn push_empty(lines: &mut Vec<Vec<Span>>)
    ensures
        line_views(final(lines)@) == line_views(old(lines)@).push(empty_line()),
{
    let ghost before = line_views(lines@);
    let spans: Vec<Span> = Vec::new();
    assert(span_views(spans@) =~= empty_line());
    lines.push(spans);
    assert(line_views(lines@) =~= before.push(empty_line()));
}

/// Adds a line that begins with a piece in a style of its own.
fn push_marked(lines: &mut Vec<Vec<Span>>, before: &str, mark: &str, style: Style, after: &str)
    ensures
        line_views(final(lines)@) == line_views(old(lines)@).push(
            marked(before@, mark@, style, after@),
        ),
{
    let ghost earlier = line_views(lines@);
    let ghost said = marked(before@, mark@, style, after@);
    let spans = vec![
        Span { text: string_from(before), style: Style::Plain },
        Span { text: string_from(mark), style },
        Span { text: string_from(after), style: Style::Plain },
    ];
    assert(span_views(spans@) =~= said);
    lines.push(spans);
    assert(line_views(lines@) =~= earlier.push(said));
}

/// No lines.
fn no_lines() -> (r: Vec<Vec<Span>>)
    ensures
        line_views(r@) == Seq::<Seq<SpanView>>::empty(),
{
    let lines: Vec<Vec<Span>> = Vec::new();
    assert(line_views(lines@) =~= Seq::empty());
    lines
}

// ---- The report on a result ------------------------------------------------

/// A tenant's figures in a phase.
pub open spec fn tenant_text(head: Seq<char>, tenant: TenantView, width: nat) -> Seq<char> {
    head + right_aligned(tenant.latency, 8) + "ms ± "@ + right_aligned(tenant.deviation, 6)
        + "ms  ("@ + right_aligned(decimal(tenant.operations), width) + " ops, "@ + right_aligned(
        tenant.rate,
        9,
    ) + " ops/s, "@ + right_aligned(tenant.errors, 5) + "% err)"@
}

/// A tenant's figures in a phase.
fn write_tenant(head: &str, tenant: &TenantFigures, width: usize) -> (r: String)
    ensures
        r@ == tenant_text(head@, tenant@, width as nat),
{
    joined7(
        head,
        &align_right(&tenant.latency, 8),
        "ms ± ",
        &align_right(&tenant.deviation, 6),
        "ms  (",
        &align_right(&decimal_of(tenant.operations), width),
        " ops, ",
    ).concat(&align_right(&tenant.rate, 9)).concat(" ops/s, ").concat(
        &align_right(&tenant.errors, 5),
    ).concat("% err)")
}

/// A tenant's bandwidth in both phases.
pub open spec fn bandwidth_text(head: Seq<char>, baseline: Seq<char>, unbalanced: Seq<char>) -> Seq<
    char,
> {
    head + right_aligned(baseline, 9) + " Mbps   unbalanced "@ + right_aligned(unbalanced, 9)
        + " Mbps"@
}

/// A tenant's bandwidth in both phases.
fn write_bandwidth(head: &str, baseline: &str, unbalanced: &str) -> (r: String)
    ensures
        r@ == bandwidth_text(head@, baseline@, unbalanced@),
{
    joined5(
        head,
        &align_right(baseline, 9),
        " Mbps   unbalanced ",
        &align_right(unbalanced, 9),
        " Mbps",
    )
}

/// How much harder the malicious tenant pressed, where it pressed at all before.
pub open spec fn with_escalation(lines: Seq<Seq<SpanView>>, result: ResultView) -> Seq<
    Seq<SpanView>,
> {
    if (Measure { bits: 0 }).less(result.baseline_load) {
        lines.push(
            line(
                "    ↳ "@ + result.escalation_text + "x the baseline load ("@
                    + result.baseline.tenant2.rate + " → "@ + result.unbalanced.tenant2.rate
                    + " ops/s)"@,
                Style::Plain,
            ),
        )
    } else {
        lines
    }
}

/// The malicious tenant's bandwidth, where it is known in both phases.
pub open spec fn with_malicious_bandwidth(lines: Seq<Seq<SpanView>>, result: ResultView) -> Seq<
    Seq<SpanView>,
> {
    match (result.baseline.tenant2.bandwidth, result.unbalanced.tenant2.bandwidth) {
        (Some(baseline), Some(unbalanced)) => lines.push(
            line(bandwidth_text("  malicious  baseline "@, baseline, unbalanced), Style::Plain),
        ),
        _ => lines,
    }
}

/// The bandwidth, where the regular tenant's is known in both phases.
pub open spec fn with_bandwidth(lines: Seq<Seq<SpanView>>, result: ResultView) -> Seq<
    Seq<SpanView>,
> {
    match (result.baseline.tenant1.bandwidth, result.unbalanced.tenant1.bandwidth) {
        (Some(baseline), Some(unbalanced)) => with_malicious_bandwidth(
            lines.push(empty_line()).push(line("Bandwidth (on the wire):"@, Style::Bold)).push(
                line(
                    bandwidth_text("  regular    baseline "@, baseline, unbalanced),
                    Style::Plain,
                ),
            ),
            result,
        ),
        _ => lines,
    }
}

/// The grade, and what weakens it.
pub open spec fn with_grade(lines: Seq<Seq<SpanView>>, result: ResultView) -> Seq<Seq<SpanView>> {
    let graded = lines.push(empty_line()).push(line("Result:"@, Style::Bold)).push(
        line(
            "  "@ + result.degradation_text + "x latency degradation — "@ + level_of(
                result.latency_degradation,
            ).text(),
            Style::Plain,
        ),
    ).push(
        line(
            "  "@ + result.retention_text + "% throughput retained by the regular tenant"@,
            Style::Plain,
        ),
    );
    if throttled(result.throughput_retention) {
        graded.push(
            line(
                "  ⚠ regular tenant did not sustain its configured rate; the latency"@,
                Style::Plain,
            ),
        ).push(
            line(
                "    degradation above is a LOWER BOUND on the true impact"@,
                Style::Plain,
            ),
        )
    } else {
        graded
    }
}

/// The figures of both phases.
pub open spec fn with_phases(lines: Seq<Seq<SpanView>>, result: ResultView) -> Seq<Seq<SpanView>> {
    lines.push(empty_line()).push(
        line(
            level_of(result.latency_degradation).sign() + " "@ + result.subsystem + " Fairness"@,
            Style::Plain,
        ),
    ).push(
        line("──────────────────────────────────────────────────"@, Style::Plain),
    ).push(empty_line()).push(line("Baseline:"@, Style::Bold)).push(
        line(tenant_text("  Tenant1: "@, result.baseline.tenant1, 5), Style::Plain),
    ).push(
        line(tenant_text("  Tenant2: "@, result.baseline.tenant2, 5), Style::Plain),
    ).push(empty_line()).push(line("Unbalanced:"@, Style::Bold)).push(
        line(tenant_text("  Regular:   "@, result.unbalanced.tenant1, 6), Style::Plain),
    ).push(line(tenant_text("  Malicious: "@, result.unbalanced.tenant2, 6), Style::Plain))
}

/// The report on a result, below other lines.
pub open spec fn with_result(lines: Seq<Seq<SpanView>>, result: ResultView) -> Seq<Seq<SpanView>> {
    with_grade(with_bandwidth(with_escalation(with_phases(lines, result), result), result), result)
}

impl FairnessResult {
    /// Adds the report on this result.
    fn write(&self, lines: &mut Vec<Vec<Span>>)
        ensures
            line_views(final(lines)@) == with_result(line_views(old(lines)@), self@),
    {
        let level = self.fairness_level();
        push_empty(lines);
        push_line(
            lines,
            joined4(level.icon(), " ", &self.subsystem, " Fairness"),
            Style::Plain,
        );
        push_line(
            lines,
            string_from("──────────────────────────────────────────────────"),
            Style::Plain,
        );
        push_empty(lines);
        push_line(lines, string_from("Baseline:"), Style::Bold);
        push_line(lines, write_tenant("  Tenant1: ", &self.baseline.tenant1, 5), Style::Plain);
        push_line(lines, write_tenant("  Tenant2: ", &self.baseline.tenant2, 5), Style::Plain);
        push_empty(lines);
        push_line(lines, string_from("Unbalanced:"), Style::Bold);
        push_line(lines, write_tenant("  Regular:   ", &self.unbalanced.tenant1, 6), Style::Plain);
        push_line(lines, write_tenant("  Malicious: ", &self.unbalanced.tenant2, 6), Style::Plain);
        if Measure::zero().is_below(self.baseline_load) {
            push_line(
                lines,
                joined7(
                    "    ↳ ",
                    &self.escalation_text,
                    "x the baseline load (",
                    &self.baseline.tenant2.rate,
                    " → ",
                    &self.unbalanced.tenant2.rate,
                    " ops/s)",
                ),
                Style::Plain,
            );
        }
        if let (Some(baseline), Some(unbalanced)) = (
            &self.baseline.tenant1.bandwidth,
            &self.unbalanced.tenant1.bandwidth,
        ) {
            push_empty(lines);
            push_line(lines, string_from("Bandwidth (on the wire):"), Style::Bold);
            push_line(
                lines,
                write_bandwidth("  regular    baseline ", baseline, unbalanced),
                Style::Plain,
            );
            if let (Some(before), Some(after)) = (
                &self.baseline.tenant2.bandwidth,
                &self.unbalanced.tenant2.bandwidth,
            ) {
                push_line(
                    lines,
                    write_bandwidth("  malicious  baseline ", before, after),
                    Style::Plain,
                );
            }
        }
        push_empty(lines);
        push_line(lines, string_from("Result:"), Style::Bold);
        push_line(
            lines,
            joined4("  ", &self.degradation_text, "x latency degradation — ", level.label()),
            Style::Plain,
        );
        push_line(
            lines,
            joined3("  ", &self.retention_text, "% throughput retained by the regular tenant"),
            Style::Plain,
        );
        if self.owner_throttled() {
            push_line(
                lines,
                string_from("  ⚠ regular tenant did not sustain its configured rate; the latency"),
                Style::Plain,
            );
            push_line(
                lines,
                string_from("    degradation above is a LOWER BOUND on the true impact"),
                Style::Plain,
            );
        }
    }

    /// The report on this result, line by line.
    pub fn render(&self) -> (r: Vec<Vec<Span>>)
        ensures
            line_views(r@) == with_result(Seq::empty(), self@),
    {
        let mut lines = no_lines();
        self.write(&mut lines);
        lines
    }
}

// ---- The report on all results ---------------------------------------------

/// Aggregated fairness results across all subsystems.
#[derive(Debug)]
pub struct FairnessReport {
    pub control_plane: Option<FairnessResult>,
    pub network: Option<FairnessResult>,
    pub storage: Option<FairnessResult>,
}

/// What a report on all results says.
pub struct FairnessView {
    pub control_plane: Option<ResultView>,
    pub network: Option<ResultView>,
    pub storage: Option<ResultView>,
}

/// What an optional result says.
pub open spec fn result_view(result: Option<FairnessResult>) -> Option<ResultView> {
    match result {
        Some(result) => Some(result@),
        None => None,
    }
}

impl View for FairnessReport {
    type V = FairnessView;

    open spec fn view(&self) -> FairnessView {
        FairnessView {
            control_plane: result_view(self.control_plane),
            network: result_view(self.network),
            storage: result_view(self.storage),
        }
    }
}

/// The worse of two results: the later one, unless the earlier one degraded
/// more.
pub open spec fn worse_of(first: Option<ResultView>, second: Option<ResultView>) -> Option<
    ResultView,
> {
    match (first, second) {
        (Some(a), Some(b)) => if b.latency_degradation.less(a.latency_degradation) {
            first
        } else {
            second
        },
        (Some(_), None) => first,
        _ => second,
    }
}

impl FairnessView {
    /// The result with the highest degradation.
    pub open spec fn worst(self) -> Option<ResultView> {
        worse_of(worse_of(self.control_plane, self.network), self.storage)
    }
}

/// No result that was measured degraded more than the worst one, where all of
/// them were measured.
pub proof fn no_result_is_worse_than_the_worst(report: FairnessView, result: ResultView)
    requires
        report.control_plane matches Some(r) ==> r.latency_degradation.finite(),
        report.network matches Some(r) ==> r.latency_degradation.finite(),
        report.storage matches Some(r) ==> r.latency_degradation.finite(),
        report.control_plane == Some(result) || report.network == Some(result) || report.storage
            == Some(result),
    ensures
        report.worst() matches Some(worst) && result.latency_degradation.at_most(
            worst.latency_degradation,
        ),
{
}

/// The worse of two results.
fn worse<'a>(first: Option<&'a FairnessResult>, second: Option<&'a FairnessResult>) -> (r: Option<
    &'a FairnessResult,
>)
    ensures
        reference_view(r) == worse_of(reference_view(first), reference_view(second)),
{
    match (first, second) {
        (Some(a), Some(b)) => if b.latency_degradation.is_below(a.latency_degradation) {
            first
        } else {
            second
        },
        (Some(_), None) => first,
        _ => second,
    }
}

/// What an optional result says.
pub open spec fn reference_view(result: Option<&FairnessResult>) -> Option<ResultView> {
    match result {
        Some(result) => Some(result@),
        None => None,
    }
}

/// A result's report, where there is one, below other lines.
pub open spec fn with_optional(lines: Seq<Seq<SpanView>>, result: Option<ResultView>) -> Seq<
    Seq<SpanView>,
> {
    match result {
        Some(result) => with_result(lines, result),
        None => lines,
    }
}

/// The head of the report.
pub open spec fn fairness_head() -> Seq<Seq<SpanView>> {
    seq![
        empty_line(),
        line("══════════════════════════════════════════════════"@, Style::Plain),
        line("📊 FAIRNESS ASSESSMENT REPORT"@, Style::Plain),
        line("══════════════════════════════════════════════════"@, Style::Plain),
    ]
}

/// The whole report; `average` is the average degradation with two decimals.
pub open spec fn fairness_lines(report: FairnessView, average: Seq<char>) -> Seq<Seq<SpanView>> {
    let results = with_optional(
        with_optional(with_optional(fairness_head(), report.control_plane), report.network),
        report.storage,
    );
    match report.worst() {
        Some(worst) => results.push(empty_line()).push(
            line("══════════════════════════════════════════════════"@, Style::Plain),
        ).push(line("OVERALL SUMMARY"@, Style::Bold)).push(
            line("──────────────────────────────────────────────────"@, Style::Plain),
        ).push(line("Average Latency Degradation: "@ + average + "x"@, Style::Plain)).push(
            line(
                "Worst Subsystem: "@ + worst.subsystem + " ("@ + worst.degradation_text
                    + "x degradation)"@,
                Style::Plain,
            ),
        ),
        None => results.push(empty_line()).push(
            line("No fairness assessments completed."@, Style::Plain),
        ),
    }
}

impl FairnessReport {
    /// The worst fairness result: the one with the highest degradation.
    pub fn worst_fairness(&self) -> (r: Option<&FairnessResult>)
        ensures
            reference_view(r) == self@.worst(),
    {
        worse(worse(self.control_plane.as_ref(), self.network.as_ref()), self.storage.as_ref())
    }

    /// The whole report, line by line; `average` is the average degradation with
    /// two decimals.
    pub fn render(&self, average: &str) -> (r: Vec<Vec<Span>>)
        ensures
            line_views(r@) == fairness_lines(self@, average@),
    {
        let mut lines = no_lines();
        push_empty(&mut lines);
        push_line(&mut lines, string_from("══════════════════════════════════════════════════"), Style::Plain);
        push_line(&mut lines, string_from("📊 FAIRNESS ASSESSMENT REPORT"), Style::Plain);
        push_line(&mut lines, string_from("══════════════════════════════════════════════════"), Style::Plain);
        assert(line_views(lines@) =~= fairness_head());
        if let Some(result) = &self.control_plane {
            result.write(&mut lines);
        }
        if let Some(result) = &self.network {
            result.write(&mut lines);
        }
        if let Some(result) = &self.storage {
            result.write(&mut lines);
        }
        match self.worst_fairness() {
            Some(worst) => {
                push_empty(&mut lines);
                push_line(&mut lines, string_from("══════════════════════════════════════════════════"), Style::Plain);
                push_line(&mut lines, string_from("OVERALL SUMMARY"), Style::Bold);
                push_line(&mut lines, string_from("──────────────────────────────────────────────────"), Style::Plain);
                push_line(
                    &mut lines,
                    joined3("Average Latency Degradation: ", average, "x"),
                    Style::Plain,
                );
                push_line(
                    &mut lines,
                    joined5(
                        "Worst Subsystem: ",
                        &worst.subsystem,
                        " (",
                        &worst.degradation_text,
                        "x degradation)",
                    ),
                    Style::Plain,
                );
            },
            None => {
                push_empty(&mut lines);
                push_line(
                    &mut lines,
                    string_from("No fairness assessments completed."),
                    Style::Plain,
                );
            },
        }
        lines
    }
}

// ---- What is shown during a run --------------------------------------------

/// What is shown when a run begins.
pub open spec fn announcement(name: Seq<char>, metric: Seq<char>, baseline_secs: nat) -> Seq<
    Seq<SpanView>,
> {
    seq![
        empty_line(),
        marked(""@, "▶"@, Style::Blue, " "@ + name + " ("@ + metric + ")..."@),
        marked("  "@, "→"@, Style::Dimmed, " Baseline ("@ + decimal(baseline_secs) + "s)..."@),
    ]
}

/// What is shown when a run begins.
pub fn announce_run(name: &str, metric: &str, baseline_secs: u64) -> (r: Vec<Vec<Span>>)
    ensures
        line_views(r@) == announcement(name@, metric@, baseline_secs as nat),
{
    let mut lines = no_lines();
    push_empty(&mut lines);
    push_marked(&mut lines, "", "▶", Style::Blue, &joined5(" ", name, " (", metric, ")..."));
    push_marked(
        &mut lines,
        "  ",
        "→",
        Style::Dimmed,
        &joined3(" Baseline (", &decimal_of(baseline_secs), "s)..."),
    );
    assert(line_views(lines@) =~= announcement(name@, metric@, baseline_secs as nat));
    lines
}

/// Both tenants' latencies and rates in one line.
pub open spec fn phase_text(first: Seq<char>, second: Seq<char>, phase: PhaseView) -> Seq<char> {
    "      "@ + first + phase.tenant1.latency + "ms @ "@ + phase.tenant1.rate + " ops/s, "@ + second
        + phase.tenant2.latency + "ms @ "@ + phase.tenant2.rate + " ops/s"@
}

/// Both tenants' latencies and rates in one line.
fn write_phase(first: &str, second: &str, phase: &PhaseFigures) -> (r: String)
    ensures
        r@ == phase_text(first@, second@, phase@),
{
    joined7(
        "      ",
        first,
        &phase.tenant1.latency,
        "ms @ ",
        &phase.tenant1.rate,
        " ops/s, ",
        second,
    ).concat(&phase.tenant2.latency).concat("ms @ ").concat(&phase.tenant2.rate).concat(" ops/s")
}

/// What is shown between the two phases; `stress` is the factor by which the
/// malicious tenant's load grows.
pub open spec fn between_phases(baseline: PhaseView, test_secs: nat, stress: Seq<char>) -> Seq<
    Seq<SpanView>,
> {
    seq![
        line(phase_text("Tenant1: "@, "Tenant2: "@, baseline), Style::Plain),
        marked(
            "  "@,
            "→"@,
            Style::Dimmed,
            " Unbalanced ("@ + decimal(test_secs) + "s, "@ + stress
                + "x effective load on tenant2)..."@,
        ),
    ]
}

/// What is shown between the two phases.
pub fn announce_unbalanced(baseline: &PhaseFigures, test_secs: u64, stress: &str) -> (r: Vec<
    Vec<Span>,
>)
    ensures
        line_views(r@) == between_phases(baseline@, test_secs as nat, stress@),
{
    let mut lines = no_lines();
    push_line(&mut lines, write_phase("Tenant1: ", "Tenant2: ", baseline), Style::Plain);
    push_marked(
        &mut lines,
        "  ",
        "→",
        Style::Dimmed,
        &joined5(
            " Unbalanced (",
            &decimal_of(test_secs),
            "s, ",
            stress,
            "x effective load on tenant2)...",
        ),
    );
    assert(line_views(lines@) =~= between_phases(baseline@, test_secs as nat, stress@));
    lines
}

/// The load that the intruder delivered, next to its target; the texts are the
/// share in percent with one decimal, and the two rates with none.
#[derive(Debug)]
pub struct DeliveredLoad {
    /// The intruder's rate.
    pub rate: Measure,
    pub ratio: Measure,
    pub percentage: String,
    pub achieved: String,
    pub target: String,
}

/// What a delivered load says.
pub struct LoadView {
    pub rate: Measure,
    pub ratio: Measure,
    pub percentage: Seq<char>,
    pub achieved: Seq<char>,
    pub target: Seq<char>,
}

impl View for DeliveredLoad {
    type V = LoadView;

    open spec fn view(&self) -> LoadView {
        LoadView {
            rate: self.rate,
            ratio: self.ratio,
            percentage: self.percentage@,
            achieved: self.achieved@,
            target: self.target@,
        }
    }
}

/// What weakens the verdict, where the regular tenant did not keep its rate.
pub open spec fn with_throttled_note(lines: Seq<Seq<SpanView>>, result: ResultView) -> Seq<
    Seq<SpanView>,
> {
    if throttled(result.throughput_retention) {
        lines.push(
            marked(
                "      "@,
                "note:"@,
                Style::Dimmed,
                " the regular tenant could not sustain its configured rate, so the"@,
            ),
        ).push(
            marked(
                "      "@,
                "     "@,
                Style::Dimmed,
                " latency degradation above is a lower bound on the true impact"@,
            ),
        )
    } else {
        lines
    }
}

/// What makes the verdict void, where the intruder did not deliver its load.
pub open spec fn with_load_note(lines: Seq<Seq<SpanView>>, load: LoadView) -> Seq<Seq<SpanView>> {
    if load.ratio.finite() && underloaded(load.ratio) {
        lines.push(
            marked(
                "  "@,
                "⚠"@,
                Style::Yellow,
                " intruder delivered "@ + load.percentage + "% of its configured load ("@
                    + load.achieved + " of "@ + load.target + " ops/s)"@,
            ),
        ).push(
            marked(
                "      "@,
                "note:"@,
                Style::Dimmed,
                " the specified stress was never applied, so this degradation factor"@,
            ),
        ).push(
            marked(
                "      "@,
                "     "@,
                Style::Dimmed,
                " is not comparable with a run where the intruder reached its target"@,
            ),
        )
    } else {
        lines
    }
}

/// What is shown when a run has ended.
pub open spec fn conclusion(result: ResultView, load: LoadView) -> Seq<Seq<SpanView>> {
    let sustained = (Measure { bits: SUSTAINED_BOUND }).at_most(result.throughput_retention);
    let verdict = seq![
        line(phase_text("Regular: "@, "Malicious: "@, result.unbalanced), Style::Plain),
        marked(
            "  "@,
            "✓"@,
            Style::Green,
            " "@ + result.degradation_text + "x latency degradation ("@ + level_of(
                result.latency_degradation,
            ).text() + ")"@,
        ),
        marked(
            "  "@,
            if sustained {
                "✓"@
            } else {
                "⚠"@
            },
            if sustained {
                Style::Green
            } else {
                Style::Yellow
            },
            " "@ + result.retention_text + "% throughput retained by the regular tenant"@,
        ),
    ];
    with_load_note(with_throttled_note(verdict, result), load)
}

/// What is shown when a run has ended.
pub fn conclude_run(result: &FairnessResult, load: &DeliveredLoad) -> (r: Vec<Vec<Span>>)
    ensures
        line_views(r@) == conclusion(result@, load@),
{
    let mut lines = no_lines();
    push_line(
        &mut lines,
        write_phase("Regular: ", "Malicious: ", &result.unbalanced),
        Style::Plain,
    );
    push_marked(
        &mut lines,
        "  ",
        "✓",
        Style::Green,
        &joined5(
            " ",
            &result.degradation_text,
            "x latency degradation (",
            result.fairness_level().label(),
            ")",
        ),
    );
    let kept = joined3(" ", &result.retention_text, "% throughput retained by the regular tenant");
    let ghost before = line_views(lines@);
    if Measure::from_bits(SUSTAINED_BOUND).is_at_most(result.throughput_retention) {
        push_marked(&mut lines, "  ", "✓", Style::Green, &kept);
    } else {
        push_marked(&mut lines, "  ", "⚠", Style::Yellow, &kept);
    }
    let ghost verdict = line_views(lines@);
    assert(verdict =~= seq![before[0], before[1], verdict[2]]);
    if result.owner_throttled() {
        push_marked(
            &mut lines,
            "      ",
            "note:",
            Style::Dimmed,
            " the regular tenant could not sustain its configured rate, so the",
        );
        push_marked(
            &mut lines,
            "      ",
            "     ",
            Style::Dimmed,
            " latency degradation above is a lower bound on the true impact",
        );
    }
    if load.ratio.is_finite() && intruder_underloaded(load.ratio) {
        push_marked(
            &mut lines,
            "  ",
            "⚠",
            Style::Yellow,
            &joined7(
                " intruder delivered ",
                &load.percentage,
                "% of its configured load (",
                &load.achieved,
                " of ",
                &load.target,
                " ops/s)",
            ),
        );
        push_marked(
            &mut lines,
            "      ",
            "note:",
            Style::Dimmed,
            " the specified stress was never applied, so this degradation factor",
        );
        push_marked(
            &mut lines,
            "      ",
            "     ",
            Style::Dimmed,
            " is not comparable with a run where the intruder reached its target",
        );
    }
    lines
}

}
