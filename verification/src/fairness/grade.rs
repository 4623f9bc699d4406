//! From the measurements of two phases to the result of a run.
//!
//! Divisions are floating point and are made by the caller. Which numbers are
//! divided, and what their quotients stand for, is decided here.

use crate::fairness::measure::Measure;
use crate::fairness::outcome::{
    degradation_of, intruder_load_ratio, load_ratio_of, retention_of, DeliveredLoad, FairnessResult,
    LoadView, PhaseFigures, PhaseView, ResultView,
};
use crate::text::string_from;
use vstd::prelude::*;
use vstd::string::*;

verus! {

/// What was measured in a phase: the figures of both tenants, written out, and
/// the numbers that the result rests on.
#[derive(Debug)]
pub struct MeasuredPhase {
    pub figures: PhaseFigures,
    /// The first tenant's mean latency in milliseconds.
    pub latency: Measure,
    /// The first tenant's operations per second.
    pub rate: Measure,
    /// The second tenant's operations per second.
    pub load: Measure,
}

/// What a measured phase says.
pub struct MeasuredView {
    pub figures: PhaseView,
    pub latency: Measure,
    pub rate: Measure,
    pub load: Measure,
}

impl View for MeasuredPhase {
    type V = MeasuredView;

    open spec fn view(&self) -> MeasuredView {
        MeasuredView {
            figures: self.figures@,
            latency: self.latency,
            rate: self.rate,
            load: self.load,
        }
    }
}

/// What was measured of a tenant in a phase, as numbers.
#[derive(Debug, Clone, Copy, PartialEq, Eq, Structural)]
pub struct TenantMeasures {
    /// The mean latency in milliseconds.
    pub latency: Measure,
    /// The operations per second.
    pub rate: Measure,
}

/// What was measured of both tenants, as far as it is graded.
pub open spec fn measured_of(
    figures: PhaseView,
    tenant1: TenantMeasures,
    tenant2: TenantMeasures,
) -> MeasuredView {
    MeasuredView {
        figures,
        latency: tenant1.latency,
        rate: tenant1.rate,
        load: tenant2.rate,
    }
}

/// The regular tenant is the one that is graded: its latency and its rate are
/// the first tenant's whatever the second one's are, and the load is the rate of
/// the second whatever the first one's is.
pub proof fn the_first_tenant_is_graded(
    figures: PhaseView,
    tenant1: TenantMeasures,
    tenant2: TenantMeasures,
    other: TenantMeasures,
)
    ensures
        ({
            let measured = measured_of(figures, tenant1, tenant2);
            let with_other_first = measured_of(figures, other, tenant2);
            let with_other_second = measured_of(figures, tenant1, other);
            &&& measured.latency == tenant1.latency
            &&& measured.rate == tenant1.rate
            &&& measured.latency == with_other_second.latency
            &&& measured.rate == with_other_second.rate
            &&& measured.load == tenant2.rate
            &&& measured.load == with_other_first.load
            &&& measured.figures == figures
        }),
{
}

impl MeasuredPhase {
    /// What was measured of both tenants: of the first, the regular one, its latency
    /// and its rate count, of the second only the load that it put on the cluster.
    pub fn of(figures: PhaseFigures, tenant1: TenantMeasures, tenant2: TenantMeasures) -> (r:
        MeasuredPhase)
        ensures
            r@ == (MeasuredView {
                figures: figures@,
                latency: tenant1.latency,
                rate: tenant1.rate,
                load: tenant2.rate,
            }),
            r@ == measured_of(figures@, tenant1, tenant2),
    {
        MeasuredPhase {
            figures,
            latency: tenant1.latency,
            rate: tenant1.rate,
            load: tenant2.rate,
        }
    }
}

impl Clone for MeasuredPhase {
    fn clone(&self) -> (r: MeasuredPhase)
        ensures
            r@ == self@,
    {
        MeasuredPhase {
            figures: self.figures.clone(),
            latency: self.latency,
            rate: self.rate,
            load: self.load,
        }
    }
}

/// A division to be made.
#[derive(Debug, Clone, Copy, PartialEq, Eq, Structural)]
pub struct Division {
    pub dividend: Measure,
    pub divisor: Measure,
}

/// The divisions that a result needs.
#[derive(Debug, Clone, Copy, PartialEq, Eq, Structural)]
pub struct Divisions {
    /// The regular tenant's latency under stress, by that of the baseline.
    pub latency: Division,
    /// The regular tenant's rate under stress, by that of the baseline.
    pub rate: Division,
    /// The intruder's rate under stress, by its target.
    pub load: Division,
    /// The intruder's rate under stress, by that of the baseline.
    pub escalation: Division,
}

/// The divisions that the result of two phases needs.
pub open spec fn divisions_of(
    baseline: MeasuredView,
    unbalanced: MeasuredView,
    target: Measure,
) -> Divisions {
    Divisions {
        latency: Division { dividend: unbalanced.latency, divisor: baseline.latency },
        rate: Division { dividend: unbalanced.rate, divisor: baseline.rate },
        load: Division { dividend: unbalanced.load, divisor: target },
        escalation: Division { dividend: unbalanced.load, divisor: baseline.load },
    }
}

/// The divisions that the result of two phases needs.
pub fn divisions(baseline: &MeasuredPhase, unbalanced: &MeasuredPhase, target: Measure) -> (r:
    Divisions)
    ensures
        r == divisions_of(baseline@, unbalanced@, target),
{
    Divisions {
        latency: Division { dividend: unbalanced.latency, divisor: baseline.latency },
        rate: Division { dividend: unbalanced.rate, divisor: baseline.rate },
        load: Division { dividend: unbalanced.load, divisor: target },
        escalation: Division { dividend: unbalanced.load, divisor: baseline.load },
    }
}

/// The quotients of the divisions, as numbers and written out.
#[derive(Debug)]
pub struct Quotients {
    pub latency: Measure,
    /// The quotient of the latencies with two decimals.
    pub latency_text: String,
    pub rate: Measure,
    /// The quotient of the rates in percent, with one decimal.
    pub rate_text: String,
    pub load: Measure,
    /// The quotient of the load in percent, with one decimal.
    pub load_text: String,
    /// The escalation with one decimal.
    pub escalation_text: String,
    /// The intruder's rate under stress, without decimals.
    pub achieved_text: String,
}

/// What the quotients say.
pub struct QuotientsView {
    pub latency: Measure,
    pub latency_text: Seq<char>,
    pub rate: Measure,
    pub rate_text: Seq<char>,
    pub load: Measure,
    pub load_text: Seq<char>,
    pub escalation_text: Seq<char>,
    pub achieved_text: Seq<char>,
}

impl View for Quotients {
    type V = QuotientsView;

    open spec fn view(&self) -> QuotientsView {
        QuotientsView {
            latency: self.latency,
            latency_text: self.latency_text@,
            rate: self.rate,
            rate_text: self.rate_text@,
            load: self.load,
            load_text: self.load_text@,
            escalation_text: self.escalation_text@,
            achieved_text: self.achieved_text@,
        }
    }
}

impl Clone for Quotients {
    fn clone(&self) -> (r: Quotients)
        ensures
            r@ == self@,
    {
        Quotients {
            latency: self.latency,
            latency_text: self.latency_text.clone(),
            rate: self.rate,
            rate_text: self.rate_text.clone(),
            load: self.load,
            load_text: self.load_text.clone(),
            escalation_text: self.escalation_text.clone(),
            achieved_text: self.achieved_text.clone(),
        }
    }
}

/// There is nothing of this quantity: it is zero or less.
pub open spec fn nothing_of(quantity: Measure) -> bool {
    quantity.at_most(Measure { bits: 0 })
}

/// How the degradation is written: where nothing was measured, as no number.
pub open spec fn degradation_text_of(
    baseline: MeasuredView,
    unbalanced: MeasuredView,
    quotients: QuotientsView,
) -> Seq<char> {
    if nothing_of(baseline.latency) || nothing_of(unbalanced.latency) {
        "NaN"@
    } else {
        quotients.latency_text
    }
}

/// How the share of its rate that the regular tenant kept is written: all of it
/// where it had none, and nothing where no positive share was measured.
pub open spec fn retention_text_of(baseline: MeasuredView, quotients: QuotientsView) -> Seq<char> {
    if nothing_of(baseline.rate) {
        "100.0"@
    } else if (Measure { bits: 0 }).less(quotients.rate) {
        quotients.rate_text
    } else {
        "0.0"@
    }
}

/// The result of two phases whose quotients are given.
pub open spec fn graded(
    name: Seq<char>,
    baseline: MeasuredView,
    unbalanced: MeasuredView,
    quotients: QuotientsView,
) -> ResultView {
    ResultView {
        subsystem: name,
        baseline: baseline.figures,
        unbalanced: unbalanced.figures,
        latency_degradation: degradation_of(
            baseline.latency,
            unbalanced.latency,
            quotients.latency,
        ),
        degradation_text: degradation_text_of(baseline, unbalanced, quotients),
        throughput_retention: retention_of(baseline.rate, quotients.rate),
        retention_text: retention_text_of(baseline, quotients),
        baseline_load: baseline.load,
        escalation_text: quotients.escalation_text,
    }
}

/// The load that the intruder delivered, next to its target; without a target it
/// has no share.
pub open spec fn delivered(
    unbalanced: MeasuredView,
    target: Measure,
    target_text: Seq<char>,
    quotients: QuotientsView,
) -> LoadView {
    LoadView {
        rate: unbalanced.load,
        ratio: load_ratio_of(target, quotients.load),
        percentage: if nothing_of(target) {
            "NaN"@
        } else {
            quotients.load_text
        },
        achieved: quotients.achieved_text,
        target: target_text,
    }
}

/// The result of two phases: the first tenant's latencies and rates decide, the
/// baseline's before those under stress.
pub fn grade(
    name: &str,
    baseline: MeasuredPhase,
    unbalanced: MeasuredPhase,
    quotients: Quotients,
) -> (r: FairnessResult)
    ensures
        r@.subsystem == name@,
        r@.baseline == baseline.figures@,
        r@.unbalanced == unbalanced.figures@,
        r@.latency_degradation == degradation_of(
            baseline.latency,
            unbalanced.latency,
            quotients.latency,
        ),
        r@.throughput_retention == retention_of(baseline.rate, quotients.rate),
        r@.baseline_load == baseline.load,
        r@ == graded(name@, baseline@, unbalanced@, quotients@),
{
    let latency_degradation = FairnessResult::calculate_degradation(
        baseline.latency,
        unbalanced.latency,
        quotients.latency,
    );
    let throughput_retention = FairnessResult::calculate_throughput_retention(
        baseline.rate,
        quotients.rate,
    );
    let unmeasured = baseline.latency.is_at_most(Measure::zero())
        || unbalanced.latency.is_at_most(Measure::zero());
    let degradation_text = if unmeasured {
        string_from("NaN")
    } else {
        quotients.latency_text
    };
    let retention_text = if baseline.rate.is_at_most(Measure::zero()) {
        string_from("100.0")
    } else if Measure::zero().is_below(quotients.rate) {
        quotients.rate_text
    } else {
        string_from("0.0")
    };
    FairnessResult {
        subsystem: string_from(name),
        baseline: baseline.figures,
        unbalanced: unbalanced.figures,
        latency_degradation,
        degradation_text,
        throughput_retention,
        retention_text,
        baseline_load: baseline.load,
        escalation_text: quotients.escalation_text,
    }
}

/// The load that the intruder delivered, next to its target.
pub fn deliver(
    unbalanced: &MeasuredPhase,
    target: Measure,
    target_text: &str,
    quotients: &Quotients,
) -> (r: DeliveredLoad)
    ensures
        r@ == delivered(unbalanced@, target, target_text@, quotients@),
{
    let percentage = if target.is_at_most(Measure::zero()) {
        string_from("NaN")
    } else {
        quotients.load_text.clone()
    };
    DeliveredLoad {
        rate: unbalanced.load,
        ratio: intruder_load_ratio(target, quotients.load),
        percentage,
        achieved: quotients.achieved_text.clone(),
        target: string_from(target_text),
    }
}

}
