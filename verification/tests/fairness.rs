//! Rates, schedules, resource classes, and how a fairness run is graded.

use kumuteva::fairness::clock::format_unix_utc;
use kumuteva::fairness::control_plane::{
    distribute_workers, run_phase, run_stress_test_on_configmap, run_stress_test_on_pod, worker_interval,
    worker_scenarios, FairnessControlPlaneAssessor, FairnessControlPlaneConfig, StressCall,
    StressScenario,
};
use kumuteva::fairness::export::{
    announce_export, detailed_paths, export_paths, git_commit_hash, p95_index, write_csv,
    write_metrics_csv, PointTexts,
};
use kumuteva::fairness::grade::{Division, Divisions, MeasuredPhase, Quotients, TenantMeasures};
use kumuteva::fairness::measure::Measure;
use kumuteva::fairness::outcome::{
    announce_run, announce_unbalanced, conclude_run, intruder_load_ratio, intruder_underloaded,
    DeliveredLoad, FairnessLevel, FairnessReport, FairnessResult, PhaseFigures, TenantFigures,
    EXCELLENT_BOUND, GOOD_BOUND, INTRUDER_LOAD_THRESHOLD, MODERATE_BOUND, POOR_BOUND,
    SUSTAINED_BOUND,
};
use kumuteva::fairness::qos::{PodResources, QosClass};
use kumuteva::fairness::runner::{FairnessRunner, RunNext, RunReply};
use kumuteva::fairness::schedule::{
    pacing_interval, time_operation, OperationSchedule, RateLimitStrategy, RateLimiter,
};
use kumuteva::json::Json;
use kumuteva::render::{Span, Style};

const MILLI: u64 = 1_000_000;

fn measure(value: f64) -> Measure {
    Measure::from_bits(value.to_bits())
}

fn text_of(lines: &[Vec<Span>]) -> Vec<String> {
    lines
        .iter()
        .map(|line| line.iter().map(|span| span.text.as_str()).collect())
        .collect()
}

fn at<'a>(json: &'a Json, path: &[&str]) -> &'a Json {
    let mut here = json;
    for key in path {
        here = here.get(key).expect("the field is there");
    }
    here
}

// ---- Pacing ----------------------------------------------------------------

#[test]
fn fixed_delay_paces_each_operation() {
    let mut limiter = RateLimiter::fixed_delay(5 * MILLI); // 200 per second
    let mut now: u64 = 0;
    for _ in 0..11 {
        now += limiter.wait(now);
        limiter.dispatch(now);
    }
    // 11 waits, 10 intervals.
    assert!(
        now >= 50 * MILLI,
        "11 waits at 200/s took {now:?}, expected >= 50ms"
    );
    assert!(
        now < 400 * MILLI,
        "11 waits at 200/s took {now:?}, far above the 50ms target"
    );
    assert_eq!(now, 50 * MILLI);
}

#[test]
fn schedule_slots_do_not_drift_with_slow_operations() {
    let start: u64 = 7 * MILLI;
    let mut schedule = OperationSchedule::new(start, 10 * MILLI); // 100 per second

    let first = schedule.next_slot(start);
    assert_eq!(first.due, start as u128, "slot 0 is due immediately");
    assert_eq!(first.wait, 0);

    // An operation that overruns its slot by a wide margin.
    let now = start + 80 * MILLI;
    let second = schedule.next_slot(now);
    assert_eq!(second.wait, 0, "an overdue slot must not sleep");
    assert_eq!(second.due, (start + 10 * MILLI) as u128);

    let response = now as u128 - second.due;
    assert!(
        response >= 60 * MILLI as u128,
        "response time should carry the queueing delay, got {response:?}"
    );

    assert_eq!(schedule.issued(), 2);
}

#[test]
fn schedule_with_zero_rate_never_sleeps() {
    for rate in [0.0, -1.0, f64::INFINITY, f64::NAN] {
        let interval = pacing_interval(measure(rate), 5 * MILLI);
        let mut schedule = OperationSchedule::new(0, interval);
        for k in 0..100 {
            assert_eq!(schedule.next_slot(k).wait, 0, "rate {rate} must not pace");
        }
        assert_eq!(schedule.issued(), 100);
    }
    assert_eq!(pacing_interval(measure(200.0), 5 * MILLI), 5 * MILLI);
}

#[test]
fn unpaced_slots_are_due_when_asked_for_not_at_the_origin() {
    let mut schedule = OperationSchedule::new(0, 0);
    let first = schedule.next_slot(MILLI);
    let second = schedule.next_slot(61 * MILLI);
    assert!(second.due > first.due, "each unpaced slot tracks real time");
    let response = 61 * MILLI as u128 - second.due;
    assert_eq!(
        response, 0,
        "unpaced response time must not accumulate elapsed time, got {response:?}"
    );
}

#[test]
fn unlimited_strategy_does_not_pace() {
    let mut limiter = RateLimiter::unlimited();
    for now in 0..1000 {
        assert_eq!(
            limiter.wait(now),
            0,
            "Unlimited must not sleep; it is why a configured rate was silently ignored"
        );
        limiter.dispatch(now);
    }
    assert_eq!(limiter.interval(), 0);
}

#[test]
fn an_adaptive_limiter_waits_what_is_left_of_the_interval() {
    let mut limiter = RateLimiter::new(RateLimitStrategy::Adaptive, 100);
    assert_eq!(limiter.wait(5), 0);
    limiter.dispatch(5);
    assert_eq!(limiter.wait(45), 60);
    assert_eq!(limiter.wait(105), 0);
    assert_eq!(limiter.wait(2), 100);
}

#[test]
fn a_slot_in_the_future_is_waited_for() {
    let mut schedule = OperationSchedule::new(1000, 100);
    schedule.next_slot(1000);
    let slot = schedule.next_slot(1030);
    assert_eq!(slot.due, 1100);
    assert_eq!(slot.wait, 70);
    assert_eq!(schedule.next_intended(), 1200);
}

#[test]
fn a_schedule_does_not_wrap_after_many_operations() {
    let mut schedule = OperationSchedule::new(0, u64::MAX);
    schedule.next_slot(0);
    schedule.next_slot(0);
    assert_eq!(schedule.next_intended(), 2 * u64::MAX as u128);
}

#[test]
fn a_late_operation_is_charged_for_its_wait_only_in_its_response() {
    let timing = time_operation(100, 150, 400, 700);
    assert_eq!(timing.latency, 300);
    assert_eq!(timing.scheduled_latency, 550);
    assert_eq!(timing.timestamp, 300);
    assert_eq!(timing.slot_timestamp, 50);
}

#[test]
fn worker_rates_sum_to_configured_rate() {
    for workers in [1usize, 2, 5, 500] {
        let configured = 100.0f64;
        let per_worker = 1.0e9 / worker_interval(10 * MILLI, workers) as f64;
        let plans = run_phase(10 * MILLI, workers);
        let total: f64 = plans.iter().map(|plan| 1.0e9 / plan.interval as f64).sum();
        assert!(
            (total - configured).abs() < 1e-9,
            "{workers} workers at {per_worker}/s summed to {total}, expected {configured}"
        );
    }
}

#[test]
fn a_share_that_does_not_fit_is_the_longest_there_is() {
    assert_eq!(worker_interval(0, 500), 0);
    assert_eq!(worker_interval(7, 0), 0);
    assert_eq!(worker_interval(u64::MAX, 2), u64::MAX);
}

#[test]
fn campaign_control_plane_baseline_op_count() {
    let (rate, workers, secs) = (100.0f64, 5usize, 30.0f64);

    let expected = rate * secs;
    assert_eq!(expected, 3000.0);

    let (pod_workers, cm_workers) = distribute_workers(workers);
    assert_eq!((pod_workers, cm_workers), (workers / 2, workers - workers / 2));
    let iters_per_worker = rate / 3.0 / workers as f64;
    let per_scenario = secs * iters_per_worker * (pod_workers as f64 * 4.0 + cm_workers as f64 * 6.0);
    assert_eq!(per_scenario, 5200.0);
    assert!((per_scenario / expected - 26.0 / 15.0).abs() < 1e-9);
}

#[test]
fn worker_count_alone_does_not_escalate() {
    let rate = 20.0;
    for workers in [1usize, 5, 10, 500] {
        let per_worker = 1.0e9 / worker_interval(50 * MILLI, workers) as f64;
        let total: f64 = per_worker * worker_scenarios(workers).len() as f64;
        assert!(
            (total - rate).abs() < 1e-9,
            "{workers} workers still offer {total}, not more than {rate}"
        );
    }
}

// ---- Grades ----------------------------------------------------------------

fn figures(latency: &str, operations: u64, rate: &str) -> TenantFigures {
    TenantFigures {
        latency: latency.to_string(),
        deviation: "1.00".to_string(),
        operations,
        rate: rate.to_string(),
        errors: "0.00".to_string(),
        bandwidth: None,
    }
}

fn result_with(subsystem: &str, degradation: f64, retention: f64) -> FairnessResult {
    FairnessResult {
        subsystem: subsystem.to_string(),
        baseline: PhaseFigures {
            tenant1: figures("10.00", 300, "10.0"),
            tenant2: figures("11.00", 310, "10.3"),
        },
        unbalanced: PhaseFigures {
            tenant1: figures("20.00", 600, "10.0"),
            tenant2: figures("22.00", 6200, "103.3"),
        },
        latency_degradation: measure(degradation),
        degradation_text: format!("{degradation:.2}"),
        throughput_retention: measure(retention),
        retention_text: format!("{:.1}", retention * 100.0),
        baseline_load: measure(10.3),
        escalation_text: "10.0".to_string(),
    }
}

#[test]
fn degradation_and_fairness_bands() {
    let degradation = |b: f64, u: f64| {
        FairnessResult::calculate_degradation(measure(b), measure(u), measure(u / b))
    };
    assert_eq!(degradation(10.0, 20.0), measure(2.0));

    // An absent phase must not produce a number.
    assert!(f64::from_bits(degradation(0.0, 20.0).bits).is_nan());
    assert!(f64::from_bits(degradation(10.0, 0.0).bits).is_nan());

    let level = |d: f64| result_with("t", d, 1.0).fairness_level();
    assert_eq!(level(1.00), FairnessLevel::Excellent);
    assert_eq!(level(1.05), FairnessLevel::Excellent);
    assert_eq!(level(1.15), FairnessLevel::Good);
    assert_eq!(level(1.30), FairnessLevel::Moderate);
    assert_eq!(level(1.50), FairnessLevel::Poor);
    assert_eq!(level(9.91), FairnessLevel::Critical);
    // A speed-up.
    assert_eq!(level(0.68), FairnessLevel::Excellent);

    assert_eq!(level(f64::NAN), FairnessLevel::Unknown);

    let mut empty_phase = result_with("t", 1.0, 0.0);
    empty_phase.latency_degradation = degradation(0.05, 0.0);
    assert!(!empty_phase.is_valid());
    assert_eq!(empty_phase.fairness_level(), FairnessLevel::Unknown);
}

#[test]
fn the_bounds_are_the_documented_ones() {
    assert_eq!(f64::from_bits(EXCELLENT_BOUND), 1.05);
    assert_eq!(f64::from_bits(GOOD_BOUND), 1.15);
    assert_eq!(f64::from_bits(MODERATE_BOUND), 1.30);
    assert_eq!(f64::from_bits(POOR_BOUND), 1.50);
    assert_eq!(f64::from_bits(SUSTAINED_BOUND), 0.95);
    assert_eq!(f64::from_bits(INTRUDER_LOAD_THRESHOLD), 0.90);
}

#[test]
fn measures_compare_as_their_numbers_do() {
    let values = [
        f64::NEG_INFINITY,
        -2.5,
        -0.0,
        0.0,
        f64::MIN_POSITIVE,
        0.95,
        1.0,
        1.5,
        f64::MAX,
        f64::INFINITY,
        f64::NAN,
        -f64::NAN,
    ];
    for a in values {
        assert_eq!(measure(a).is_finite(), a.is_finite());
        for b in values {
            assert_eq!(measure(a).is_below(measure(b)), a < b, "{a} < {b}");
            assert_eq!(measure(a).is_at_most(measure(b)), a <= b, "{a} <= {b}");
        }
    }
}

#[test]
fn every_grade_has_its_words_and_its_sign() {
    let graded: Vec<(FairnessLevel, &str, &str)> = vec![
        (FairnessLevel::Unknown, "Unknown (no data)", "❔"),
        (FairnessLevel::Excellent, "Excellent (≤5%)", "🟢"),
        (FairnessLevel::Good, "Good (≤15%)", "🟢"),
        (FairnessLevel::Moderate, "Moderate (≤30%)", "🟡"),
        (FairnessLevel::Poor, "Poor (≤50%)", "🟠"),
        (FairnessLevel::Critical, "Critical (>50%)", "🔴"),
    ];
    for (level, words, sign) in graded {
        assert_eq!(level.label(), words);
        assert_eq!(level.icon(), sign);
    }
}

#[test]
fn throughput_retention_detects_owner_throttling() {
    let retained = |b: f64, u: f64| {
        let kept = FairnessResult::calculate_throughput_retention(measure(b), measure(u / b));
        f64::from_bits(kept.bits)
    };
    let retention = retained(2714.0 / 30.0, 136.0 / 60.0);
    assert!(
        retention < 0.03,
        "expected ~2.5% retention, got {:.4}",
        retention
    );

    let held = retained(5084.0 / 30.0, 9946.0 / 60.0);
    assert!(
        (held - 0.978).abs() < 0.01,
        "expected ~97.8%, got {held:.4}"
    );

    // A zero baseline cannot yield a ratio; the neutral value is 1.0.
    assert_eq!(retained(0.0, 5.0), 1.0);
    // Less than nothing is nothing.
    assert_eq!(retained(2.0, -5.0), 0.0);

    assert!(result_with("t", 1.0, 0.94).owner_throttled());
    assert!(!result_with("t", 1.0, 0.95).owner_throttled());
}

#[test]
fn an_intruder_without_a_target_is_no_shortfall() {
    let ratio = intruder_load_ratio(measure(0.0), measure(0.5));
    assert!(!ratio.is_finite());
    assert!(!intruder_underloaded(ratio));
    let ratio = intruder_load_ratio(measure(100.0), measure(0.42));
    assert_eq!(ratio, measure(0.42));
    assert!(intruder_underloaded(ratio));
    assert!(!intruder_underloaded(measure(0.90)));
}

// ---- Reports ---------------------------------------------------------------

#[test]
fn a_result_is_reported_line_by_line() {
    let mut result = result_with("Control Plane", 2.0, 0.5);
    let lines = result.render();
    let rule = "─".repeat(50);
    assert_eq!(
        text_of(&lines),
        vec![
            "",
            "🔴 Control Plane Fairness",
            rule.as_str(),
            "",
            "Baseline:",
            "  Tenant1:    10.00ms ±   1.00ms  (  300 ops,      10.0 ops/s,  0.00% err)",
            "  Tenant2:    11.00ms ±   1.00ms  (  310 ops,      10.3 ops/s,  0.00% err)",
            "",
            "Unbalanced:",
            "  Regular:      20.00ms ±   1.00ms  (   600 ops,      10.0 ops/s,  0.00% err)",
            "  Malicious:    22.00ms ±   1.00ms  (  6200 ops,     103.3 ops/s,  0.00% err)",
            "    ↳ 10.0x the baseline load (10.3 → 103.3 ops/s)",
            "",
            "Result:",
            "  2.00x latency degradation — Critical (>50%)",
            "  50.0% throughput retained by the regular tenant",
            "  ⚠ regular tenant did not sustain its configured rate; the latency",
            "    degradation above is a LOWER BOUND on the true impact",
        ]
    );
    assert_eq!(lines[4][0].style, Style::Bold);

    result.baseline_load = measure(0.0);
    result.throughput_retention = measure(1.0);
    result.baseline.tenant1.bandwidth = Some("240.0".to_string());
    result.unbalanced.tenant1.bandwidth = Some("12.5".to_string());
    let lines = text_of(&result.render());
    assert!(!lines.iter().any(|l| l.contains("the baseline load")));
    assert!(!lines.iter().any(|l| l.contains("LOWER BOUND")));
    assert!(lines.contains(
        &"  regular    baseline     240.0 Mbps   unbalanced      12.5 Mbps".to_string()
    ));
    assert!(!lines.iter().any(|l| l.contains("malicious  baseline")));

    result.baseline.tenant2.bandwidth = Some("1.0".to_string());
    result.unbalanced.tenant2.bandwidth = Some("2.0".to_string());
    assert!(text_of(&result.render()).contains(
        &"  malicious  baseline       1.0 Mbps   unbalanced       2.0 Mbps".to_string()
    ));
}

#[test]
fn a_run_says_what_weakens_its_verdict() {
    assert_eq!(
        text_of(&announce_run("Network", "TCP round-trip latency", 30)),
        vec![
            "",
            "▶ Network (TCP round-trip latency)...",
            "  → Baseline (30s)...",
        ]
    );
    let result = result_with("Network", 1.1, 0.5);
    assert_eq!(
        text_of(&announce_unbalanced(&result.baseline, 60, "10")),
        vec![
            "      Tenant1: 10.00ms @ 10.0 ops/s, Tenant2: 11.00ms @ 10.3 ops/s",
            "  → Unbalanced (60s, 10x effective load on tenant2)...",
        ]
    );
    let load = DeliveredLoad {
        rate: measure(42.0),
        ratio: measure(0.42),
        percentage: "42.0".to_string(),
        achieved: "42".to_string(),
        target: "100".to_string(),
    };
    assert_eq!(
        text_of(&conclude_run(&result, &load)),
        vec![
            "      Regular: 20.00ms @ 10.0 ops/s, Malicious: 22.00ms @ 103.3 ops/s",
            "  ✓ 1.10x latency degradation (Good (≤15%))",
            "  ⚠ 50.0% throughput retained by the regular tenant",
            "      note: the regular tenant could not sustain its configured rate, so the",
            "            latency degradation above is a lower bound on the true impact",
            "  ⚠ intruder delivered 42.0% of its configured load (42 of 100 ops/s)",
            "      note: the specified stress was never applied, so this degradation factor",
            "            is not comparable with a run where the intruder reached its target",
        ]
    );
    let sound = result_with("Network", 1.0, 1.0);
    let full = DeliveredLoad {
        rate: measure(100.0),
        ratio: measure(1.0),
        percentage: "100.0".to_string(),
        achieved: "100".to_string(),
        target: "100".to_string(),
    };
    assert_eq!(conclude_run(&sound, &full).len(), 3);
    let untargeted = DeliveredLoad {
        rate: measure(1.0),
        ratio: measure(f64::NAN),
        percentage: "NaN".to_string(),
        achieved: "1".to_string(),
        target: "0".to_string(),
    };
    assert_eq!(conclude_run(&sound, &untargeted).len(), 3);
}

fn runner(export: bool) -> FairnessRunner {
    FairnessRunner {
        name: "Network".to_string(),
        metric: "TCP round-trip latency".to_string(),
        baseline_secs: 30,
        test_secs: 60,
        stress: "10".to_string(),
        target: measure(100.0),
        target_text: "100".to_string(),
        export,
    }
}

/// A phase with so many operations, with the first tenant's latency and rate and
/// the second one's.
fn phase(operations: u64, first: (f64, f64), second: (f64, f64)) -> MeasuredPhase {
    let texts = |(latency, rate): (f64, f64)| {
        figures(&format!("{latency:.2}"), operations, &format!("{rate:.1}"))
    };
    let numbers = |(latency, rate): (f64, f64)| TenantMeasures {
        latency: measure(latency),
        rate: measure(rate),
    };
    MeasuredPhase::of(
        PhaseFigures {
            tenant1: texts(first),
            tenant2: texts(second),
        },
        numbers(first),
        numbers(second),
    )
}

fn divided(divisions: &Divisions) -> Quotients {
    let quotient =
        |d: &Division| f64::from_bits(d.dividend.bits) / f64::from_bits(d.divisor.bits);
    let (latency, rate, load) = (
        quotient(&divisions.latency),
        quotient(&divisions.rate),
        quotient(&divisions.load),
    );
    Quotients {
        latency: measure(latency),
        latency_text: format!("{latency:.2}"),
        rate: measure(rate),
        rate_text: format!("{:.1}", rate * 100.0),
        load: measure(load),
        load_text: format!("{:.1}", load * 100.0),
        escalation_text: format!("{:.1}", quotient(&divisions.escalation)),
        achieved_text: format!("{:.0}", f64::from_bits(divisions.load.dividend.bits)),
    }
}

/// Runs to the end, with these two phases.
fn played(runner: &FairnessRunner, phases: [MeasuredPhase; 2]) -> (FairnessResult, Vec<String>) {
    let [baseline, unbalanced] = phases;
    let (mut baseline, mut unbalanced) = (Some(baseline), Some(unbalanced));
    let mut log: Vec<RunReply> = Vec::new();
    let mut shown: Vec<String> = Vec::new();
    loop {
        let turn = runner.run(&log);
        shown.extend(text_of(&turn.lines));
        log.push(match turn.next {
            RunNext::Baseline => RunReply::Measured(baseline.take().expect("asked once")),
            RunNext::Unbalanced => RunReply::Measured(unbalanced.take().expect("asked once")),
            RunNext::Divide(divisions) => RunReply::Divided(divided(&divisions)),
            RunNext::Export(_, _) => RunReply::Exported,
            RunNext::Failed(error) => panic!("{error}"),
            RunNext::Done(result) => return (result, shown),
        });
    }
}

#[test]
fn a_run_goes_through_its_phases_in_order() {
    for export in [true, false] {
        let runner = runner(export);
        let mut log: Vec<RunReply> = Vec::new();
        let turn = runner.run(&log);
        assert_eq!(turn.lines.len(), 3);
        assert!(matches!(turn.next, RunNext::Baseline));

        log.push(RunReply::Measured(phase(7, (10.0, 10.0), (11.0, 10.0))));
        let turn = runner.run(&log);
        assert_eq!(turn.lines.len(), 2);
        assert!(matches!(turn.next, RunNext::Unbalanced));

        log.push(RunReply::Measured(phase(9, (20.0, 10.0), (22.0, 100.0))));
        let turn = runner.run(&log);
        assert!(turn.lines.is_empty());
        let divisions = match turn.next {
            RunNext::Divide(divisions) => divisions,
            other => panic!("{other:?}"),
        };
        assert_eq!(divisions.latency.dividend, measure(20.0));
        assert_eq!(divisions.latency.divisor, measure(10.0));
        assert_eq!(divisions.load.dividend, measure(100.0));
        assert_eq!(divisions.load.divisor, measure(100.0));

        log.push(RunReply::Divided(divided(&divisions)));
        let turn = runner.run(&log);
        assert_eq!(turn.lines.len(), 3);
        assert_eq!(matches!(turn.next, RunNext::Export(_, _)), export);
        assert_eq!(matches!(turn.next, RunNext::Done(_)), !export);

        log.push(RunReply::Exported);
        assert!(matches!(runner.run(&log).next, RunNext::Done(_)));
    }
}

#[test]
fn the_result_of_a_run_is_that_of_its_two_phases() {
    let (result, shown) = played(
        &runner(true),
        [
            phase(7, (10.0, 10.0), (11.0, 10.0)),
            phase(9, (20.0, 5.0), (22.0, 50.0)),
        ],
    );
    assert_eq!(result.subsystem, "Network");
    assert_eq!(result.baseline.tenant1.operations, 7);
    assert_eq!(result.unbalanced.tenant1.operations, 9);
    assert_eq!(result.latency_degradation, measure(2.0));
    assert_eq!(result.degradation_text, "2.00");
    assert_eq!(result.throughput_retention, measure(0.5));
    assert_eq!(result.retention_text, "50.0");
    assert_eq!(result.baseline_load, measure(10.0));
    assert_eq!(result.escalation_text, "5.0");
    assert!(shown.contains(
        &"  ⚠ intruder delivered 50.0% of its configured load (50 of 100 ops/s)".to_string()
    ));
}

#[test]
fn a_run_without_samples_is_not_graded() {
    let mut runner = runner(false);
    runner.target = measure(0.0);
    let (result, shown) = played(
        &runner,
        [
            phase(0, (0.0, 0.0), (0.0, 0.0)),
            phase(9, (20.0, 5.0), (22.0, 50.0)),
        ],
    );
    assert_eq!(result.fairness_level(), FairnessLevel::Unknown);
    assert_eq!(result.degradation_text, "NaN");
    assert_eq!(result.throughput_retention, measure(1.0));
    assert_eq!(result.retention_text, "100.0");
    assert!(!shown.iter().any(|line| line.contains("intruder delivered")));

    let (result, _) = played(
        &runner,
        [
            phase(7, (10.0, 10.0), (11.0, 10.0)),
            phase(0, (0.0, 0.0), (0.0, 0.0)),
        ],
    );
    assert_eq!(result.degradation_text, "NaN");
    assert_eq!(result.throughput_retention, measure(0.0));
    assert_eq!(result.retention_text, "0.0");
}

#[test]
fn a_run_ends_with_the_error_of_a_phase() {
    let runner = runner(true);
    let fails = |log: Vec<RunReply>| match runner.run(&log).next {
        RunNext::Failed(error) => error,
        other => panic!("{other:?}"),
    };
    let measured = || RunReply::Measured(phase(7, (10.0, 10.0), (11.0, 10.0)));
    let failed = |error: &str| RunReply::Failed(error.to_string());
    assert_eq!(fails(vec![failed("no pods")]), "no pods");
    assert_eq!(fails(vec![measured(), failed("lost")]), "lost");
    let divisions = match runner.run(&vec![measured(), measured()]).next {
        RunNext::Divide(divisions) => divisions,
        other => panic!("{other:?}"),
    };
    assert_eq!(
        fails(vec![
            measured(),
            measured(),
            RunReply::Divided(divided(&divisions)),
            failed("disk full"),
        ]),
        "disk full"
    );
    assert_eq!(
        fails(vec![RunReply::Exported]),
        "The run was answered out of turn"
    );
}

#[test]
fn the_worst_result_is_the_one_that_degraded_most() {
    let report = FairnessReport {
        control_plane: Some(result_with("Control Plane", 1.2, 1.0)),
        network: Some(result_with("Network", 3.0, 1.0)),
        storage: Some(result_with("Storage", 2.0, 1.0)),
    };
    assert_eq!(report.worst_fairness().unwrap().subsystem, "Network");
    let lines = text_of(&report.render("2.07"));
    assert_eq!(lines[1], "═".repeat(50));
    assert_eq!(lines[2], "📊 FAIRNESS ASSESSMENT REPORT");
    assert_eq!(lines[lines.len() - 2], "Average Latency Degradation: 2.07x");
    assert_eq!(
        lines[lines.len() - 1],
        "Worst Subsystem: Network (3.00x degradation)"
    );

    let empty = FairnessReport {
        control_plane: None,
        network: None,
        storage: None,
    };
    assert!(empty.worst_fairness().is_none());
    assert_eq!(
        text_of(&empty.render("0.00")).last().unwrap(),
        "No fairness assessments completed."
    );
}

// ---- Resource classes ------------------------------------------------------

#[test]
fn qos_classes_produce_the_expected_resource_shapes() {
    let split = PodResources::burstable(100, 1000, 128, 256);
    let guaranteed = QosClass::Guaranteed.resources_json(&split).unwrap();
    assert_eq!(at(&guaranteed, &["requests", "cpu"]), &Json::text("1000m"));
    assert_eq!(at(&guaranteed, &["limits", "cpu"]), &Json::text("1000m"));
    assert_eq!(at(&guaranteed, &["requests", "memory"]), &Json::text("256Mi"));
    assert_eq!(at(&guaranteed, &["limits", "memory"]), &Json::text("256Mi"));

    let burstable = QosClass::Burstable.resources_json(&split).unwrap();
    assert_eq!(at(&burstable, &["requests", "cpu"]), &Json::text("100m"));
    assert_eq!(at(&burstable, &["limits", "cpu"]), &Json::text("1000m"));
    assert_eq!(at(&burstable, &["requests", "memory"]), &Json::text("128Mi"));
    assert_eq!(at(&burstable, &["limits", "memory"]), &Json::text("256Mi"));

    let equal = QosClass::Burstable
        .resources_json(&PodResources::uniform(1000, 256))
        .unwrap();
    assert_eq!(at(&equal, &["requests", "cpu"]), &Json::text("999m"));
    assert_eq!(at(&equal, &["limits", "cpu"]), &Json::text("1000m"));

    assert!(QosClass::BestEffort.resources_json(&split).is_none());
}

#[test]
fn a_burstable_request_never_falls_to_nothing() {
    let least = QosClass::Burstable
        .resources_json(&PodResources::uniform(0, 1))
        .unwrap();
    assert_eq!(at(&least, &["requests", "cpu"]), &Json::text("0m"));
    assert_eq!(at(&least, &["requests", "memory"]), &Json::text("1Mi"));
}

fn template() -> Json {
    Json::object().with(
        "spec",
        Json::object().with(
            "containers",
            Json::array()
                .item(Json::object().with("name", Json::text("a")).with(
                    "resources",
                    Json::object()
                        .with("requests", Json::object().with("cpu", Json::text("100m"))),
                ))
                .item(Json::object().with("name", Json::text("b"))),
        ),
    )
}

fn containers_of(pod: &Json) -> &Vec<Json> {
    match at(pod, &["spec", "containers"]) {
        Json::Array(items) => items,
        other => panic!("no list: {other:?}"),
    }
}

#[test]
fn apply_to_pod_sets_resources_and_runtime_class() {
    let mut pod = template();
    QosClass::Guaranteed.apply_to_pod(
        &mut pod,
        &PodResources::uniform(1000, 256),
        Some("gvisor"),
    );
    // Every container must carry the block, or the pod is not Guaranteed.
    for container in containers_of(&pod) {
        assert_eq!(
            at(container, &["resources", "limits", "cpu"]),
            &Json::text("1000m")
        );
    }
    assert_eq!(at(&pod, &["spec", "runtimeClassName"]), &Json::text("gvisor"));

    // BestEffort must strip a pre-existing resources block, not merely skip it.
    let mut pod = template();
    QosClass::BestEffort.apply_to_pod(&mut pod, &PodResources::uniform(1000, 256), None);
    assert!(containers_of(&pod)
        .iter()
        .all(|c| c.get("resources").is_none()));
    assert!(at(&pod, &["spec"]).get("runtimeClassName").is_none());
    assert_eq!(at(&containers_of(&pod)[1], &["name"]), &Json::text("b"));
}

#[test]
fn a_pod_without_containers_gets_an_empty_place_for_them() {
    let mut pod = Json::Null;
    QosClass::BestEffort.apply_to_pod(&mut pod, &PodResources::uniform(1, 1), Some("kata"));
    assert_eq!(at(&pod, &["spec", "containers"]), &Json::Null);
    assert_eq!(at(&pod, &["spec", "runtimeClassName"]), &Json::text("kata"));
}

// ---- Files -----------------------------------------------------------------

#[test]
fn unix_utc_formatting() {
    assert_eq!(format_unix_utc(0), "1970-01-01T00:00:00Z");
    assert_eq!(format_unix_utc(1_000_000_000), "2001-09-09T01:46:40Z");
    // Leap day, and the last second before a year boundary.
    assert_eq!(format_unix_utc(1_709_164_800), "2024-02-29T00:00:00Z");
    assert_eq!(format_unix_utc(1_735_689_599), "2024-12-31T23:59:59Z");
    assert_eq!(format_unix_utc(1_770_904_065), "2026-02-12T13:47:45Z");
}

#[test]
fn years_beyond_four_digits_are_written_out() {
    assert_eq!(format_unix_utc(253_402_300_799), "9999-12-31T23:59:59Z");
    assert_eq!(format_unix_utc(253_402_300_800), "10000-01-01T00:00:00Z");
    assert_eq!(format_unix_utc(951_782_400), "2000-02-29T00:00:00Z");
    assert_eq!(format_unix_utc(4_107_542_400), "2100-03-01T00:00:00Z");
}

#[test]
fn later_seconds_have_later_texts() {
    let seconds = [
        0,
        59,
        60,
        3599,
        86_399,
        86_400,
        951_782_400,
        1_735_689_599,
        1_735_689_600,
        253_402_300_799,
    ];
    for pair in seconds.windows(2) {
        assert!(format_unix_utc(pair[0]) < format_unix_utc(pair[1]));
    }
    for second in seconds {
        assert_eq!(format_unix_utc(second).len(), 20);
    }
}

#[test]
fn csv_carries_dispatch_and_slot_time_in_separate_columns() {
    let tenant1 = vec![PointTexts {
        timestamp_secs: format!("{:.3}", 12.0),
        slot_timestamp_secs: Some(format!("{:.3}", 1.5)),
        latency_ms: format!("{:.3}", 330.0),
        scheduled_latency_ms: Some(format!("{:.3}", 10_830.0)),
        is_error: false,
        label: Some("create-cm-0".to_string()),
    }];
    let tenant2 = vec![PointTexts {
        timestamp_secs: format!("{:.3}", 4.0),
        slot_timestamp_secs: None,
        latency_ms: format!("{:.3}", 2.0),
        scheduled_latency_ms: None,
        is_error: true,
        label: Some("tcp-ping-0".to_string()),
    }];

    let written = write_csv(&tenant1, &tenant2);
    let mut lines = written.lines();
    assert_eq!(
        lines.next().unwrap(),
        "tenant,timestamp_secs,latency_ms,is_error,label,scheduled_latency_ms,slot_timestamp_secs"
    );
    assert_eq!(
        lines.next().unwrap(),
        "tenant1,12.000,330.000,false,create-cm-0,10830.000,1.500"
    );
    assert_eq!(
        lines.next().unwrap(),
        "tenant2,4.000,2.000,true,tcp-ping-0,,"
    );
    assert!(lines.next().is_none());

    assert_eq!(
        write_metrics_csv(&tenant1),
        "timestamp_secs,latency_ms,is_error,operation\n12.000,330.000,false,create-cm-0\n"
    );
    assert!(write_csv(&vec![], &vec![]).ends_with("slot_timestamp_secs\n"));
}

#[test]
fn the_files_of_a_run_share_its_time() {
    let paths = export_paths("out/today", "Control Plane", 1_770_904_065);
    assert_eq!(paths.baseline, "out/today/control_plane_baseline_1770904065.csv");
    assert_eq!(
        paths.unbalanced,
        "out/today/control_plane_unbalanced_1770904065.csv"
    );
    assert_eq!(
        paths.manifest,
        "out/today/control_plane_manifest_1770904065.json"
    );
    assert_eq!(paths.baseline_name, "control_plane_baseline_1770904065.csv");
    assert_eq!(paths.unbalanced_name, "control_plane_unbalanced_1770904065.csv");
    assert_eq!(
        announce_export("out/today", &paths),
        "  📁 Exported to out/today/\n      - out/today/control_plane_baseline_1770904065.csv\n      - out/today/control_plane_unbalanced_1770904065.csv\n      - out/today/control_plane_manifest_1770904065.json\n"
    );
    assert_eq!(
        export_paths("out", "Ünter Ätna", 7).baseline,
        "out/ünter_ätna_baseline_7.csv"
    );
    let detailed = detailed_paths("d", "Network", 7);
    assert_eq!(
        detailed.baseline_tenant1,
        "d/fairness_network_baseline_tenant1_7.csv"
    );
    assert_eq!(
        detailed.baseline_tenant2,
        "d/fairness_network_baseline_tenant2_7.csv"
    );
    assert_eq!(
        detailed.unbalanced_regular,
        "d/fairness_network_unbalanced_regular_7.csv"
    );
    assert_eq!(
        detailed.unbalanced_malicious,
        "d/fairness_network_unbalanced_malicious_7.csv"
    );
    assert_eq!(detailed.metadata, "d/fairness_network_metadata_7.json");
}

#[test]
fn a_changed_working_tree_is_marked() {
    assert_eq!(
        git_commit_hash(Some("abc123\n"), false).as_deref(),
        Some("abc123")
    );
    assert_eq!(
        git_commit_hash(Some("abc123\n"), true).as_deref(),
        Some("abc123-dirty")
    );
    assert_eq!(git_commit_hash(Some(" \n"), true), None);
    assert_eq!(git_commit_hash(None, true), None);
}

#[test]
fn the_percentile_is_the_smallest_that_covers_enough() {
    for n in 1..500usize {
        let by_floats = (((n as f64) * 0.95).ceil() as usize).saturating_sub(1).min(n - 1);
        assert_eq!(p95_index(n), by_floats, "of {n}");
    }
    assert_eq!(p95_index(100), 94);
    assert_eq!(p95_index(1), 0);
}

// ---- The control plane's load ----------------------------------------------

#[test]
fn the_assessor_names_what_it_measures() {
    let assessor = FairnessControlPlaneAssessor::new(FairnessControlPlaneConfig { max_workers: 3 });
    assert_eq!(assessor.name(), "Control Plane");
    assert_eq!(
        assessor.configuration(),
        FairnessControlPlaneAssessor::new(FairnessControlPlaneConfig { max_workers: 3 })
            .configuration()
    );
}

#[test]
fn half_of_the_workers_work_on_pods() {
    let scenarios = worker_scenarios(5);
    assert_eq!(
        scenarios,
        vec![
            StressScenario::Pod,
            StressScenario::Pod,
            StressScenario::ConfigMap,
            StressScenario::ConfigMap,
            StressScenario::ConfigMap,
        ]
    );
    assert_eq!(distribute_workers(0), (0, 0));
    assert_eq!(distribute_workers(1), (0, 1));
}

#[test]
fn a_cycle_on_a_pod_creates_and_deletes_one_object() {
    let labels: Vec<String> = (0..4)
        .map(|k| {
            run_stress_test_on_pod(3, "ns", k, 0, 1)
                .expect("before the deadline")
                .label
        })
        .collect();
    assert_eq!(labels.len(), 4);
    // A cycle that has begun is finished, a new one is not begun.
    assert!(run_stress_test_on_pod(3, "ns", 3, 1, 1).is_some());
    assert!(run_stress_test_on_pod(3, "ns", 4, 1, 1).is_none());
    assert!(run_stress_test_on_pod(3, "ns", 0, 1, 1).is_none());
    assert!(matches!(
        run_stress_test_on_pod(3, "ns", 0, 0, 1).unwrap().call,
        StressCall::Create { .. }
    ));
    assert!(matches!(
        run_stress_test_on_pod(3, "ns", 3, 0, 1).unwrap().call,
        StressCall::Delete { .. }
    ));
}

#[test]
fn a_cycle_on_a_configuration_map_makes_six_calls() {
    assert!(matches!(
        run_stress_test_on_configmap(0, "ns", 0, 0, 1).unwrap().call,
        StressCall::Create { .. }
    ));
    assert!(matches!(
        run_stress_test_on_configmap(0, "ns", 5, 0, 1).unwrap().call,
        StressCall::Delete { .. }
    ));
    assert!(run_stress_test_on_configmap(0, "ns", 5, 9, 1).is_some());
    assert!(run_stress_test_on_configmap(0, "ns", 6, 9, 1).is_none());
}
