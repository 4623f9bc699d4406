//! The course of a fairness run: its two phases, its verdict and its files.
//!
//! A run is a function from the replies so far to its next turn: lines to show,
//! and then what to do.

use crate::fairness::grade::{
    deliver, delivered, divisions, divisions_of, grade, graded, Divisions, MeasuredPhase,
    MeasuredView, Quotients, QuotientsView,
};
use crate::fairness::measure::Measure;
use crate::fairness::outcome::{
    announce_run, announce_unbalanced, announcement, between_phases, conclude_run, conclusion,
    degradation_of, retention_of, DeliveredLoad, FairnessResult, LoadView, ResultView,
};
use crate::render::{line_views, Span, SpanView};
use crate::text::string_from;
use vstd::prelude::*;
use vstd::string::*;

verus! {

/// A run that is to be made.
#[derive(Debug)]
pub struct FairnessRunner {
    /// The subsystem.
    pub name: String,
    /// What is measured.
    pub metric: String,
    pub baseline_secs: u64,
    pub test_secs: u64,
    /// The factor by which the malicious tenant's load grows, written out.
    pub stress: String,
    /// The rate that the malicious tenant is aimed at in all.
    pub target: Measure,
    /// That rate without decimals.
    pub target_text: String,
    /// Whether the measurements are written to files.
    pub export: bool,
}

/// What a run that is to be made says.
pub struct RunView {
    pub name: Seq<char>,
    pub metric: Seq<char>,
    pub baseline_secs: nat,
    pub test_secs: nat,
    pub stress: Seq<char>,
    pub target: Measure,
    pub target_text: Seq<char>,
    pub export: bool,
}

impl View for FairnessRunner {
    type V = RunView;

    open spec fn view(&self) -> RunView {
        RunView {
            name: self.name@,
            metric: self.metric@,
            baseline_secs: self.baseline_secs as nat,
            test_secs: self.test_secs as nat,
            stress: self.stress@,
            target: self.target,
            target_text: self.target_text@,
            export: self.export,
        }
    }
}

/// What came of what a run asked for.
#[derive(Debug)]
pub enum RunReply {
    /// A phase was measured.
    Measured(MeasuredPhase),
    /// The divisions were made.
    Divided(Quotients),
    /// The files are written.
    Exported,
    /// It failed with this error.
    Failed(String),
}

/// What a reply says.
pub enum RunReplyView {
    Measured(MeasuredView),
    Divided(QuotientsView),
    Exported,
    Failed(Seq<char>),
}

impl View for RunReply {
    type V = RunReplyView;

    open spec fn view(&self) -> RunReplyView {
        match self {
            RunReply::Measured(phase) => RunReplyView::Measured(phase@),
            RunReply::Divided(quotients) => RunReplyView::Divided(quotients@),
            RunReply::Exported => RunReplyView::Exported,
            RunReply::Failed(error) => RunReplyView::Failed(error@),
        }
    }
}

/// What a log of replies says.
pub open spec fn run_replies(log: Seq<RunReply>) -> Seq<RunReplyView> {
    Seq::new(log.len(), |i: int| log[i]@)
}

/// What a run does next.
#[derive(Debug)]
pub enum RunNext {
    /// Measures the baseline: both tenants under equal load.
    Baseline,
    /// Measures the unbalanced phase: the second tenant under heavy load.
    Unbalanced,
    /// Makes the divisions that the result needs.
    Divide(Divisions),
    /// Writes the measurements to files, with this result and this load that the
    /// intruder delivered.
    Export(FairnessResult, DeliveredLoad),
    /// The run ends with this error.
    Failed(String),
    /// The run has ended with this result.
    Done(FairnessResult),
}

/// What a run does next, as a contract sees it.
pub enum RunNextView {
    Baseline,
    Unbalanced,
    Divide(Divisions),
    Export(ResultView, LoadView),
    Failed(Seq<char>),
    Done(ResultView),
}

impl View for RunNext {
    type V = RunNextView;

    open spec fn view(&self) -> RunNextView {
        match self {
            RunNext::Baseline => RunNextView::Baseline,
            RunNext::Unbalanced => RunNextView::Unbalanced,
            RunNext::Divide(divisions) => RunNextView::Divide(*divisions),
            RunNext::Export(result, load) => RunNextView::Export(result@, load@),
            RunNext::Failed(error) => RunNextView::Failed(error@),
            RunNext::Done(result) => RunNextView::Done(result@),
        }
    }
}

/// A turn of a run: what to show, and then what to do.
#[derive(Debug)]
pub struct RunTurn {
    pub lines: Vec<Vec<Span>>,
    pub next: RunNext,
}

/// What a turn says.
pub struct RunTurnView {
    pub lines: Seq<Seq<SpanView>>,
    pub next: RunNextView,
}

impl View for RunTurn {
    type V = RunTurnView;

    open spec fn view(&self) -> RunTurnView {
        RunTurnView { lines: line_views(self.lines@), next: self.next@ }
    }
}

/// A turn that shows nothing.
pub open spec fn silent(next: RunNextView) -> RunTurnView {
    RunTurnView { lines: Seq::empty(), next }
}

/// The end of a run at a reply that is not the one that it waits for.
pub open spec fn broken_off(reply: RunReplyView) -> RunTurnView {
    silent(
        RunNextView::Failed(
            match reply {
                RunReplyView::Failed(error) => error,
                _ => "The run was answered out of turn"@,
            },
        ),
    )
}

/// The turns once both phases are measured: the divisions, the verdict and, where
/// files are wanted, the files. `log` holds the replies from the divisions on.
pub open spec fn verdict_turn(
    run: RunView,
    baseline: MeasuredView,
    unbalanced: MeasuredView,
    log: Seq<RunReplyView>,
) -> RunTurnView {
    if log.len() == 0 {
        silent(RunNextView::Divide(divisions_of(baseline, unbalanced, run.target)))
    } else {
        match log[0] {
            RunReplyView::Divided(quotients) => {
                let result = graded(run.name, baseline, unbalanced, quotients);
                let load = delivered(unbalanced, run.target, run.target_text, quotients);
                if log.len() == 1 {
                    RunTurnView {
                        lines: conclusion(result, load),
                        next: if run.export {
                            RunNextView::Export(result, load)
                        } else {
                            RunNextView::Done(result)
                        },
                    }
                } else if log[1] is Exported {
                    silent(RunNextView::Done(result))
                } else {
                    broken_off(log[1])
                }
            },
            other => broken_off(other),
        }
    }
}

/// The turn after the replies so far: the baseline, the unbalanced phase, the
/// verdict on both and, where files are wanted, the files. A failure ends the
/// run.
pub open spec fn run_turn(run: RunView, log: Seq<RunReplyView>) -> RunTurnView {
    if log.len() == 0 {
        RunTurnView {
            lines: announcement(run.name, run.metric, run.baseline_secs),
            next: RunNextView::Baseline,
        }
    } else {
        match log[0] {
            RunReplyView::Measured(baseline) => if log.len() == 1 {
                RunTurnView {
                    lines: between_phases(baseline.figures, run.test_secs, run.stress),
                    next: RunNextView::Unbalanced,
                }
            } else {
                match log[1] {
                    RunReplyView::Measured(unbalanced) => verdict_turn(
                        run,
                        baseline,
                        unbalanced,
                        log.skip(2),
                    ),
                    other => broken_off(other),
                }
            },
            other => broken_off(other),
        }
    }
}

/// A turn that shows nothing.
fn say_nothing(next: RunNext) -> (r: RunTurn)
    ensures
        r@ == silent(next@),
{
    let lines: Vec<Vec<Span>> = Vec::new();
    assert(line_views(lines@) =~= Seq::empty());
    RunTurn { lines, next }
}

/// The end of a run at a reply that is not the one that it waits for.
fn break_off(reply: &RunReply) -> (r: RunTurn)
    ensures
        r@ == broken_off(reply@),
{
    match reply {
        RunReply::Failed(error) => say_nothing(RunNext::Failed(error.clone())),
        _ => say_nothing(RunNext::Failed(string_from("The run was answered out of turn"))),
    }
}

impl FairnessRunner {
    /// Runs a fairness assessment: the turn after the replies so far.
    pub fn run(&self, log: &Vec<RunReply>) -> (r: RunTurn)
        ensures
            r@ == run_turn(self@, run_replies(log@)),
    {
        if log.len() == 0 {
            return RunTurn {
                lines: announce_run(&self.name, &self.metric, self.baseline_secs),
                next: RunNext::Baseline,
            };
        }
        let baseline = match &log[0] {
            RunReply::Measured(baseline) => baseline,
            other => {
                return break_off(other);
            },
        };
        if log.len() == 1 {
            return RunTurn {
                lines: announce_unbalanced(&baseline.figures, self.test_secs, &self.stress),
                next: RunNext::Unbalanced,
            };
        }
        let unbalanced = match &log[1] {
            RunReply::Measured(unbalanced) => unbalanced,
            other => {
                return break_off(other);
            },
        };
        let ghost rest = run_replies(log@).skip(2);
        if log.len() == 2 {
            assert(rest.len() == 0);
            return say_nothing(RunNext::Divide(divisions(baseline, unbalanced, self.target)));
        }
        assert(rest[0] == log[2]@);
        let quotients = match &log[2] {
            RunReply::Divided(quotients) => quotients,
            other => {
                return break_off(other);
            },
        };
        let result = grade(&self.name, baseline.clone(), unbalanced.clone(), quotients.clone());
        if log.len() == 3 {
            let load = deliver(unbalanced, self.target, &self.target_text, quotients);
            return RunTurn {
                lines: conclude_run(&result, &load),
                next: if self.export {
                    RunNext::Export(result, load)
                } else {
                    RunNext::Done(result)
                },
            };
        }
        assert(rest[1] == log[3]@);
        match &log[3] {
            RunReply::Exported => say_nothing(RunNext::Done(result)),
            other => break_off(other),
        }
    }
}

/// A run ends after four replies at the latest.
pub proof fn every_fairness_run_ends(run: RunView, log: Seq<RunReplyView>)
    requires
        log.len() >= 4,
    ensures
        run_turn(run, log).next is Done || run_turn(run, log).next is Failed,
{
}

/// What a run hands back, and what it writes to files, is the verdict on the two
/// phases that it measured, in their order, under its own name: the regular
/// tenant's latency under stress is held against that of the baseline, and so are
/// its rates. Files are written only by a run that was to write them.
pub proof fn the_result_is_of_what_was_measured(
    run: RunView,
    log: Seq<RunReplyView>,
    result: ResultView,
)
    requires
        run_turn(run, log).next == RunNextView::Done(result) || (run_turn(
            run,
            log,
        ).next matches RunNextView::Export(exported, _) && exported == result),
    ensures
        run_turn(run, log).next is Export ==> run.export,
        log.len() >= 3 && log[0] is Measured && log[1] is Measured && log[2] is Divided,
        result.subsystem == run.name,
        result.baseline == log[0]->Measured_0.figures,
        result.unbalanced == log[1]->Measured_0.figures,
        result.latency_degradation == degradation_of(
            log[0]->Measured_0.latency,
            log[1]->Measured_0.latency,
            log[2]->Divided_0.latency,
        ),
        result.throughput_retention == retention_of(
            log[0]->Measured_0.rate,
            log[2]->Divided_0.rate,
        ),
        result.baseline_load == log[0]->Measured_0.load,
        run_turn(run, log.take(2)).next == RunNextView::Divide(
            divisions_of(log[0]->Measured_0, log[1]->Measured_0, run.target),
        ),
{
    assert(log.take(2).skip(2) =~= seq![]);
    if log.len() > 2 {
        assert(log.skip(2)[0] == log[2]);
    }
}

/// A failure ends a run with its own error, and nothing more is shown.
pub proof fn a_failure_ends_the_run(run: RunView, log: Seq<RunReplyView>, error: Seq<char>)
    requires
        0 < log.len() <= 4,
        log.last() == RunReplyView::Failed(error),
        !(run_turn(run, log.drop_last()).next is Failed),
        !(run_turn(run, log.drop_last()).next is Done),
    ensures
        run_turn(run, log) == silent(RunNextView::Failed(error)),
{
    let before = log.drop_last();
    assert(forall|i: int| 0 <= i < before.len() ==> before[i] == log[i]);
    if log.len() > 2 {
        assert(forall|i: int| 0 <= i < log.len() - 2 ==> log.skip(2)[i] == log[i + 2]);
        assert(forall|i: int| 0 <= i < before.len() - 2 ==> before.skip(2)[i] == before[i + 2]);
    }
}

}
