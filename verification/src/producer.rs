//! Report production: run, threshold verdict and, optionally, a
//! regression verdict against a stored baseline.
//!
//! Running `cargo llvm-cov` and turning the checks into report entries is
//! done by the caller; this module decides which checks a run yields.
use vstd::prelude::*;
use vstd::string::*;

use crate::baseline::Baseline;
use crate::check::{
    CheckOutcome, CheckView, Detail, DetailView, EvidenceValue, Severity, Verdict, evidence_views,
};
use crate::coverage::{CoverageDiff, CoverageResult, CoverageThreshold, any_regression, threshold_check};
use crate::error::{
    CoverageError, is_io_message, parse_prefix, subprocess_prefix, tool_missing_message,
};
use crate::pct::{lt, neg};
use crate::run::{CoverageRun, CoverageRunView, string_views};

verus! {

/// Producer of coverage reports: runs a [`CoverageRun`], compares the
/// result against the configured [`CoverageThreshold`], and (optionally)
/// flags regressions against a stored [`Baseline`].
pub struct CoverageProducer {
    run: CoverageRun,
    threshold: CoverageThreshold,
    baseline: Option<Baseline>,
    regression_tolerance_pct: u64,
}

/// What a [`CoverageProducer`] holds.
pub struct CoverageProducerView {
    pub run: CoverageRunView,
    pub threshold: CoverageThreshold,
    pub baseline: Option<Baseline>,
    pub regression_tolerance_pct: u64,
}

impl View for CoverageProducer {
    type V = CoverageProducerView;

    closed spec fn view(&self) -> CoverageProducerView {
        CoverageProducerView {
            run: self.run@,
            threshold: self.threshold,
            baseline: self.baseline,
            regression_tolerance_pct: self.regression_tolerance_pct,
        }
    }
}

/// The text of an error's message, as [`CoverageError::message`] gives it
/// (for `Io`, the prefix followed by the I/O error's `to_string`).
pub open spec fn is_error_message(e: CoverageError, text: Seq<char>) -> bool {
    match e {
        CoverageError::ToolNotInstalled => text == tool_missing_message(),
        CoverageError::SubprocessFailed(d) => text == subprocess_prefix() + d@,
        CoverageError::ParseError(d) => text == parse_prefix() + d@,
        CoverageError::Io(io) => is_io_message(io, text),
    }
}

/// The check a run that could not produce a result yields: a critical
/// failure named `coverage::<subject>`, tagged `coverage` and
/// `subprocess`, whose detail is the error's message.
pub open spec fn failure_check(subject: Seq<char>, e: CoverageError, c: CheckView) -> bool {
    &&& c.name == "coverage::"@ + subject
    &&& c.verdict == Verdict::Fail
    &&& c.severity == Some(Severity::Critical)
    &&& c.detail matches Some(DetailView::Text(text)) && is_error_message(e, text)
    &&& c.tags == seq!["coverage"@, "subprocess"@]
    &&& c.evidence == Seq::<(Seq<char>, EvidenceValue)>::empty()
}

/// The regression check for the given deltas and tolerance: named
/// `coverage::regression::<subject>`; a failure with severity `Error`,
/// tagged `coverage` and `regression`, when the deltas regress, and a
/// pass tagged `coverage` otherwise.
pub open spec fn regression_check(
    subject: Seq<char>,
    line: u64,
    function: u64,
    region: u64,
    tolerance: u64,
) -> CheckView {
    let regressed = any_regression(line, function, region, tolerance);
    CheckView {
        name: "coverage::regression::"@ + subject,
        verdict: if regressed {
            Verdict::Fail
        } else {
            Verdict::Pass
        },
        severity: if regressed {
            Some(Severity::Error)
        } else {
            None
        },
        detail: Some(DetailView::Deltas { line, function, region, tolerance }),
        tags: if regressed {
            seq!["coverage"@, "regression"@]
        } else {
            seq!["coverage"@]
        },
        evidence: seq![],
    }
}

/// The regression verdict record is named
/// `coverage::regression::<subject>`; it fails exactly when the line, the
/// function or the region delta is below the negated tolerance, and then
/// carries severity `Error` and the tags `coverage` and `regression`;
/// otherwise it passes with no severity and the tag `coverage` alone. Its
/// detail carries the three deltas and the tolerance as given.
pub proof fn lemma_regression_check_report(
    subject: Seq<char>,
    line: u64,
    function: u64,
    region: u64,
    tolerance: u64,
)
    ensures
        ({
            let c = regression_check(subject, line, function, region, tolerance);
            let regressed = lt(line, neg(tolerance)) || lt(function, neg(tolerance)) || lt(
                region,
                neg(tolerance),
            );
            &&& c.name == "coverage::regression::"@ + subject
            &&& (c.verdict == Verdict::Fail) == regressed
            &&& (c.verdict == Verdict::Pass) == !regressed
            &&& regressed ==> c.severity == Some(Severity::Error) && c.tags == seq![
                "coverage"@,
                "regression"@,
            ]
            &&& !regressed ==> c.severity is None && c.tags == seq!["coverage"@]
            &&& c.detail == Some(DetailView::Deltas { line, function, region, tolerance })
            &&& c.evidence.len() == 0
        }),
{
}

/// A failed run yields a failure named
/// `coverage::<subject>` with severity `Critical`, tagged `coverage` and
/// `subprocess`, no evidence, and the error's message as its text detail.
pub proof fn lemma_failure_check_report(subject: Seq<char>, e: CoverageError, c: CheckView)
    requires
        failure_check(subject, e, c),
    ensures
        c.name == "coverage::"@ + subject,
        c.verdict == Verdict::Fail,
        c.severity == Some(Severity::Critical),
        c.tags == seq!["coverage"@, "subprocess"@],
        c.evidence.len() == 0,
        c.detail matches Some(DetailView::Text(text)) && match e {
            CoverageError::ToolNotInstalled => text == tool_missing_message(),
            CoverageError::SubprocessFailed(d) => text == subprocess_prefix() + d@,
            CoverageError::ParseError(d) => text == parse_prefix() + d@,
            CoverageError::Io(io) => is_io_message(io, text),
        },
{
}

impl CoverageProducer {
    /// Build a producer with a threshold only.
    pub fn new(run: CoverageRun, threshold: CoverageThreshold) -> (p: Self)
        ensures
            p@ == (CoverageProducerView {
                run: run@,
                threshold,
                baseline: None,
                regression_tolerance_pct: 0,
            }),
    {
        CoverageProducer { run, threshold, baseline: None, regression_tolerance_pct: 0 }
    }

    /// Compare each run against the given baseline. When the current
    /// result regresses by more than `tolerance_pct`, a separate
    /// `coverage::regression::<subject>` check fails alongside the
    /// threshold check.
    pub fn with_baseline(self, baseline: Baseline, tolerance_pct: u64) -> (p: Self)
        ensures
            p@ == (CoverageProducerView {
                baseline: Some(baseline),
                regression_tolerance_pct: tolerance_pct,
                ..self@
            }),
    {
        let mut s = self;
        s.baseline = Some(baseline);
        s.regression_tolerance_pct = tolerance_pct;
        s
    }

    /// The run this producer executes.
    pub fn run(&self) -> (r: &CoverageRun)
        ensures
            r@ == self@.run,
    {
        &self.run
    }

    /// The baseline regressions are measured against, when one was given.
    pub fn baseline(&self) -> (b: Option<&Baseline>)
        ensures
            match b {
                Some(x) => self@.baseline == Some(*x),
                None => self@.baseline is None,
            },
    {
        match &self.baseline {
            Some(x) => Some(x),
            None => None,
        }
    }

    /// The checks one run yields.
    ///
    /// `outcome` is what executing the run gave; `deltas` are the current
    /// line, function and region percentages minus the baseline's (binary64
    /// bits), which the caller must give whenever a baseline is configured
    /// and the run gave a result. A failed run yields the single critical
    /// failure check; a result yields the regression check first — when a
    /// baseline is configured — and then the threshold check.
    pub fn checks_for(
        &self,
        outcome: Result<CoverageResult, CoverageError>,
        deltas: Option<(u64, u64, u64)>,
    ) -> (checks: Vec<CheckOutcome>)
        requires
            self@.baseline is Some && outcome is Ok ==> deltas is Some,
        ensures
            match outcome {
                Err(e) => checks@.len() == 1 && failure_check(self@.run.name, e, checks@[0]@),
                Ok(result) => {
                    let with_regression = self@.baseline is Some;
                    &&& checks@.len() == if with_regression {
                        2int
                    } else {
                        1int
                    }
                    &&& with_regression ==> (deltas matches Some(d) && checks@[0]@
                        == regression_check(
                        self@.run.name,
                        d.0,
                        d.1,
                        d.2,
                        self@.regression_tolerance_pct,
                    ))
                    &&& checks@.last()@ == threshold_check(result, self@.threshold)
                },
            },
    {
        let mut checks: Vec<CheckOutcome> = Vec::new();
        match outcome {
            Err(e) => {
                let c = self.failure(&e);
                checks.push(c);
            },
            Ok(result) => {
                if self.baseline.is_some() {
                    if let Some((line, function, region)) = deltas {
                        let c = self.regression(line, function, region);
                        checks.push(c);
                    }
                }
                let c = result.into_check_result(self.threshold);
                checks.push(c);
            },
        }
        checks
    }

    /// The critical failure check for a run that gave `e`.
    fn failure(&self, e: &CoverageError) -> (c: CheckOutcome)
        ensures
            failure_check(self@.run.name, *e, c@),
    {
        let name = String::from_str("coverage::").concat(self.run.subject());
        let mut tags: Vec<String> = Vec::new();
        tags.push(String::from_str("coverage"));
        tags.push(String::from_str("subprocess"));
        let c = CheckOutcome {
            name,
            verdict: Verdict::Fail,
            severity: Some(Severity::Critical),
            detail: Some(Detail::Text(e.message())),
            tags,
            evidence: Vec::new(),
        };
        proof {
            assert(string_views(c.tags@) =~= seq!["coverage"@, "subprocess"@]);
            assert(evidence_views(c.evidence@) =~= seq![]);
        }
        c
    }

    /// The regression check for the given deltas.
    fn regression(&self, line: u64, function: u64, region: u64) -> (c: CheckOutcome)
        ensures
            c@ == regression_check(
                self@.run.name,
                line,
                function,
                region,
                self@.regression_tolerance_pct,
            ),
    {
        let tolerance = self.regression_tolerance_pct;
        let diff = CoverageDiff::from_deltas(line, function, region, tolerance);
        let name = String::from_str("coverage::regression::").concat(self.run.subject());
        let mut tags: Vec<String> = Vec::new();
        tags.push(String::from_str("coverage"));
        if diff.regressed {
            tags.push(String::from_str("regression"));
        }
        let c = CheckOutcome {
            name,
            verdict: if diff.regressed {
                Verdict::Fail
            } else {
                Verdict::Pass
            },
            severity: if diff.regressed {
                Some(Severity::Error)
            } else {
                None
            },
            detail: Some(Detail::Deltas { line, function, region, tolerance }),
            tags,
            evidence: Vec::new(),
        };
        proof {
            assert(string_views(c.tags@) =~= regression_check(
                self@.run.name,
                line,
                function,
                region,
                tolerance,
            ).tags);
            assert(evidence_views(c.evidence@) =~= seq![]);
        }
        c
    }
}

} // verus!
