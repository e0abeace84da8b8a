//! Coverage results, thresholds, baseline diffs and their verdicts.
use vstd::prelude::*;
use vstd::set_lib::*;
use vstd::string::*;

use crate::baseline::Baseline;
use crate::check::{
    CheckOutcome, CheckView, Detail, DetailView, Evidence, EvidenceValue, Severity, Verdict,
    evidence_views,
};
use crate::pct::{ge, is_min_of, is_nan, lt, neg, pct_ge, pct_lt, pct_min, pct_neg, rank};
use crate::run::string_views;

verus! {

/// Coverage measurements for a single source file.
#[derive(Debug, Clone)]
pub struct FileCoverage {
    /// Path emitted by `cargo llvm-cov`.
    pub filename: String,
    /// Line coverage percentage (binary64 bits).
    pub line_pct: u64,
    /// Function coverage percentage (binary64 bits).
    pub function_pct: u64,
    /// Region coverage percentage (binary64 bits).
    pub region_pct: u64,
    /// Total executable lines in this file.
    pub total_lines: u64,
    /// Lines in this file exercised at least once.
    pub covered_lines: u64,
}

/// Result of a coverage run. Percentages are binary64 bit patterns of
/// values in `0.0..=100.0`; `files` is populated only when the run was
/// configured with `per_file` (see `run_result_from_export`).
#[derive(Debug, Clone)]
pub struct CoverageResult {
    /// Crate or subject name.
    pub name: String,
    /// Subject version.
    pub version: String,
    /// Percentage of executable lines exercised by tests.
    pub line_pct: u64,
    /// Percentage of functions called by tests.
    pub function_pct: u64,
    /// Percentage of regions exercised.
    pub region_pct: u64,
    /// Percentage of branches exercised, when the build emits branch counts.
    pub branch_pct: Option<u64>,
    /// Total executable lines.
    pub total_lines: u64,
    /// Lines exercised at least once.
    pub covered_lines: u64,
    /// Total functions.
    pub total_functions: u64,
    /// Functions called by at least one test.
    pub covered_functions: u64,
    /// Total regions.
    pub total_regions: u64,
    /// Regions exercised at least once.
    pub covered_regions: u64,
    /// Per-file breakdown; empty unless the run asked for it.
    pub files: Vec<FileCoverage>,
}

/// Threshold defining the minimum acceptable coverage.
#[derive(Debug, Clone, Copy)]
pub enum CoverageThreshold {
    /// Fail unless `line_pct` meets or exceeds the given percentage.
    MinLinePct(u64),
    /// Fail unless `function_pct` meets or exceeds the given percentage.
    MinFunctionPct(u64),
    /// Fail unless `region_pct` meets or exceeds the given percentage.
    MinRegionPct(u64),
}

/// Signed deltas between a current result and a stored baseline, as
/// binary64 bit patterns, and whether they amount to a regression.
#[derive(Debug, Clone, Copy)]
pub struct CoverageDiff {
    /// Current `line_pct` minus baseline `line_pct`.
    pub line_pct_delta: u64,
    /// Current `function_pct` minus baseline `function_pct`.
    pub function_pct_delta: u64,
    /// Current `region_pct` minus baseline `region_pct`.
    pub region_pct_delta: u64,
    /// `true` when at least one delta is worse than the tolerance.
    pub regressed: bool,
}

impl CoverageThreshold {
    /// Build a line-coverage threshold.
    pub fn min_line_pct(pct: u64) -> (t: Self)
        ensures
            t == CoverageThreshold::MinLinePct(pct),
    {
        CoverageThreshold::MinLinePct(pct)
    }

    /// Build a function-coverage threshold.
    pub fn min_function_pct(pct: u64) -> (t: Self)
        ensures
            t == CoverageThreshold::MinFunctionPct(pct),
    {
        CoverageThreshold::MinFunctionPct(pct)
    }

    /// Build a region-coverage threshold.
    pub fn min_region_pct(pct: u64) -> (t: Self)
        ensures
            t == CoverageThreshold::MinRegionPct(pct),
    {
        CoverageThreshold::MinRegionPct(pct)
    }

    /// The percentage the threshold asks for.
    pub open spec fn target(self) -> u64 {
        match self {
            CoverageThreshold::MinLinePct(p) => p,
            CoverageThreshold::MinFunctionPct(p) => p,
            CoverageThreshold::MinRegionPct(p) => p,
        }
    }

    /// The name of the metric the threshold applies to.
    pub open spec fn label(self) -> Seq<char> {
        match self {
            CoverageThreshold::MinLinePct(_) => "line"@,
            CoverageThreshold::MinFunctionPct(_) => "function"@,
            CoverageThreshold::MinRegionPct(_) => "region"@,
        }
    }

    /// The percentage of `r` the threshold is held against.
    pub open spec fn measured(self, r: CoverageResult) -> u64 {
        match self {
            CoverageThreshold::MinLinePct(_) => r.line_pct,
            CoverageThreshold::MinFunctionPct(_) => r.function_pct,
            CoverageThreshold::MinRegionPct(_) => r.region_pct,
        }
    }

    /// The measured percentage, the target and the metric's name.
    fn applied_to(self, r: &CoverageResult) -> (out: (u64, u64, &'static str))
        ensures
            out.0 == self.measured(*r),
            out.1 == self.target(),
            out.2@ == self.label(),
    {
        match self {
            CoverageThreshold::MinLinePct(p) => (r.line_pct, p, "line"),
            CoverageThreshold::MinFunctionPct(p) => (r.function_pct, p, "function"),
            CoverageThreshold::MinRegionPct(p) => (r.region_pct, p, "region"),
        }
    }
}

/// The check a result gets against a threshold: it fails, with severity
/// `Warning`, unless the measured percentage meets or exceeds the target.
/// A NaN on either side meets nothing, so it fails.
pub open spec fn threshold_check(r: CoverageResult, t: CoverageThreshold) -> CheckView {
    let actual = t.measured(r);
    let target = t.target();
    let below = !ge(actual, target);
    CheckView {
        name: "coverage::"@ + r.name@,
        verdict: if below {
            Verdict::Fail
        } else {
            Verdict::Pass
        },
        severity: if below {
            Some(Severity::Warning)
        } else {
            None
        },
        detail: Some(DetailView::Threshold { label: t.label(), actual, target }),
        tags: seq!["coverage"@],
        evidence: seq![
            (t.label() + "_pct"@, EvidenceValue::Numeric(actual)),
            (t.label() + "_pct_threshold"@, EvidenceValue::Numeric(target)),
            ("total_lines"@, EvidenceValue::Integer(r.total_lines as i64)),
            ("covered_lines"@, EvidenceValue::Integer(r.covered_lines as i64)),
        ],
    }
}

/// A delta regresses when it is below the negated tolerance.
pub open spec fn regresses(delta: u64, tolerance: u64) -> bool {
    lt(delta, neg(tolerance))
}

/// At least one of the three deltas regresses.
pub open spec fn any_regression(line: u64, function: u64, region: u64, tolerance: u64) -> bool {
    regresses(line, tolerance) || regresses(function, tolerance) || regresses(region, tolerance)
}

/// `i` comes before `j` in ascending line coverage; ties keep the order
/// the files were listed in.
pub open spec fn line_order_before(files: Seq<FileCoverage>, i: int, j: int) -> bool {
    rank(files[i].line_pct) < rank(files[j].line_pct) || (rank(files[i].line_pct) == rank(
        files[j].line_pct,
    ) && i < j)
}

/// `order` lists the indices of all `files` by ascending line coverage,
/// ties in the order the files are listed in (what a stable sort gives).
pub open spec fn is_line_order(files: Seq<FileCoverage>, order: Seq<int>) -> bool {
    &&& order.len() == files.len()
    &&& forall|k: int| 0 <= k < order.len() ==> 0 <= #[trigger] order[k] < files.len()
    &&& forall|a: int, b: int|
        0 <= a < b < order.len() ==> line_order_before(files, #[trigger] order[a], #[trigger] order[b])
}

/// No line coverage percentage is a NaN.
pub open spec fn no_nan_line_pct(files: Seq<FileCoverage>) -> bool {
    forall|i: int| 0 <= i < files.len() ==> !is_nan(#[trigger] files[i].line_pct)
}

/// Two ways of computing the NaN-ignoring minimum agree on `<`.
proof fn lemma_min_lt(a: u64, b: u64, m: u64, x: u64)
    requires
        is_min_of(a, b, m),
    ensures
        lt(m, x) == (lt(a, x) || lt(b, x)),
{
}

/// A diff whose three deltas are none of them negative never regresses
/// under a tolerance that is not negative: an improvement (or no change)
/// is not a regression.
pub proof fn lemma_improvement_is_not_regression(
    line: u64,
    function: u64,
    region: u64,
    tolerance: u64,
)
    requires
        !lt(line, 0),
        !lt(function, 0),
        !lt(region, 0),
        !lt(tolerance, 0),
    ensures
        !any_regression(line, function, region, tolerance),
{
}

/// Widening the tolerance never turns an accepted diff into a regression:
/// whatever regresses under a tolerance also regresses under any smaller
/// one.
pub proof fn lemma_regression_monotone_in_tolerance(
    line: u64,
    function: u64,
    region: u64,
    smaller: u64,
    larger: u64,
)
    requires
        !is_nan(smaller),
        !is_nan(larger),
        rank(smaller) <= rank(larger),
    ensures
        any_regression(line, function, region, larger) ==> any_regression(
            line,
            function,
            region,
            smaller,
        ),
{
}

/// The indices before position `k` of a line order are exactly the
/// indices that come before `order[k]`.
proof fn lemma_line_order_prefix(files: Seq<FileCoverage>, order: Seq<int>, k: int)
    requires
        is_line_order(files, order),
        0 <= k < order.len(),
    ensures
        order.take(k).to_set() =~= Set::new(
            |y: int| 0 <= y < files.len() && line_order_before(files, y, order[k]),
        ),
        order.take(k).to_set().len() == k,
{
    lemma_line_order_covers(files, order);
    let before_k = Set::new(|y: int| 0 <= y < files.len() && line_order_before(files, y, order[k]));
    assert forall|y: int| #[trigger] order.take(k).to_set().contains(y) implies before_k.contains(y) by {
        let j = choose|j: int| 0 <= j < k && order.take(k)[j] == y;
        assert(order[j] == y);
    }
    assert forall|y: int| before_k.contains(y) implies #[trigger] order.take(k).to_set().contains(y) by {
        assert(order.contains(y));
        let j = choose|j: int| 0 <= j < order.len() && order[j] == y;
        if j >= k {
            if j > k {
                assert(line_order_before(files, order[k], order[j]));
            }
            assert(false);
        }
        assert(order.take(k)[j] == y);
    }
    let prefix = order.take(k);
    assert(prefix.no_duplicates()) by {
        assert forall|a: int, b: int| 0 <= a < prefix.len() && 0 <= b < prefix.len() && a != b
            implies prefix[a] != prefix[b] by {
            if a < b {
                assert(line_order_before(files, order[a], order[b]));
            } else {
                assert(line_order_before(files, order[b], order[a]));
            }
        }
    }
    prefix.unique_seq_to_set();
}

/// A line order lists every index of `files`.
proof fn lemma_line_order_covers(files: Seq<FileCoverage>, order: Seq<int>)
    requires
        is_line_order(files, order),
    ensures
        forall|y: int| 0 <= y < files.len() ==> #[trigger] order.contains(y),
{
    assert(order.no_duplicates()) by {
        assert forall|a: int, b: int| 0 <= a < order.len() && 0 <= b < order.len() && a != b
            implies order[a] != order[b] by {
            if a < b {
                assert(line_order_before(files, order[a], order[b]));
            } else {
                assert(line_order_before(files, order[b], order[a]));
            }
        }
    }
    order.unique_seq_to_set();
    lemma_int_range(0, files.len() as int);
    assert(order.to_set().subset_of(set_int_range(0, files.len() as int)));
    lemma_subset_equality(order.to_set(), set_int_range(0, files.len() as int));
    assert forall|y: int| 0 <= y < files.len() implies #[trigger] order.contains(y) by {
        assert(set_int_range(0, files.len() as int).contains(y));
        assert(order.to_set().contains(y));
    }
}

/// There is exactly one line order of a list of files: the files sorted
/// by ascending line coverage, ties in their listed order. So the files
/// [`CoverageResult::least_covered_files`] returns are determined by the
/// list and `n` alone.
pub proof fn lemma_line_order_unique(files: Seq<FileCoverage>, first: Seq<int>, second: Seq<int>)
    requires
        is_line_order(files, first),
        is_line_order(files, second),
    ensures
        first == second,
{
    lemma_line_order_covers(files, second);
    assert forall|k: int| 0 <= k < first.len() implies first[k] == second[k] by {
        let x = first[k];
        assert(0 <= x < files.len());
        assert(second.contains(x));
        let p = choose|p: int| 0 <= p < second.len() && second[p] == x;
        lemma_line_order_prefix(files, first, k);
        lemma_line_order_prefix(files, second, p);
    }
    assert(first =~= second);
}

/// The verdict of a threshold check reads the metric the threshold names
/// and nothing else: it is a pass exactly when that metric of the result
/// meets or exceeds the target, whatever the other metrics are, and a
/// failure carries severity `Warning` while a pass carries none.
pub proof fn lemma_threshold_verdict(r: CoverageResult, t: CoverageThreshold)
    ensures
        (threshold_check(r, t).verdict == Verdict::Pass) == match t {
            CoverageThreshold::MinLinePct(p) => ge(r.line_pct, p),
            CoverageThreshold::MinFunctionPct(p) => ge(r.function_pct, p),
            CoverageThreshold::MinRegionPct(p) => ge(r.region_pct, p),
        },
        threshold_check(r, t).verdict == Verdict::Pass || threshold_check(r, t).verdict
            == Verdict::Fail,
        threshold_check(r, t).verdict == Verdict::Pass ==> threshold_check(r, t).severity is None,
        threshold_check(r, t).verdict == Verdict::Fail ==> threshold_check(r, t).severity == Some(
            Severity::Warning,
        ),
{
}

/// Besides its verdict, a threshold verdict record is named
/// `coverage::<name>`, tagged `coverage` alone, and carries as evidence,
/// in this order, the measured percentage of the named metric, the
/// target, and the total and covered line counts.
pub proof fn lemma_threshold_check_report(r: CoverageResult, t: CoverageThreshold)
    ensures
        threshold_check(r, t).name == "coverage::"@ + r.name@,
        threshold_check(r, t).tags == seq!["coverage"@],
        threshold_check(r, t).evidence.len() == 4,
        threshold_check(r, t).evidence[2] == ("total_lines"@, EvidenceValue::Integer(
            r.total_lines as i64,
        )),
        threshold_check(r, t).evidence[3] == ("covered_lines"@, EvidenceValue::Integer(
            r.covered_lines as i64,
        )),
        match t {
            CoverageThreshold::MinLinePct(p) => {
                &&& threshold_check(r, t).detail == Some(
                    DetailView::Threshold { label: "line"@, actual: r.line_pct, target: p },
                )
                &&& threshold_check(r, t).evidence[0] == ("line_pct"@, EvidenceValue::Numeric(
                    r.line_pct,
                ))
                &&& threshold_check(r, t).evidence[1] == ("line_pct_threshold"@,
                    EvidenceValue::Numeric(p))
            },
            CoverageThreshold::MinFunctionPct(p) => {
                &&& threshold_check(r, t).detail == Some(
                    DetailView::Threshold { label: "function"@, actual: r.function_pct, target: p },
                )
                &&& threshold_check(r, t).evidence[0] == ("function_pct"@, EvidenceValue::Numeric(
                    r.function_pct,
                ))
                &&& threshold_check(r, t).evidence[1] == ("function_pct_threshold"@,
                    EvidenceValue::Numeric(p))
            },
            CoverageThreshold::MinRegionPct(p) => {
                &&& threshold_check(r, t).detail == Some(
                    DetailView::Threshold { label: "region"@, actual: r.region_pct, target: p },
                )
                &&& threshold_check(r, t).evidence[0] == ("region_pct"@, EvidenceValue::Numeric(
                    r.region_pct,
                ))
                &&& threshold_check(r, t).evidence[1] == ("region_pct_threshold"@,
                    EvidenceValue::Numeric(p))
            },
        },
{
    reveal_strlit("line");
    reveal_strlit("function");
    reveal_strlit("region");
    reveal_strlit("_pct");
    reveal_strlit("_pct_threshold");
    reveal_strlit("line_pct");
    reveal_strlit("line_pct_threshold");
    reveal_strlit("function_pct");
    reveal_strlit("function_pct_threshold");
    reveal_strlit("region_pct");
    reveal_strlit("region_pct_threshold");
    match t {
        CoverageThreshold::MinLinePct(p) => {
            assert("line"@ + "_pct"@ =~= "line_pct"@);
            assert("line"@ + "_pct_threshold"@ =~= "line_pct_threshold"@);
        },
        CoverageThreshold::MinFunctionPct(p) => {
            assert("function"@ + "_pct"@ =~= "function_pct"@);
            assert("function"@ + "_pct_threshold"@ =~= "function_pct_threshold"@);
        },
        CoverageThreshold::MinRegionPct(p) => {
            assert("region"@ + "_pct"@ =~= "region_pct"@);
            assert("region"@ + "_pct_threshold"@ =~= "region_pct_threshold"@);
        },
    }
}

/// Each of the three deltas alone decides a regression: a diff regresses
/// exactly when its line, its function or its region delta is below the
/// negated tolerance.
pub proof fn lemma_each_delta_decides_regression(
    line: u64,
    function: u64,
    region: u64,
    tolerance: u64,
)
    ensures
        lt(line, neg(tolerance)) ==> any_regression(line, function, region, tolerance),
        lt(function, neg(tolerance)) ==> any_regression(line, function, region, tolerance),
        lt(region, neg(tolerance)) ==> any_regression(line, function, region, tolerance),
        any_regression(line, function, region, tolerance) ==> lt(line, neg(tolerance)) || lt(
            function,
            neg(tolerance),
        ) || lt(region, neg(tolerance)),
{
}

/// A diff regresses exactly when the worst delta — `f64::min` of the
/// three, NaN deltas ignored — is below the negated tolerance.
pub proof fn lemma_regression_is_worst_delta_below_tolerance(
    line: u64,
    function: u64,
    region: u64,
    tolerance: u64,
    first: u64,
    worst: u64,
)
    requires
        is_min_of(line, function, first),
        is_min_of(first, region, worst),
    ensures
        any_regression(line, function, region, tolerance) == lt(worst, neg(tolerance)),
{
    lemma_min_lt(line, function, first, neg(tolerance));
    lemma_min_lt(first, region, worst, neg(tolerance));
}

/// The first `n` entries of a line order are the files of lowest line
/// coverage, in ascending order: each is not above the next, and every
/// file further down the order is not below any of them.
pub proof fn lemma_line_order_lowest_first(files: Seq<FileCoverage>, order: Seq<int>, n: int)
    requires
        is_line_order(files, order),
        0 <= n <= order.len(),
    ensures
        forall|k: int|
            0 <= k < n - 1 ==> rank(files[order[k]].line_pct) <= rank(
                #[trigger] files[order[k + 1]].line_pct,
            ),
        forall|k: int, p: int|
            0 <= k < n <= p < order.len() ==> rank(#[trigger] files[order[k]].line_pct) <= rank(
                #[trigger] files[order[p]].line_pct,
            ),
        forall|j: int| 0 <= j < files.len() ==> #[trigger] order.contains(j),
{
    assert forall|k: int| 0 <= k < n - 1 implies rank(files[order[k]].line_pct) <= rank(
        #[trigger] files[order[k + 1]].line_pct,
    ) by {
        assert(line_order_before(files, order[k], order[k + 1]));
    }
    assert forall|k: int, p: int| 0 <= k < n <= p < order.len() implies rank(
        #[trigger] files[order[k]].line_pct,
    ) <= rank(#[trigger] files[order[p]].line_pct) by {
        assert(line_order_before(files, order[k], order[p]));
    }
    lemma_line_order_covers(files, order);
}

impl CoverageDiff {
    /// Build the diff from the three deltas (current minus baseline) and
    /// flag it as regressed when the smallest delta is below
    /// `-tolerance_pct`, NaN deltas being ignored as `f64::min` ignores
    /// them.
    pub fn from_deltas(line: u64, function: u64, region: u64, tolerance_pct: u64) -> (d: Self)
        ensures
            d.line_pct_delta == line,
            d.function_pct_delta == function,
            d.region_pct_delta == region,
            d.regressed == any_regression(line, function, region, tolerance_pct),
            lt(line, neg(tolerance_pct)) ==> d.regressed,
            lt(function, neg(tolerance_pct)) ==> d.regressed,
            lt(region, neg(tolerance_pct)) ==> d.regressed,
            d.regressed ==> lt(line, neg(tolerance_pct)) || lt(function, neg(tolerance_pct)) || lt(
                region,
                neg(tolerance_pct),
            ),
    {
        let first = pct_min(line, function);
        let worst = pct_min(first, region);
        let floor = pct_neg(tolerance_pct);
        let regressed = pct_lt(worst, floor);
        proof {
            lemma_min_lt(line, function, first, floor);
            lemma_min_lt(first, region, worst, floor);
        }
        CoverageDiff {
            line_pct_delta: line,
            function_pct_delta: function,
            region_pct_delta: region,
            regressed,
        }
    }
}

impl CoverageResult {
    /// Convert this result into a check against the given threshold: pass
    /// when the measured percentage meets or exceeds the threshold,
    /// otherwise fail with severity `Warning`. The check is tagged
    /// `coverage` and carries the actual and target percentages and the
    /// line counts as evidence.
    pub fn into_check_result(self, threshold: CoverageThreshold) -> (c: CheckOutcome)
        ensures
            c@ == threshold_check(self, threshold),
            (c.verdict == Verdict::Pass) == match threshold {
                CoverageThreshold::MinLinePct(p) => ge(self.line_pct, p),
                CoverageThreshold::MinFunctionPct(p) => ge(self.function_pct, p),
                CoverageThreshold::MinRegionPct(p) => ge(self.region_pct, p),
            },
            c.verdict == Verdict::Pass ==> c.severity is None,
            c.verdict == Verdict::Fail ==> c.severity == Some(Severity::Warning),
    {
        let (actual, target, label) = threshold.applied_to(&self);
        let name = String::from_str("coverage::").concat(self.name.as_str());
        let below = !pct_ge(actual, target);
        let mut tags: Vec<String> = Vec::new();
        tags.push(String::from_str("coverage"));
        let mut evidence: Vec<Evidence> = Vec::new();
        evidence.push(
            Evidence {
                label: String::from_str(label).concat("_pct"),
                value: EvidenceValue::Numeric(actual),
            },
        );
        evidence.push(
            Evidence {
                label: String::from_str(label).concat("_pct_threshold"),
                value: EvidenceValue::Numeric(target),
            },
        );
        evidence.push(
            Evidence {
                label: String::from_str("total_lines"),
                value: EvidenceValue::Integer(self.total_lines as i64),
            },
        );
        evidence.push(
            Evidence {
                label: String::from_str("covered_lines"),
                value: EvidenceValue::Integer(self.covered_lines as i64),
            },
        );
        let c = CheckOutcome {
            name,
            verdict: if below {
                Verdict::Fail
            } else {
                Verdict::Pass
            },
            severity: if below {
                Some(Severity::Warning)
            } else {
                None
            },
            detail: Some(Detail::Threshold { label: String::from_str(label), actual, target }),
            tags,
            evidence,
        };
        proof {
            assert(string_views(c.tags@) =~= seq!["coverage"@]);
            assert(evidence_views(c.evidence@) =~= threshold_check(self, threshold).evidence);
            lemma_threshold_verdict(self, threshold);
        }
        c
    }

    /// Convert this result into a [`Baseline`] suitable for persisting:
    /// the name and the three headline percentages, without per-file
    /// detail.
    pub fn to_baseline(&self) -> (b: Baseline)
        ensures
            b.name@ == self.name@,
            b.line_pct == self.line_pct,
            b.function_pct == self.function_pct,
            b.region_pct == self.region_pct,
    {
        Baseline {
            name: self.name.clone(),
            line_pct: self.line_pct,
            function_pct: self.function_pct,
            region_pct: self.region_pct,
        }
    }

    /// Return the `n` files with the lowest line coverage, sorted
    /// ascending; files with equal coverage keep their listed order.
    /// Returns an empty vector when `files` was not populated.
    pub fn least_covered_files(&self, n: usize) -> (least: Vec<&FileCoverage>)
        requires
            n == 0 || self.files@.len() <= 1 || no_nan_line_pct(self.files@),
        ensures
            least@.len() == if n < self.files@.len() {
                n as int
            } else {
                self.files@.len() as int
            },
            least@.len() > 0 ==> exists|order: Seq<int>|
                #![trigger is_line_order(self.files@, order)]
                is_line_order(self.files@, order) && forall|k: int|
                    0 <= k < least@.len() ==> *least@[k] == self.files@[order[k]],
            forall|k: int|
                0 <= k < least@.len() - 1 ==> rank(least@[k].line_pct) <= rank(
                    #[trigger] least@[k + 1].line_pct,
                ),
            forall|j: int, k: int|
                0 <= j < self.files@.len() && 0 <= k < least@.len() && rank(
                    #[trigger] self.files@[j].line_pct,
                ) < rank(#[trigger] least@[k].line_pct) ==> exists|m: int|
                    0 <= m < least@.len() && *least@[m] == self.files@[j],
            forall|k: int, l: int|
                #![trigger least@[k], least@[l]]
                0 <= k < l < least@.len() && rank(least@[k].line_pct) == rank(least@[l].line_pct)
                    ==> exists|i: int, j: int|
                    0 <= i < j < self.files@.len() && self.files@[i] == *least@[k]
                        && self.files@[j] == *least@[l],
            forall|j: int, k: int|
                #![trigger self.files@[j], least@[k]]
                0 <= j < self.files@.len() && 0 <= k < least@.len() && rank(
                    self.files@[j].line_pct,
                ) == rank(least@[k].line_pct) && !(exists|m: int|
                    0 <= m < least@.len() && *least@[m] == self.files@[j]) ==> exists|i: int|
                    0 <= i < j && self.files@[i] == *least@[k],
    {
        if n == 0 {
            return Vec::new();
        }
        let order = self.line_order();
        let take = if n < order.len() {
            n
        } else {
            order.len()
        };
        let mut least: Vec<&FileCoverage> = Vec::new();
        let mut k: usize = 0;
        while k < take
            invariant
                0 <= k <= take,
                take <= order@.len(),
                order@.len() == self.files@.len(),
                forall|j: int| 0 <= j < order@.len() ==> order@[j] < self.files@.len(),
                least@.len() == k,
                forall|j: int| 0 <= j < k ==> *least@[j] == self.files@[order@[j] as int],
            decreases take - k,
        {
            least.push(&self.files[order[k]]);
            k = k + 1;
        }
        proof {
            let ord = order@.map_values(|x: usize| x as int);
            assert(is_line_order(self.files@, ord));
            lemma_line_order_lowest_first(self.files@, ord, take as int);
            assert forall|k: int| 0 <= k < least@.len() - 1 implies rank(least@[k].line_pct)
                <= rank(#[trigger] least@[k + 1].line_pct) by {
                assert(*least@[k] == self.files@[ord[k]]);
                assert(*least@[k + 1] == self.files@[ord[k + 1]]);
            }
            assert forall|j: int, k: int|
                0 <= j < self.files@.len() && 0 <= k < least@.len() && rank(
                    #[trigger] self.files@[j].line_pct,
                ) < rank(#[trigger] least@[k].line_pct) implies exists|m: int|
                0 <= m < least@.len() && *least@[m] == self.files@[j] by {
                assert(ord.contains(j));
                let p = choose|p: int| 0 <= p < ord.len() && ord[p] == j;
                assert(*least@[k] == self.files@[ord[k]]);
                if p >= take {
                    assert(rank(self.files@[ord[k]].line_pct) <= rank(self.files@[ord[p]].line_pct));
                    assert(false);
                }
                assert(*least@[p] == self.files@[j]);
            }
            assert forall|k: int, l: int|
                #![trigger least@[k], least@[l]]
                0 <= k < l < least@.len() && rank(least@[k].line_pct) == rank(least@[l].line_pct)
                    implies exists|i: int, j: int|
                    0 <= i < j < self.files@.len() && self.files@[i] == *least@[k]
                        && self.files@[j] == *least@[l] by {
                assert(line_order_before(self.files@, ord[k], ord[l]));
                assert(self.files@[ord[k]] == *least@[k]);
                assert(self.files@[ord[l]] == *least@[l]);
            }
            assert forall|j: int, k: int|
                #![trigger self.files@[j], least@[k]]
                0 <= j < self.files@.len() && 0 <= k < least@.len() && rank(
                    self.files@[j].line_pct,
                ) == rank(least@[k].line_pct) && !(exists|m: int|
                    0 <= m < least@.len() && *least@[m] == self.files@[j]) implies exists|i: int|
                    0 <= i < j && self.files@[i] == *least@[k] by {
                assert(ord.contains(j));
                let p = choose|p: int| 0 <= p < ord.len() && ord[p] == j;
                if p < take {
                    assert(*least@[p] == self.files@[j]);
                    assert(false);
                }
                assert(line_order_before(self.files@, ord[k], ord[p]));
                assert(self.files@[ord[k]] == *least@[k]);
            }
        }
        least
    }

    /// The indices of the files by ascending line coverage (stable).
    fn line_order(&self) -> (order: Vec<usize>)
        requires
            self.files@.len() <= 1 || no_nan_line_pct(self.files@),
        ensures
            order@.len() == self.files@.len(),
            forall|k: int| 0 <= k < order@.len() ==> order@[k] < self.files@.len(),
            is_line_order(self.files@, order@.map_values(|x: usize| x as int)),
    {
        let ghost files = self.files@;
        let mut order: Vec<usize> = Vec::new();
        let mut i: usize = 0;
        while i < self.files.len()
            invariant
                files == self.files@,
                files.len() <= 1 || no_nan_line_pct(files),
                0 <= i <= files.len(),
                order@.len() == i,
                forall|k: int| 0 <= k < order@.len() ==> order@[k] < i,
                forall|a: int, b: int|
                    0 <= a < b < order@.len() ==> line_order_before(
                        files,
                        #[trigger] order@[a] as int,
                        #[trigger] order@[b] as int,
                    ),
            decreases files.len() - i,
        {
            let key = self.files[i].line_pct;
            let mut pos: usize = 0;
            while pos < order.len() && !pct_lt(key, self.files[order[pos]].line_pct)
                invariant
                    files == self.files@,
                    files.len() <= 1 || no_nan_line_pct(files),
                    i < files.len(),
                    key == files[i as int].line_pct,
                    0 <= pos <= order@.len(),
                    forall|k: int| 0 <= k < order@.len() ==> order@[k] < i,
                    forall|k: int|
                        0 <= k < pos ==> rank(files[#[trigger] order@[k] as int].line_pct) <= rank(
                            key,
                        ),
                decreases order@.len() - pos,
            {
                pos = pos + 1;
            }
            let ghost before = order@;
            order.insert(pos, i);
            proof {
                assert forall|a: int, b: int| 0 <= a < b < order@.len() implies line_order_before(
                    files,
                    #[trigger] order@[a] as int,
                    #[trigger] order@[b] as int,
                ) by {
                    if b < pos {
                        assert(order@[a] == before[a] && order@[b] == before[b]);
                    } else if b == pos {
                        assert(order@[a] == before[a]);
                        assert(rank(files[before[a] as int].line_pct) <= rank(key));
                    } else if a < pos {
                        assert(order@[a] == before[a] && order@[b] == before[b - 1]);
                        if a < b - 1 {
                            assert(line_order_before(files, before[a] as int, before[b - 1] as int));
                        }
                    } else if a == pos {
                        assert(order@[b] == before[b - 1]);
                        assert(pos < before.len());
                        assert(lt(key, files[before[pos as int] as int].line_pct));
                        if pos < b - 1 {
                            assert(line_order_before(
                                files,
                                before[pos as int] as int,
                                before[b - 1] as int,
                            ));
                        }
                    } else {
                        assert(order@[a] == before[a - 1] && order@[b] == before[b - 1]);
                    }
                }
            }
            i = i + 1;
        }
        order
    }
}

} // verus!
