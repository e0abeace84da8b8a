//! Public-API smoke tests: builder chain, accessors, threshold verdicts,
//! baseline diffs.

use dev_coverage::{
    Baseline, CoverageDiff, CoverageResult, CoverageRun, CoverageThreshold, FileCoverage, Verdict,
};

fn pct(x: f64) -> u64 {
    x.to_bits()
}

fn fixture(line: f64, func: f64, region: f64) -> CoverageResult {
    CoverageResult {
        name: "x".into(),
        version: "0.1.0".into(),
        line_pct: pct(line),
        function_pct: pct(func),
        region_pct: pct(region),
        branch_pct: None,
        total_lines: 100,
        covered_lines: line as u64,
        total_functions: 20,
        covered_functions: (func / 5.0) as u64,
        total_regions: 50,
        covered_regions: (region / 2.0) as u64,
        files: Vec::new(),
    }
}

/// The diff of `r` against `b`: the deltas are binary64 subtractions,
/// the regression verdict is the library's.
fn diff(r: &CoverageResult, b: &Baseline, tolerance: f64) -> CoverageDiff {
    let d = |cur: u64, base: u64| (f64::from_bits(cur) - f64::from_bits(base)).to_bits();
    CoverageDiff::from_deltas(
        d(r.line_pct, b.line_pct),
        d(r.function_pct, b.function_pct),
        d(r.region_pct, b.region_pct),
        tolerance.to_bits(),
    )
}

#[test]
fn run_builds_with_full_builder_chain() {
    let _ = CoverageRun::new("test-crate", "0.1.0")
        .workspace()
        .all_features()
        .exclude("tests/*")
        .feature("alpha")
        .per_file();
}

#[test]
fn run_accessors_round_trip_args_passed_to_new() {
    let run = CoverageRun::new("alpha", "1.2.3");
    assert_eq!(run.subject(), "alpha");
    assert_eq!(run.subject_version(), "1.2.3");
}

#[test]
fn threshold_pass_when_meets_target() {
    let c = fixture(85.0, 90.0, 80.0).into_check_result(CoverageThreshold::min_line_pct(pct(80.0)));
    assert_eq!(c.verdict, Verdict::Pass);
}

#[test]
fn smoke_threshold_fail_when_below() {
    let c = fixture(50.0, 60.0, 40.0).into_check_result(CoverageThreshold::min_line_pct(pct(80.0)));
    assert_eq!(c.verdict, Verdict::Fail);
}

#[test]
fn each_threshold_type_works() {
    let r = fixture(85.0, 90.0, 75.0);
    let line = r
        .clone()
        .into_check_result(CoverageThreshold::min_line_pct(pct(80.0)));
    let func = r
        .clone()
        .into_check_result(CoverageThreshold::min_function_pct(pct(80.0)));
    let region = r.into_check_result(CoverageThreshold::min_region_pct(pct(80.0)));
    assert_eq!(line.verdict, Verdict::Pass);
    assert_eq!(func.verdict, Verdict::Pass);
    assert_eq!(region.verdict, Verdict::Fail);
}

#[test]
fn diff_against_baseline_signs_correctly() {
    let r = fixture(75.0, 80.0, 70.0);
    let baseline = Baseline {
        name: "x".into(),
        line_pct: pct(80.0),
        function_pct: pct(85.0),
        region_pct: pct(75.0),
    };
    let d = diff(&r, &baseline, 0.0);
    assert!(d.regressed);
    assert!(f64::from_bits(d.line_pct_delta) < 0.0);
}

#[test]
fn to_baseline_drops_per_file_detail() {
    let mut r = fixture(80.0, 85.0, 75.0);
    r.files = vec![FileCoverage {
        filename: "src/lib.rs".into(),
        line_pct: pct(50.0),
        function_pct: pct(50.0),
        region_pct: pct(50.0),
        total_lines: 10,
        covered_lines: 5,
    }];
    let b = r.to_baseline();
    assert_eq!(b.name, "x");
    assert_eq!(f64::from_bits(b.line_pct), 80.0);
}
