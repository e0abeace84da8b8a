//! Threshold checks, baseline diffs, least-covered files and the
//! coverage result built from an `llvm-cov` export.

use dev_coverage::{
    coverage_from_export, run_result_from_export, CoverageRun, Baseline, CoverageDiff, CoverageError, CoverageResult,
    CoverageThreshold, Detail, EvidenceValue, FileCoverage, LlvmCovData, LlvmCovExport,
    LlvmCovFile, LlvmCovMetric, LlvmCovTotals, Severity, Verdict,
};

fn pct(x: f64) -> u64 {
    x.to_bits()
}

fn sample_result(line: f64, func: f64, region: f64) -> CoverageResult {
    CoverageResult {
        name: "x".into(),
        version: "0.1.0".into(),
        line_pct: pct(line),
        function_pct: pct(func),
        region_pct: pct(region),
        branch_pct: None,
        total_lines: 100,
        covered_lines: line as u64,
        total_functions: 20,
        covered_functions: 16,
        total_regions: 50,
        covered_regions: 40,
        files: Vec::new(),
    }
}

fn sample_baseline() -> Baseline {
    Baseline {
        name: "x".into(),
        line_pct: pct(80.0),
        function_pct: pct(85.0),
        region_pct: pct(75.0),
    }
}

fn diff(r: &CoverageResult, b: &Baseline, tolerance: f64) -> CoverageDiff {
    let d = |cur: u64, base: u64| (f64::from_bits(cur) - f64::from_bits(base)).to_bits();
    CoverageDiff::from_deltas(
        d(r.line_pct, b.line_pct),
        d(r.function_pct, b.function_pct),
        d(r.region_pct, b.region_pct),
        tolerance.to_bits(),
    )
}

fn file(name: &str, line: f64, total: u64, covered: u64) -> FileCoverage {
    FileCoverage {
        filename: name.into(),
        line_pct: pct(line),
        function_pct: pct(line),
        region_pct: pct(line),
        total_lines: total,
        covered_lines: covered,
    }
}

fn metric(count: u64, covered: u64, percent: f64) -> LlvmCovMetric {
    LlvmCovMetric {
        count,
        covered,
        percent: pct(percent),
    }
}

#[test]
fn threshold_pass_when_above() {
    let c = sample_result(90.0, 85.0, 80.0)
        .into_check_result(CoverageThreshold::min_line_pct(pct(80.0)));
    assert_eq!(c.verdict, Verdict::Pass);
    assert!(c.has_tag("coverage"));
    assert!(c.evidence.iter().any(|e| e.label == "line_pct"));
}

#[test]
fn lib_threshold_fail_when_below() {
    let c = sample_result(50.0, 60.0, 40.0)
        .into_check_result(CoverageThreshold::min_line_pct(pct(80.0)));
    assert_eq!(c.verdict, Verdict::Fail);
    assert_eq!(c.severity, Some(Severity::Warning));
}

#[test]
fn threshold_function_and_region_paths() {
    let r = sample_result(90.0, 50.0, 90.0);
    let c = r
        .clone()
        .into_check_result(CoverageThreshold::min_function_pct(pct(80.0)));
    assert_eq!(c.verdict, Verdict::Fail);
    let c2 = sample_result(90.0, 85.0, 50.0)
        .into_check_result(CoverageThreshold::min_region_pct(pct(80.0)));
    assert_eq!(c2.verdict, Verdict::Fail);
}

#[test]
fn threshold_check_carries_name_evidence_and_detail() {
    let c = sample_result(90.0, 85.0, 80.0)
        .into_check_result(CoverageThreshold::min_function_pct(pct(80.0)));
    assert_eq!(c.name, "coverage::x");
    assert_eq!(c.severity, None);
    assert_eq!(c.tags, vec!["coverage".to_string()]);
    let labels: Vec<&str> = c.evidence.iter().map(|e| e.label.as_str()).collect();
    assert_eq!(
        labels,
        vec!["function_pct", "function_pct_threshold", "total_lines", "covered_lines"]
    );
    assert_eq!(c.evidence[0].value, EvidenceValue::Numeric(pct(85.0)));
    assert_eq!(c.evidence[1].value, EvidenceValue::Numeric(pct(80.0)));
    assert_eq!(c.evidence[2].value, EvidenceValue::Integer(100));
    assert_eq!(c.evidence[3].value, EvidenceValue::Integer(90));
    match c.detail {
        Some(Detail::Threshold { label, actual, target }) => {
            assert_eq!(label, "function");
            assert_eq!(actual, pct(85.0));
            assert_eq!(target, pct(80.0));
        }
        other => panic!("unexpected detail {:?}", other),
    }
}

#[test]
fn threshold_met_exactly_passes() {
    let c = sample_result(80.0, 85.0, 80.0)
        .into_check_result(CoverageThreshold::min_line_pct(pct(80.0)));
    assert_eq!(c.verdict, Verdict::Pass);
}

#[test]
fn threshold_with_nan_measurement_fails() {
    // A NaN measurement does not meet or exceed any threshold.
    let c = sample_result(f64::NAN, 85.0, 80.0)
        .into_check_result(CoverageThreshold::min_line_pct(pct(80.0)));
    assert_eq!(c.verdict, Verdict::Fail);
    assert_eq!(c.severity, Some(Severity::Warning));
}

#[test]
fn threshold_with_nan_target_fails() {
    let c = sample_result(90.0, 85.0, 80.0)
        .into_check_result(CoverageThreshold::min_line_pct(pct(f64::NAN)));
    assert_eq!(c.verdict, Verdict::Fail);
}

#[test]
fn threshold_negative_zero_meets_zero() {
    let c = sample_result(-0.0, 85.0, 80.0)
        .into_check_result(CoverageThreshold::min_line_pct(pct(0.0)));
    assert_eq!(c.verdict, Verdict::Pass);
    let c = sample_result(-1.0, 85.0, 80.0)
        .into_check_result(CoverageThreshold::min_line_pct(pct(-0.0)));
    assert_eq!(c.verdict, Verdict::Fail);
}

#[test]
fn diff_signs_deltas_correctly() {
    let r = sample_result(75.0, 80.0, 70.0);
    let d = diff(&r, &sample_baseline(), 0.0);
    assert!(f64::from_bits(d.line_pct_delta) < 0.0);
    assert!(f64::from_bits(d.function_pct_delta) < 0.0);
    assert!(f64::from_bits(d.region_pct_delta) < 0.0);
    assert!(d.regressed);
}

#[test]
fn diff_tolerance_accepts_small_drops() {
    let r = sample_result(79.5, 84.5, 74.5);
    // 0.5pp drops everywhere; tolerance of 1.0 accepts.
    let d = diff(&r, &sample_baseline(), 1.0);
    assert!(!d.regressed);
}

#[test]
fn diff_improvement_is_not_regression() {
    let r = sample_result(95.0, 95.0, 95.0);
    let d = diff(&r, &sample_baseline(), 0.0);
    assert!(f64::from_bits(d.line_pct_delta) > 0.0);
    assert!(!d.regressed);
}

#[test]
fn diff_example_from_docs() {
    let r = sample_result(75.0, 80.0, 70.0);
    let d = diff(&r, &sample_baseline(), 1.0);
    assert!(d.regressed);
    assert_eq!(f64::from_bits(d.line_pct_delta), -5.0);
}

#[test]
fn diff_single_metric_regression_is_enough() {
    let d = CoverageDiff::from_deltas(pct(3.0), pct(0.0), pct(-1.5), pct(1.0));
    assert!(d.regressed);
    let d = CoverageDiff::from_deltas(pct(3.0), pct(0.0), pct(-1.0), pct(1.0));
    assert!(!d.regressed);
}

#[test]
fn diff_ignores_nan_deltas() {
    let d = CoverageDiff::from_deltas(pct(f64::NAN), pct(f64::NAN), pct(-2.0), pct(1.0));
    assert!(d.regressed);
    let d = CoverageDiff::from_deltas(pct(f64::NAN), pct(f64::NAN), pct(f64::NAN), pct(1.0));
    assert!(!d.regressed);
    let d = CoverageDiff::from_deltas(pct(-5.0), pct(-5.0), pct(-5.0), pct(f64::NAN));
    assert!(!d.regressed);
}

#[test]
fn diff_negative_tolerance_demands_improvement() {
    let d = CoverageDiff::from_deltas(pct(0.5), pct(2.0), pct(2.0), pct(-1.0));
    assert!(d.regressed);
}

#[test]
fn least_covered_files_returns_sorted_subset() {
    let mut r = sample_result(80.0, 80.0, 80.0);
    r.files = vec![
        file("a.rs", 90.0, 10, 9),
        file("b.rs", 50.0, 10, 5),
        file("c.rs", 70.0, 10, 7),
    ];
    let least = r.least_covered_files(2);
    assert_eq!(least.len(), 2);
    assert_eq!(least[0].filename, "b.rs");
    assert_eq!(least[1].filename, "c.rs");
}

#[test]
fn least_covered_files_keeps_ties_in_order_and_caps_at_len() {
    let mut r = sample_result(80.0, 80.0, 80.0);
    r.files = vec![
        file("a.rs", 70.0, 10, 7),
        file("b.rs", -0.0, 10, 0),
        file("c.rs", 70.0, 10, 7),
        file("d.rs", 0.0, 10, 0),
        file("e.rs", 100.0, 10, 10),
    ];
    let least = r.least_covered_files(10);
    let names: Vec<&str> = least.iter().map(|f| f.filename.as_str()).collect();
    assert_eq!(names, vec!["b.rs", "d.rs", "a.rs", "c.rs", "e.rs"]);
    assert!(r.least_covered_files(0).is_empty());
    assert!(sample_result(1.0, 1.0, 1.0).least_covered_files(3).is_empty());
}

#[test]
fn to_baseline_keeps_headline_numbers() {
    let mut r = sample_result(85.0, 88.0, 80.0);
    r.files.push(file("a.rs", 50.0, 10, 5));
    let b = r.to_baseline();
    assert_eq!(b.name, "x");
    assert_eq!(f64::from_bits(b.line_pct), 85.0);
    assert_eq!(f64::from_bits(b.function_pct), 88.0);
    assert_eq!(f64::from_bits(b.region_pct), 80.0);
}

#[test]
fn export_summary_only_becomes_result() {
    let export = LlvmCovExport {
        data: vec![LlvmCovData {
            files: vec![],
            totals: LlvmCovTotals {
                lines: metric(200, 170, 85.0),
                functions: metric(50, 45, 90.0),
                regions: metric(100, 80, 80.0),
                branches: Some(metric(30, 24, 80.0)),
            },
        }],
    };
    let r = coverage_from_export(Ok(export), "x".into(), "0.1.0".into()).unwrap();
    assert_eq!(r.name, "x");
    assert_eq!(r.version, "0.1.0");
    assert_eq!(f64::from_bits(r.line_pct), 85.0);
    assert_eq!(f64::from_bits(r.function_pct), 90.0);
    assert_eq!(f64::from_bits(r.region_pct), 80.0);
    assert_eq!(r.branch_pct.map(f64::from_bits), Some(80.0));
    assert_eq!(r.total_lines, 200);
    assert_eq!(r.covered_lines, 170);
    assert_eq!(r.total_functions, 50);
    assert_eq!(r.covered_functions, 45);
    assert_eq!(r.total_regions, 100);
    assert_eq!(r.covered_regions, 80);
    assert!(r.files.is_empty());
}

#[test]
fn export_with_files_becomes_result() {
    let totals = LlvmCovTotals {
        lines: metric(100, 90, 90.0),
        functions: metric(20, 18, 90.0),
        regions: metric(50, 42, 84.0),
        branches: None,
    };
    let export = LlvmCovExport {
        data: vec![
            LlvmCovData {
                files: vec![LlvmCovFile {
                    filename: "/abs/path/src/lib.rs".into(),
                    summary: totals,
                }],
                totals,
            },
            LlvmCovData {
                files: vec![],
                totals: LlvmCovTotals {
                    lines: metric(1, 0, 0.0),
                    functions: metric(1, 0, 0.0),
                    regions: metric(1, 0, 0.0),
                    branches: None,
                },
            },
        ],
    };
    let r = coverage_from_export(Ok(export), "x".into(), "0.1.0".into()).unwrap();
    assert_eq!(r.files.len(), 1);
    assert_eq!(r.files[0].filename, "/abs/path/src/lib.rs");
    assert_eq!(f64::from_bits(r.files[0].line_pct), 90.0);
    assert_eq!(f64::from_bits(r.files[0].region_pct), 84.0);
    assert_eq!(r.files[0].total_lines, 100);
    assert_eq!(r.files[0].covered_lines, 90);
    assert_eq!(r.total_lines, 100);
    assert!(r.branch_pct.is_none());
}

#[test]
fn export_without_data_is_a_parse_error() {
    let r = coverage_from_export(Ok(LlvmCovExport { data: vec![] }), "x".into(), "0.1.0".into());
    match r {
        Err(CoverageError::ParseError(m)) => assert_eq!(m, "export.data was empty"),
        other => panic!("unexpected {:?}", other),
    }
}

#[test]
fn undecodable_export_is_a_parse_error() {
    let r = coverage_from_export(
        Err("expected value at line 1 column 1".into()),
        "x".into(),
        "0.1.0".into(),
    );
    match r {
        Err(CoverageError::ParseError(m)) => assert_eq!(m, "expected value at line 1 column 1"),
        other => panic!("unexpected {:?}", other),
    }
}

#[test]
fn least_covered_files_with_zero_or_one_file_allows_nan() {
    let mut r = sample_result(80.0, 80.0, 80.0);
    r.files = vec![file("a.rs", f64::NAN, 10, 0)];
    let least = r.least_covered_files(5);
    assert_eq!(least.len(), 1);
    assert_eq!(least[0].filename, "a.rs");
    r.files.push(file("b.rs", f64::NAN, 10, 0));
    assert!(r.least_covered_files(0).is_empty());
}

fn export_with_one_file() -> LlvmCovExport {
    let totals = LlvmCovTotals {
        lines: metric(100, 90, 90.0),
        functions: metric(20, 18, 90.0),
        regions: metric(50, 42, 84.0),
        branches: None,
    };
    LlvmCovExport {
        data: vec![LlvmCovData {
            files: vec![LlvmCovFile {
                filename: "/abs/path/src/lib.rs".into(),
                summary: totals,
            }],
            totals,
        }],
    }
}

#[test]
fn summary_only_run_drops_per_file_entries() {
    let run = CoverageRun::new("x", "0.1.0");
    let r = run_result_from_export(&run, Ok(export_with_one_file())).unwrap();
    assert!(r.files.is_empty());
    assert_eq!(r.name, "x");
    assert_eq!(r.version, "0.1.0");
    assert_eq!(r.total_lines, 100);
    assert_eq!(f64::from_bits(r.line_pct), 90.0);
}

#[test]
fn per_file_run_keeps_per_file_entries() {
    let run = CoverageRun::new("x", "0.1.0").per_file();
    let r = run_result_from_export(&run, Ok(export_with_one_file())).unwrap();
    assert_eq!(r.files.len(), 1);
    assert_eq!(r.files[0].filename, "/abs/path/src/lib.rs");
}

#[test]
fn run_result_reports_parse_errors() {
    let run = CoverageRun::new("x", "0.1.0").per_file();
    assert!(matches!(
        run_result_from_export(&run, Ok(LlvmCovExport { data: vec![] })),
        Err(CoverageError::ParseError(_))
    ));
    assert!(matches!(
        run_result_from_export(&run, Err("eof".into())),
        Err(CoverageError::ParseError(_))
    ));
}
