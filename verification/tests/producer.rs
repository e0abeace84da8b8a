//! The checks a producer derives from one run.

use dev_coverage::{
    Baseline, CoverageError, CoverageProducer, CoverageResult, CoverageRun, CoverageThreshold,
    Detail, Severity, Verdict,
};

fn pct(x: f64) -> u64 {
    x.to_bits()
}

fn result(line: f64) -> CoverageResult {
    CoverageResult {
        name: "self".into(),
        version: "0.0.0".into(),
        line_pct: pct(line),
        function_pct: pct(90.0),
        region_pct: pct(90.0),
        branch_pct: None,
        total_lines: 100,
        covered_lines: line as u64,
        total_functions: 20,
        covered_functions: 18,
        total_regions: 50,
        covered_regions: 45,
        files: Vec::new(),
    }
}

fn producer() -> CoverageProducer {
    CoverageProducer::new(
        CoverageRun::new("self", "0.0.0"),
        CoverageThreshold::min_line_pct(pct(80.0)),
    )
}

#[test]
fn failed_run_yields_critical_check() {
    let checks = producer().checks_for(Err(CoverageError::ToolNotInstalled), None);
    assert_eq!(checks.len(), 1);
    let c = &checks[0];
    assert_eq!(c.name, "coverage::self");
    assert_eq!(c.verdict, Verdict::Fail);
    assert_eq!(c.severity, Some(Severity::Critical));
    assert_eq!(c.tags, vec!["coverage".to_string(), "subprocess".to_string()]);
    match &c.detail {
        Some(Detail::Text(t)) => assert_eq!(
            t,
            "cargo-llvm-cov is not installed; run `cargo install cargo-llvm-cov`"
        ),
        other => panic!("unexpected detail {:?}", other),
    }
}

#[test]
fn result_without_baseline_yields_threshold_check_only() {
    let checks = producer().checks_for(Ok(result(85.0)), None);
    assert_eq!(checks.len(), 1);
    assert_eq!(checks[0].name, "coverage::self");
    assert_eq!(checks[0].verdict, Verdict::Pass);
}

#[test]
fn regression_check_precedes_threshold_check() {
    let baseline = Baseline {
        name: "self".into(),
        line_pct: pct(90.0),
        function_pct: pct(90.0),
        region_pct: pct(90.0),
    };
    let p = producer().with_baseline(baseline, pct(1.0));
    let checks = p.checks_for(Ok(result(85.0)), Some((pct(-5.0), pct(0.0), pct(0.0))));
    assert_eq!(checks.len(), 2);
    assert_eq!(checks[0].name, "coverage::regression::self");
    assert_eq!(checks[0].verdict, Verdict::Fail);
    assert_eq!(checks[0].severity, Some(Severity::Error));
    assert!(checks[0].has_tag("regression"));
    assert_eq!(checks[1].name, "coverage::self");
    assert_eq!(checks[1].verdict, Verdict::Pass);

    let ok = p.checks_for(Ok(result(85.0)), Some((pct(-0.5), pct(0.0), pct(0.0))));
    assert_eq!(ok[0].verdict, Verdict::Pass);
    assert_eq!(ok[0].severity, None);
    assert!(ok[0].has_tag("coverage"));
    assert!(!ok[0].has_tag("regression"));
    match ok[0].detail {
        Some(Detail::Deltas { line, tolerance, .. }) => {
            assert_eq!(line, pct(-0.5));
            assert_eq!(tolerance, pct(1.0));
        }
        ref other => panic!("unexpected detail {:?}", other),
    }
}
