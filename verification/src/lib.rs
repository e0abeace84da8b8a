//! Test coverage measurement and regression detection.
//!
//! Coverage percentages travel through this library as the IEEE-754
//! binary64 bit patterns of the measured values (see [`pct`]), so every
//! decision the library takes on them — threshold verdicts, regression
//! flags, least-covered ordering — is proved over the exact values.
use vstd::prelude::*;

pub mod baseline;
pub mod check;
pub mod coverage;
pub mod error;
pub mod llvm_cov;
pub mod pct;
pub mod producer;
pub mod run;

pub use baseline::{Baseline, JsonFileBaselineStore};
pub use check::{CheckOutcome, Detail, Evidence, EvidenceValue, Severity, Verdict};
pub use coverage::{CoverageDiff, CoverageResult, CoverageThreshold, FileCoverage};
pub use error::CoverageError;
pub use llvm_cov::{
    coverage_from_export, run_result_from_export, LlvmCovData, LlvmCovExport, LlvmCovFile, LlvmCovMetric, LlvmCovTotals,
};
pub use producer::CoverageProducer;
pub use run::{llvm_cov_output, tool_probe_args, tool_probe_result, CoverageRun, ProcessOutput};

verus! {

} // verus!
