//! The shape of `cargo llvm-cov --json` output, and the coverage result
//! it describes.
//!
//! Decoding the JSON text into these values is done by the caller with
//! serde; percentages arrive as binary64 bit patterns. What the library
//! decides is which part of the export becomes the result.
use vstd::prelude::*;
use vstd::string::*;

use crate::coverage::{CoverageResult, FileCoverage};
use crate::error::CoverageError;
use crate::run::{CoverageRun, CoverageRunView};

verus! {

/// One metric of an export: how many items there are, how many are
/// covered, and the covered percentage (binary64 bits). Absent fields
/// read as zero.
#[derive(Debug, Clone, Copy)]
pub struct LlvmCovMetric {
    pub count: u64,
    pub covered: u64,
    pub percent: u64,
}

/// The line, function, region and (when emitted) branch metrics.
#[derive(Debug, Clone, Copy)]
pub struct LlvmCovTotals {
    pub lines: LlvmCovMetric,
    pub functions: LlvmCovMetric,
    pub regions: LlvmCovMetric,
    pub branches: Option<LlvmCovMetric>,
}

/// The summary of one source file.
#[derive(Debug, Clone)]
pub struct LlvmCovFile {
    pub filename: String,
    pub summary: LlvmCovTotals,
}

/// One entry of the export's `data` array.
#[derive(Debug, Clone)]
pub struct LlvmCovData {
    pub files: Vec<LlvmCovFile>,
    pub totals: LlvmCovTotals,
}

/// A decoded `llvm.coverage.json.export` document.
#[derive(Debug, Clone)]
pub struct LlvmCovExport {
    pub data: Vec<LlvmCovData>,
}

/// The message given when the export holds no data.
pub open spec fn empty_data_message() -> Seq<char> {
    "export.data was empty"@
}

/// `f` is the per-file entry made from the export's summary `src`.
pub open spec fn file_from_summary(f: FileCoverage, src: LlvmCovFile) -> bool {
    &&& f.filename@ == src.filename@
    &&& f.line_pct == src.summary.lines.percent
    &&& f.function_pct == src.summary.functions.percent
    &&& f.region_pct == src.summary.regions.percent
    &&& f.total_lines == src.summary.lines.count
    &&& f.covered_lines == src.summary.lines.covered
}

/// `r` is the result named `name`/`version` made from the export entry `d`.
pub open spec fn result_from_data(
    r: CoverageResult,
    d: LlvmCovData,
    name: Seq<char>,
    version: Seq<char>,
) -> bool {
    &&& r.name@ == name
    &&& r.version@ == version
    &&& r.line_pct == d.totals.lines.percent
    &&& r.function_pct == d.totals.functions.percent
    &&& r.region_pct == d.totals.regions.percent
    &&& r.branch_pct == match d.totals.branches {
        Some(b) => Some(b.percent),
        None => None,
    }
    &&& r.total_lines == d.totals.lines.count
    &&& r.covered_lines == d.totals.lines.covered
    &&& r.total_functions == d.totals.functions.count
    &&& r.covered_functions == d.totals.functions.covered
    &&& r.total_regions == d.totals.regions.count
    &&& r.covered_regions == d.totals.regions.covered
    &&& files_from_data(r, d)
}

/// `r`'s per-file list is made, in order, from the export entry's files.
pub open spec fn files_from_data(r: CoverageResult, d: LlvmCovData) -> bool {
    &&& r.files@.len() == d.files@.len()
    &&& forall|i: int| 0 <= i < r.files@.len() ==> file_from_summary(#[trigger] r.files@[i], d.files@[i])
}

/// `r` is the result of a run configured as `run` made from the export
/// entry `d`: the totals always, the per-file list only when the run
/// asked for a per-file breakdown.
pub open spec fn run_result_from_data(r: CoverageResult, d: LlvmCovData, run: CoverageRunView) -> bool {
    &&& r.name@ == run.name
    &&& r.version@ == run.version
    &&& r.line_pct == d.totals.lines.percent
    &&& r.function_pct == d.totals.functions.percent
    &&& r.region_pct == d.totals.regions.percent
    &&& r.branch_pct == match d.totals.branches {
        Some(b) => Some(b.percent),
        None => None,
    }
    &&& r.total_lines == d.totals.lines.count
    &&& r.covered_lines == d.totals.lines.covered
    &&& r.total_functions == d.totals.functions.count
    &&& r.covered_functions == d.totals.functions.covered
    &&& r.total_regions == d.totals.regions.count
    &&& r.covered_regions == d.totals.regions.covered
    &&& if run.per_file {
        files_from_data(r, d)
    } else {
        r.files@.len() == 0
    }
}

/// Every field of a result made from an export entry comes from the
/// field of the same name: the totals from the entry's line, function,
/// region and branch metrics, and each per-file entry, in order, from the
/// file's own summary (its function percentage from the functions metric,
/// its region percentage from the regions metric, its counts from the
/// lines metric).
pub proof fn lemma_result_fields_from_export(
    r: CoverageResult,
    d: LlvmCovData,
    name: Seq<char>,
    version: Seq<char>,
)
    requires
        result_from_data(r, d, name, version),
    ensures
        r.name@ == name,
        r.version@ == version,
        r.line_pct == d.totals.lines.percent,
        r.function_pct == d.totals.functions.percent,
        r.region_pct == d.totals.regions.percent,
        d.totals.branches is None ==> r.branch_pct is None,
        d.totals.branches matches Some(b) ==> r.branch_pct == Some(b.percent),
        r.total_lines == d.totals.lines.count,
        r.covered_lines == d.totals.lines.covered,
        r.total_functions == d.totals.functions.count,
        r.covered_functions == d.totals.functions.covered,
        r.total_regions == d.totals.regions.count,
        r.covered_regions == d.totals.regions.covered,
        r.files@.len() == d.files@.len(),
        forall|i: int|
            0 <= i < r.files@.len() ==> {
                &&& (#[trigger] r.files@[i]).filename@ == d.files@[i].filename@
                &&& r.files@[i].line_pct == d.files@[i].summary.lines.percent
                &&& r.files@[i].function_pct == d.files@[i].summary.functions.percent
                &&& r.files@[i].region_pct == d.files@[i].summary.regions.percent
                &&& r.files@[i].total_lines == d.files@[i].summary.lines.count
                &&& r.files@[i].covered_lines == d.files@[i].summary.lines.covered
            },
{
    assert forall|i: int| 0 <= i < r.files@.len() implies {
        &&& (#[trigger] r.files@[i]).filename@ == d.files@[i].filename@
        &&& r.files@[i].line_pct == d.files@[i].summary.lines.percent
        &&& r.files@[i].function_pct == d.files@[i].summary.functions.percent
        &&& r.files@[i].region_pct == d.files@[i].summary.regions.percent
        &&& r.files@[i].total_lines == d.files@[i].summary.lines.count
        &&& r.files@[i].covered_lines == d.files@[i].summary.lines.covered
    } by {
        assert(file_from_summary(r.files@[i], d.files@[i]));
    }
}

/// The result of a run made from an export entry takes its name and
/// version from the run and every total from the entry; its per-file list
/// is empty for a summary-only run and, for a per-file run, lists the
/// entry's files in order with each field from the file's own summary.
pub proof fn lemma_run_result_fields_from_export(
    r: CoverageResult,
    d: LlvmCovData,
    run: CoverageRunView,
)
    requires
        run_result_from_data(r, d, run),
    ensures
        r.name@ == run.name,
        r.version@ == run.version,
        r.line_pct == d.totals.lines.percent,
        r.function_pct == d.totals.functions.percent,
        r.region_pct == d.totals.regions.percent,
        d.totals.branches is None ==> r.branch_pct is None,
        d.totals.branches matches Some(b) ==> r.branch_pct == Some(b.percent),
        r.total_lines == d.totals.lines.count,
        r.covered_lines == d.totals.lines.covered,
        r.total_functions == d.totals.functions.count,
        r.covered_functions == d.totals.functions.covered,
        r.total_regions == d.totals.regions.count,
        r.covered_regions == d.totals.regions.covered,
        !run.per_file ==> r.files@.len() == 0,
        run.per_file ==> r.files@.len() == d.files@.len(),
        run.per_file ==> forall|i: int|
            0 <= i < r.files@.len() ==> {
                &&& (#[trigger] r.files@[i]).filename@ == d.files@[i].filename@
                &&& r.files@[i].line_pct == d.files@[i].summary.lines.percent
                &&& r.files@[i].function_pct == d.files@[i].summary.functions.percent
                &&& r.files@[i].region_pct == d.files@[i].summary.regions.percent
                &&& r.files@[i].total_lines == d.files@[i].summary.lines.count
                &&& r.files@[i].covered_lines == d.files@[i].summary.lines.covered
            },
{
    if run.per_file {
        assert forall|i: int| 0 <= i < r.files@.len() implies {
            &&& (#[trigger] r.files@[i]).filename@ == d.files@[i].filename@
            &&& r.files@[i].line_pct == d.files@[i].summary.lines.percent
            &&& r.files@[i].function_pct == d.files@[i].summary.functions.percent
            &&& r.files@[i].region_pct == d.files@[i].summary.regions.percent
            &&& r.files@[i].total_lines == d.files@[i].summary.lines.count
            &&& r.files@[i].covered_lines == d.files@[i].summary.lines.covered
        } by {
            assert(file_from_summary(r.files@[i], d.files@[i]));
        }
    }
}

/// Build the coverage result for subject `name`/`version` from a decoded
/// export, or from the decoder's error message.
///
/// A decoding failure and an export without data are both `ParseError`;
/// otherwise the first data entry gives the totals and the per-file
/// breakdown.
pub fn coverage_from_export(
    decoded: Result<LlvmCovExport, String>,
    name: String,
    version: String,
) -> (r: Result<CoverageResult, CoverageError>)
    ensures
        match decoded {
            Err(msg) => r matches Err(CoverageError::ParseError(m)) && m@ == msg@,
            Ok(export) => if export.data@.len() == 0 {
                r matches Err(CoverageError::ParseError(m)) && m@ == empty_data_message()
            } else {
                r matches Ok(res) && result_from_data(res, export.data@[0], name@, version@)
            },
        },
{
    let export = match decoded {
        Err(msg) => {
            return Err(CoverageError::ParseError(msg));
        },
        Ok(export) => export,
    };
    if export.data.len() == 0 {
        let m = String::from_str("export.data was empty");
        return Err(CoverageError::ParseError(m));
    }
    let data = &export.data[0];
    let totals = data.totals;
    let mut files: Vec<FileCoverage> = Vec::new();
    let mut i: usize = 0;
    while i < data.files.len()
        invariant
            0 <= i <= data.files@.len(),
            files@.len() == i,
            forall|j: int| 0 <= j < i ==> file_from_summary(#[trigger] files@[j], data.files@[j]),
        decreases data.files@.len() - i,
    {
        let f = &data.files[i];
        files.push(
            FileCoverage {
                filename: f.filename.clone(),
                line_pct: f.summary.lines.percent,
                function_pct: f.summary.functions.percent,
                region_pct: f.summary.regions.percent,
                total_lines: f.summary.lines.count,
                covered_lines: f.summary.lines.covered,
            },
        );
        i = i + 1;
    }
    let branch_pct = match totals.branches {
        Some(b) => Some(b.percent),
        None => None,
    };
    Ok(
        CoverageResult {
            name,
            version,
            line_pct: totals.lines.percent,
            function_pct: totals.functions.percent,
            region_pct: totals.regions.percent,
            branch_pct,
            total_lines: totals.lines.count,
            covered_lines: totals.lines.covered,
            total_functions: totals.functions.count,
            covered_functions: totals.functions.covered,
            total_regions: totals.regions.count,
            covered_regions: totals.regions.covered,
            files,
        },
    )
}

/// Build the result of `run` from a decoded export (or the decoder's
/// error message): as [`coverage_from_export`] does, except that the
/// per-file list stays empty unless the run was configured with
/// [`CoverageRun::per_file`] (a summary-only export still lists files).
pub fn run_result_from_export(run: &CoverageRun, decoded: Result<LlvmCovExport, String>) -> (r:
    Result<CoverageResult, CoverageError>)
    ensures
        match decoded {
            Err(msg) => r matches Err(CoverageError::ParseError(m)) && m@ == msg@,
            Ok(export) => if export.data@.len() == 0 {
                r matches Err(CoverageError::ParseError(m)) && m@ == empty_data_message()
            } else {
                r matches Ok(res) && run_result_from_data(res, export.data@[0], run@)
            },
        },
{
    let name = String::from_str(run.subject());
    let version = String::from_str(run.subject_version());
    let r = coverage_from_export(decoded, name, version);
    match r {
        Ok(mut res) => {
            if !run.is_per_file() {
                res.files = Vec::new();
            }
            Ok(res)
        },
        Err(e) => Err(e),
    }
}

} // verus!
