//! The content of a check verdict, as plain values.
//!
//! A [`CheckOutcome`] holds what a `dev_report::CheckResult` carries —
//! name, verdict, severity, detail, tags and evidence — with the
//! percentages as binary64 bit patterns. The time stamp of the report
//! entry is not part of it: it is read from the clock when the report
//! entry is built.
use vstd::prelude::*;
use vstd::string::*;

use crate::run::string_views;

verus! {

/// Outcome of a check.
#[derive(Debug, Clone, Copy, PartialEq, Eq, Structural)]
pub enum Verdict {
    /// Check passed. No action required.
    Pass,
    /// Check failed. Action required.
    Fail,
}

/// Severity classification of a failed check.
#[derive(Debug, Clone, Copy, PartialEq, Eq, Structural)]
pub enum Severity {
    /// Warning. Acceptance allowed with explicit acknowledgement.
    Warning,
    /// Error. Blocks acceptance.
    Error,
    /// Critical. Blocks acceptance and signals a regression.
    Critical,
}

/// The value of a piece of numeric evidence.
#[derive(Debug, Clone, Copy, PartialEq, Eq, Structural)]
pub enum EvidenceValue {
    /// A binary64 measurement, as its bit pattern.
    Numeric(u64),
    /// An integer counter.
    Integer(i64),
}

/// A labelled piece of numeric evidence backing a check.
#[derive(Debug, Clone)]
pub struct Evidence {
    /// Short label, such as `line_pct`.
    pub label: String,
    /// The measured value.
    pub value: EvidenceValue,
}

/// The human-readable detail of a check. Details that show percentages
/// are kept as their parts: rendering a binary64 value as decimal text is
/// left to whoever turns the outcome into a report entry.
#[derive(Debug, Clone)]
pub enum Detail {
    /// Plain text.
    Text(String),
    /// `"{label} coverage {actual:.2}% (threshold {target:.2}%)"`.
    Threshold { label: String, actual: u64, target: u64 },
    /// `"line {line:+.2}pp, function {function:+.2}pp, region {region:+.2}pp (tolerance {tolerance:.2}pp)"`.
    Deltas { line: u64, function: u64, region: u64, tolerance: u64 },
}

/// The content of one check result.
#[derive(Debug, Clone)]
pub struct CheckOutcome {
    /// Stable identifier of the check, such as `coverage::my-crate`.
    pub name: String,
    /// Outcome of the check.
    pub verdict: Verdict,
    /// Severity when the verdict is `Fail`; `None` for `Pass`.
    pub severity: Option<Severity>,
    /// Human-readable detail.
    pub detail: Option<Detail>,
    /// Tags for filtering, in the order they were attached.
    pub tags: Vec<String>,
    /// Evidence, in the order it was attached.
    pub evidence: Vec<Evidence>,
}

/// A [`Detail`] as mathematical values.
pub enum DetailView {
    Text(Seq<char>),
    Threshold { label: Seq<char>, actual: u64, target: u64 },
    Deltas { line: u64, function: u64, region: u64, tolerance: u64 },
}

/// A [`CheckOutcome`] as mathematical values.
pub struct CheckView {
    pub name: Seq<char>,
    pub verdict: Verdict,
    pub severity: Option<Severity>,
    pub detail: Option<DetailView>,
    pub tags: Seq<Seq<char>>,
    pub evidence: Seq<(Seq<char>, EvidenceValue)>,
}

impl View for Detail {
    type V = DetailView;

    open spec fn view(&self) -> DetailView {
        match self {
            Detail::Text(t) => DetailView::Text(t@),
            Detail::Threshold { label, actual, target } => DetailView::Threshold {
                label: label@,
                actual: *actual,
                target: *target,
            },
            Detail::Deltas { line, function, region, tolerance } => DetailView::Deltas {
                line: *line,
                function: *function,
                region: *region,
                tolerance: *tolerance,
            },
        }
    }
}

/// The views of a sequence of evidence.
pub open spec fn evidence_views(v: Seq<Evidence>) -> Seq<(Seq<char>, EvidenceValue)> {
    v.map_values(|e: Evidence| (e.label@, e.value))
}

impl View for CheckOutcome {
    type V = CheckView;

    open spec fn view(&self) -> CheckView {
        CheckView {
            name: self.name@,
            verdict: self.verdict,
            severity: self.severity,
            detail: match self.detail {
                Some(d) => Some(d@),
                None => None,
            },
            tags: string_views(self.tags@),
            evidence: evidence_views(self.evidence@),
        }
    }
}

impl CheckOutcome {
    /// Whether this check carries the given tag.
    pub fn has_tag(&self, tag: &str) -> (r: bool)
        ensures
            r == self@.tags.contains(tag@),
    {
        let wanted = String::from_str(tag);
        let mut i: usize = 0;
        while i < self.tags.len()
            invariant
                0 <= i <= self.tags.len(),
                wanted@ == tag@,
                forall|j: int| 0 <= j < i ==> self.tags@[j]@ != tag@,
            decreases self.tags.len() - i,
        {
            if self.tags[i] == wanted {
                assert(self@.tags[i as int] == tag@);
                return true;
            }
            i = i + 1;
        }
        proof {
            if self@.tags.contains(tag@) {
                let k = choose|k: int| 0 <= k < self@.tags.len() && self@.tags[k] == tag@;
                assert(self.tags@[k]@ == tag@);
            }
        }
        false
    }
}

} // verus!
