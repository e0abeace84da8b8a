//! Configuration of a `cargo llvm-cov` run, the command line it implies,
//! and the decisions taken on what the subprocesses report back.
//!
//! Spawning the subprocesses is I/O and is done by the caller; this module
//! says what to spawn and what the outcome means.
use vstd::prelude::*;
use vstd::string::*;
use vstd::utf8::*;

use crate::error::CoverageError;

verus! {

/// Configuration for a coverage run.
///
/// Wraps `cargo llvm-cov --json --summary-only`. Use the builder methods
/// to scope the run (working directory, workspace toggle, excludes,
/// features); [`llvm_cov_args`](Self::llvm_cov_args) gives the command
/// line to run.
#[derive(Debug, Clone)]
pub struct CoverageRun {
    name: String,
    version: String,
    workdir: Option<String>,
    workspace: bool,
    excludes: Vec<String>,
    features: Vec<String>,
    all_features: bool,
    no_default_features: bool,
    per_file: bool,
}

/// What a [`CoverageRun`] holds, as mathematical values.
pub struct CoverageRunView {
    pub name: Seq<char>,
    pub version: Seq<char>,
    pub workdir: Option<Seq<char>>,
    pub workspace: bool,
    pub excludes: Seq<Seq<char>>,
    pub features: Seq<Seq<char>>,
    pub all_features: bool,
    pub no_default_features: bool,
    pub per_file: bool,
}

/// The views of a sequence of strings.
pub open spec fn string_views(v: Seq<String>) -> Seq<Seq<char>> {
    v.map_values(|s: String| s@)
}

impl View for CoverageRun {
    type V = CoverageRunView;

    closed spec fn view(&self) -> CoverageRunView {
        CoverageRunView {
            name: self.name@,
            version: self.version@,
            workdir: match self.workdir {
                Some(d) => Some(d@),
                None => None,
            },
            workspace: self.workspace,
            excludes: string_views(self.excludes@),
            features: string_views(self.features@),
            all_features: self.all_features,
            no_default_features: self.no_default_features,
            per_file: self.per_file,
        }
    }
}

/// `flag v` for every `v` of `values`, in order: `--exclude a --exclude b`.
pub open spec fn repeated_flag(flag: Seq<char>, values: Seq<Seq<char>>) -> Seq<Seq<char>>
    decreases values.len(),
{
    if values.len() == 0 {
        seq![]
    } else {
        repeated_flag(flag, values.drop_last()) + seq![flag, values.last()]
    }
}

/// A single argument when `on` holds, nothing otherwise.
pub open spec fn flag_if(on: bool, flag: Seq<char>) -> Seq<Seq<char>> {
    if on {
        seq![flag]
    } else {
        seq![]
    }
}

/// The arguments given to `cargo` for a run configured as `r`.
pub open spec fn llvm_cov_args_of(r: CoverageRunView) -> Seq<Seq<char>> {
    seq!["llvm-cov"@] + flag_if(!r.per_file, "--summary-only"@) + seq!["--json"@] + flag_if(
        r.workspace,
        "--workspace"@,
    ) + repeated_flag("--exclude"@, r.excludes) + flag_if(r.all_features, "--all-features"@)
        + flag_if(r.no_default_features, "--no-default-features"@) + repeated_flag(
        "--features"@,
        r.features,
    )
}

/// `repeated_flag(flag, values)` is the pairs `flag, values[i]` in order:
/// even positions hold the flag, the odd position after it the value.
pub proof fn lemma_repeated_flag_pairs(flag: Seq<char>, values: Seq<Seq<char>>)
    ensures
        repeated_flag(flag, values).len() == 2 * values.len(),
        forall|k: int|
            0 <= k < 2 * values.len() ==> #[trigger] repeated_flag(flag, values)[k] == if k % 2
                == 0 {
                flag
            } else {
                values[k / 2]
            },
    decreases values.len(),
{
    if values.len() > 0 {
        let prefix = values.drop_last();
        lemma_repeated_flag_pairs(flag, prefix);
        let r = repeated_flag(flag, values);
        let pr = repeated_flag(flag, prefix);
        assert(r == pr + seq![flag, values.last()]);
        assert forall|k: int| 0 <= k < 2 * values.len() implies #[trigger] r[k] == if k % 2 == 0 {
            flag
        } else {
            values[k / 2]
        } by {
            if k < 2 * prefix.len() {
                assert(r[k] == pr[k]);
                if k % 2 != 0 {
                    assert(prefix[k / 2] == values[k / 2]);
                }
            } else if k == 2 * prefix.len() {
                assert(r[k] == flag);
            } else {
                assert(k / 2 == values.len() - 1);
                assert(r[k] == values.last());
            }
        }
    }
}

/// The complete layout of the `cargo` arguments of a run, position by
/// position: `llvm-cov`; `--summary-only` unless the run is per-file;
/// `--json`; `--workspace` when asked; `--exclude p` for every exclude
/// pattern, in the order added; `--all-features` and
/// `--no-default-features` when asked; `--features f` for every feature,
/// in the order added — whatever the other options are.
pub proof fn lemma_llvm_cov_args_layout(r: CoverageRunView)
    ensures
        ({
            let args = llvm_cov_args_of(r);
            let s: int = if r.per_file { 0 } else { 1 };
            let w: int = if r.workspace { 1 } else { 0 };
            let e: int = r.excludes.len() as int;
            let a: int = if r.all_features { 1 } else { 0 };
            let nd: int = if r.no_default_features { 1 } else { 0 };
            let f: int = r.features.len() as int;
            let ex_at: int = 2 + s + w;
            let fe_at: int = 2 + s + w + 2 * e + a + nd;
            &&& args.len() == fe_at + 2 * f
            &&& args[0] == "llvm-cov"@
            &&& !r.per_file ==> args[1] == "--summary-only"@
            &&& args[1 + s] == "--json"@
            &&& r.workspace ==> args[2 + s] == "--workspace"@
            &&& forall|p: int|
                ex_at <= p < ex_at + 2 * e ==> #[trigger] args[p] == if (p - ex_at) % 2 == 0 {
                    "--exclude"@
                } else {
                    r.excludes[(p - ex_at) / 2]
                }
            &&& r.all_features ==> args[ex_at + 2 * e] == "--all-features"@
            &&& r.no_default_features ==> args[ex_at + 2 * e + a] == "--no-default-features"@
            &&& forall|p: int|
                fe_at <= p < fe_at + 2 * f ==> #[trigger] args[p] == if (p - fe_at) % 2 == 0 {
                    "--features"@
                } else {
                    r.features[(p - fe_at) / 2]
                }
        }),
{
    let args = llvm_cov_args_of(r);
    let s: int = if r.per_file { 0 } else { 1 };
    let w: int = if r.workspace { 1 } else { 0 };
    let e: int = r.excludes.len() as int;
    let a: int = if r.all_features { 1 } else { 0 };
    let nd: int = if r.no_default_features { 1 } else { 0 };
    let f: int = r.features.len() as int;
    let ex_at: int = 2 + s + w;
    let fe_at: int = 2 + s + w + 2 * e + a + nd;
    let p0 = seq!["llvm-cov"@] + flag_if(!r.per_file, "--summary-only"@) + seq!["--json"@];
    let p1 = p0 + flag_if(r.workspace, "--workspace"@);
    let ex = repeated_flag("--exclude"@, r.excludes);
    let p2 = p1 + ex;
    let p3 = p2 + flag_if(r.all_features, "--all-features"@);
    let p4 = p3 + flag_if(r.no_default_features, "--no-default-features"@);
    let fe = repeated_flag("--features"@, r.features);
    assert(args == p4 + fe);
    lemma_repeated_flag_pairs("--exclude"@, r.excludes);
    lemma_repeated_flag_pairs("--features"@, r.features);
    assert(p0.len() == 2 + s);
    assert(p1.len() == ex_at);
    assert(p2.len() == ex_at + 2 * e);
    assert(p3.len() == ex_at + 2 * e + a);
    assert(p4.len() == fe_at);
    assert(args[0] == p0[0]);
    assert(args[1 + s] == p0[1 + s]);
    if !r.per_file {
        assert(args[1] == p0[1]);
    }
    if r.workspace {
        assert(args[2 + s] == p1[2 + s]);
    }
    assert forall|p: int| ex_at <= p < ex_at + 2 * e implies #[trigger] args[p] == if (p - ex_at) % 2
        == 0 {
        "--exclude"@
    } else {
        r.excludes[(p - ex_at) / 2]
    } by {
        assert(args[p] == p2[p]);
        assert(p2[p] == ex[p - ex_at]);
    }
    if r.all_features {
        assert(args[ex_at + 2 * e] == p3[ex_at + 2 * e]);
    }
    if r.no_default_features {
        assert(args[ex_at + 2 * e + a] == p4[ex_at + 2 * e + a]);
    }
    assert forall|p: int| fe_at <= p < fe_at + 2 * f implies #[trigger] args[p] == if (p - fe_at) % 2
        == 0 {
        "--features"@
    } else {
        r.features[(p - fe_at) / 2]
    } by {
        assert(args[p] == fe[p - fe_at]);
    }
}

/// Whatever the other options, each feature that was added is passed as
/// `--features` immediately followed by that feature, and each excluded
/// package as `--exclude` immediately followed by its name.
pub proof fn lemma_each_feature_and_exclude_passed(r: CoverageRunView)
    ensures
        forall|i: int|
            #![trigger r.features[i]]
            0 <= i < r.features.len() ==> exists|j: int|
                0 <= j && j + 1 < llvm_cov_args_of(r).len() && llvm_cov_args_of(r)[j]
                    == "--features"@ && #[trigger] llvm_cov_args_of(r)[j + 1] == r.features[i],
        forall|i: int|
            #![trigger r.excludes[i]]
            0 <= i < r.excludes.len() ==> exists|j: int|
                0 <= j && j + 1 < llvm_cov_args_of(r).len() && llvm_cov_args_of(r)[j]
                    == "--exclude"@ && #[trigger] llvm_cov_args_of(r)[j + 1] == r.excludes[i],
{
    lemma_llvm_cov_args_layout(r);
    let args = llvm_cov_args_of(r);
    let s: int = if r.per_file { 0 } else { 1 };
    let w: int = if r.workspace { 1 } else { 0 };
    let e: int = r.excludes.len() as int;
    let a: int = if r.all_features { 1 } else { 0 };
    let nd: int = if r.no_default_features { 1 } else { 0 };
    let ex_at: int = 2 + s + w;
    let fe_at: int = 2 + s + w + 2 * e + a + nd;
    assert forall|i: int| #![trigger r.features[i]] 0 <= i < r.features.len() implies exists|j: int|
        0 <= j && j + 1 < args.len() && args[j] == "--features"@ && #[trigger] args[j + 1]
            == r.features[i] by {
        let j = fe_at + 2 * i;
        assert((j - fe_at) % 2 == 0 && (j - fe_at) / 2 == i) by (nonlinear_arith)
            requires j == fe_at + 2 * i;
        assert((j + 1 - fe_at) % 2 == 1 && (j + 1 - fe_at) / 2 == i) by (nonlinear_arith)
            requires j == fe_at + 2 * i;
        assert(args[j] == "--features"@);
        assert(args[j + 1] == r.features[i]);
    }
    assert forall|i: int| #![trigger r.excludes[i]] 0 <= i < r.excludes.len() implies exists|j: int|
        0 <= j && j + 1 < args.len() && args[j] == "--exclude"@ && #[trigger] args[j + 1]
            == r.excludes[i] by {
        let j = ex_at + 2 * i;
        assert((j - ex_at) % 2 == 0 && (j - ex_at) / 2 == i) by (nonlinear_arith)
            requires j == ex_at + 2 * i;
        assert((j + 1 - ex_at) % 2 == 1 && (j + 1 - ex_at) / 2 == i) by (nonlinear_arith)
            requires j == ex_at + 2 * i;
        assert(args[j] == "--exclude"@);
        assert(args[j + 1] == r.excludes[i]);
    }
}

/// The arguments given to `cargo` to ask `cargo llvm-cov` for its version.
pub open spec fn probe_args() -> Seq<Seq<char>> {
    seq!["llvm-cov"@, "--version"@]
}

/// What a finished subprocess reported: whether it exited successfully,
/// and the bytes it wrote to stdout and stderr.
pub struct ProcessOutput {
    pub success: bool,
    pub stdout: Vec<u8>,
    pub stderr: Vec<u8>,
}

/// What `String::from_utf8_lossy` makes of a byte sequence.
pub uninterp spec fn utf8_lossy(bytes: Seq<u8>) -> Seq<char>;

/// Decodes bytes as UTF-8, replacing invalid sequences with U+FFFD, by
/// `String::from_utf8_lossy`. Claimed: the result is a function of the
/// bytes alone, and on valid UTF-8 it is exactly the encoded text.
#[verifier::external_body]
fn decode_lossy(bytes: &[u8]) -> (s: String)
    ensures
        s@ == utf8_lossy(bytes@),
        valid_utf8(bytes@) ==> s@ == decode_utf8(bytes@),
{
    String::from_utf8_lossy(bytes).into_owned()
}

/// Pushes `flag v` for each `v` of `values` onto `args`.
fn push_repeated_flag(args: &mut Vec<String>, flag: &str, values: &Vec<String>)
    ensures
        string_views(final(args)@) == string_views(old(args)@) + repeated_flag(
            flag@,
            string_views(values@),
        ),
{
    let ghost start = string_views(args@);
    let mut i: usize = 0;
    while i < values.len()
        invariant
            0 <= i <= values.len(),
            string_views(args@) == start + repeated_flag(
                flag@,
                string_views(values@.subrange(0, i as int)),
            ),
        decreases values.len() - i,
    {
        let ghost before = args@;
        let flag_string = String::from_str(flag);
        let value = values[i].clone();
        args.push(flag_string);
        args.push(value);
        proof {
            let prefix = string_views(values@.subrange(0, i as int));
            let next = string_views(values@.subrange(0, i + 1));
            assert(next.drop_last() =~= prefix);
            assert(next.last() == values@[i as int]@);
            assert(string_views(args@) =~= string_views(before) + seq![flag@, value@]);
            assert(string_views(args@) =~= start + repeated_flag(flag@, next));
        }
        i = i + 1;
    }
    proof {
        assert(values@.subrange(0, values.len() as int) =~= values@);
    }
}

/// Pushes `flag` onto `args` when `on` holds.
fn push_flag_if(args: &mut Vec<String>, on: bool, flag: &str)
    ensures
        string_views(final(args)@) == string_views(old(args)@) + flag_if(on, flag@),
{
    let ghost start = string_views(args@);
    if on {
        args.push(String::from_str(flag));
        assert(string_views(args@) =~= start + flag_if(on, flag@));
    } else {
        assert(string_views(args@) =~= start + flag_if(on, flag@));
    }
}

impl CoverageRun {
    /// Begin a coverage run for the given crate name and version.
    ///
    /// `name` and `version` are descriptive: they identify the subject in
    /// the produced report and need not match the package being measured.
    pub fn new(name: &str, version: &str) -> (r: Self)
        ensures
            r@ == (CoverageRunView {
                name: name@,
                version: version@,
                workdir: None,
                workspace: false,
                excludes: seq![],
                features: seq![],
                all_features: false,
                no_default_features: false,
                per_file: false,
            }),
    {
        let r = CoverageRun {
            name: String::from_str(name),
            version: String::from_str(version),
            workdir: None,
            workspace: false,
            excludes: Vec::new(),
            features: Vec::new(),
            all_features: false,
            no_default_features: false,
            per_file: false,
        };
        assert(string_views(r.excludes@) =~= seq![]);
        r
    }

    /// Run `cargo llvm-cov` from `dir` instead of the current directory.
    pub fn in_dir(self, dir: &str) -> (r: Self)
        ensures
            r@ == (CoverageRunView { workdir: Some(dir@), ..self@ }),
    {
        let mut s = self;
        s.workdir = Some(String::from_str(dir));
        s
    }

    /// Descriptive subject name passed in via [`new`](Self::new).
    pub fn subject(&self) -> (r: &str)
        ensures
            r@ == self@.name,
    {
        self.name.as_str()
    }

    /// Descriptive subject version passed in via [`new`](Self::new).
    pub fn subject_version(&self) -> (r: &str)
        ensures
            r@ == self@.version,
    {
        self.version.as_str()
    }

    /// The directory `cargo llvm-cov` runs from, when one was set.
    pub fn workdir(&self) -> (r: Option<&str>)
        ensures
            match r {
                Some(d) => self@.workdir == Some(d@),
                None => self@.workdir is None,
            },
    {
        match &self.workdir {
            Some(d) => Some(d.as_str()),
            None => None,
        }
    }

    /// Pass `--workspace` so every workspace member is measured.
    pub fn workspace(self) -> (r: Self)
        ensures
            r@ == (CoverageRunView { workspace: true, ..self@ }),
    {
        let mut s = self;
        s.workspace = true;
        s
    }

    /// Pass `--exclude <pattern>`. May be called multiple times.
    pub fn exclude(self, pattern: &str) -> (r: Self)
        ensures
            r@ == (CoverageRunView { excludes: self@.excludes.push(pattern@), ..self@ }),
    {
        let mut s = self;
        s.excludes.push(String::from_str(pattern));
        assert(string_views(s.excludes@) =~= string_views(self.excludes@).push(pattern@));
        s
    }

    /// Add a specific feature to enable. May be called multiple times.
    pub fn feature(self, name: &str) -> (r: Self)
        ensures
            r@ == (CoverageRunView { features: self@.features.push(name@), ..self@ }),
    {
        let mut s = self;
        s.features.push(String::from_str(name));
        assert(string_views(s.features@) =~= string_views(self.features@).push(name@));
        s
    }

    /// Pass `--all-features`.
    pub fn all_features(self) -> (r: Self)
        ensures
            r@ == (CoverageRunView { all_features: true, ..self@ }),
    {
        let mut s = self;
        s.all_features = true;
        s
    }

    /// Pass `--no-default-features`.
    pub fn no_default_features(self) -> (r: Self)
        ensures
            r@ == (CoverageRunView { no_default_features: true, ..self@ }),
    {
        let mut s = self;
        s.no_default_features = true;
        s
    }

    /// Request a per-file breakdown (drops `--summary-only`).
    pub fn per_file(self) -> (r: Self)
        ensures
            r@ == (CoverageRunView { per_file: true, ..self@ }),
    {
        let mut s = self;
        s.per_file = true;
        s
    }

    /// Whether the run asks for a per-file breakdown.
    pub fn is_per_file(&self) -> (r: bool)
        ensures
            r == self@.per_file,
    {
        self.per_file
    }

    /// The arguments to give `cargo` for this run.
    pub fn llvm_cov_args(&self) -> (args: Vec<String>)
        ensures
            string_views(args@) == llvm_cov_args_of(self@),
    {
        let mut args: Vec<String> = Vec::new();
        args.push(String::from_str("llvm-cov"));
        assert(string_views(args@) =~= seq!["llvm-cov"@]);
        push_flag_if(&mut args, !self.per_file, "--summary-only");
        let ghost a1 = string_views(args@);
        args.push(String::from_str("--json"));
        assert(string_views(args@) =~= a1 + seq!["--json"@]);
        push_flag_if(&mut args, self.workspace, "--workspace");
        push_repeated_flag(&mut args, "--exclude", &self.excludes);
        push_flag_if(&mut args, self.all_features, "--all-features");
        push_flag_if(&mut args, self.no_default_features, "--no-default-features");
        push_repeated_flag(&mut args, "--features", &self.features);
        args
    }
}

/// The arguments to give `cargo` to find out whether `cargo llvm-cov`
/// is installed.
pub fn tool_probe_args() -> (args: Vec<String>)
    ensures
        string_views(args@) == probe_args(),
{
    let mut args: Vec<String> = Vec::new();
    args.push(String::from_str("llvm-cov"));
    args.push(String::from_str("--version"));
    assert(string_views(args@) =~= probe_args());
    args
}

/// What the probe run with [`tool_probe_args`] means: the tool is there
/// exactly when the probe could be started and exited successfully.
/// `probe` is `Err` when the process could not be started at all.
pub fn tool_probe_result(probe: &Result<ProcessOutput, String>) -> (r: Result<(), CoverageError>)
    ensures
        match probe {
            Ok(out) => if out.success {
                r is Ok
            } else {
                r matches Err(CoverageError::ToolNotInstalled)
            },
            Err(_) => r matches Err(CoverageError::ToolNotInstalled),
        },
{
    match probe {
        Ok(out) => if out.success {
            Ok(())
        } else {
            Err(CoverageError::ToolNotInstalled)
        },
        Err(_) => Err(CoverageError::ToolNotInstalled),
    }
}

/// What the coverage run started with [`CoverageRun::llvm_cov_args`]
/// means: its stdout, decoded, when it exited successfully; otherwise
/// `SubprocessFailed` with its stderr, decoded, or with the reason it
/// could not be started (`run` is then `Err`).
pub fn llvm_cov_output(run: &Result<ProcessOutput, String>) -> (r: Result<String, CoverageError>)
    ensures
        match run {
            Err(reason) => r matches Err(CoverageError::SubprocessFailed(d)) && d@ == reason@,
            Ok(out) => if out.success {
                r matches Ok(text) && text@ == utf8_lossy(out.stdout@) && (valid_utf8(out.stdout@)
                    ==> text@ == decode_utf8(out.stdout@))
            } else {
                r matches Err(CoverageError::SubprocessFailed(d)) && d@ == utf8_lossy(out.stderr@)
                    && (valid_utf8(out.stderr@) ==> d@ == decode_utf8(out.stderr@))
            },
        },
{
    match run {
        Err(reason) => Err(CoverageError::SubprocessFailed(reason.clone())),
        Ok(out) => if out.success {
            Ok(decode_lossy(out.stdout.as_slice()))
        } else {
            Err(CoverageError::SubprocessFailed(decode_lossy(out.stderr.as_slice())))
        },
    }
}

} // verus!
