//! Errors of a coverage run.
use vstd::prelude::*;
use vstd::string::*;

verus! {

/// `std::io::Error`, carried through the library as an opaque value.
#[verifier::external_type_specification]
#[verifier::external_body]
pub struct ExIoError(std::io::Error);

/// Errors that can arise during a coverage run.
#[derive(Debug)]
pub enum CoverageError {
    /// `cargo-llvm-cov` is not installed.
    ToolNotInstalled,
    /// The coverage subprocess returned a non-zero exit code.
    SubprocessFailed(String),
    /// The coverage output could not be parsed as JSON of the expected shape.
    ParseError(String),
    /// An I/O error occurred while reading or writing baseline files.
    Io(std::io::Error),
}

/// The message shown for a `cargo-llvm-cov` that is not installed.
pub open spec fn tool_missing_message() -> Seq<char> {
    "cargo-llvm-cov is not installed; run `cargo install cargo-llvm-cov`"@
}

/// The prefix of the message for a failed subprocess.
pub open spec fn subprocess_prefix() -> Seq<char> {
    "cargo llvm-cov failed: "@
}

/// The prefix of the message for output that could not be parsed.
pub open spec fn parse_prefix() -> Seq<char> {
    "could not parse cargo llvm-cov output: "@
}

/// The prefix of the message for an I/O error.
pub open spec fn io_prefix() -> Seq<char> {
    "io error: "@
}

/// `text` is the message of an I/O error: the prefix followed by a
/// rendering of `e` by its `to_string`.
pub open spec fn is_io_message(e: std::io::Error, text: Seq<char>) -> bool {
    exists|rendered: String|
        #![trigger to_string_from_display_ensures::<std::io::Error>(&e, rendered)]
        to_string_from_display_ensures::<std::io::Error>(&e, rendered) && text == io_prefix()
            + rendered@
}

impl CoverageError {
    /// The human-readable message for this error. For `Io` it is the
    /// prefix followed by what the I/O error's `to_string` gives.
    pub fn message(&self) -> (s: String)
        ensures
            match self {
                CoverageError::ToolNotInstalled => s@ == tool_missing_message(),
                CoverageError::SubprocessFailed(d) => s@ == subprocess_prefix() + d@,
                CoverageError::ParseError(d) => s@ == parse_prefix() + d@,
                CoverageError::Io(e) => is_io_message(*e, s@),
            },
    {
        match self {
            CoverageError::ToolNotInstalled => {
                let s = String::from_str(
                    "cargo-llvm-cov is not installed; run `cargo install cargo-llvm-cov`",
                );
                proof {
                    reveal_strlit(
                        "cargo-llvm-cov is not installed; run `cargo install cargo-llvm-cov`",
                    );
                }
                s
            },
            CoverageError::SubprocessFailed(d) => {
                let s = String::from_str("cargo llvm-cov failed: ").concat(d.as_str());
                s
            },
            CoverageError::ParseError(d) => {
                let s = String::from_str("could not parse cargo llvm-cov output: ").concat(
                    d.as_str(),
                );
                s
            },
            CoverageError::Io(e) => {
                let text = e.to_string();
                let s = String::from_str("io error: ").concat(text.as_str());
                assert(to_string_from_display_ensures::<std::io::Error>(e, text));
                s
            },
        }
    }
}

impl From<std::io::Error> for CoverageError {
    fn from(e: std::io::Error) -> (r: Self) {
        CoverageError::Io(e)
    }
}

impl vstd::std_specs::convert::FromSpecImpl<std::io::Error> for CoverageError {
    open spec fn obeys_from_spec() -> bool {
        true
    }

    open spec fn from_spec(e: std::io::Error) -> Self {
        CoverageError::Io(e)
    }
}

} // verus!
