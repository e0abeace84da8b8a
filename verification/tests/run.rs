//! Command lines and subprocess outcomes of a coverage run.

use dev_coverage::{
    llvm_cov_output, tool_probe_args, tool_probe_result, CoverageError, CoverageRun,
    ProcessOutput,
};

fn output(success: bool, stdout: &[u8], stderr: &[u8]) -> ProcessOutput {
    ProcessOutput {
        success,
        stdout: stdout.to_vec(),
        stderr: stderr.to_vec(),
    }
}

#[test]
fn default_run_is_summary_only_json() {
    let run = CoverageRun::new("x", "0.1.0");
    assert_eq!(run.llvm_cov_args(), vec!["llvm-cov", "--summary-only", "--json"]);
    assert_eq!(run.workdir(), None);
}

#[test]
fn full_builder_chain_maps_to_flags() {
    let run = CoverageRun::new("test-crate", "0.1.0")
        .workspace()
        .all_features()
        .exclude("tests/*")
        .exclude("benches/*")
        .feature("alpha")
        .feature("beta")
        .no_default_features()
        .per_file()
        .in_dir("/work/here");
    assert_eq!(
        run.llvm_cov_args(),
        vec![
            "llvm-cov",
            "--json",
            "--workspace",
            "--exclude",
            "tests/*",
            "--exclude",
            "benches/*",
            "--all-features",
            "--no-default-features",
            "--features",
            "alpha",
            "--features",
            "beta",
        ]
    );
    assert_eq!(run.workdir(), Some("/work/here"));
    assert_eq!(run.subject(), "test-crate");
}

#[test]
fn probe_asks_for_the_version() {
    assert_eq!(tool_probe_args(), vec!["llvm-cov", "--version"]);
}

#[test]
fn probe_success_means_installed() {
    assert!(tool_probe_result(&Ok(output(true, b"cargo-llvm-cov 0.6.0", b""))).is_ok());
}

#[test]
fn probe_failure_means_not_installed() {
    assert!(matches!(
        tool_probe_result(&Ok(output(false, b"", b"no such command"))),
        Err(CoverageError::ToolNotInstalled)
    ));
    assert!(matches!(
        tool_probe_result(&Err("No such file or directory".into())),
        Err(CoverageError::ToolNotInstalled)
    ));
}

#[test]
fn successful_run_yields_stdout() {
    let r = llvm_cov_output(&Ok(output(true, b"{\"data\":[]}", b"warning")));
    assert_eq!(r.unwrap(), "{\"data\":[]}");
}

#[test]
fn successful_run_decodes_invalid_utf8_lossily() {
    let r = llvm_cov_output(&Ok(output(true, b"ab\xffc", b"")));
    assert_eq!(r.unwrap(), "ab\u{FFFD}c");
}

#[test]
fn failed_run_yields_stderr() {
    match llvm_cov_output(&Ok(output(false, b"partial", b"error: no tests"))) {
        Err(CoverageError::SubprocessFailed(s)) => assert_eq!(s, "error: no tests"),
        other => panic!("unexpected {:?}", other),
    }
}

#[test]
fn unstartable_run_yields_reason() {
    match llvm_cov_output(&Err("permission denied".into())) {
        Err(CoverageError::SubprocessFailed(s)) => assert_eq!(s, "permission denied"),
        other => panic!("unexpected {:?}", other),
    }
}

#[test]
fn error_messages_match_display() {
    assert_eq!(
        CoverageError::ToolNotInstalled.message(),
        "cargo-llvm-cov is not installed; run `cargo install cargo-llvm-cov`"
    );
    assert_eq!(
        CoverageError::SubprocessFailed("boom".into()).message(),
        "cargo llvm-cov failed: boom"
    );
    assert_eq!(
        CoverageError::ParseError("eof".into()).message(),
        "could not parse cargo llvm-cov output: eof"
    );
    let io = std::io::Error::new(std::io::ErrorKind::Other, "disk full");
    let rendered = io.to_string();
    assert_eq!(CoverageError::from(io).message(), format!("io error: {rendered}"));
    assert_eq!(rendered, "disk full");
}
