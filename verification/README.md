# dev_coverage

Coverage measurement with regression gates, around `cargo llvm-cov`.

- `src/` — the verified library. `run` builds the `cargo llvm-cov`
  command line and judges what the subprocesses report; `llvm_cov`
  turns a decoded JSON export into a `CoverageResult`; `coverage` holds
  thresholds, baseline diffs, least-covered files and threshold verdicts;
  `producer` decides which checks one run yields; `baseline` lays out
  baseline files; `error` holds `CoverageError`; `check` is the plain
  content of a report entry. Percentages are carried as the bit patterns
  of IEEE-754 binary64 values, and `pct` defines and implements `<`,
  negation and `min` on them.
- `app/` — spawning processes, file I/O, serde, float arithmetic and
  formatting, and the `dev_report` values built from the library's
  checks.
- `tests/` — tests of the library.
