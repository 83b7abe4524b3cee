//! Benchmark harness rules: command line, suite composition, verdicts.
pub mod checksum;
pub mod cli;
pub mod profile;
pub mod report;
pub mod setup;
pub mod suite;
