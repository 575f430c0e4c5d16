//! A cron-style command wrapper library.
//!
//! The library holds the verified logic of a wrapper that runs a command,
//! captures its output, filters shell-trace lines from the diagnostic
//! stream, classifies the run as a pass or a failure under a configurable
//! policy, and renders a structured failure report.
//!
//! Running the command and reading its captured output back are plain I/O
//! and live outside this library; everything that decides or formats is
//! here, with a contract.

pub mod classify;
pub mod filter;
pub mod outcome;
pub mod report;
pub mod resolve;
pub mod text;

use vstd::prelude::*;

verus! {

/// The trace prefix used when the environment supplies none.
pub fn default_trace_prefix() -> (r: &'static str)
    ensures
        r@ == "+ "@,
{
    "+ "
}

/// The usage text shown on the help flag or when no command is given.
pub fn usage_text() -> (r: &'static str)
    ensures
        r@
            == "Usage: cronclearer [-ishV] <command> [args...]\n\nOptions:\n    -h, --help        Show this usage information.\n    -i, --ignore-text React only on exit-code, not on text on stderr.\n    -s, --stdout      React on exit-code, or on text on stdout.\n    -V, --version     Show the version of cronclearer.\n"@,
{
    "Usage: cronclearer [-ishV] <command> [args...]\n\nOptions:\n    -h, --help        Show this usage information.\n    -i, --ignore-text React only on exit-code, not on text on stderr.\n    -s, --stdout      React on exit-code, or on text on stdout.\n    -V, --version     Show the version of cronclearer.\n"
}

} // verus!
