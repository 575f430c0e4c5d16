//! The outcome classifier: a pure decision from exit status, clean
//! diagnostic text and captured standard output to a pass or a failure.

use vstd::prelude::*;
use crate::resolve::Policy;
use crate::text::{is_blank, trimmed};

verus! {

/// The binary classification of one command invocation.
#[derive(Clone, Copy, PartialEq, Eq, Structural, Debug)]
pub enum Verdict {
    Pass,
    Fail,
}

/// The run counts as failed exactly when the exit code is absent or
/// non-zero, or a policy flag is on and the corresponding captured text is
/// more than whitespace.
pub open spec fn fails(
    exit_code: Option<i32>,
    policy: Policy,
    clean: Seq<char>,
    out: Seq<char>,
) -> bool {
    ||| exit_code != Some(0i32)
    ||| policy.fail_on_diagnostic_text && trimmed(clean).len() > 0
    ||| policy.fail_on_stdout_text && trimmed(out).len() > 0
}

/// The verdict under a policy: `Fail` exactly when [`fails`] holds.
pub open spec fn verdict_of(
    exit_code: Option<i32>,
    policy: Policy,
    clean: Seq<char>,
    out: Seq<char>,
) -> Verdict {
    if fails(exit_code, policy, clean, out) {
        Verdict::Fail
    } else {
        Verdict::Pass
    }
}

/// Classify one run. Pure: no part of the outcome depends on anything but
/// the arguments.
pub fn classify(
    exit_code: Option<i32>,
    policy: &Policy,
    clean: &str,
    stdout_text: &str,
) -> (v: Verdict)
    ensures
        v == verdict_of(exit_code, *policy, clean@, stdout_text@),
        (v == Verdict::Fail) == fails(exit_code, *policy, clean@, stdout_text@),
{
    let code_is_success = match exit_code {
        Some(c) => c == 0,
        None => false,
    };
    let failed = !code_is_success || (policy.fail_on_diagnostic_text && !is_blank(clean)) || (
    policy.fail_on_stdout_text && !is_blank(stdout_text));
    if failed {
        Verdict::Fail
    } else {
        Verdict::Pass
    }
}

} // verus!
