//! The whole post-execution step of a run: filter the captured trace,
//! classify under the policy, and render the report when the run failed.

use vstd::prelude::*;
use crate::classify::{classify, fails, verdict_of, Verdict};
use crate::filter::{clean_of, filter_trace};
use crate::report::{render_report, report_of};
use crate::resolve::{Invocation, Policy};

verus! {

/// The exit code the wrapper itself reports: the target's own code, or a
/// sentinel when the target did not run to completion.
pub open spec fn effective_exit_code(exit_code: Option<i32>) -> i32 {
    match exit_code {
        Some(c) => c,
        None => -1i32,
    }
}

/// What one run comes to: the verdict, the exit code the wrapper passes
/// on, and the report to print when the verdict is a failure.
pub struct RunOutcome {
    pub verdict: Verdict,
    pub exit_code: i32,
    pub report: Option<String>,
}

/// Decide one finished run. The wrapper's exit code always equals the
/// target command's exit code whenever the target ran to completion,
/// whatever the verdict; a report exists exactly on failure, and its text
/// is pinned down by [`report_of`] over the filtered trace.
pub fn evaluate(
    policy: &Policy,
    command: &Invocation,
    exit_code: Option<i32>,
    stdout_text: &str,
    trace_text: &str,
    trace_prefix: &str,
) -> (r: RunOutcome)
    ensures
        r.exit_code == effective_exit_code(exit_code),
        r.verdict == verdict_of(
            exit_code,
            *policy,
            clean_of(trace_text@, trace_prefix@),
            stdout_text@,
        ),
        (r.verdict == Verdict::Fail) == fails(
            exit_code,
            *policy,
            clean_of(trace_text@, trace_prefix@),
            stdout_text@,
        ),
        r.verdict == Verdict::Fail ==> (r.report matches Some(rep) && rep@ == report_of(
            command.program@,
            command.arguments.deep_view(),
            effective_exit_code(exit_code) as int,
            clean_of(trace_text@, trace_prefix@),
            stdout_text@,
            trace_text@,
        )),
        r.verdict == Verdict::Pass ==> r.report is None,
{
    let clean = filter_trace(trace_text, trace_prefix);
    let verdict = classify(exit_code, policy, clean.as_str(), stdout_text);
    let code: i32 = match exit_code {
        Some(c) => c,
        None => -1,
    };
    let report = match verdict {
        Verdict::Fail => Some(
            render_report(command, code, clean.as_str(), stdout_text, trace_text),
        ),
        Verdict::Pass => None,
    };
    RunOutcome { verdict, exit_code: code, report }
}

} // verus!
