use cronclearer::outcome::evaluate;
use cronclearer::report::{exit_code_text, render_report};
use cronclearer::resolve::{Invocation, Policy};

fn invocation(program: &str, arguments: &[&str]) -> Invocation {
    Invocation {
        program: program.to_string(),
        arguments: arguments.iter().map(|a| a.to_string()).collect(),
    }
}

#[test]
fn exit_codes_render_in_decimal() {
    assert_eq!(exit_code_text(0), "0");
    assert_eq!(exit_code_text(7), "7");
    assert_eq!(exit_code_text(42), "42");
    assert_eq!(exit_code_text(120), "120");
    assert_eq!(exit_code_text(-1), "-1");
    assert_eq!(exit_code_text(i32::MAX), "2147483647");
    assert_eq!(exit_code_text(i32::MIN), "-2147483648");
}

#[test]
fn command_line_joins_program_and_arguments() {
    assert_eq!(invocation("prog", &["a", "b c", "-d"]).command_line(), "prog a b c -d");
    // A command without arguments keeps the separating space.
    assert_eq!(invocation("prog", &[]).command_line(), "prog ");
}

#[test]
fn trace_section_appears_iff_trimmed_texts_differ() {
    let inv = invocation("cmd", &[]);
    // Filtering removed nothing: clean and raw trace agree after trimming.
    let same = render_report(&inv, 3, "oops", "", "oops\n");
    assert_eq!(
        same,
        "# Failure or error output for the command:\n`cmd `\n\n## Exit-code: 3\n\n## Err output:\n```\noops\n```\n\n## Std output:\n```\n\n```\n"
    );
    // Filtering removed a line: the raw trace earns its own section.
    let differs = render_report(&inv, 3, "oops", "", "+ run\noops\n");
    assert_eq!(
        differs,
        "# Failure or error output for the command:\n`cmd `\n\n## Exit-code: 3\n\n## Err output:\n```\noops\n```\n\n## Std output:\n```\n\n```\n\n## Trace output:\n```\n+ run\noops\n\n```\n"
    );
}

#[test]
fn wrapper_exit_code_mirrors_the_target() {
    let policy = Policy { fail_on_diagnostic_text: true, fail_on_stdout_text: false };
    let inv = invocation("cmd", &[]);
    // Across both verdicts the wrapper passes the target's code on.
    let pass = evaluate(&policy, &inv, Some(0), "", "", "+ ");
    assert_eq!(pass.exit_code, 0);
    assert!(pass.report.is_none());
    let fail = evaluate(&policy, &inv, Some(5), "", "", "+ ");
    assert_eq!(fail.exit_code, 5);
    assert!(fail.report.is_some());
}

#[test]
fn absent_exit_code_becomes_the_sentinel() {
    let policy = Policy { fail_on_diagnostic_text: true, fail_on_stdout_text: false };
    let inv = invocation("cmd", &[]);
    let outcome = evaluate(&policy, &inv, None, "", "", "+ ");
    assert_eq!(outcome.exit_code, -1);
    let report = outcome.report.expect("an abnormal end is a failure");
    assert!(report.contains("## Exit-code: -1"));
}

#[test]
fn stdout_policy_fails_a_clean_exit_with_output() {
    let policy = Policy { fail_on_diagnostic_text: false, fail_on_stdout_text: true };
    let inv = invocation("cmd", &["x"]);
    let outcome = evaluate(&policy, &inv, Some(0), "hello\n", "", "+ ");
    assert_eq!(outcome.exit_code, 0);
    let report = outcome.report.expect("stdout text fails under this policy");
    assert!(report.contains("## Std output:\n```\nhello\n\n```\n"));
}

#[test]
fn trace_prefix_from_the_environment_is_honoured() {
    // A run under a different trace prefix: its lines are filtered, the
    // default prefix's are not.
    let policy = Policy { fail_on_diagnostic_text: true, fail_on_stdout_text: false };
    let inv = invocation("cmd", &[]);
    let outcome = evaluate(&policy, &inv, Some(0), "", "» echo hi\nreal error\n", "» ");
    let report = outcome.report.expect("the unprefixed line fails the run");
    assert!(report.contains("## Err output:\n```\nreal error\n```\n"));
    assert!(report.contains("## Trace output:"));
}
