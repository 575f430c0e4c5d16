use cronclearer::classify::{classify, Verdict};
use cronclearer::resolve::Policy;

#[test]
fn verdict_is_fail_iff_the_disjunction_holds() {
    let codes: [Option<i32>; 4] = [Some(0), Some(1), Some(-1), None];
    let texts: [&str; 4] = ["", "   \t\n  ", "text", "  text  "];
    for &code in codes.iter() {
        for &fail_on_diag in [false, true].iter() {
            for &fail_on_out in [false, true].iter() {
                for &clean in texts.iter() {
                    for &out in texts.iter() {
                        let policy = Policy {
                            fail_on_diagnostic_text: fail_on_diag,
                            fail_on_stdout_text: fail_on_out,
                        };
                        let expected = code != Some(0)
                            || (fail_on_diag && !clean.trim().is_empty())
                            || (fail_on_out && !out.trim().is_empty());
                        let verdict = classify(code, &policy, clean, out);
                        assert_eq!(verdict == Verdict::Fail, expected);
                        assert_eq!(verdict == Verdict::Pass, !expected);
                    }
                }
            }
        }
    }
}

#[test]
fn whitespace_only_text_is_no_failure() {
    let policy = Policy { fail_on_diagnostic_text: true, fail_on_stdout_text: true };
    assert_eq!(classify(Some(0), &policy, " \t\r\n ", "   "), Verdict::Pass);
}

#[test]
fn absent_exit_code_fails_under_every_policy() {
    let policy = Policy { fail_on_diagnostic_text: false, fail_on_stdout_text: false };
    assert_eq!(classify(None, &policy, "", ""), Verdict::Fail);
}
