use cronclearer::resolve::{resolve, Resolution};

fn args_of(tokens: &[&str]) -> Vec<String> {
    tokens.iter().map(|t| t.to_string()).collect()
}

#[test]
fn empty_argument_list_is_a_usage_error() {
    assert!(matches!(resolve(&args_of(&[])), Resolution::Help));
}

#[test]
fn help_flags_resolve_to_help() {
    assert!(matches!(resolve(&args_of(&["-h"])), Resolution::Help));
    assert!(matches!(resolve(&args_of(&["--help", "cmd"])), Resolution::Help));
}

#[test]
fn version_flags_resolve_to_version() {
    assert!(matches!(resolve(&args_of(&["-V"])), Resolution::Version));
    assert!(matches!(resolve(&args_of(&["--version"])), Resolution::Version));
}

#[test]
fn unknown_flag_is_reported_with_its_token() {
    match resolve(&args_of(&["-x", "cmd"])) {
        Resolution::Unknown(token) => assert_eq!(token, "-x"),
        _ => panic!("expected an unknown flag"),
    }
}

#[test]
fn flags_set_the_policy_and_the_command_follows() {
    match resolve(&args_of(&["-i", "--stdout", "prog", "arg1", "arg2"])) {
        Resolution::Run(policy, invocation) => {
            assert!(!policy.fail_on_diagnostic_text);
            assert!(policy.fail_on_stdout_text);
            assert_eq!(invocation.program, "prog");
            assert_eq!(invocation.arguments, vec!["arg1".to_string(), "arg2".to_string()]);
        }
        _ => panic!("expected a command to run"),
    }
}

#[test]
fn default_policy_checks_stderr_only() {
    match resolve(&args_of(&["prog"])) {
        Resolution::Run(policy, invocation) => {
            assert!(policy.fail_on_diagnostic_text);
            assert!(!policy.fail_on_stdout_text);
            assert_eq!(invocation.program, "prog");
            assert!(invocation.arguments.is_empty());
        }
        _ => panic!("expected a command to run"),
    }
}

#[test]
fn flags_after_the_command_pass_through_verbatim() {
    match resolve(&args_of(&["-s", "cmd", "-i", "--help", "-V"])) {
        Resolution::Run(policy, invocation) => {
            assert!(policy.fail_on_diagnostic_text);
            assert!(policy.fail_on_stdout_text);
            assert_eq!(invocation.program, "cmd");
            assert_eq!(
                invocation.arguments,
                vec!["-i".to_string(), "--help".to_string(), "-V".to_string()]
            );
        }
        _ => panic!("expected a command to run"),
    }
}

#[test]
fn usage_text_names_every_flag() {
    let text = cronclearer::usage_text();
    assert!(text.starts_with("Usage: cronclearer"));
    assert!(text.contains("--help"));
    assert!(text.contains("--ignore-text"));
    assert!(text.contains("--stdout"));
    assert!(text.contains("--version"));
}
