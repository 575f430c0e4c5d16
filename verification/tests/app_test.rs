use cronclearer::outcome::evaluate;
use cronclearer::resolve::{resolve, Resolution};

/// Resolve the wrapper's own argument list into a policy and a command,
/// as the wrapper binary would.
fn resolved(args: &[&str]) -> (cronclearer::resolve::Policy, cronclearer::resolve::Invocation) {
    let args: Vec<String> = args.iter().map(|a| a.to_string()).collect();
    match resolve(&args) {
        Resolution::Run(policy, invocation) => (policy, invocation),
        _ => panic!("expected a command to run"),
    }
}

#[test]
fn just_stderr() {
    // `./tests/just_stderr.sh -x -V` writes a line to stdout and a line to
    // stderr (no trace), and exits 0; the flags after the script are the
    // script's own.
    let (policy, invocation) = resolved(&["./tests/just_stderr.sh", "-x", "-V"]);
    let outcome = evaluate(
        &policy,
        &invocation,
        Some(0),
        "Text in std-out\n",
        "Text in std-err\n",
        "+ ",
    );
    assert_eq!(
        outcome.report.as_deref().unwrap_or(""),
        r#"# Failure or error output for the command:
`./tests/just_stderr.sh -x -V`

## Exit-code: 0

## Err output:
```
Text in std-err
```

## Std output:
```
Text in std-out

```
"#
    );
    assert!(outcome.exit_code == 0);
}

#[test]
fn just_stderr_ignore_text() {
    let (policy, invocation) = resolved(&["-i", "./tests/just_stderr.sh"]);
    let outcome = evaluate(
        &policy,
        &invocation,
        Some(0),
        "Text in std-out\n",
        "Text in std-err\n",
        "+ ",
    );
    assert_eq!(outcome.report.as_deref().unwrap_or(""), "");
    assert!(outcome.exit_code == 0);
}

#[test]
fn return_one() {
    // `./tests/return_one.sh` echoes a line under shell trace mode and
    // exits 1: both trace lines carry the prefix, so the clean diagnostic
    // text is empty and the raw trace earns a section of its own.
    let (policy, invocation) = resolved(&["./tests/return_one.sh"]);
    let outcome = evaluate(
        &policy,
        &invocation,
        Some(1),
        "Text in std-out\n",
        "+ echo 'Text in std-out'\n+ exit 1\n",
        "+ ",
    );
    assert_eq!(
        outcome.report.as_deref().unwrap_or(""),
        r#"# Failure or error output for the command:
`./tests/return_one.sh `

## Exit-code: 1

## Err output:
```

```

## Std output:
```
Text in std-out

```

## Trace output:
```
+ echo 'Text in std-out'
+ exit 1

```
"#
    );
    assert!(outcome.exit_code == 1);
}

#[test]
fn return_two_ignore_text() {
    let (policy, invocation) = resolved(&["-i", "./tests/return_one.sh"]);
    let outcome = evaluate(
        &policy,
        &invocation,
        Some(1),
        "Text in std-out\n",
        "+ echo 'Text in std-out'\n+ exit 1\n",
        "+ ",
    );
    assert_eq!(
        outcome.report.as_deref().unwrap_or(""),
        r#"# Failure or error output for the command:
`./tests/return_one.sh `

## Exit-code: 1

## Err output:
```

```

## Std output:
```
Text in std-out

```

## Trace output:
```
+ echo 'Text in std-out'
+ exit 1

```
"#
    );
    assert!(outcome.exit_code == 1);
}
