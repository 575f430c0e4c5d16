//! The configuration resolver: a left-to-right pass over the raw argument
//! list that consumes flag tokens until the first non-flag token, which
//! starts the target command. Its outcome is specified by
//! [`resolve_model`].

use vstd::prelude::*;
use vstd::string::*;
use crate::text::text_eq;

verus! {

/// The failure policy of a run.
#[derive(Clone, Copy, PartialEq, Eq, Structural, Debug)]
pub struct Policy {
    /// Treat non-blank clean diagnostic text as a failure.
    pub fail_on_diagnostic_text: bool,
    /// Treat non-blank captured standard output as a failure.
    pub fail_on_stdout_text: bool,
}

/// The policy in force when no flag changes it.
pub open spec fn default_policy() -> Policy {
    Policy { fail_on_diagnostic_text: true, fail_on_stdout_text: false }
}

/// The target command: a program and its argument vector.
pub struct Invocation {
    pub program: String,
    pub arguments: Vec<String>,
}

/// What the argument list resolved to.
pub enum Resolution {
    /// Run this command under this policy.
    Run(Policy, Invocation),
    /// Show the usage text and stop: the help flag, or no command given.
    Help,
    /// Show the version and stop.
    Version,
    /// A flag-shaped token that no flag matches; holds the token.
    Unknown(String),
}

/// The mathematical shape of a [`Resolution`], over character sequences.
pub enum ResolutionModel {
    Run(Policy, Seq<char>, Seq<Seq<char>>),
    Help,
    Version,
    Unknown(Seq<char>),
}

impl View for Resolution {
    type V = ResolutionModel;

    open spec fn view(&self) -> ResolutionModel {
        match self {
            Resolution::Run(pol, inv) => ResolutionModel::Run(
                *pol,
                inv.program@,
                inv.arguments.deep_view(),
            ),
            Resolution::Help => ResolutionModel::Help,
            Resolution::Version => ResolutionModel::Version,
            Resolution::Unknown(t) => ResolutionModel::Unknown(t@),
        }
    }
}

/// A token that looks like a flag: non-empty and beginning with a dash.
pub open spec fn is_flag_token(s: Seq<char>) -> bool {
    s.len() > 0 && s[0] == '-'
}

pub open spec fn is_help_flag(s: Seq<char>) -> bool {
    s == "-h"@ || s == "--help"@
}

pub open spec fn is_version_flag(s: Seq<char>) -> bool {
    s == "-V"@ || s == "--version"@
}

pub open spec fn is_ignore_flag(s: Seq<char>) -> bool {
    s == "-i"@ || s == "--ignore-text"@
}

pub open spec fn is_stdout_flag(s: Seq<char>) -> bool {
    s == "-s"@ || s == "--stdout"@
}

/// One resolver step at a time: the head token either starts the command,
/// ends the run (help, version, unknown flag), or adjusts the policy for
/// the rest. An exhausted list without a command is a usage error.
pub open spec fn resolve_rec(args: Seq<Seq<char>>, pol: Policy) -> ResolutionModel
    decreases args.len(),
{
    if args.len() == 0 {
        ResolutionModel::Help
    } else {
        let a = args[0];
        if !is_flag_token(a) {
            ResolutionModel::Run(pol, a, args.drop_first())
        } else if is_help_flag(a) {
            ResolutionModel::Help
        } else if is_version_flag(a) {
            ResolutionModel::Version
        } else if is_ignore_flag(a) {
            resolve_rec(
                args.drop_first(),
                Policy { fail_on_diagnostic_text: false, fail_on_stdout_text: pol.fail_on_stdout_text },
            )
        } else if is_stdout_flag(a) {
            resolve_rec(
                args.drop_first(),
                Policy { fail_on_diagnostic_text: pol.fail_on_diagnostic_text, fail_on_stdout_text: true },
            )
        } else {
            ResolutionModel::Unknown(a)
        }
    }
}

/// What a raw argument list (the program name already removed) resolves
/// to, starting from the default policy.
pub open spec fn resolve_model(args: Seq<Seq<char>>) -> ResolutionModel {
    resolve_rec(args, default_policy())
}

fn starts_with_dash(a: &String) -> (r: bool)
    ensures
        r == is_flag_token(a@),
{
    let s = a.as_str();
    if s.unicode_len() == 0 {
        false
    } else {
        s.get_char(0) == '-'
    }
}

fn str_matches(a: &String, lit: &str) -> (r: bool)
    ensures
        r == (a@ == lit@),
{
    text_eq(a.as_str(), lit)
}

/// Resolve the raw argument list into a policy and a command, or into one
/// of the early exits.
pub fn resolve(args: &Vec<String>) -> (r: Resolution)
    ensures
        r@ == resolve_model(args.deep_view()),
{
    let ghost all = args.deep_view();
    let mut fail_diag = true;
    let mut fail_out = false;
    let mut i: usize = 0;
    proof {
        assert(all.skip(0) =~= all);
    }
    while i < args.len()
        invariant
            0 <= i <= args.len(),
            all == args.deep_view(),
            all.len() == args.len(),
            resolve_rec(
                all.skip(i as int),
                Policy { fail_on_diagnostic_text: fail_diag, fail_on_stdout_text: fail_out },
            ) == resolve_model(all),
        decreases args.len() - i,
    {
        let a = &args[i];
        proof {
            assert(all.skip(i as int)[0] == a@);
            assert(all.skip(i as int).drop_first() =~= all.skip(i as int + 1));
        }
        if !starts_with_dash(a) {
            let program = a.clone();
            let mut rest: Vec<String> = Vec::new();
            let mut j: usize = i + 1;
            while j < args.len()
                invariant
                    i + 1 <= j <= args.len(),
                    rest@.len() == j - i - 1,
                    forall|k: int| 0 <= k < rest@.len() ==> rest@[k] == args@[i + 1 + k],
                decreases args.len() - j,
            {
                rest.push(args[j].clone());
                j = j + 1;
            }
            proof {
                assert forall|k: int| 0 <= k < rest.deep_view().len() implies rest.deep_view()[k]
                    == all.subrange(i as int + 1, all.len() as int)[k] by {
                    assert(rest@[k] == args@[i + 1 + k]);
                }
                assert(rest.deep_view() =~= all.subrange(i as int + 1, all.len() as int));
                assert(all.subrange(i as int + 1, all.len() as int) =~= all.skip(
                    i as int,
                ).drop_first());
            }
            return Resolution::Run(
                Policy { fail_on_diagnostic_text: fail_diag, fail_on_stdout_text: fail_out },
                Invocation { program, arguments: rest },
            );
        } else if str_matches(a, "-h") || str_matches(a, "--help") {
            return Resolution::Help;
        } else if str_matches(a, "-V") || str_matches(a, "--version") {
            return Resolution::Version;
        } else if str_matches(a, "-i") || str_matches(a, "--ignore-text") {
            fail_diag = false;
            i = i + 1;
        } else if str_matches(a, "-s") || str_matches(a, "--stdout") {
            fail_out = true;
            i = i + 1;
        } else {
            return Resolution::Unknown(a.clone());
        }
    }
    proof {
        assert(all.skip(i as int) =~= Seq::<Seq<char>>::empty());
    }
    Resolution::Help
}

/// The command starts at the first non-flag token: everything before `k`
/// is flag-shaped and consumed, the token at `k` is the program, and the
/// tokens after `k` — flag-shaped or not — are handed over unchanged.
pub open spec fn run_split_at(
    args: Seq<Seq<char>>,
    k: int,
    prog: Seq<char>,
    rest: Seq<Seq<char>>,
) -> bool {
    &&& 0 <= k < args.len()
    &&& forall|m: int| 0 <= m < k ==> is_flag_token(#[trigger] args[m])
    &&& !is_flag_token(args[k])
    &&& prog == args[k]
    &&& rest == args.skip(k + 1)
}

proof fn lemma_run_suffix_rec(args: Seq<Seq<char>>, pol: Policy) -> (k: int)
    ensures
        resolve_rec(args, pol) matches ResolutionModel::Run(_, prog, rest) ==> run_split_at(
            args,
            k,
            prog,
            rest,
        ),
    decreases args.len(),
{
    if args.len() == 0 {
        0
    } else {
        let a = args[0];
        let tail = args.drop_first();
        assert(tail =~= args.skip(1));
        if !is_flag_token(a) {
            assert(run_split_at(args, 0, a, tail));
            0
        } else if is_help_flag(a) || is_version_flag(a) {
            0
        } else if is_ignore_flag(a) || is_stdout_flag(a) {
            let pol2 = if is_ignore_flag(a) {
                Policy {
                    fail_on_diagnostic_text: false,
                    fail_on_stdout_text: pol.fail_on_stdout_text,
                }
            } else {
                Policy {
                    fail_on_diagnostic_text: pol.fail_on_diagnostic_text,
                    fail_on_stdout_text: true,
                }
            };
            let k0 = lemma_run_suffix_rec(tail, pol2);
            assert(resolve_rec(args, pol) == resolve_rec(tail, pol2));
            if let ResolutionModel::Run(_, prog, rest) = resolve_rec(args, pol) {
                assert(run_split_at(tail, k0, prog, rest));
                assert(forall|m: int| 0 <= m < tail.len() ==> tail[m] == args[m + 1]);
                assert(tail.skip(k0 + 1) =~= args.skip(k0 + 2));
                assert forall|m: int| 0 <= m < k0 + 1 implies is_flag_token(
                    #[trigger] args[m],
                ) by {
                    if m > 0 {
                        assert(is_flag_token(tail[m - 1]));
                    }
                }
                assert(run_split_at(args, k0 + 1, prog, rest));
            }
            k0 + 1
        } else {
            0
        }
    }
}

/// Flags appearing after the first non-flag token are never consumed by
/// the resolver: whenever resolution yields a command to run, the
/// argument list splits at a first non-flag token, and everything after
/// it passes through verbatim as the command's own arguments. The
/// returned index is where the split happens.
pub proof fn lemma_run_takes_suffix(args: Seq<Seq<char>>) -> (k: int)
    ensures
        resolve_model(args) matches ResolutionModel::Run(_, prog, rest) ==> run_split_at(
            args,
            k,
            prog,
            rest,
        ),
{
    lemma_run_suffix_rec(args, default_policy())
}

} // verus!
