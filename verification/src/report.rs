//! The report renderer: the exact text of the failure report, specified
//! by [`report_of`] over the views of its parts.

use vstd::prelude::*;
use vstd::string::*;
use crate::resolve::Invocation;
use crate::text::{text_eq, trim_text, trimmed};

verus! {

/// The decimal digit character for `d`.
pub open spec fn digit_char(d: int) -> char {
    if d == 0 {
        '0'
    } else if d == 1 {
        '1'
    } else if d == 2 {
        '2'
    } else if d == 3 {
        '3'
    } else if d == 4 {
        '4'
    } else if d == 5 {
        '5'
    } else if d == 6 {
        '6'
    } else if d == 7 {
        '7'
    } else if d == 8 {
        '8'
    } else {
        '9'
    }
}

/// The decimal digits of a non-negative number, most significant first.
pub open spec fn dec_digits(n: int) -> Seq<char>
    recommends
        n >= 0,
    decreases n,
{
    if n < 10 {
        seq![digit_char(n)]
    } else {
        dec_digits(n / 10).push(digit_char(n % 10))
    }
}

/// The decimal rendering of a signed number.
pub open spec fn dec_int(c: int) -> Seq<char> {
    if c >= 0 {
        dec_digits(c)
    } else {
        seq!['-'] + dec_digits(-c)
    }
}

fn digit_str(d: u32) -> (r: &'static str)
    requires
        d < 10,
    ensures
        r@ == seq![digit_char(d as int)],
{
    match d {
        0 => {
            proof {
                reveal_strlit("0");
                assert("0"@ =~= seq!['0']);
            }
            "0"
        },
        1 => {
            proof {
                reveal_strlit("1");
                assert("1"@ =~= seq!['1']);
            }
            "1"
        },
        2 => {
            proof {
                reveal_strlit("2");
                assert("2"@ =~= seq!['2']);
            }
            "2"
        },
        3 => {
            proof {
                reveal_strlit("3");
                assert("3"@ =~= seq!['3']);
            }
            "3"
        },
        4 => {
            proof {
                reveal_strlit("4");
                assert("4"@ =~= seq!['4']);
            }
            "4"
        },
        5 => {
            proof {
                reveal_strlit("5");
                assert("5"@ =~= seq!['5']);
            }
            "5"
        },
        6 => {
            proof {
                reveal_strlit("6");
                assert("6"@ =~= seq!['6']);
            }
            "6"
        },
        7 => {
            proof {
                reveal_strlit("7");
                assert("7"@ =~= seq!['7']);
            }
            "7"
        },
        8 => {
            proof {
                reveal_strlit("8");
                assert("8"@ =~= seq!['8']);
            }
            "8"
        },
        _ => {
            proof {
                reveal_strlit("9");
                assert("9"@ =~= seq!['9']);
            }
            "9"
        },
    }
}

fn unsigned_dec(n: u32) -> (s: String)
    ensures
        s@ == dec_digits(n as int),
    decreases n,
{
    if n < 10 {
        digit_str(n).to_owned()
    } else {
        let mut s = unsigned_dec(n / 10);
        s.append(digit_str(n % 10));
        proof {
            assert(s@ =~= dec_digits((n / 10) as int).push(digit_char((n % 10) as int)));
        }
        s
    }
}

/// The decimal text of an exit code, negative codes included.
pub fn exit_code_text(c: i32) -> (s: String)
    ensures
        s@ == dec_int(c as int),
{
    if c >= 0 {
        unsigned_dec(c as u32)
    } else {
        let wide: i64 = c as i64;
        let magnitude: u32 = (-wide) as u32;
        let mut s = "-".to_owned();
        proof {
            reveal_strlit("-");
            assert("-"@ =~= seq!['-']);
        }
        s.append(unsigned_dec(magnitude).as_str());
        s
    }
}

/// The argument vector joined with single spaces.
pub open spec fn join_spaced(xs: Seq<Seq<char>>) -> Seq<char>
    decreases xs.len(),
{
    if xs.len() == 0 {
        Seq::empty()
    } else if xs.len() == 1 {
        xs[0]
    } else {
        xs[0] + seq![' '] + join_spaced(xs.drop_first())
    }
}

/// The command line as the report shows it: the program, one space, then
/// the space-joined arguments (so a command without arguments renders
/// with a trailing space).
pub open spec fn command_line_of(prog: Seq<char>, args: Seq<Seq<char>>) -> Seq<char> {
    prog + seq![' '] + join_spaced(args)
}

proof fn lemma_join_spaced_push(xs: Seq<Seq<char>>, x: Seq<char>)
    ensures
        join_spaced(xs.push(x)) == (if xs.len() == 0 {
            x
        } else {
            join_spaced(xs) + seq![' '] + x
        }),
    decreases xs.len(),
{
    if xs.len() == 0 {
        assert(xs.push(x) =~= seq![x]);
    } else {
        let t = xs.drop_first();
        lemma_join_spaced_push(t, x);
        assert(xs.push(x).drop_first() =~= t.push(x));
        assert(xs.push(x)[0] == xs[0]);
        if xs.len() == 1 {
            assert(join_spaced(xs.push(x)) == xs[0] + seq![' '] + x);
        } else {
            assert(xs[0] + seq![' '] + (join_spaced(t) + seq![' '] + x) =~= (xs[0] + seq![' ']
                + join_spaced(t)) + seq![' '] + x);
        }
    }
}

impl Invocation {
    /// The reconstructed command line of this invocation.
    pub fn command_line(&self) -> (s: String)
        ensures
            s@ == command_line_of(self.program@, self.arguments.deep_view()),
    {
        let ghost vs = self.arguments.deep_view();
        let mut s = self.program.clone();
        s.append(" ");
        proof {
            reveal_strlit(" ");
            assert(" "@ =~= seq![' ']);
            assert(vs.take(0) =~= Seq::<Seq<char>>::empty());
            assert(self.program@ + seq![' '] + Seq::<char>::empty() =~= self.program@
                + seq![' ']);
        }
        let mut j: usize = 0;
        while j < self.arguments.len()
            invariant
                0 <= j <= self.arguments.len(),
                vs == self.arguments.deep_view(),
                vs.len() == self.arguments.len(),
                s@ == self.program@ + seq![' '] + join_spaced(vs.take(j as int)),
            decreases self.arguments.len() - j,
        {
            if j > 0 {
                s.append(" ");
                proof {
                    reveal_strlit(" ");
                    assert(" "@ =~= seq![' ']);
                }
            }
            s.append(self.arguments[j].as_str());
            proof {
                assert(self.arguments@[j as int]@ == vs[j as int]);
                lemma_join_spaced_push(vs.take(j as int), vs[j as int]);
                assert(vs.take(j as int).push(vs[j as int]) =~= vs.take(j as int + 1));
                if j > 0 {
                    assert(s@ =~= self.program@ + seq![' '] + join_spaced(vs.take(j as int + 1)));
                } else {
                    assert(s@ =~= self.program@ + seq![' '] + join_spaced(vs.take(1)));
                }
            }
            j = j + 1;
        }
        proof {
            assert(vs.take(vs.len() as int) =~= vs);
        }
        s
    }
}

/// A fenced code block as the report writes one.
pub open spec fn fenced_block(body: Seq<char>) -> Seq<char> {
    "```\n"@ + body + "\n```\n"@
}

/// The full text of the failure report: header, command line, exit code,
/// the clean diagnostic text and the captured standard output in fenced
/// blocks, and — exactly when trimming leaves the clean diagnostic text
/// different from the raw trace text — the raw trace text as a final
/// fenced block.
pub open spec fn report_of(
    prog: Seq<char>,
    args: Seq<Seq<char>>,
    code: int,
    clean: Seq<char>,
    out: Seq<char>,
    raw: Seq<char>,
) -> Seq<char> {
    "# Failure or error output for the command:\n`"@ + command_line_of(prog, args) + "`\n\n## Exit-code: "@
        + dec_int(code) + "\n\n## Err output:\n"@ + fenced_block(clean) + "\n## Std output:\n"@
        + fenced_block(out) + (if trimmed(clean) != trimmed(raw) {
        "\n## Trace output:\n"@ + fenced_block(raw)
    } else {
        Seq::<char>::empty()
    })
}

fn append_fenced(r: &mut String, body: &str)
    ensures
        final(r)@ == old(r)@ + fenced_block(body@),
{
    r.append("```\n");
    r.append(body);
    r.append("\n```\n");
    proof {
        assert(r@ =~= old(r)@ + fenced_block(body@));
    }
}

/// Render the failure report for one run.
pub fn render_report(
    command: &Invocation,
    exit_code: i32,
    clean: &str,
    stdout_text: &str,
    trace_text: &str,
) -> (r: String)
    ensures
        r@ == report_of(
            command.program@,
            command.arguments.deep_view(),
            exit_code as int,
            clean@,
            stdout_text@,
            trace_text@,
        ),
{
    let mut r = "# Failure or error output for the command:\n`".to_owned();
    let cmd = command.command_line();
    r.append(cmd.as_str());
    r.append("`\n\n## Exit-code: ");
    let code = exit_code_text(exit_code);
    r.append(code.as_str());
    r.append("\n\n## Err output:\n");
    append_fenced(&mut r, clean);
    r.append("\n## Std output:\n");
    append_fenced(&mut r, stdout_text);
    let clean_trim = trim_text(clean);
    let trace_trim = trim_text(trace_text);
    if !text_eq(clean_trim, trace_trim) {
        r.append("\n## Trace output:\n");
        append_fenced(&mut r, trace_text);
    }
    proof {
        assert(r@ =~= report_of(
            command.program@,
            command.arguments.deep_view(),
            exit_code as int,
            clean@,
            stdout_text@,
            trace_text@,
        ));
    }
    r
}

} // verus!
