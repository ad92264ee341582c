//! Builtin dispatcher logic: the exact text each builtin prints, the
//! exit status it sets, and the exit code the `exit` builtin carries.
//!
//! Nothing here touches the process: callers print the returned strings,
//! consult the filesystem for `type`'s lookup, and terminate the loop on
//! an exit directive.

use crate::parser::{spec_builtin_of, BuiltinKind, Command, CommandView};
use crate::strutil::push_char;
use vstd::prelude::*;
use vstd::string::*;

verus! {

/// The arguments of `echo`, space-joined.
pub open spec fn spec_join_spaces(args: Seq<Seq<char>>) -> Seq<char>
    decreases args.len(),
{
    if args.len() == 0 {
        Seq::empty()
    } else if args.len() == 1 {
        args[0]
    } else {
        spec_join_spaces(args.drop_last()) + seq![' '] + args.last()
    }
}

/// Everything `echo` writes: its arguments joined by single spaces,
/// followed by a newline.
pub open spec fn spec_echo_output(args: Seq<Seq<char>>) -> Seq<char> {
    spec_join_spaces(args).push('\n')
}

/// Builds the full output of `echo` for the given arguments. The exit
/// status of `echo` is always 0.
pub fn echo_output(args: &Vec<String>) -> (out: String)
    ensures
        out@ == spec_echo_output(args.deep_view()),
{
    let ghost dv = args.deep_view();
    let mut out = String::new();
    let mut i: usize = 0;
    while i < args.len()
        invariant
            dv == args.deep_view(),
            dv.len() == args.len(),
            i <= args.len(),
            out@ == spec_join_spaces(dv.take(i as int)),
        decreases args.len() - i,
    {
        proof {
            assert(dv[i as int] == args@[i as int]@);
            assert(dv.take(i as int + 1).drop_last() =~= dv.take(i as int));
            assert(dv.take(i as int + 1).last() == dv[i as int]);
        }
        if i > 0 {
            let ghost pre = out@;
            push_char(&mut out, ' ');
            out.append(args[i].as_str());
            proof {
                assert(out@ =~= pre + seq![' '] + dv[i as int]);
            }
        } else {
            out.append(args[i].as_str());
            proof {
                assert(dv.take(1int)[0] == dv[0]);
                assert(out@ =~= dv.take(1int)[0]);
            }
        }
        i = i + 1;
    }
    proof {
        assert(dv.take(args.len() as int) =~= dv);
    }
    push_char(&mut out, '\n');
    out
}

/// What `type <name>` prints and the status it sets. `resolved` is the
/// search-path lookup result for `name`, which the caller computes (and
/// which is irrelevant when the name is a builtin): a builtin name
/// reports itself as a shell builtin with status 0, a resolved external
/// name reports its path with status 0, and anything else is not found,
/// with status 1.
pub fn type_response(name: &str, resolved: &Option<String>) -> (r: (String, i32))
    ensures
        spec_builtin_of(name@) is Some ==> r.0@ == name@ + " is a shell builtin"@ && r.1 == 0,
        spec_builtin_of(name@) is None ==> match resolved {
            Some(path) => r.0@ == name@ + " is "@ + path@ && r.1 == 0,
            None => r.0@ == name@ + ": not found"@ && r.1 == 1,
        },
{
    let mut out = String::from_str(name);
    if crate::parser::builtin_lookup(name).is_some() {
        out.append(" is a shell builtin");
        (out, 0)
    } else {
        match resolved {
            Some(path) => {
                out.append(" is ");
                out.append(path.as_str());
                (out, 0)
            }
            None => {
                out.append(": not found");
                (out, 1)
            }
        }
    }
}

/// A decimal digit.
pub open spec fn spec_is_digit(c: char) -> bool {
    48 <= c as u32 && c as u32 <= 57
}

/// The value of a decimal digit.
pub open spec fn spec_digit_val(c: char) -> int {
    c as u32 - 48
}

/// A nonempty, all-digit character sequence.
pub open spec fn spec_all_digits(s: Seq<char>) -> bool {
    s.len() > 0 && forall|i: int| 0 <= i < s.len() ==> spec_is_digit(s[i])
}

/// The number an all-digit sequence denotes, most significant first.
pub open spec fn spec_digits_val(s: Seq<char>) -> int
    decreases s.len(),
{
    if s.len() == 0 {
        0
    } else {
        spec_digits_val(s.drop_last()) * 10 + spec_digit_val(s.last())
    }
}

/// The exit code a string denotes: an optional leading minus sign, then
/// digits, valued within `i32`; `None` for every other string.
pub open spec fn spec_exit_code_of(s: Seq<char>) -> Option<int> {
    if s.len() >= 2 && s[0] == '-' && spec_all_digits(s.skip(1)) {
        if -spec_digits_val(s.skip(1)) >= i32::MIN as int {
            Some(-spec_digits_val(s.skip(1)))
        } else {
            None
        }
    } else if spec_all_digits(s) {
        if spec_digits_val(s) <= i32::MAX as int {
            Some(spec_digits_val(s))
        } else {
            None
        }
    } else {
        None
    }
}

/// Parses a decimal integer with optional leading minus sign, exactly
/// when it fits an `i32`.
pub fn parse_i32(s: &str) -> (r: Option<i32>)
    ensures
        match r {
            Some(v) => spec_exit_code_of(s@) == Some(v as int),
            None => spec_exit_code_of(s@) is None,
        },
{
    let n = s.unicode_len();
    let neg = n >= 2 && s.get_char(0) == '-';
    let start: usize = if neg {
        1
    } else {
        0
    };
    if n == start {
        return None;
    }
    let mut i: usize = start;
    let mut acc: i64 = 0;
    let mut over = false;
    while i < n
        invariant
            n == s@.len(),
            start <= i <= n,
            start <= 1,
            n > start,
            neg ==> n >= 2 && s@[0] == '-' && start == 1,
            !neg ==> start == 0 && !(n >= 2 && s@[0] == '-'),
            forall|j: int| start <= j < i ==> spec_is_digit(s@[j]),
            !over ==> 0 <= acc <= 2147483648i64 && acc as int == spec_digits_val(
                s@.subrange(start as int, i as int),
            ),
            over ==> spec_digits_val(s@.subrange(start as int, i as int)) > 2147483648,
        decreases n - i,
    {
        let c = s.get_char(i);
        let cu = c as u32;
        proof {
            assert(s@.subrange(start as int, i as int + 1).drop_last() =~= s@.subrange(
                start as int,
                i as int,
            ));
            assert(s@.subrange(start as int, i as int + 1).last() == s@[i as int]);
        }
        if cu < 48 || cu > 57 {
            proof {
                if neg {
                    assert(s@.skip(1)[i as int - 1] == s@[i as int]);
                    assert(!spec_all_digits(s@.skip(1)));
                    assert(!spec_is_digit(s@[0]));
                    assert(!spec_all_digits(s@));
                } else {
                    assert(!spec_all_digits(s@));
                }
            }
            return None;
        }
        let d: i64 = (cu - 48) as i64;
        if over {
            proof {
                let prev = spec_digits_val(s@.subrange(start as int, i as int));
                assert(prev * 10 >= prev) by {
                    assert(prev * 10 - prev == 9 * prev);
                    assert(9 * prev >= 0);
                }
            }
        } else {
            acc = acc * 10 + d;
            if acc > 2147483648i64 {
                over = true;
            }
        }
        i = i + 1;
    }
    proof {
        if neg {
            assert(s@.skip(1) =~= s@.subrange(1int, n as int));
            assert(spec_all_digits(s@.skip(1)));
        } else {
            assert(s@.subrange(0int, n as int) =~= s@);
            assert(spec_all_digits(s@));
        }
    }
    if over {
        return None;
    }
    if neg {
        if acc == 2147483648i64 {
            Some(i32::MIN)
        } else {
            let v: i32 = acc as i32;
            Some(-v)
        }
    } else {
        if acc > 2147483647i64 {
            None
        } else {
            Some(acc as i32)
        }
    }
}

/// The code the `exit` builtin carries: its first argument read as an
/// integer, or the default 0 when there is no argument or the argument
/// is not an integer that fits.
pub open spec fn spec_exit_code_of_args(args: Seq<Seq<char>>) -> int {
    if args.len() == 0 {
        0
    } else {
        match spec_exit_code_of(args[0]) {
            Some(v) => v,
            None => 0,
        }
    }
}

/// Reads the exit code off the arguments of `exit`.
pub fn exit_code_from_args(args: &Vec<String>) -> (code: i32)
    ensures
        code as int == spec_exit_code_of_args(args.deep_view()),
{
    if args.len() == 0 {
        0
    } else {
        proof {
            assert(args.deep_view()[0] == args@[0]@);
        }
        match parse_i32(args[0].as_str()) {
            Some(v) => v,
            None => 0,
        }
    }
}

/// The termination a command requests: `Some` with the process exit
/// code exactly for the `exit` builtin, `None` for every other command.
pub open spec fn spec_exit_directive(c: CommandView) -> Option<int> {
    match c {
        CommandView::Builtin { which, args, .. } => {
            if which == BuiltinKind::Exit {
                Some(spec_exit_code_of_args(args))
            } else {
                None
            }
        }
        CommandView::External { .. } => None,
    }
}

/// Decides whether a command terminates the loop, and with what code.
/// `exit` always terminates it; nothing else does.
pub fn exit_directive(cmd: &Command) -> (r: Option<i32>)
    ensures
        match r {
            Some(code) => spec_exit_directive(cmd@) == Some(code as int),
            None => spec_exit_directive(cmd@) is None,
        },
{
    match cmd {
        Command::Builtin { which: BuiltinKind::Exit, args, .. } => Some(exit_code_from_args(args)),
        _ => None,
    }
}

/// `~` expansion for `cd`: a lone `~`, or a path under `~/`, is rooted
/// at the home directory; every other path is returned unchanged.
pub open spec fn spec_expand_tilde(d: Seq<char>, h: Seq<char>) -> Seq<char> {
    if d.len() >= 1 && d[0] == '~' && (d.len() == 1 || d[1] == '/') {
        h + d.skip(1)
    } else {
        d
    }
}

/// Expands a leading `~` in a `cd` argument to the home directory.
pub fn expand_tilde(dir: &str, home: &str) -> (r: String)
    ensures
        r@ == spec_expand_tilde(dir@, home@),
{
    let n = dir.unicode_len();
    if n >= 1 && dir.get_char(0) == '~' && (n == 1 || dir.get_char(1) == '/') {
        let mut r = String::from_str(home);
        let rest = dir.substring_char(1, n);
        r.append(rest);
        proof {
            assert(dir@.subrange(1int, n as int) =~= dir@.skip(1));
        }
        r
    } else {
        String::from_str(dir)
    }
}

/// Law: each name of the builtin set is recognized as a builtin, and
/// each as its own kind — so `type` on any of them reports, per the
/// contract of `type_response`, exactly `<name> is a shell builtin` with
/// status 0.
pub proof fn lemma_builtin_names_are_builtins()
    ensures
        spec_builtin_of("exit"@) == Some(BuiltinKind::Exit),
        spec_builtin_of("echo"@) == Some(BuiltinKind::Echo),
        spec_builtin_of("type"@) == Some(BuiltinKind::Type),
        spec_builtin_of("cd"@) == Some(BuiltinKind::Cd),
        spec_builtin_of("pwd"@) == Some(BuiltinKind::Pwd),
{
    reveal_strlit("exit");
    reveal_strlit("echo");
    reveal_strlit("type");
    reveal_strlit("cd");
    reveal_strlit("pwd");
    assert("echo"@[1] == 'c' && "exit"@[1] == 'x');
    assert("echo"@ != "exit"@);
    assert("type"@[0] == 't' && "exit"@[0] == 'e');
    assert("type"@ != "exit"@ && "type"@ != "echo"@);
    assert("cd"@.len() == 2 && "pwd"@.len() == 3 && "exit"@.len() == 4);
    assert("cd"@ != "exit"@ && "cd"@ != "echo"@ && "cd"@ != "type"@);
    assert("pwd"@ != "exit"@ && "pwd"@ != "echo"@ && "pwd"@ != "type"@ && "pwd"@ != "cd"@);
}

/// Law: a line of the form `echo <text>` — the word `echo`, then plain
/// words separated by runs of blanks, none of them a redirection
/// operator — parses to the echo builtin whose arguments are exactly
/// those words. With the contract of `echo_output`, everything echo
/// writes is those words joined by single spaces plus one newline: the
/// whitespace that separated them in the input collapses to single
/// spaces.
pub proof fn lemma_echo_normalizes_whitespace(gaps: Seq<Seq<char>>, words: Seq<Seq<char>>)
    requires
        gaps.len() == words.len() + 1,
        forall|i: int| 0 <= i < words.len() ==> crate::lexer::plain_word(#[trigger] words[i]),
        forall|i: int| 0 <= i < gaps.len() ==> crate::lexer::blank_run(#[trigger] gaps[i]),
        forall|i: int| 1 <= i < words.len() ==> (#[trigger] gaps[i]).len() > 0,
        words.len() > 0,
        words[0] == "echo"@,
        forall|i: int|
            0 <= i < words.len() ==> crate::parser::spec_redirect_op(#[trigger] words[i])
                is None,
    ensures
        crate::parser::spec_parse(
            crate::lexer::spec_tokenize(crate::lexer::interleave(gaps, words)),
        ) == Ok::<CommandView, crate::parser::ParseError>(
            CommandView::Builtin {
                which: BuiltinKind::Echo,
                args: words.drop_first(),
                redirects: Seq::empty(),
            },
        ),
{
    crate::lexer::lemma_tokenize_normalizes_whitespace(gaps, words);
    crate::parser::lemma_split_no_redirects(words);
    lemma_builtin_names_are_builtins();
    reveal_strlit("exit");
    reveal_strlit("echo");
    assert(spec_builtin_of(words[0]) == Some(BuiltinKind::Echo));
}

} // verus!
