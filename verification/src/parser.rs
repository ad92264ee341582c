//! Command parser: maps a token sequence to a structured command — a
//! builtin variant or an external-invocation variant — with its argument
//! list and any I/O redirection targets.
//!
//! Redirection operator tokens (`>`, `>>`, `2>`, `2>>`) and the token
//! after each are stripped from the word list and collected; the first
//! remaining word names the command and the rest are its arguments. The
//! fixed builtin name set `exit`, `echo`, `type`, `cd`, `pwd` is matched
//! case-sensitively; any other name is an external command.
//!
//! Parsing fails with `EmptyCommand` when no word is left to name a
//! command, and with `RedirectionMissingTarget` when a redirection
//! operator is the last token.

use crate::strutil::str_eq;
use vstd::prelude::*;
use vstd::string::*;

verus! {

/// Which standard stream a redirection reassigns.
#[derive(Clone, Copy, Debug, PartialEq, Eq, Structural)]
pub enum RedirStream {
    Stdout,
    Stderr,
}

/// Whether a redirection truncates the destination file or appends to it.
#[derive(Clone, Copy, Debug, PartialEq, Eq, Structural)]
pub enum RedirMode {
    Truncate,
    Append,
}

/// One redirection: target stream, mode, and destination path.
#[derive(Clone, Debug, PartialEq, Eq)]
pub struct Redirect {
    pub stream: RedirStream,
    pub mode: RedirMode,
    pub target: String,
}

/// Mathematical image of a `Redirect`: the destination path as a
/// character sequence.
pub ghost struct RedirectView {
    pub stream: RedirStream,
    pub mode: RedirMode,
    pub target: Seq<char>,
}

impl View for Redirect {
    type V = RedirectView;

    open spec fn view(&self) -> RedirectView {
        RedirectView { stream: self.stream, mode: self.mode, target: self.target@ }
    }
}

impl DeepView for Redirect {
    type V = RedirectView;

    open spec fn deep_view(&self) -> RedirectView {
        self.view()
    }
}

/// The builtin commands, recognized by name, case-sensitively.
#[derive(Clone, Copy, Debug, PartialEq, Eq, Structural)]
pub enum BuiltinKind {
    Exit,
    Echo,
    Type,
    Cd,
    Pwd,
}

/// Why a token sequence fails to parse.
#[derive(Clone, Copy, Debug, PartialEq, Eq, Structural)]
pub enum ParseError {
    EmptyCommand,
    RedirectionMissingTarget,
}

/// One parsed command: a builtin with arguments, or an external
/// invocation by name, each with its redirection list in source order.
#[derive(Clone, Debug, PartialEq, Eq)]
pub enum Command {
    Builtin { which: BuiltinKind, args: Vec<String>, redirects: Vec<Redirect> },
    External { name: String, args: Vec<String>, redirects: Vec<Redirect> },
}

/// Mathematical image of a `Command`, over character sequences.
pub ghost enum CommandView {
    Builtin { which: BuiltinKind, args: Seq<Seq<char>>, redirects: Seq<RedirectView> },
    External { name: Seq<char>, args: Seq<Seq<char>>, redirects: Seq<RedirectView> },
}

impl View for Command {
    type V = CommandView;

    open spec fn view(&self) -> CommandView {
        match self {
            Command::Builtin { which, args, redirects } => CommandView::Builtin {
                which: *which,
                args: args.deep_view(),
                redirects: redirects.deep_view(),
            },
            Command::External { name, args, redirects } => CommandView::External {
                name: name@,
                args: args.deep_view(),
                redirects: redirects.deep_view(),
            },
        }
    }
}

/// The stream and mode a redirection operator token denotes, or `None`
/// for every token that is not one of `>`, `>>`, `2>`, `2>>`.
pub open spec fn spec_redirect_op(tok: Seq<char>) -> Option<(RedirStream, RedirMode)> {
    if tok.len() == 1 && tok[0] == '>' {
        Some((RedirStream::Stdout, RedirMode::Truncate))
    } else if tok.len() == 2 && tok[0] == '>' && tok[1] == '>' {
        Some((RedirStream::Stdout, RedirMode::Append))
    } else if tok.len() == 2 && tok[0] == '2' && tok[1] == '>' {
        Some((RedirStream::Stderr, RedirMode::Truncate))
    } else if tok.len() == 3 && tok[0] == '2' && tok[1] == '>' && tok[2] == '>' {
        Some((RedirStream::Stderr, RedirMode::Append))
    } else {
        None
    }
}

/// The builtin a name denotes, or `None` for every other name.
pub open spec fn spec_builtin_of(name: Seq<char>) -> Option<BuiltinKind> {
    if name == "exit"@ {
        Some(BuiltinKind::Exit)
    } else if name == "echo"@ {
        Some(BuiltinKind::Echo)
    } else if name == "type"@ {
        Some(BuiltinKind::Type)
    } else if name == "cd"@ {
        Some(BuiltinKind::Cd)
    } else if name == "pwd"@ {
        Some(BuiltinKind::Pwd)
    } else {
        None
    }
}

/// Splits a token sequence into the plain words and the redirections, in
/// order; `None` when a redirection operator has no token after it.
pub open spec fn spec_split_redirects(toks: Seq<Seq<char>>) -> Option<
    (Seq<Seq<char>>, Seq<RedirectView>),
>
    decreases toks.len(),
{
    if toks.len() == 0 {
        Some((Seq::empty(), Seq::empty()))
    } else {
        match spec_redirect_op(toks[0]) {
            Some((stream, mode)) => {
                if toks.len() == 1 {
                    None
                } else {
                    match spec_split_redirects(toks.skip(2)) {
                        Some(rest) => Some(
                            (
                                rest.0,
                                seq![RedirectView { stream, mode, target: toks[1] }].add(rest.1),
                            ),
                        ),
                        None => None,
                    }
                }
            }
            None => {
                match spec_split_redirects(toks.skip(1)) {
                    Some(rest) => Some((seq![toks[0]].add(rest.0), rest.1)),
                    None => None,
                }
            }
        }
    }
}

/// The command a token sequence parses to, or the error, exactly.
pub open spec fn spec_parse(toks: Seq<Seq<char>>) -> Result<CommandView, ParseError> {
    if toks.len() == 0 {
        Err(ParseError::EmptyCommand)
    } else {
        match spec_split_redirects(toks) {
            None => Err(ParseError::RedirectionMissingTarget),
            Some((words, redirects)) => {
                if words.len() == 0 {
                    Err(ParseError::EmptyCommand)
                } else {
                    match spec_builtin_of(words[0]) {
                        Some(which) => Ok(
                            CommandView::Builtin { which, args: words.drop_first(), redirects },
                        ),
                        None => Ok(
                            CommandView::External {
                                name: words[0],
                                args: words.drop_first(),
                                redirects,
                            },
                        ),
                    }
                }
            }
        }
    }
}

/// Recognizes the four redirection operator tokens.
pub fn redirect_op(tok: &str) -> (r: Option<(RedirStream, RedirMode)>)
    ensures
        r == spec_redirect_op(tok@),
{
    let n = tok.unicode_len();
    if n == 1 && tok.get_char(0) == '>' {
        Some((RedirStream::Stdout, RedirMode::Truncate))
    } else if n == 2 && tok.get_char(0) == '>' && tok.get_char(1) == '>' {
        Some((RedirStream::Stdout, RedirMode::Append))
    } else if n == 2 && tok.get_char(0) == '2' && tok.get_char(1) == '>' {
        Some((RedirStream::Stderr, RedirMode::Truncate))
    } else if n == 3 && tok.get_char(0) == '2' && tok.get_char(1) == '>' && tok.get_char(2)
        == '>' {
        Some((RedirStream::Stderr, RedirMode::Append))
    } else {
        None
    }
}

/// Looks a name up in the fixed builtin set, case-sensitively.
pub fn builtin_lookup(name: &str) -> (r: Option<BuiltinKind>)
    ensures
        r == spec_builtin_of(name@),
{
    if str_eq(name, "exit") {
        Some(BuiltinKind::Exit)
    } else if str_eq(name, "echo") {
        Some(BuiltinKind::Echo)
    } else if str_eq(name, "type") {
        Some(BuiltinKind::Type)
    } else if str_eq(name, "cd") {
        Some(BuiltinKind::Cd)
    } else if str_eq(name, "pwd") {
        Some(BuiltinKind::Pwd)
    } else {
        None
    }
}

impl ParseError {
    /// The report line the loop prints for this failure.
    pub fn message(&self) -> (out: String)
        ensures
            *self == ParseError::EmptyCommand ==> out@ == "no command given"@,
            *self == ParseError::RedirectionMissingTarget ==> out@
                == "syntax error: redirection without a target"@,
    {
        match self {
            ParseError::EmptyCommand => String::from_str("no command given"),
            ParseError::RedirectionMissingTarget => String::from_str(
                "syntax error: redirection without a target",
            ),
        }
    }
}

/// Law: a token sequence in which no token is a redirection operator
/// splits into exactly those tokens as words, with no redirections.
pub proof fn lemma_split_no_redirects(toks: Seq<Seq<char>>)
    requires
        forall|i: int| 0 <= i < toks.len() ==> spec_redirect_op(#[trigger] toks[i]) is None,
    ensures
        spec_split_redirects(toks) == Some((toks, Seq::<RedirectView>::empty())),
    decreases toks.len(),
{
    if toks.len() == 0 {
        assert(toks =~= Seq::<Seq<char>>::empty());
    } else {
        assert(forall|i: int|
            0 <= i < toks.skip(1).len() ==> spec_redirect_op(#[trigger] toks.skip(1)[i])
                is None);
        lemma_split_no_redirects(toks.skip(1));
        assert(seq![toks[0]] + toks.skip(1) =~= toks);
    }
}

/// Parses one token sequence into a command. Returns exactly what
/// `spec_parse` gives: the structured command, or `EmptyCommand` when no
/// word names a command, or `RedirectionMissingTarget` when a
/// redirection operator is the last token.
pub fn parse(tokens: &Vec<String>) -> (r: Result<Command, ParseError>)
    ensures
        match r {
            Ok(c) => spec_parse(tokens.deep_view()) == Ok::<CommandView, ParseError>(c@),
            Err(e) => spec_parse(tokens.deep_view()) == Err::<CommandView, ParseError>(e),
        },
{
    let ghost full = tokens.deep_view();
    if tokens.len() == 0 {
        return Err(ParseError::EmptyCommand);
    }
    let mut words: Vec<String> = Vec::new();
    let mut redirects: Vec<Redirect> = Vec::new();
    let mut i: usize = 0;
    proof {
        assert(full.skip(0) =~= full);
        assert(words.deep_view() =~= Seq::<Seq<char>>::empty());
        assert(redirects.deep_view() =~= Seq::<RedirectView>::empty());
        match spec_split_redirects(full) {
            Some(rest) => {
                assert(words.deep_view() + rest.0 =~= rest.0);
                assert(redirects.deep_view() + rest.1 =~= rest.1);
            }
            None => {}
        }
    }
    while i < tokens.len()
        invariant
            full == tokens.deep_view(),
            full.len() == tokens.len(),
            tokens.len() > 0,
            i <= tokens.len(),
            match spec_split_redirects(full.skip(i as int)) {
                None => spec_split_redirects(full) is None,
                Some(rest) => spec_split_redirects(full) == Some(
                    ((words.deep_view() + rest.0), (redirects.deep_view() + rest.1)),
                ),
            },
        decreases tokens.len() - i,
    {
        let ghost j: int = i as int;
        proof {
            assert(full[j] == tokens@[j].deep_view());
            assert(full.skip(j)[0] == full[j]);
        }
        let tok_op = redirect_op(tokens[i].as_str());
        match tok_op {
            Some((stream, mode)) => {
                if i + 1 == tokens.len() {
                    proof {
                        assert(full.skip(j).len() == 1);
                        assert(spec_split_redirects(full.skip(j)) is None);
                    }
                    return Err(ParseError::RedirectionMissingTarget);
                }
                let target = tokens[i + 1].clone();
                proof {
                    assert(full[j + 1] == tokens@[j + 1].deep_view());
                    assert(full.skip(j)[1] == full[j + 1]);
                }
                let ghost rv = RedirectView { stream, mode, target: full[j + 1] };
                let ghost pre_redirs = redirects.deep_view();
                redirects.push(Redirect { stream, mode, target });
                proof {
                    assert(redirects.deep_view() =~= pre_redirs.push(rv));
                }
                i = i + 2;
                proof {
                    assert(full.skip(j).skip(2) =~= full.skip(j + 2));
                    match spec_split_redirects(full.skip(j + 2)) {
                        Some(rest2) => {
                            assert(pre_redirs.push(rv) + rest2.1 =~= pre_redirs + (
                            seq![rv] + rest2.1));
                            assert(spec_split_redirects(full.skip(j)) == Some(
                                ((rest2.0), (seq![rv].add(rest2.1))),
                            ));
                        }
                        None => {
                            assert(spec_split_redirects(full.skip(j)) is None);
                        }
                    }
                }
            }
            None => {
                let word = tokens[i].clone();
                let ghost pre_words = words.deep_view();
                words.push(word);
                proof {
                    assert(words.deep_view() =~= pre_words.push(full[j]));
                }
                i = i + 1;
                proof {
                    assert(full.skip(j).skip(1) =~= full.skip(j + 1));
                    match spec_split_redirects(full.skip(j + 1)) {
                        Some(rest2) => {
                            assert(pre_words.push(full[j]) + rest2.0 =~= pre_words + (
                            seq![full[j]] + rest2.0));
                            assert(spec_split_redirects(full.skip(j)) == Some(
                                ((seq![full[j]].add(rest2.0)), (rest2.1)),
                            ));
                        }
                        None => {
                            assert(spec_split_redirects(full.skip(j)) is None);
                        }
                    }
                }
            }
        }
    }
    proof {
        assert(full.skip(tokens.len() as int) =~= Seq::<Seq<char>>::empty());
        assert(words.deep_view() + Seq::<Seq<char>>::empty() =~= words.deep_view());
        assert(redirects.deep_view() + Seq::<RedirectView>::empty() =~= redirects.deep_view());
        assert(spec_split_redirects(full) == Some(
            ((words.deep_view()), (redirects.deep_view())),
        ));
    }
    if words.len() == 0 {
        return Err(ParseError::EmptyCommand);
    }
    let ghost words_dv = words.deep_view();
    let name = words.remove(0);
    proof {
        assert(words.deep_view() =~= words_dv.drop_first());
        assert(name@ == words_dv[0]);
    }
    let is_builtin = builtin_lookup(name.as_str());
    match is_builtin {
        Some(which) => Ok(Command::Builtin { which, args: words, redirects }),
        None => Ok(Command::External { name, args: words, redirects }),
    }
}

/// Tokenizes one input line and parses the tokens: the whole front end
/// of a loop iteration, from the raw line to the structured command or
/// the exact parse error.
pub fn parse_line(line: &str) -> (r: Result<Command, ParseError>)
    ensures
        match r {
            Ok(c) => spec_parse(crate::lexer::spec_tokenize(line@)) == Ok::<
                CommandView,
                ParseError,
            >(c@),
            Err(e) => spec_parse(crate::lexer::spec_tokenize(line@)) == Err::<
                CommandView,
                ParseError,
            >(e),
        },
{
    let tokens = crate::lexer::tokenize(line);
    parse(&tokens)
}

} // verus!
