//! Tokenizer: splits one input line into words, honoring shell quoting
//! and escaping rules.
//!
//! The rules, per character:
//! - outside quotes, space and tab separate tokens, and a run of them
//!   counts as one separator; a backslash escapes the next character
//!   literally and is itself removed;
//! - inside single quotes nothing is escaped and every character is
//!   literal until the closing quote;
//! - inside double quotes a backslash escapes only `\`, `"`, `$` and
//!   newline (the backslash is removed, the character kept); before any
//!   other character the backslash stays literal;
//! - quote characters themselves never reach the output unless escaped.
//!
//! Policy for malformed input, deliberate and part of the contract: an
//! unterminated quote consumes the rest of the line as if the quote were
//! closed at end-of-line, and a trailing backslash with nothing after it
//! is discarded.
//!
//! The whole tokenizer is specified as a character-at-a-time state
//! machine (`lex_step`) folded over the line (`lex_run`); `tokenize` is
//! proved to return exactly `spec_tokenize` of its input.

use crate::strutil::push_char;
use vstd::prelude::*;
use vstd::string::*;

verus! {

/// Quoting state of the tokenizer, tracked per character.
#[derive(Clone, Copy, Debug, PartialEq, Eq, Structural)]
pub enum QuoteMode {
    Unquoted,
    Single,
    Double,
}

/// Full state of the tokenizer between two characters: the quoting mode,
/// whether a backslash is waiting for the character it escapes, whether a
/// token has been started (an empty pair of quotes starts one, so this is
/// not the same as `cur` being nonempty), the characters of the token
/// being built, and the tokens already emitted.
pub ghost struct LexState {
    pub mode: QuoteMode,
    pub pending_escape: bool,
    pub started: bool,
    pub cur: Seq<char>,
    pub done: Seq<Seq<char>>,
}

/// Token separators outside quotes: space and tab.
pub open spec fn is_blank(c: char) -> bool {
    c == ' ' || c == '\t'
}

/// The characters a backslash escapes inside double quotes.
pub open spec fn double_escapable(c: char) -> bool {
    c == '\\' || c == '"' || c == '$' || c == '\n'
}

/// State before any character has been read.
pub open spec fn lex_init() -> LexState {
    LexState {
        mode: QuoteMode::Unquoted,
        pending_escape: false,
        started: false,
        cur: Seq::empty(),
        done: Seq::empty(),
    }
}

/// One transition of the tokenizer on the next character.
pub open spec fn lex_step(st: LexState, c: char) -> LexState {
    match st.mode {
        QuoteMode::Unquoted => {
            if st.pending_escape {
                LexState { pending_escape: false, started: true, cur: st.cur.push(c), ..st }
            } else if c == '\\' {
                LexState { pending_escape: true, ..st }
            } else if c == '\'' {
                LexState { mode: QuoteMode::Single, started: true, ..st }
            } else if c == '"' {
                LexState { mode: QuoteMode::Double, started: true, ..st }
            } else if is_blank(c) {
                if st.started {
                    LexState {
                        started: false,
                        cur: Seq::empty(),
                        done: st.done.push(st.cur),
                        ..st
                    }
                } else {
                    st
                }
            } else {
                LexState { started: true, cur: st.cur.push(c), ..st }
            }
        }
        QuoteMode::Single => {
            if c == '\'' {
                LexState { mode: QuoteMode::Unquoted, ..st }
            } else {
                LexState { cur: st.cur.push(c), ..st }
            }
        }
        QuoteMode::Double => {
            if st.pending_escape {
                if double_escapable(c) {
                    LexState { pending_escape: false, cur: st.cur.push(c), ..st }
                } else {
                    LexState { pending_escape: false, cur: st.cur.push('\\').push(c), ..st }
                }
            } else if c == '\\' {
                LexState { pending_escape: true, ..st }
            } else if c == '"' {
                LexState { mode: QuoteMode::Unquoted, ..st }
            } else {
                LexState { cur: st.cur.push(c), ..st }
            }
        }
    }
}

/// The tokenizer state after reading the whole line, character by
/// character from the start.
pub open spec fn lex_run(line: Seq<char>) -> LexState
    decreases line.len(),
{
    if line.len() == 0 {
        lex_init()
    } else {
        lex_step(lex_run(line.drop_last()), line.last())
    }
}

/// End of line: a started token is emitted (this closes an unterminated
/// quote); a pending backslash is discarded.
pub open spec fn lex_finish(st: LexState) -> Seq<Seq<char>> {
    if st.started {
        st.done.push(st.cur)
    } else {
        st.done
    }
}

/// The tokens of a whole line, as the state machine produces them.
pub open spec fn spec_tokenize(line: Seq<char>) -> Seq<Seq<char>> {
    lex_finish(lex_run(line))
}

/// Splits one input line into words, honoring the quoting rules above.
/// Never fails: malformed quoting is handled by the documented policy.
pub fn tokenize(line: &str) -> (tokens: Vec<String>)
    ensures
        tokens.deep_view() == spec_tokenize(line@),
{
    let n = line.unicode_len();
    let mut mode = QuoteMode::Unquoted;
    let mut pending_escape = false;
    let mut started = false;
    let mut cur = String::new();
    let mut done: Vec<String> = Vec::new();
    let mut i: usize = 0;
    while i < n
        invariant
            n == line@.len(),
            i <= n,
            mode == lex_run(line@.take(i as int)).mode,
            pending_escape == lex_run(line@.take(i as int)).pending_escape,
            started == lex_run(line@.take(i as int)).started,
            cur@ == lex_run(line@.take(i as int)).cur,
            done.deep_view() == lex_run(line@.take(i as int)).done,
        decreases n - i,
    {
        let ghost prev = lex_run(line@.take(i as int));
        let c = line.get_char(i);
        proof {
            assert(line@.take(i as int + 1).drop_last() =~= line@.take(i as int));
            assert(line@.take(i as int + 1).last() == line@[i as int]);
        }
        match mode {
            QuoteMode::Unquoted => {
                if pending_escape {
                    pending_escape = false;
                    started = true;
                    push_char(&mut cur, c);
                } else if c == '\\' {
                    pending_escape = true;
                } else if c == '\'' {
                    mode = QuoteMode::Single;
                    started = true;
                } else if c == '"' {
                    mode = QuoteMode::Double;
                    started = true;
                } else if c == ' ' || c == '\t' {
                    if started {
                        let ghost pre_done = done.deep_view();
                        let ghost pre_cur = cur@;
                        done.push(cur);
                        cur = String::new();
                        started = false;
                        proof {
                            assert(done.deep_view() =~= pre_done.push(pre_cur));
                        }
                    }
                } else {
                    started = true;
                    push_char(&mut cur, c);
                }
            }
            QuoteMode::Single => {
                if c == '\'' {
                    mode = QuoteMode::Unquoted;
                } else {
                    push_char(&mut cur, c);
                }
            }
            QuoteMode::Double => {
                if pending_escape {
                    pending_escape = false;
                    if c == '\\' || c == '"' || c == '$' || c == '\n' {
                        push_char(&mut cur, c);
                    } else {
                        push_char(&mut cur, '\\');
                        push_char(&mut cur, c);
                    }
                } else if c == '\\' {
                    pending_escape = true;
                } else if c == '"' {
                    mode = QuoteMode::Unquoted;
                } else {
                    push_char(&mut cur, c);
                }
            }
        }
        i = i + 1;
    }
    proof {
        assert(line@.take(n as int) =~= line@);
    }
    if started {
        let ghost pre_done = done.deep_view();
        let ghost pre_cur = cur@;
        done.push(cur);
        proof {
            assert(done.deep_view() =~= pre_done.push(pre_cur));
        }
    }
    done
}

/// A character that the tokenizer passes through untouched outside
/// quotes: not a separator, not a quote, not a backslash.
pub open spec fn plain_char(c: char) -> bool {
    !is_blank(c) && c != '\'' && c != '"' && c != '\\'
}

/// A nonempty word of plain characters.
pub open spec fn plain_word(w: Seq<char>) -> bool {
    w.len() > 0 && forall|i: int| 0 <= i < w.len() ==> plain_char(w[i])
}

/// A (possibly empty) run of blanks.
pub open spec fn blank_run(g: Seq<char>) -> bool {
    forall|i: int| 0 <= i < g.len() ==> is_blank(g[i])
}

/// A line assembled from words and the whitespace around them:
/// `gaps[0] + words[0] + gaps[1] + words[1] + ... + gaps[words.len()]`.
/// `gaps` has one entry more than `words`; the first and last may be
/// empty (no leading or trailing whitespace).
pub open spec fn interleave(gaps: Seq<Seq<char>>, words: Seq<Seq<char>>) -> Seq<char>
    decreases words.len(),
{
    if words.len() == 0 {
        if gaps.len() == 0 {
            Seq::empty()
        } else {
            gaps[0]
        }
    } else {
        interleave(gaps.drop_last(), words.drop_last()) + words.last() + gaps.last()
    }
}

/// The tokenizer state after more characters is the state after the
/// first part, continued over the rest.
pub open spec fn lex_from(st: LexState, s: Seq<char>) -> LexState
    decreases s.len(),
{
    if s.len() == 0 {
        st
    } else {
        lex_step(lex_from(st, s.drop_last()), s.last())
    }
}

proof fn lemma_lex_from_init(s: Seq<char>)
    ensures
        lex_from(lex_init(), s) == lex_run(s),
    decreases s.len(),
{
    if s.len() > 0 {
        lemma_lex_from_init(s.drop_last());
    }
}

proof fn lemma_lex_from_concat(st: LexState, a: Seq<char>, b: Seq<char>)
    ensures
        lex_from(st, a + b) == lex_from(lex_from(st, a), b),
    decreases b.len(),
{
    if b.len() == 0 {
        assert(a + b =~= a);
    } else {
        lemma_lex_from_concat(st, a, b.drop_last());
        assert((a + b).drop_last() =~= a + b.drop_last());
        assert((a + b).last() == b.last());
    }
}

proof fn lemma_lex_plain_word(st: LexState, w: Seq<char>)
    requires
        st.mode == QuoteMode::Unquoted,
        !st.pending_escape,
        forall|i: int| 0 <= i < w.len() ==> plain_char(w[i]),
    ensures
        lex_from(st, w) == (LexState {
            mode: QuoteMode::Unquoted,
            pending_escape: false,
            started: st.started || w.len() > 0,
            cur: st.cur + w,
            done: st.done,
        }),
    decreases w.len(),
{
    if w.len() == 0 {
        assert(st.cur + w =~= st.cur);
    } else {
        lemma_lex_plain_word(st, w.drop_last());
        assert(plain_char(w[w.len() - 1]));
        assert((st.cur + w.drop_last()).push(w.last()) =~= st.cur + w);
    }
}

proof fn lemma_lex_blank_run(st: LexState, g: Seq<char>)
    requires
        st.mode == QuoteMode::Unquoted,
        !st.pending_escape,
        forall|i: int| 0 <= i < g.len() ==> is_blank(g[i]),
    ensures
        g.len() == 0 || !st.started ==> lex_from(st, g) == st,
        g.len() > 0 && st.started ==> lex_from(st, g) == (LexState {
            mode: QuoteMode::Unquoted,
            pending_escape: false,
            started: false,
            cur: Seq::empty(),
            done: st.done.push(st.cur),
        }),
    decreases g.len(),
{
    if g.len() > 0 {
        lemma_lex_blank_run(st, g.drop_last());
        assert(is_blank(g[g.len() - 1]));
    }
}

proof fn lemma_lex_interleave(gaps: Seq<Seq<char>>, words: Seq<Seq<char>>)
    requires
        gaps.len() == words.len() + 1,
        forall|i: int| 0 <= i < words.len() ==> plain_word(#[trigger] words[i]),
        forall|i: int| 0 <= i < gaps.len() ==> blank_run(#[trigger] gaps[i]),
        forall|i: int| 1 <= i < words.len() ==> (#[trigger] gaps[i]).len() > 0,
    ensures
        words.len() == 0 ==> lex_run(interleave(gaps, words)) == lex_init(),
        words.len() > 0 && gaps.last().len() > 0 ==> lex_run(interleave(gaps, words)) == (
        LexState {
            mode: QuoteMode::Unquoted,
            pending_escape: false,
            started: false,
            cur: Seq::empty(),
            done: words,
        }),
        words.len() > 0 && gaps.last().len() == 0 ==> lex_run(interleave(gaps, words)) == (
        LexState {
            mode: QuoteMode::Unquoted,
            pending_escape: false,
            started: true,
            cur: words.last(),
            done: words.drop_last(),
        }),
    decreases words.len(),
{
    if words.len() == 0 {
        let line = interleave(gaps, words);
        lemma_lex_from_init(line);
        assert(blank_run(gaps[0]));
        lemma_lex_blank_run(lex_init(), gaps[0]);
    } else {
        let prefix = interleave(gaps.drop_last(), words.drop_last());
        let w = words.last();
        let g = gaps.last();
        let line = interleave(gaps, words);
        assert(line == prefix + w + g);
        lemma_lex_interleave(gaps.drop_last(), words.drop_last());
        lemma_lex_from_init(line);
        lemma_lex_from_init(prefix);
        lemma_lex_from_concat(lex_init(), prefix + w, g);
        lemma_lex_from_concat(lex_init(), prefix, w);
        let st0 = lex_run(prefix);
        if words.len() == 1 {
            assert(st0 == lex_init());
        } else {
            assert(gaps.drop_last().last() == gaps[words.len() as int - 1]);
            assert(gaps[words.len() as int - 1].len() > 0);
        }
        assert(st0.mode == QuoteMode::Unquoted && !st0.pending_escape && !st0.started
            && st0.cur == Seq::<char>::empty() && st0.done =~= words.drop_last());
        assert(plain_word(words[words.len() - 1]));
        lemma_lex_plain_word(st0, w);
        let st1 = lex_from(st0, w);
        assert(st1.cur =~= w);
        lemma_lex_blank_run(st1, g);
        if g.len() > 0 {
            assert(st1.done.push(st1.cur) =~= words);
        }
    }
}

/// Law: a line made only of words of plain characters, separated (and
/// possibly surrounded) by runs of spaces and tabs, tokenizes to exactly
/// those words: every run of separating whitespace collapses to one
/// token boundary, and no character of any word is lost or changed.
pub proof fn lemma_tokenize_normalizes_whitespace(gaps: Seq<Seq<char>>, words: Seq<Seq<char>>)
    requires
        gaps.len() == words.len() + 1,
        forall|i: int| 0 <= i < words.len() ==> plain_word(#[trigger] words[i]),
        forall|i: int| 0 <= i < gaps.len() ==> blank_run(#[trigger] gaps[i]),
        forall|i: int| 1 <= i < words.len() ==> (#[trigger] gaps[i]).len() > 0,
    ensures
        spec_tokenize(interleave(gaps, words)) == words,
{
    lemma_lex_interleave(gaps, words);
    let st = lex_run(interleave(gaps, words));
    if words.len() == 0 {
        assert(spec_tokenize(interleave(gaps, words)) =~= words);
    } else if gaps.last().len() > 0 {
        assert(spec_tokenize(interleave(gaps, words)) == st.done);
    } else {
        assert(spec_tokenize(interleave(gaps, words)) == st.done.push(st.cur));
        assert(words.drop_last().push(words.last()) =~= words);
    }
}

} // verus!
