//! The recognizers: each finds one lexical category at the cursor.
use vstd::prelude::*;
use crate::chars::{is_id_continue, is_id_start, push_char};
use crate::operator::read_operator;
use crate::reader_state::{ReaderState, lemma_skip_spaces};
use crate::scan::{
    ErrorModel, Scan, command_rest, ident_end, keyword, keyword_count, lemma_digits_end, lemma_ident_end,
    lemma_line_end, line_end, scan_command, scan_comment, scan_end, scan_identifier, scan_keyword,
    scan_keyword_from, scan_newline, scan_number, scan_operator, scan_string, scan_unexpected,
    scan_whitespace, string_rest, unexpected_message, digits_end, word_at,
};
use crate::token::{Token, TokenKind, TokenValue};

verus! {

/// A diagnostic from the lexer, anchored at a character offset.
#[derive(Debug)]
pub struct ReaderError {
    pub message: String,
    pub position: usize,
}

impl View for ReaderError {
    type V = ErrorModel;

    open spec fn view(&self) -> ErrorModel {
        ErrorModel { message: self.message@, position: self.position as nat }
    }
}

/// What a recognizer attempt yields.
pub enum ReaderResult {
    Error(ReaderError),
    NoMatch,
    Token(Token),
}

impl ReaderResult {
    /// This result as a [`Scan`], where `end` is the offset the cursor
    /// reached.
    pub open spec fn scan(&self, end: nat) -> Scan {
        match self {
            ReaderResult::Error(e) => Scan::Error(e@, end),
            ReaderResult::NoMatch => Scan::NoMatch,
            ReaderResult::Token(t) => Scan::Token(t@),
        }
    }
}

/// A recognizer attempt that began with the cursor `before` ended with the
/// cursor `after` and the result `r`, which is `s`; a match leaves the
/// cursor where the match ends, and no match leaves it where it was.
pub open spec fn read_ok<'a>(before: ReaderState<'a>, after: ReaderState<'a>, r: ReaderResult, s: Scan) -> bool {
    &&& after.wf()
    &&& after.chars() == before.chars()
    &&& after.start() == before.start()
    &&& r.scan(after.current() as nat) == s
    &&& !(s is NoMatch) ==> after.current() == scan_end(s)
    &&& s is NoMatch ==> after.current() == before.current()
}

/// A fresh cursor: well-formed, and nothing read yet.
pub open spec fn fresh<'a>(state: ReaderState<'a>) -> bool {
    state.wf() && state.start() == state.current()
}

/// The recognizers, one per lexical category.
#[derive(Clone, Copy, Debug, PartialEq, Eq, Structural)]
pub enum Reader {
    Comment,
    Keyword,
    Identifier,
    Number,
    String,
    Operator,
    Command,
    NewLine,
    Whitespace,
    UnexpectedCharacter,
}

/// What recognizer `r` finds at offset `p` of `cs`.
pub open spec fn scan_with(r: Reader, cs: Seq<char>, p: int) -> Scan {
    match r {
        Reader::Comment => scan_comment(cs, p),
        Reader::Keyword => scan_keyword(cs, p),
        Reader::Identifier => scan_identifier(cs, p),
        Reader::Number => scan_number(cs, p),
        Reader::String => scan_string(cs, p),
        Reader::Operator => scan_operator(cs, p),
        Reader::Command => scan_command(cs, p),
        Reader::NewLine => scan_newline(cs, p),
        Reader::Whitespace => scan_whitespace(cs, p),
        Reader::UnexpectedCharacter => scan_unexpected(cs, p),
    }
}

/// The name of a recognizer, for diagnostics.
pub open spec fn reader_name(r: Reader) -> Seq<char> {
    match r {
        Reader::Comment => "CommentReader"@,
        Reader::Keyword => "KeywordReader"@,
        Reader::Identifier => "IdentifierReader"@,
        Reader::Number => "NumberReader"@,
        Reader::String => "StringReader"@,
        Reader::Operator => "OperatorReader"@,
        Reader::Command => "CommandReader"@,
        Reader::NewLine => "NewLineReader"@,
        Reader::Whitespace => "WhitespaceReader"@,
        Reader::UnexpectedCharacter => "UnexpectedCharacterReader"@,
    }
}

impl Reader {
    /// The name of this recognizer, for diagnostics.
    pub fn name(&self) -> (r: String)
        ensures
            r@ == reader_name(*self),
    {
        match self {
            Reader::Comment => String::from_str("CommentReader"),
            Reader::Keyword => String::from_str("KeywordReader"),
            Reader::Identifier => String::from_str("IdentifierReader"),
            Reader::Number => String::from_str("NumberReader"),
            Reader::String => String::from_str("StringReader"),
            Reader::Operator => String::from_str("OperatorReader"),
            Reader::Command => String::from_str("CommandReader"),
            Reader::NewLine => String::from_str("NewLineReader"),
            Reader::Whitespace => String::from_str("WhitespaceReader"),
            Reader::UnexpectedCharacter => String::from_str("UnexpectedCharacterReader"),
        }
    }

    /// Attempts this recognizer at the cursor, which has read nothing yet.
    pub fn read(&self, state: &mut ReaderState) -> (r: ReaderResult)
        requires
            fresh(*old(state)),
        ensures
            read_ok(*old(state), *final(state), r, scan_with(*self, old(state).chars(), old(state).current())),
    {
        match self {
            Reader::Comment => read_comment(state),
            Reader::Keyword => read_keyword(state),
            Reader::Identifier => read_identifier(state),
            Reader::Number => read_number(state),
            Reader::String => read_string(state),
            Reader::Operator => read_operator(state),
            Reader::Command => read_command(state),
            Reader::NewLine => read_newline(state),
            Reader::Whitespace => read_whitespace(state),
            Reader::UnexpectedCharacter => read_unexpected(state),
        }
    }
}

/// A token of `kind` over the part of the source this attempt has read.
pub fn token_here(state: &ReaderState, kind: TokenKind, value: TokenValue) -> (r: ReaderResult)
    ensures
        r == ReaderResult::Token(Token { kind, start: state.start() as usize, end: state.current() as usize, value }),
{
    ReaderResult::Token(Token { kind, start: state.get_start(), end: state.get_position(), value })
}

fn read_comment(state: &mut ReaderState) -> (r: ReaderResult)
    requires
        fresh(*old(state)),
    ensures
        read_ok(*old(state), *final(state), r, scan_comment(old(state).chars(), old(state).current())),
{
    let ghost cs = state.chars();
    let ghost p = state.current();
    proof {
        reveal_strlit("//");
    }
    if state.read_str("//").is_none() {
        return ReaderResult::NoMatch;
    }
    state.consume_spaces();
    let ghost q = state.current();
    proof {
        lemma_skip_spaces(cs, p + 2);
        lemma_line_end(cs, q);
    }
    let mut value = String::new();
    loop
        invariant
            state.wf(),
            state.chars() == cs,
            state.start() == p,
            q <= state.current() <= line_end(cs, q),
            line_end(cs, state.current()) == line_end(cs, q),
            value@ == cs.subrange(q, state.current()),
        ensures
            state.wf(),
            state.chars() == cs,
            state.start() == p,
            state.current() == line_end(cs, q),
            value@ == cs.subrange(q, state.current()),
        decreases cs.len() - state.current(),
    {
        match state.peek() {
            Some(c) => {
                if c == '\n' {
                    break;
                }
                proof {
                    lemma_line_end(cs, state.current() + 1);
                }
                push_char(&mut value, c);
                state.read();
                proof {
                    assert(value@ =~= cs.subrange(q, state.current()));
                }
            },
            None => break,
        }
    }
    token_here(state, TokenKind::Comment, TokenValue::String(value))
}

/// The `k`-th keyword, as [`keyword`] gives it.
fn keyword_entry(k: usize) -> (r: (&'static str, TokenKind))
    requires
        k < keyword_count(),
    ensures
        r.0@ == keyword(k as int).1,
        r.1 == keyword(k as int).0,
{
    if k == 0 {
        ("if", TokenKind::If)
    } else if k == 1 {
        ("else", TokenKind::Else)
    } else if k == 2 {
        ("for", TokenKind::For)
    } else if k == 3 {
        ("while", TokenKind::While)
    } else if k == 4 {
        ("loop", TokenKind::Loop)
    } else if k == 5 {
        ("break", TokenKind::Break)
    } else if k == 6 {
        ("continue", TokenKind::Continue)
    } else {
        ("return", TokenKind::Return)
    }
}

/// Reads `word` if it stands at the cursor as a whole word.
fn read_word(state: &mut ReaderState, word: &str) -> (r: bool)
    requires
        fresh(*old(state)),
    ensures
        fresh(*old(state)),
        final(state).wf(),
        final(state).chars() == old(state).chars(),
        final(state).start() == old(state).start(),
        r == word_at(old(state).chars(), old(state).current(), word@),
        r ==> final(state).current() == old(state).current() + word@.len(),
        !r ==> final(state).current() == old(state).current(),
{
    if state.read_str(word).is_none() {
        return false;
    }
    match state.peek() {
        Some(c) => {
            if is_id_continue(c) {
                state.rewind();
                return false;
            }
        },
        None => {},
    }
    true
}

fn read_keyword(state: &mut ReaderState) -> (r: ReaderResult)
    requires
        fresh(*old(state)),
    ensures
        read_ok(*old(state), *final(state), r, scan_keyword(old(state).chars(), old(state).current())),
{
    let ghost cs = state.chars();
    let ghost p = state.current();
    let mut k: usize = 0;
    while k < 8
        invariant_except_break
            state.current() == p,
            scan_keyword(cs, p) == scan_keyword_from(cs, p, k as int),
        invariant
            state.wf(),
            state.chars() == cs,
            state.start() == p,
            k <= keyword_count(),
        ensures
            k < keyword_count() ==> {
                &&& word_at(cs, p, keyword(k as int).1)
                &&& state.current() == p + keyword(k as int).1.len()
                &&& scan_keyword(cs, p) == scan_keyword_from(cs, p, k as int)
            },
            k >= keyword_count() ==> scan_keyword(cs, p) == Scan::NoMatch && state.current() == p,
        decreases 8 - k,
    {
        let (word, _) = keyword_entry(k);
        if read_word(state, word) {
            break;
        }
        proof {
            assert(scan_keyword_from(cs, p, k as int) == scan_keyword_from(cs, p, k + 1));
            if k + 1 >= keyword_count() {
                assert(scan_keyword_from(cs, p, k + 1) == Scan::NoMatch);
            }
        }
        k = k + 1;
    }
    if k < 8 {
        let (_, kind) = keyword_entry(k);
        return token_here(state, kind, TokenValue::Empty);
    }
    ReaderResult::NoMatch
}

fn read_identifier(state: &mut ReaderState) -> (r: ReaderResult)
    requires
        fresh(*old(state)),
    ensures
        read_ok(*old(state), *final(state), r, scan_identifier(old(state).chars(), old(state).current())),
{
    let ghost cs = state.chars();
    let ghost p = state.current();
    let mut value = String::new();
    match state.peek() {
        Some(c) => {
            if !is_id_start(c) {
                return ReaderResult::NoMatch;
            }
            push_char(&mut value, c);
            state.read();
        },
        None => {
            return ReaderResult::NoMatch;
        },
    }
    proof {
        lemma_ident_end(cs, p + 1);
        assert(value@ =~= cs.subrange(p, p + 1));
    }
    loop
        invariant
            state.wf(),
            state.chars() == cs,
            state.start() == p,
            p + 1 <= state.current() <= ident_end(cs, p + 1),
            ident_end(cs, state.current()) == ident_end(cs, p + 1),
            value@ == cs.subrange(p, state.current()),
        ensures
            state.wf(),
            state.chars() == cs,
            state.start() == p,
            state.current() == ident_end(cs, p + 1),
            value@ == cs.subrange(p, state.current()),
        decreases cs.len() - state.current(),
    {
        match state.peek() {
            Some(c) => {
                if !is_id_continue(c) {
                    break;
                }
                proof {
                    lemma_ident_end(cs, state.current() + 1);
                }
                push_char(&mut value, c);
                state.read();
                proof {
                    assert(value@ =~= cs.subrange(p, state.current()));
                }
            },
            None => break,
        }
    }
    token_here(state, TokenKind::Identifier, TokenValue::String(value))
}

/// Reads the run of decimal digits at the cursor onto `value`.
fn read_digits(state: &mut ReaderState, value: &mut String)
    requires
        old(state).wf(),
    ensures
        final(state).wf(),
        final(state).chars() == old(state).chars(),
        final(state).start() == old(state).start(),
        final(state).current() == digits_end(old(state).chars(), old(state).current()),
        final(value)@ == old(value)@ + old(state).chars().subrange(old(state).current(), final(state).current()),
{
    let ghost cs = state.chars();
    let ghost from = state.current();
    proof {
        lemma_digits_end(cs, from);
    }
    loop
        invariant
            state.wf(),
            state.chars() == cs,
            state.start() == old(state).start(),
            from <= state.current() <= digits_end(cs, from),
            digits_end(cs, state.current()) == digits_end(cs, from),
            value@ == old(value)@ + cs.subrange(from, state.current()),
        ensures
            state.wf(),
            state.chars() == cs,
            state.start() == old(state).start(),
            state.current() == digits_end(cs, from),
            value@ == old(value)@ + cs.subrange(from, state.current()),
        decreases cs.len() - state.current(),
    {
        match state.peek() {
            Some(c) => {
                if !('0' <= c && c <= '9') {
                    break;
                }
                proof {
                    lemma_digits_end(cs, state.current() + 1);
                }
                push_char(value, c);
                state.read();
                proof {
                    assert(value@ =~= old(value)@ + cs.subrange(from, state.current()));
                }
            },
            None => break,
        }
    }
}

fn read_number(state: &mut ReaderState) -> (r: ReaderResult)
    requires
        fresh(*old(state)),
    ensures
        read_ok(*old(state), *final(state), r, scan_number(old(state).chars(), old(state).current())),
{
    let ghost cs = state.chars();
    let ghost p = state.current();
    let mut value = String::new();
    read_digits(state, &mut value);
    if !state.did_advance() {
        return ReaderResult::NoMatch;
    }
    let ghost d = state.current();
    match state.peek() {
        Some(c) => {
            if c == '.' {
                push_char(&mut value, c);
                state.read();
                proof {
                    lemma_digits_end(cs, d + 1);
                }
                read_digits(state, &mut value);
            }
        },
        None => {},
    }
    proof {
        assert(value@ =~= cs.subrange(p, state.current()));
    }
    token_here(state, TokenKind::Number, TokenValue::Number(value))
}

fn read_string(state: &mut ReaderState) -> (r: ReaderResult)
    requires
        fresh(*old(state)),
    ensures
        read_ok(*old(state), *final(state), r, scan_string(old(state).chars(), old(state).current())),
{
    let ghost cs = state.chars();
    let ghost p = state.current();
    match state.peek() {
        Some(c) => {
            if c != '"' {
                return ReaderResult::NoMatch;
            }
        },
        None => {
            return ReaderResult::NoMatch;
        },
    }
    state.read();
    let ghost whole = string_rest(cs, p + 1);
    let mut value = String::new();
    proof {
        assert(value@ + whole.0 =~= whole.0);
    }
    loop
        invariant_except_break
            value@ + string_rest(cs, state.current() as int).0 == whole.0,
            string_rest(cs, state.current() as int).1 == whole.1,
        invariant
            state.wf(),
            state.chars() == cs,
            state.start() == p,
            p + 1 <= state.current(),
        ensures
            state.wf(),
            state.chars() == cs,
            state.start() == p,
            state.current() == whole.1,
            value@ == whole.0,
        decreases cs.len() - state.current(),
    {
        let ghost i = state.current();
        match state.read() {
            Some(c) => {
                if c == '\\' && is_quote(state.peek()) {
                    state.read();
                    let ghost rest = string_rest(cs, i + 2);
                    push_char(&mut value, '"');
                    proof {
                        assert(value@ + rest.0 =~= value@.drop_last() + (seq!['"'] + rest.0));
                    }
                } else if c == '"' {
                    proof {
                        assert(value@ + Seq::<char>::empty() =~= value@);
                    }
                    break;
                } else {
                    let ghost rest = string_rest(cs, i + 1);
                    push_char(&mut value, c);
                    proof {
                        assert(value@ + rest.0 =~= value@.drop_last() + (seq![c] + rest.0));
                    }
                }
            },
            None => {
                proof {
                    assert(value@ + Seq::<char>::empty() =~= value@);
                }
                break;
            },
        }
    }
    token_here(state, TokenKind::String, TokenValue::String(value))
}

/// Whether `c` is a double quote.
fn is_quote(c: Option<char>) -> (r: bool)
    ensures
        r == (c == Some('"')),
{
    match c {
        Some(c) => c == '"',
        None => false,
    }
}

/// Whether `c` is a newline.
fn is_newline(c: Option<char>) -> (r: bool)
    ensures
        r == (c == Some('\n')),
{
    match c {
        Some(c) => c == '\n',
        None => false,
    }
}

fn read_command(state: &mut ReaderState) -> (r: ReaderResult)
    requires
        fresh(*old(state)),
    ensures
        read_ok(*old(state), *final(state), r, scan_command(old(state).chars(), old(state).current())),
{
    let ghost cs = state.chars();
    let ghost p = state.current();
    match state.peek() {
        Some(c) => {
            if c != '$' {
                return ReaderResult::NoMatch;
            }
        },
        None => {
            return ReaderResult::NoMatch;
        },
    }
    state.read();
    state.consume_spaces();
    let ghost q = state.current();
    let ghost whole = command_rest(cs, q);
    let mut command = String::new();
    proof {
        lemma_skip_spaces(cs, p + 1);
        assert(command@ + whole.0 =~= whole.0);
    }
    loop
        invariant
            state.wf(),
            state.chars() == cs,
            state.start() == p,
            p + 1 <= state.current(),
            command@ + command_rest(cs, state.current() as int).0 == whole.0,
            command_rest(cs, state.current() as int).1 == whole.1,
        ensures
            state.wf(),
            state.chars() == cs,
            state.start() == p,
            state.current() == whole.1,
            command@ == whole.0,
        decreases cs.len() - state.current(),
    {
        let ghost i = state.current();
        match state.peek() {
            Some(c) => {
                if c == '\n' {
                    proof {
                        assert(command@ + Seq::<char>::empty() =~= command@);
                    }
                    break;
                }
                state.read();
                if c == '\\' && is_newline(state.peek()) {
                    state.read();
                } else {
                    let ghost rest = command_rest(cs, i + 1);
                    push_char(&mut command, c);
                    proof {
                        assert(command@ + rest.0 =~= command@.drop_last() + (seq![c] + rest.0));
                    }
                }
            },
            None => {
                proof {
                    assert(command@ + Seq::<char>::empty() =~= command@);
                }
                break;
            },
        }
    }
    token_here(state, TokenKind::Command, TokenValue::String(command))
}

fn read_newline(state: &mut ReaderState) -> (r: ReaderResult)
    requires
        fresh(*old(state)),
    ensures
        read_ok(*old(state), *final(state), r, scan_newline(old(state).chars(), old(state).current())),
{
    if is_newline(state.peek()) {
        state.read();
        return token_here(state, TokenKind::NewLine, TokenValue::Empty);
    }
    ReaderResult::NoMatch
}

fn read_whitespace(state: &mut ReaderState) -> (r: ReaderResult)
    requires
        fresh(*old(state)),
    ensures
        read_ok(*old(state), *final(state), r, scan_whitespace(old(state).chars(), old(state).current())),
{
    state.consume_spaces();
    if state.did_advance() {
        return token_here(state, TokenKind::Whitespace, TokenValue::Empty);
    }
    ReaderResult::NoMatch
}

fn read_unexpected(state: &mut ReaderState) -> (r: ReaderResult)
    requires
        fresh(*old(state)),
    ensures
        read_ok(*old(state), *final(state), r, scan_unexpected(old(state).chars(), old(state).current())),
{
    match state.read() {
        Some(c) => {
            let mut message = String::from_str("Unexpected character '");
            push_char(&mut message, c);
            push_char(&mut message, '\'');
            proof {
                assert(message@ =~= unexpected_message(c));
            }
            ReaderResult::Error(ReaderError { message, position: state.get_start() })
        },
        None => ReaderResult::NoMatch,
    }
}

} // verus!
