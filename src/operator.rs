//! The operator recognizer: a dispatch on the first character, longest form
//! first.
use vstd::prelude::*;
use crate::reader::{ReaderResult, fresh, read_ok, token_here};
use crate::reader_state::ReaderState;
use crate::scan::{brace_operator, char_at, doubling_operator, scan_operator, simple_operator};
use crate::token::{TokenKind, TokenValue};

verus! {

/// Whether the cursor's next character is `c`.
fn next_is(state: &ReaderState, c: char) -> (r: bool)
    requires
        state.wf(),
    ensures
        r == (char_at(state.chars(), state.current()) == Some(c)),
{
    match state.peek() {
        Some(d) => d == c,
        None => false,
    }
}

/// Reads a one-character operator, then an `=` suffix if there is one.
fn read_with_equals(state: &mut ReaderState, single: TokenKind, with_equals: TokenKind) -> (r: ReaderResult)
    requires
        fresh(*old(state)),
        old(state).current() < old(state).chars().len(),
        simple_operator(old(state).chars()[old(state).current()], false) == Some(single),
        simple_operator(old(state).chars()[old(state).current()], true) == Some(with_equals),
    ensures
        read_ok(*old(state), *final(state), r, scan_operator(old(state).chars(), old(state).current())),
{
    state.read();
    if next_is(state, '=') {
        state.read();
        return token_here(state, with_equals, TokenValue::Empty);
    }
    token_here(state, single, TokenValue::Empty)
}

/// Reads a one-character operator that may be doubled, then an `=` suffix
/// if there is one.
fn read_doubling(
    state: &mut ReaderState,
    c: char,
    kinds: (TokenKind, TokenKind, TokenKind, TokenKind),
) -> (r: ReaderResult)
    requires
        fresh(*old(state)),
        old(state).current() < old(state).chars().len(),
        old(state).chars()[old(state).current()] == c,
        simple_operator(c, false) is None,
        simple_operator(c, true) is None,
        doubling_operator(c) == Some(kinds),
    ensures
        read_ok(*old(state), *final(state), r, scan_operator(old(state).chars(), old(state).current())),
{
    state.read();
    if next_is(state, c) {
        state.read();
        if next_is(state, '=') {
            state.read();
            return token_here(state, kinds.3, TokenValue::Empty);
        }
        return token_here(state, kinds.2, TokenValue::Empty);
    }
    if next_is(state, '=') {
        state.read();
        return token_here(state, kinds.1, TokenValue::Empty);
    }
    token_here(state, kinds.0, TokenValue::Empty)
}

/// Reads `.` or `..`.
fn read_dot(state: &mut ReaderState) -> (r: ReaderResult)
    requires
        fresh(*old(state)),
        old(state).current() < old(state).chars().len(),
        old(state).chars()[old(state).current()] == '.',
    ensures
        read_ok(*old(state), *final(state), r, scan_operator(old(state).chars(), old(state).current())),
{
    state.read();
    if next_is(state, '.') {
        state.read();
        return token_here(state, TokenKind::DotDot, TokenValue::Empty);
    }
    token_here(state, TokenKind::Dot, TokenValue::Empty)
}

/// Reads a single-character structural token of `kind`.
fn get_readers_result(state: &mut ReaderState, kind: TokenKind) -> (r: ReaderResult)
    requires
        fresh(*old(state)),
        old(state).current() < old(state).chars().len(),
        brace_operator(old(state).chars()[old(state).current()]) == Some(kind),
    ensures
        read_ok(*old(state), *final(state), r, scan_operator(old(state).chars(), old(state).current())),
{
    state.read();
    token_here(state, kind, TokenValue::Empty)
}

/// The operator recognizer.
pub fn read_operator(state: &mut ReaderState) -> (r: ReaderResult)
    requires
        fresh(*old(state)),
    ensures
        read_ok(*old(state), *final(state), r, scan_operator(old(state).chars(), old(state).current())),
{
    let c = match state.peek() {
        Some(c) => c,
        None => {
            return ReaderResult::NoMatch;
        },
    };
    match c {
        '=' => read_with_equals(state, TokenKind::Equals, TokenKind::EqualsEquals),
        '-' => read_with_equals(state, TokenKind::Minus, TokenKind::MinusEquals),
        '*' => read_with_equals(state, TokenKind::Star, TokenKind::StarEquals),
        '/' => read_with_equals(state, TokenKind::Slash, TokenKind::SlashEquals),
        '+' => read_with_equals(state, TokenKind::Plus, TokenKind::PlusEquals),
        '%' => read_with_equals(state, TokenKind::Percent, TokenKind::PercentEquals),
        '^' => read_with_equals(state, TokenKind::Caret, TokenKind::CaretEquals),
        '!' => read_with_equals(state, TokenKind::Bang, TokenKind::BangEquals),
        '&' => read_doubling(
            state,
            c,
            (TokenKind::Ampersand, TokenKind::AmpersandEquals, TokenKind::AmpersandAmpersand, TokenKind::AmpersandAmpersandEquals),
        ),
        '|' => read_doubling(
            state,
            c,
            (TokenKind::Pipe, TokenKind::PipeEquals, TokenKind::PipePipe, TokenKind::PipePipeEquals),
        ),
        '<' => read_doubling(
            state,
            c,
            (TokenKind::LessThan, TokenKind::LessThanEquals, TokenKind::LessThanLessThan, TokenKind::LessThanLessThanEquals),
        ),
        '>' => read_doubling(
            state,
            c,
            (TokenKind::GreaterThan, TokenKind::GreaterThanEquals, TokenKind::GreaterThanGreaterThan, TokenKind::GreaterThanGreaterThanEquals),
        ),
        '.' => read_dot(state),
        ',' => get_readers_result(state, TokenKind::Comma),
        '(' => get_readers_result(state, TokenKind::BraceRoundOpen),
        ')' => get_readers_result(state, TokenKind::BraceRoundClose),
        '{' => get_readers_result(state, TokenKind::BraceCurlyOpen),
        '}' => get_readers_result(state, TokenKind::BraceCurlyClose),
        '[' => get_readers_result(state, TokenKind::BraceSquareOpen),
        ']' => get_readers_result(state, TokenKind::BraceSquareClose),
        _ => ReaderResult::NoMatch,
    }
}

} // verus!
