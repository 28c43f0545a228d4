//! What each recognizer finds at an offset of the source, as spec functions
//! over the source's characters.
use vstd::prelude::*;
use crate::chars::{ident_continue, ident_start, is_decimal_digit};
use crate::reader_state::{matches_at, skip_spaces};
use crate::token::{TokenKind, TokenModel, ValueModel};

verus! {

/// A diagnostic anchored at a character offset, as a mathematical value.
pub struct ErrorModel {
    pub message: Seq<char>,
    pub position: nat,
}

/// What one recognizer attempt yields: nothing, a token, or an error
/// together with the offset the attempt consumed up to.
pub enum Scan {
    NoMatch,
    Token(TokenModel),
    Error(ErrorModel, nat),
}

/// The offset a successful attempt consumed up to.
pub open spec fn scan_end(s: Scan) -> nat {
    match s {
        Scan::NoMatch => 0,
        Scan::Token(t) => t.end,
        Scan::Error(_, end) => end,
    }
}

/// The character at offset `i`, if there is one.
pub open spec fn char_at(cs: Seq<char>, i: int) -> Option<char> {
    if 0 <= i < cs.len() {
        Some(cs[i])
    } else {
        None
    }
}

/// The end of the run of identifier-continue characters starting at `i`.
pub open spec fn ident_end(cs: Seq<char>, i: int) -> int
    decreases cs.len() - i,
{
    if i < 0 || i >= cs.len() || !ident_continue(cs[i]) {
        i
    } else {
        ident_end(cs, i + 1)
    }
}

/// The end of the run of decimal digits starting at `i`.
pub open spec fn digits_end(cs: Seq<char>, i: int) -> int
    decreases cs.len() - i,
{
    if i < 0 || i >= cs.len() || !is_decimal_digit(cs[i]) {
        i
    } else {
        digits_end(cs, i + 1)
    }
}

/// The offset of the first newline at or after `i`, or the length of `cs`.
pub open spec fn line_end(cs: Seq<char>, i: int) -> int
    decreases cs.len() - i,
{
    if i < 0 || i >= cs.len() || cs[i] == '\n' {
        i
    } else {
        line_end(cs, i + 1)
    }
}

pub proof fn lemma_ident_end(cs: Seq<char>, i: int)
    requires
        0 <= i <= cs.len(),
    ensures
        i <= ident_end(cs, i) <= cs.len(),
        forall|k: int| i <= k < ident_end(cs, i) ==> ident_continue(#[trigger] cs[k]),
        ident_end(cs, i) < cs.len() ==> !ident_continue(cs[ident_end(cs, i)]),
    decreases cs.len() - i,
{
    if i < cs.len() && ident_continue(cs[i]) {
        lemma_ident_end(cs, i + 1);
    }
}

pub proof fn lemma_digits_end(cs: Seq<char>, i: int)
    requires
        0 <= i <= cs.len(),
    ensures
        i <= digits_end(cs, i) <= cs.len(),
        forall|k: int| i <= k < digits_end(cs, i) ==> is_decimal_digit(#[trigger] cs[k]),
        digits_end(cs, i) < cs.len() ==> !is_decimal_digit(cs[digits_end(cs, i)]),
    decreases cs.len() - i,
{
    if i < cs.len() && is_decimal_digit(cs[i]) {
        lemma_digits_end(cs, i + 1);
    }
}

pub proof fn lemma_line_end(cs: Seq<char>, i: int)
    requires
        0 <= i <= cs.len(),
    ensures
        i <= line_end(cs, i) <= cs.len(),
        forall|k: int| i <= k < line_end(cs, i) ==> #[trigger] cs[k] != '\n',
        line_end(cs, i) < cs.len() ==> cs[line_end(cs, i)] == '\n',
    decreases cs.len() - i,
{
    if i < cs.len() && cs[i] != '\n' {
        lemma_line_end(cs, i + 1);
    }
}

/// A token of `kind` over `start..end` with payload `value`.
pub open spec fn token_at(kind: TokenKind, start: int, end: int, value: ValueModel) -> Scan {
    Scan::Token(TokenModel { kind, start: start as nat, end: end as nat, value })
}

/// A comment: `//`, then any whitespace on the same line, which is dropped,
/// then the text up to the next newline, which is the payload.
pub open spec fn scan_comment(cs: Seq<char>, p: int) -> Scan {
    if matches_at(cs, p, "//"@) {
        let q = skip_spaces(cs, p + 2);
        let e = line_end(cs, q);
        token_at(TokenKind::Comment, p, e, ValueModel::String(cs.subrange(q, e)))
    } else {
        Scan::NoMatch
    }
}

/// The number of keywords.
pub open spec fn keyword_count() -> int {
    8
}

/// The keywords in the order they are tried.
pub open spec fn keyword(k: int) -> (TokenKind, Seq<char>) {
    if k == 0 {
        (TokenKind::If, "if"@)
    } else if k == 1 {
        (TokenKind::Else, "else"@)
    } else if k == 2 {
        (TokenKind::For, "for"@)
    } else if k == 3 {
        (TokenKind::While, "while"@)
    } else if k == 4 {
        (TokenKind::Loop, "loop"@)
    } else if k == 5 {
        (TokenKind::Break, "break"@)
    } else if k == 6 {
        (TokenKind::Continue, "continue"@)
    } else {
        (TokenKind::Return, "return"@)
    }
}

/// Whether `word` stands at `p` as a whole word: the character after it, if
/// any, cannot continue an identifier.
pub open spec fn word_at(cs: Seq<char>, p: int, word: Seq<char>) -> bool {
    &&& matches_at(cs, p, word)
    &&& !(p + word.len() < cs.len() && ident_continue(cs[p + word.len()]))
}

/// The first keyword from the `k`-th on that stands at `p` as a whole word.
pub open spec fn scan_keyword_from(cs: Seq<char>, p: int, k: int) -> Scan
    decreases keyword_count() - k,
{
    if k < 0 || k >= keyword_count() {
        Scan::NoMatch
    } else if word_at(cs, p, keyword(k).1) {
        token_at(keyword(k).0, p, p + keyword(k).1.len(), ValueModel::Empty)
    } else {
        scan_keyword_from(cs, p, k + 1)
    }
}

/// A keyword standing as a whole word.
pub open spec fn scan_keyword(cs: Seq<char>, p: int) -> Scan {
    scan_keyword_from(cs, p, 0)
}

/// An identifier: an identifier-start character, then identifier-continue
/// characters; the payload is the text.
pub open spec fn scan_identifier(cs: Seq<char>, p: int) -> Scan {
    if 0 <= p < cs.len() && ident_start(cs[p]) {
        let e = ident_end(cs, p + 1);
        token_at(TokenKind::Identifier, p, e, ValueModel::String(cs.subrange(p, e)))
    } else {
        Scan::NoMatch
    }
}

/// A number: one or more digits, then optionally `.` and any digits; the
/// payload is the text.
pub open spec fn scan_number(cs: Seq<char>, p: int) -> Scan {
    let d = digits_end(cs, p);
    if p < 0 || d == p {
        Scan::NoMatch
    } else {
        let e = if char_at(cs, d) == Some('.') { digits_end(cs, d + 1) } else { d };
        token_at(TokenKind::Number, p, e, ValueModel::Number(cs.subrange(p, e)))
    }
}

/// The body of a string literal from offset `i`: the characters up to the
/// closing quote, with `\"` read as `"`, and the offset after the closing
/// quote, or the end of the source where none follows.
pub open spec fn string_rest(cs: Seq<char>, i: int) -> (Seq<char>, int)
    decreases cs.len() - i,
{
    if i < 0 || i >= cs.len() {
        (Seq::empty(), cs.len() as int)
    } else if cs[i] == '\\' && char_at(cs, i + 1) == Some('"') {
        let r = string_rest(cs, i + 2);
        (seq!['"'] + r.0, r.1)
    } else if cs[i] == '"' {
        (Seq::empty(), i + 1)
    } else {
        let r = string_rest(cs, i + 1);
        (seq![cs[i]] + r.0, r.1)
    }
}

/// A string literal between double quotes; an unterminated one runs to the
/// end of the source.
pub open spec fn scan_string(cs: Seq<char>, p: int) -> Scan {
    if char_at(cs, p) == Some('"') {
        let r = string_rest(cs, p + 1);
        token_at(TokenKind::String, p, r.1, ValueModel::String(r.0))
    } else {
        Scan::NoMatch
    }
}

/// The kind of an operator of one character `c` that takes an `=` suffix.
pub open spec fn simple_operator(c: char, with_equals: bool) -> Option<TokenKind> {
    if c == '=' {
        Some(if with_equals { TokenKind::EqualsEquals } else { TokenKind::Equals })
    } else if c == '-' {
        Some(if with_equals { TokenKind::MinusEquals } else { TokenKind::Minus })
    } else if c == '*' {
        Some(if with_equals { TokenKind::StarEquals } else { TokenKind::Star })
    } else if c == '/' {
        Some(if with_equals { TokenKind::SlashEquals } else { TokenKind::Slash })
    } else if c == '+' {
        Some(if with_equals { TokenKind::PlusEquals } else { TokenKind::Plus })
    } else if c == '%' {
        Some(if with_equals { TokenKind::PercentEquals } else { TokenKind::Percent })
    } else if c == '^' {
        Some(if with_equals { TokenKind::CaretEquals } else { TokenKind::Caret })
    } else if c == '!' {
        Some(if with_equals { TokenKind::BangEquals } else { TokenKind::Bang })
    } else {
        None
    }
}

/// The kinds of an operator whose character may be doubled, each form
/// taking an `=` suffix: (single, single with `=`, doubled, doubled with `=`).
pub open spec fn doubling_operator(c: char) -> Option<(TokenKind, TokenKind, TokenKind, TokenKind)> {
    if c == '&' {
        Some((TokenKind::Ampersand, TokenKind::AmpersandEquals, TokenKind::AmpersandAmpersand, TokenKind::AmpersandAmpersandEquals))
    } else if c == '|' {
        Some((TokenKind::Pipe, TokenKind::PipeEquals, TokenKind::PipePipe, TokenKind::PipePipeEquals))
    } else if c == '<' {
        Some((TokenKind::LessThan, TokenKind::LessThanEquals, TokenKind::LessThanLessThan, TokenKind::LessThanLessThanEquals))
    } else if c == '>' {
        Some((TokenKind::GreaterThan, TokenKind::GreaterThanEquals, TokenKind::GreaterThanGreaterThan, TokenKind::GreaterThanGreaterThanEquals))
    } else {
        None
    }
}

/// The kind of a single-character structural token.
pub open spec fn brace_operator(c: char) -> Option<TokenKind> {
    if c == ',' {
        Some(TokenKind::Comma)
    } else if c == '(' {
        Some(TokenKind::BraceRoundOpen)
    } else if c == ')' {
        Some(TokenKind::BraceRoundClose)
    } else if c == '{' {
        Some(TokenKind::BraceCurlyOpen)
    } else if c == '}' {
        Some(TokenKind::BraceCurlyClose)
    } else if c == '[' {
        Some(TokenKind::BraceSquareOpen)
    } else if c == ']' {
        Some(TokenKind::BraceSquareClose)
    } else {
        None
    }
}

/// The longest operator at `p`, with its length.
pub open spec fn operator_at(cs: Seq<char>, p: int) -> Option<(TokenKind, int)> {
    if p < 0 || p >= cs.len() {
        None
    } else {
        let c = cs[p];
        let eq1 = char_at(cs, p + 1) == Some('=');
        if simple_operator(c, eq1) is Some {
            Some((simple_operator(c, eq1)->0, if eq1 { 2int } else { 1int }))
        } else if doubling_operator(c) is Some {
            let ks = doubling_operator(c)->0;
            if char_at(cs, p + 1) == Some(c) {
                if char_at(cs, p + 2) == Some('=') {
                    Some((ks.3, 3int))
                } else {
                    Some((ks.2, 2int))
                }
            } else if eq1 {
                Some((ks.1, 2int))
            } else {
                Some((ks.0, 1int))
            }
        } else if c == '.' {
            if char_at(cs, p + 1) == Some('.') {
                Some((TokenKind::DotDot, 2int))
            } else {
                Some((TokenKind::Dot, 1int))
            }
        } else if brace_operator(c) is Some {
            Some((brace_operator(c)->0, 1int))
        } else {
            None
        }
    }
}

/// An operator or structural token, longest form first.
pub open spec fn scan_operator(cs: Seq<char>, p: int) -> Scan {
    match operator_at(cs, p) {
        Some((kind, n)) => token_at(kind, p, p + n, ValueModel::Empty),
        None => Scan::NoMatch,
    }
}

/// The text of a command from offset `i` to the end of its line, a
/// backslash right before a newline joining the next line, both dropped; and
/// the offset where the command ends.
pub open spec fn command_rest(cs: Seq<char>, i: int) -> (Seq<char>, int)
    decreases cs.len() - i,
{
    if i < 0 || i >= cs.len() {
        (Seq::empty(), cs.len() as int)
    } else if cs[i] == '\\' && char_at(cs, i + 1) == Some('\n') {
        command_rest(cs, i + 2)
    } else if cs[i] == '\n' {
        (Seq::empty(), i)
    } else {
        let r = command_rest(cs, i + 1);
        (seq![cs[i]] + r.0, r.1)
    }
}

/// A command: `$`, any whitespace on the same line, which is dropped, then
/// the rest of the line, which is the payload.
pub open spec fn scan_command(cs: Seq<char>, p: int) -> Scan {
    if char_at(cs, p) == Some('$') {
        let r = command_rest(cs, skip_spaces(cs, p + 1));
        token_at(TokenKind::Command, p, r.1, ValueModel::String(r.0))
    } else {
        Scan::NoMatch
    }
}

/// One newline character.
pub open spec fn scan_newline(cs: Seq<char>, p: int) -> Scan {
    if char_at(cs, p) == Some('\n') {
        token_at(TokenKind::NewLine, p, p + 1, ValueModel::Empty)
    } else {
        Scan::NoMatch
    }
}

/// A non-empty run of whitespace other than newlines.
pub open spec fn scan_whitespace(cs: Seq<char>, p: int) -> Scan {
    if 0 <= p && skip_spaces(cs, p) > p {
        token_at(TokenKind::Whitespace, p, skip_spaces(cs, p), ValueModel::Empty)
    } else {
        Scan::NoMatch
    }
}

/// The message reported for a character that no recognizer accepts.
pub open spec fn unexpected_message(c: char) -> Seq<char> {
    "Unexpected character '"@ + seq![c, '\'']
}

/// Any one character, reported as an error.
pub open spec fn scan_unexpected(cs: Seq<char>, p: int) -> Scan {
    if 0 <= p < cs.len() {
        Scan::Error(ErrorModel { message: unexpected_message(cs[p]), position: p as nat }, (p + 1) as nat)
    } else {
        Scan::NoMatch
    }
}

} // verus!
