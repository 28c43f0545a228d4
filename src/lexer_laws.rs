//! What holds of every lexing run: it consumes the whole source in at most
//! one step per character, and every token's range holds the token's text.
use vstd::prelude::*;
use crate::lexer::{LexModel, first_scan, first_scan_from, lex_from, lex_spec};
use crate::reader::{Reader, scan_with};
use crate::reader_state::{lemma_skip_spaces, matches_at, skip_spaces};
use crate::scan::{
    Scan, char_at, command_rest, keyword, keyword_count, lemma_digits_end, lemma_ident_end,
    lemma_line_end, operator_at, scan_end, scan_keyword_from, string_rest, word_at,
};
use crate::token::{TokenKind, TokenModel, ValueModel, fixed_text};

verus! {

/// A token found in `cs`: its range is non-empty and within `cs`, a token of
/// fixed text spans exactly that text, an identifier or a number carries
/// exactly the text it spans, and a string starts with a quote and carries
/// the text up to its closing quote, each `\"` read as `"`.
pub open spec fn token_spans_text(cs: Seq<char>, t: TokenModel) -> bool {
    &&& t.start < t.end <= cs.len()
    &&& t.wf()
    &&& fixed_text(t.kind) is Some ==> cs.subrange(t.start as int, t.end as int) == fixed_text(t.kind)->0
    &&& t.kind == TokenKind::Identifier ==> t.value == ValueModel::String(cs.subrange(t.start as int, t.end as int))
    &&& t.kind == TokenKind::Number ==> t.value == ValueModel::Number(cs.subrange(t.start as int, t.end as int))
    &&& t.kind == TokenKind::String ==> {
        &&& cs[t.start as int] == '"'
        &&& t.value == ValueModel::String(string_rest(cs, t.start + 1int).0)
        &&& t.end == string_rest(cs, t.start + 1int).1
    }
}

/// A match at `p` moves forward and stays within `cs`; a token starts at `p`
/// and spans its text.
pub open spec fn scan_sound(cs: Seq<char>, p: int, s: Scan) -> bool {
    &&& !(s is NoMatch) ==> p < scan_end(s) <= cs.len()
    &&& s is Token ==> s->Token_0.start == p && token_spans_text(cs, s->Token_0)
    &&& s is Error ==> s->Error_0.position == p && s->Error_1 == p + 1
}

proof fn lemma_string_rest(cs: Seq<char>, i: int)
    requires
        0 <= i <= cs.len(),
    ensures
        i <= string_rest(cs, i).1 <= cs.len(),
    decreases cs.len() - i,
{
    if i < cs.len() {
        if cs[i] == '\\' && char_at(cs, i + 1) == Some('"') {
            lemma_string_rest(cs, i + 2);
        } else if cs[i] != '"' {
            lemma_string_rest(cs, i + 1);
        }
    }
}

proof fn lemma_command_rest(cs: Seq<char>, i: int)
    requires
        0 <= i <= cs.len(),
    ensures
        i <= command_rest(cs, i).1 <= cs.len(),
    decreases cs.len() - i,
{
    if i < cs.len() {
        if cs[i] == '\\' && char_at(cs, i + 1) == Some('\n') {
            lemma_command_rest(cs, i + 2);
        } else if cs[i] != '\n' {
            lemma_command_rest(cs, i + 1);
        }
    }
}

proof fn lemma_keyword_texts(k: int)
    ensures
        keyword(k).1.len() > 0,
        fixed_text(keyword(k).0) == Some(keyword(k).1),
{
    reveal_strlit("if");
    reveal_strlit("else");
    reveal_strlit("for");
    reveal_strlit("while");
    reveal_strlit("loop");
    reveal_strlit("break");
    reveal_strlit("continue");
    reveal_strlit("return");
}

proof fn lemma_keyword_sound(cs: Seq<char>, p: int, k: int)
    requires
        0 <= p < cs.len(),
        0 <= k,
    ensures
        scan_sound(cs, p, scan_keyword_from(cs, p, k)),
    decreases keyword_count() - k,
{
    if k < keyword_count() {
        lemma_keyword_texts(k);
        if !word_at(cs, p, keyword(k).1) {
            lemma_keyword_sound(cs, p, k + 1);
        }
    }
}

proof fn lemma_operator_sound(cs: Seq<char>, p: int)
    requires
        0 <= p < cs.len(),
    ensures
        operator_at(cs, p) is Some ==> {
            let (kind, n) = operator_at(cs, p)->0;
            &&& 1 <= n
            &&& p + n <= cs.len()
            &&& fixed_text(kind) == Some(cs.subrange(p, p + n))
        },
{
    if operator_at(cs, p) is Some {
        let (kind, n) = operator_at(cs, p)->0;
        if n == 1 {
            assert(cs.subrange(p, p + 1) =~= seq![cs[p]]);
        } else if n == 2 {
            assert(cs.subrange(p, p + 2) =~= seq![cs[p], cs[p + 1]]);
        } else {
            assert(cs.subrange(p, p + 3) =~= seq![cs[p], cs[p + 1], cs[p + 2]]);
        }
    }
}

/// Every recognizer's result at an offset inside `cs` is sound.
pub proof fn lemma_scan_sound(r: Reader, cs: Seq<char>, p: int)
    requires
        0 <= p < cs.len(),
    ensures
        scan_sound(cs, p, scan_with(r, cs, p)),
{
    match r {
        Reader::Comment => {
            reveal_strlit("//");
            if matches_at(cs, p, "//"@) {
                lemma_skip_spaces(cs, p + 2);
                lemma_line_end(cs, skip_spaces(cs, p + 2));
            }
        },
        Reader::Keyword => lemma_keyword_sound(cs, p, 0),
        Reader::Identifier => lemma_ident_end(cs, p + 1),
        Reader::Number => {
            lemma_digits_end(cs, p);
            let d = crate::scan::digits_end(cs, p);
            if d < cs.len() {
                lemma_digits_end(cs, d + 1);
            }
        },
        Reader::String => lemma_string_rest(cs, p + 1),
        Reader::Operator => lemma_operator_sound(cs, p),
        Reader::Command => {
            lemma_skip_spaces(cs, p + 1);
            lemma_command_rest(cs, skip_spaces(cs, p + 1));
        },
        Reader::NewLine => {
            assert(cs.subrange(p, p + 1) =~= seq![cs[p]]);
        },
        Reader::Whitespace => lemma_skip_spaces(cs, p),
        Reader::UnexpectedCharacter => {},
    }
}

proof fn lemma_first_scan_sound(readers: Seq<Reader>, cs: Seq<char>, p: int, i: int)
    requires
        0 <= p < cs.len(),
        0 <= i,
    ensures
        scan_sound(cs, p, first_scan_from(readers, cs, p, i)),
        (exists|j: int| i <= j < readers.len() && readers[j] == Reader::UnexpectedCharacter)
            ==> !(first_scan_from(readers, cs, p, i) is NoMatch),
    decreases readers.len() - i,
{
    if i < readers.len() {
        lemma_scan_sound(readers[i], cs, p);
        lemma_first_scan_sound(readers, cs, p, i + 1);
        if exists|j: int| i <= j < readers.len() && readers[j] == Reader::UnexpectedCharacter {
            let j = choose|j: int| i <= j < readers.len() && readers[j] == Reader::UnexpectedCharacter;
            if j > i {
                assert(i + 1 <= j < readers.len() && readers[j] == Reader::UnexpectedCharacter);
            }
        }
    }
}

proof fn lemma_lex_from(readers: Seq<Reader>, cs: Seq<char>, p: int)
    requires
        0 <= p <= cs.len(),
    ensures
        p <= lex_from(readers, cs, p).end <= cs.len(),
        lex_from(readers, cs, p).tokens.len() + lex_from(readers, cs, p).errors.len()
            <= lex_from(readers, cs, p).end - p,
        forall|k: int| 0 <= k < lex_from(readers, cs, p).tokens.len()
            ==> token_spans_text(cs, #[trigger] lex_from(readers, cs, p).tokens[k]),
        readers.contains(Reader::UnexpectedCharacter) ==> lex_from(readers, cs, p).end == cs.len(),
    decreases cs.len() - p,
{
    if p < cs.len() {
        lemma_first_scan_sound(readers, cs, p, 0);
        let s = first_scan(readers, cs, p);
        if readers.contains(Reader::UnexpectedCharacter) {
            let j = choose|j: int| 0 <= j < readers.len() && readers[j] == Reader::UnexpectedCharacter;
            assert(0 <= j < readers.len() && readers[j] == Reader::UnexpectedCharacter);
        }
        if !(s is NoMatch) {
            lemma_lex_from(readers, cs, scan_end(s) as int);
            let rest = lex_from(readers, cs, scan_end(s) as int);
            let whole = lex_from(readers, cs, p);
            if s is Token {
                assert forall|k: int| 0 <= k < whole.tokens.len() implies token_spans_text(cs, #[trigger] whole.tokens[k]) by {
                    if k > 0 {
                        assert(whole.tokens[k] == rest.tokens[k - 1]);
                    }
                }
            }
        }
    }
}

/// Lexing ends: with a recognizer list that holds the catch-all for
/// unexpected characters, lexing consumes the whole source, and it takes at
/// most one step, yielding one token or one error, per character.
pub proof fn lemma_lexing_consumes_input(readers: Seq<Reader>, cs: Seq<char>)
    requires
        readers.contains(Reader::UnexpectedCharacter),
    ensures
        lex_spec(readers, cs).end == cs.len(),
        lex_spec(readers, cs).tokens.len() + lex_spec(readers, cs).errors.len() <= cs.len(),
{
    lemma_lex_from(readers, cs, 0);
}

/// Every token that lexing yields covers a non-empty range of the source;
/// tokens of fixed text span exactly that text, identifiers and numbers
/// carry exactly the text they span, and a string carries its body with
/// escaped quotes read as quotes.
pub proof fn lemma_tokens_span_their_text(readers: Seq<Reader>, cs: Seq<char>)
    ensures
        forall|k: int| 0 <= k < lex_spec(readers, cs).tokens.len()
            ==> token_spans_text(cs, #[trigger] lex_spec(readers, cs).tokens[k]),
{
    lemma_lex_from(readers, cs, 0);
}

/// Offset `k` lies in the range of one of the tokens of `m`.
pub open spec fn in_some_token(m: LexModel, k: int) -> bool {
    exists|i: int| 0 <= i < m.tokens.len() && #[trigger] m.tokens[i].start <= k < m.tokens[i].end
}

/// Offset `k` is the position of one of the errors of `m`.
pub open spec fn at_some_error(m: LexModel, k: int) -> bool {
    exists|j: int| 0 <= j < m.errors.len() && #[trigger] m.errors[j].position == k
}

/// The tokens' ranges and the errors' single characters tile `p..m.end`:
/// each lies within it, tokens and errors each come in source order without
/// overlap, no error falls inside a token, and every offset is covered.
pub open spec fn tiles(m: LexModel, p: int) -> bool {
    &&& forall|i: int| 0 <= i < m.tokens.len() ==>
        p <= #[trigger] m.tokens[i].start && m.tokens[i].start < m.tokens[i].end <= m.end
    &&& forall|j: int| 0 <= j < m.errors.len() ==> p <= #[trigger] m.errors[j].position < m.end
    &&& forall|i: int, i2: int| 0 <= i < i2 < m.tokens.len() ==> #[trigger] m.tokens[i].end <= #[trigger] m.tokens[i2].start
    &&& forall|j: int, j2: int| 0 <= j < j2 < m.errors.len() ==> #[trigger] m.errors[j].position < #[trigger] m.errors[j2].position
    &&& forall|i: int, j: int| 0 <= i < m.tokens.len() && 0 <= j < m.errors.len()
        ==> !(#[trigger] m.tokens[i].start <= #[trigger] m.errors[j].position < m.tokens[i].end)
    &&& forall|k: int| p <= k < m.end ==> #[trigger] in_some_token(m, k) || at_some_error(m, k)
}

proof fn lemma_lex_tiles(readers: Seq<Reader>, cs: Seq<char>, p: int)
    requires
        0 <= p <= cs.len(),
    ensures
        tiles(lex_from(readers, cs, p), p),
    decreases cs.len() - p,
{
    let m = lex_from(readers, cs, p);
    if p < cs.len() {
        lemma_first_scan_sound(readers, cs, p, 0);
        let s = first_scan(readers, cs, p);
        if !(s is NoMatch) {
            let e = scan_end(s) as int;
            lemma_lex_tiles(readers, cs, e);
            lemma_lex_from(readers, cs, e);
            let r = lex_from(readers, cs, e);
            if s is Token {
                let t = s->Token_0;
                assert(m.tokens == seq![t] + r.tokens);
                assert(m.errors == r.errors);
                assert forall|i: int| 0 <= i < m.tokens.len() implies
                    p <= #[trigger] m.tokens[i].start && m.tokens[i].start < m.tokens[i].end <= m.end by {
                    if i > 0 {
                        assert(m.tokens[i] == r.tokens[i - 1]);
                    }
                }
                assert forall|i: int, i2: int| 0 <= i < i2 < m.tokens.len() implies
                    #[trigger] m.tokens[i].end <= #[trigger] m.tokens[i2].start by {
                    assert(m.tokens[i2] == r.tokens[i2 - 1]);
                    if i > 0 {
                        assert(m.tokens[i] == r.tokens[i - 1]);
                    }
                }
                assert forall|i: int, j: int| 0 <= i < m.tokens.len() && 0 <= j < m.errors.len() implies
                    !(#[trigger] m.tokens[i].start <= #[trigger] m.errors[j].position < m.tokens[i].end) by {
                    assert(m.errors[j] == r.errors[j]);
                    if i > 0 {
                        assert(m.tokens[i] == r.tokens[i - 1]);
                    }
                }
                assert forall|k: int| p <= k < m.end implies #[trigger] in_some_token(m, k) || at_some_error(m, k) by {
                    if k < e {
                        assert(m.tokens[0] == t);
                    } else {
                        assert(in_some_token(r, k) || at_some_error(r, k));
                        if in_some_token(r, k) {
                            let i = choose|i: int| 0 <= i < r.tokens.len() && #[trigger] r.tokens[i].start <= k < r.tokens[i].end;
                            assert(m.tokens[i + 1] == r.tokens[i]);
                        } else {
                            let j = choose|j: int| 0 <= j < r.errors.len() && #[trigger] r.errors[j].position == k;
                            assert(m.errors[j] == r.errors[j]);
                        }
                    }
                }
            } else {
                let x = s->Error_0;
                assert(m.errors == seq![x] + r.errors);
                assert(m.tokens == r.tokens);
                assert forall|j: int| 0 <= j < m.errors.len() implies p <= #[trigger] m.errors[j].position < m.end by {
                    if j > 0 {
                        assert(m.errors[j] == r.errors[j - 1]);
                    }
                }
                assert forall|j: int, j2: int| 0 <= j < j2 < m.errors.len() implies
                    #[trigger] m.errors[j].position < #[trigger] m.errors[j2].position by {
                    assert(m.errors[j2] == r.errors[j2 - 1]);
                    if j > 0 {
                        assert(m.errors[j] == r.errors[j - 1]);
                    }
                }
                assert forall|i: int, j: int| 0 <= i < m.tokens.len() && 0 <= j < m.errors.len() implies
                    !(#[trigger] m.tokens[i].start <= #[trigger] m.errors[j].position < m.tokens[i].end) by {
                    assert(m.tokens[i] == r.tokens[i]);
                    if j > 0 {
                        assert(m.errors[j] == r.errors[j - 1]);
                    }
                }
                assert forall|k: int| p <= k < m.end implies #[trigger] in_some_token(m, k) || at_some_error(m, k) by {
                    if k == p {
                        assert(m.errors[0] == x);
                    } else {
                        assert(in_some_token(r, k) || at_some_error(r, k));
                        if in_some_token(r, k) {
                            let i = choose|i: int| 0 <= i < r.tokens.len() && #[trigger] r.tokens[i].start <= k < r.tokens[i].end;
                            assert(m.tokens[i] == r.tokens[i]);
                        } else {
                            let j = choose|j: int| 0 <= j < r.errors.len() && #[trigger] r.errors[j].position == k;
                            assert(m.errors[j + 1] == r.errors[j]);
                        }
                    }
                }
            }
        }
    }
}

/// Lexing with the catch-all for unexpected characters tiles the whole
/// source: the tokens' ranges and the errors' single characters lie within
/// it, come in source order without overlap, and together cover every
/// offset from 0 to its length.
pub proof fn lemma_lexing_tiles_source(readers: Seq<Reader>, cs: Seq<char>)
    requires
        readers.contains(Reader::UnexpectedCharacter),
    ensures
        lex_spec(readers, cs).end == cs.len(),
        tiles(lex_spec(readers, cs), 0),
{
    lemma_lex_from(readers, cs, 0);
    lemma_lex_tiles(readers, cs, 0);
}

} // verus!
