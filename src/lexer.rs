//! The lexer engine: tries the recognizers in order at each offset and
//! collects tokens and errors.
use vstd::prelude::*;
use crate::chars::chars_of;
use crate::lexer_laws::lemma_tokens_span_their_text;
use crate::reader::{Reader, ReaderError, ReaderResult, scan_with};
use crate::reader_state::{LexerState, ReaderState};
use crate::scan::{ErrorModel, Scan, scan_end};
use crate::token::{Token, TokenModel};

verus! {

/// The first result other than no match that the recognizers from the
/// `i`-th on give at offset `p`.
pub open spec fn first_scan_from(readers: Seq<Reader>, cs: Seq<char>, p: int, i: int) -> Scan
    decreases readers.len() - i,
{
    if i < 0 || i >= readers.len() {
        Scan::NoMatch
    } else if scan_with(readers[i], cs, p) is NoMatch {
        first_scan_from(readers, cs, p, i + 1)
    } else {
        scan_with(readers[i], cs, p)
    }
}

/// The result of the first recognizer that matches at offset `p`.
pub open spec fn first_scan(readers: Seq<Reader>, cs: Seq<char>, p: int) -> Scan {
    first_scan_from(readers, cs, p, 0)
}

/// What lexing produces, as mathematical values: the tokens and the errors
/// in source order, and the offset where lexing stopped.
pub struct LexModel {
    pub tokens: Seq<TokenModel>,
    pub errors: Seq<ErrorModel>,
    pub end: nat,
}

/// Lexing `cs` from offset `p` on: at each offset the first recognizer that
/// matches is taken and lexing goes on where it stopped. Lexing ends at the
/// end of the source, or where no recognizer matches, or where a match
/// would not move forward.
pub open spec fn lex_from(readers: Seq<Reader>, cs: Seq<char>, p: int) -> LexModel
    decreases cs.len() - p,
{
    let s = first_scan(readers, cs, p);
    if p < 0 || p >= cs.len() || s is NoMatch || !(p < scan_end(s) <= cs.len()) {
        LexModel { tokens: Seq::empty(), errors: Seq::empty(), end: if p < 0 { 0 } else { p as nat } }
    } else {
        let rest = lex_from(readers, cs, scan_end(s) as int);
        match s {
            Scan::Token(t) => LexModel { tokens: seq![t] + rest.tokens, errors: rest.errors, end: rest.end },
            Scan::Error(e, _) => LexModel { tokens: rest.tokens, errors: seq![e] + rest.errors, end: rest.end },
            Scan::NoMatch => rest,
        }
    }
}

/// Lexing a whole source.
pub open spec fn lex_spec(readers: Seq<Reader>, cs: Seq<char>) -> LexModel {
    lex_from(readers, cs, 0)
}

/// The tokens and the lexical errors of one source, each in source order.
#[derive(Debug)]
pub struct LexerResult {
    pub tokens: Vec<Token>,
    pub errors: Vec<ReaderError>,
}

impl LexerResult {
    /// The tokens as mathematical values.
    pub open spec fn token_models(&self) -> Seq<TokenModel> {
        self.tokens@.map_values(|t: Token| t@)
    }

    /// The errors as mathematical values.
    pub open spec fn error_models(&self) -> Seq<ErrorModel> {
        self.errors@.map_values(|e: ReaderError| e@)
    }
}

/// A list of recognizers, tried in order at each offset.
pub struct Lexer {
    pub readers: Vec<Reader>,
}

/// The recognizers of the language, in priority order.
pub open spec fn default_readers() -> Seq<Reader> {
    seq![
        Reader::Comment,
        Reader::Keyword,
        Reader::Identifier,
        Reader::Number,
        Reader::String,
        Reader::Operator,
        Reader::Command,
        Reader::NewLine,
        Reader::Whitespace,
        Reader::UnexpectedCharacter,
    ]
}

/// A lexer with the recognizers of the language, in priority order:
/// comments, keywords, identifiers, numbers, strings, operators, commands,
/// newlines, whitespace, and last any other character as an error.
pub fn default_lexer() -> (r: Lexer)
    ensures
        r.readers@ == default_readers(),
{
    let r = Lexer::new()
        .add_reader(Reader::Comment)
        .add_reader(Reader::Keyword)
        .add_reader(Reader::Identifier)
        .add_reader(Reader::Number)
        .add_reader(Reader::String)
        .add_reader(Reader::Operator)
        .add_reader(Reader::Command)
        .add_reader(Reader::NewLine)
        .add_reader(Reader::Whitespace)
        .add_reader(Reader::UnexpectedCharacter);
    proof {
        assert(r.readers@ =~= default_readers());
    }
    r
}

impl Lexer {
    /// A lexer without recognizers.
    pub fn new() -> (r: Self)
        ensures
            r.readers@ == Seq::<Reader>::empty(),
    {
        Lexer { readers: Vec::new() }
    }

    /// This lexer with `reader` tried after its other recognizers.
    pub fn add_reader(self, reader: Reader) -> (r: Self)
        ensures
            r.readers@ == self.readers@.push(reader),
    {
        let mut readers = self.readers;
        readers.push(reader);
        Lexer { readers }
    }

    /// The first recognizer result other than no match at the committed
    /// offset of `state`, with the offset that recognizer reached.
    fn first_read(&self, state: &LexerState) -> (r: (ReaderResult, usize))
        requires
            state.position <= state.chars.len(),
        ensures
            r.0.scan(r.1 as nat) == first_scan(self.readers@, state.chars@, state.position as int),
            !(r.0 is NoMatch) ==> r.1 == scan_end(first_scan(self.readers@, state.chars@, state.position as int)),
    {
        let ghost cs = state.chars@;
        let ghost p = state.position as int;
        let mut i: usize = 0;
        while i < self.readers.len()
            invariant
                i <= self.readers.len(),
                state.position <= state.chars.len(),
                cs == state.chars@,
                p == state.position,
                first_scan(self.readers@, cs, p) == first_scan_from(self.readers@, cs, p, i as int),
            decreases self.readers.len() - i,
        {
            let mut reader_state = ReaderState::new(&state.chars, state.position);
            let reader = self.readers[i];
            let result = reader.read(&mut reader_state);
            let end = reader_state.get_position();
            match result {
                ReaderResult::NoMatch => {},
                _ => {
                    return (result, end);
                },
            }
            i = i + 1;
        }
        (ReaderResult::NoMatch, state.position)
    }

    /// Lexes `source`: tokens and errors in source order, as
    /// [`lex_spec`] gives them over the characters of `source`.
    pub fn lex(&mut self, source: &str) -> (r: LexerResult)
        ensures
            *final(self) == *old(self),
            r.token_models() == lex_spec(old(self).readers@, source@).tokens,
            r.error_models() == lex_spec(old(self).readers@, source@).errors,
            forall|i: int| 0 <= i < r.tokens@.len() ==> #[trigger] r.tokens@[i].wf(),
    {
        let chars = chars_of(source);
        let length = chars.len();
        let mut state = LexerState { chars, length, position: 0 };
        let ghost cs = source@;
        let ghost whole = lex_spec(self.readers@, cs);
        let mut result = LexerResult { tokens: Vec::new(), errors: Vec::new() };
        proof {
            assert(result.token_models() + lex_from(self.readers@, cs, 0).tokens =~= whole.tokens);
            assert(result.error_models() + lex_from(self.readers@, cs, 0).errors =~= whole.errors);
        }
        while !state.at_end()
            invariant
                *self == *old(self),
                state.chars@ == cs,
                state.length == cs.len(),
                state.position <= state.length,
                result.token_models() + lex_from(self.readers@, cs, state.position as int).tokens == whole.tokens,
                result.error_models() + lex_from(self.readers@, cs, state.position as int).errors == whole.errors,
            ensures
                result.token_models() + lex_from(self.readers@, cs, state.position as int).tokens == whole.tokens,
                result.error_models() + lex_from(self.readers@, cs, state.position as int).errors == whole.errors,
                lex_from(self.readers@, cs, state.position as int).tokens == Seq::<TokenModel>::empty(),
                lex_from(self.readers@, cs, state.position as int).errors == Seq::<ErrorModel>::empty(),
            decreases state.length - state.position,
        {
            let ghost before_tokens = result.token_models();
            let ghost before_errors = result.error_models();
            let (found, end) = self.first_read(&state);
            if end <= state.position || end > state.length {
                break;
            }
            match found {
                ReaderResult::Token(token) => {
                    let ghost t = token@;
                    result.tokens.push(token);
                    proof {
                        assert(result.token_models() =~= before_tokens.push(t));
                        assert(result.error_models() =~= before_errors);
                        let rest = lex_from(self.readers@, cs, end as int);
                        assert(before_tokens.push(t) + rest.tokens =~= before_tokens + (seq![t] + rest.tokens));
                    }
                },
                ReaderResult::Error(error) => {
                    let ghost e = error@;
                    result.errors.push(error);
                    proof {
                        assert(result.error_models() =~= before_errors.push(e));
                        assert(result.token_models() =~= before_tokens);
                        let rest = lex_from(self.readers@, cs, end as int);
                        assert(before_errors.push(e) + rest.errors =~= before_errors + (seq![e] + rest.errors));
                    }
                },
                ReaderResult::NoMatch => {
                    break;
                },
            }
            state.position = end;
        }
        proof {
            assert(result.token_models() + Seq::<TokenModel>::empty() =~= result.token_models());
            assert(result.error_models() + Seq::<ErrorModel>::empty() =~= result.error_models());
            lemma_tokens_span_their_text(self.readers@, cs);
            assert forall|i: int| 0 <= i < result.tokens@.len() implies #[trigger] result.tokens@[i].wf() by {
                assert(result.token_models()[i] == result.tokens@[i]@);
            }
        }
        result
    }
}

} // verus!
