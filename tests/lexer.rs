use frontend::lexer::{default_lexer, Lexer};
use frontend::reader::Reader;
use frontend::token::{Token, TokenKind, TokenValue};

fn lex(source: &str) -> (Vec<Token>, Vec<(String, usize)>) {
    let result = default_lexer().lex(source);
    let errors = result.errors.into_iter().map(|e| (e.message, e.position)).collect();
    (result.tokens, errors)
}

fn kinds(tokens: &[Token]) -> Vec<TokenKind> {
    tokens.iter().map(|t| t.kind).collect()
}

fn text(value: &TokenValue) -> String {
    match value {
        TokenValue::String(s) => s.clone(),
        TokenValue::Number(s) => s.clone(),
        _ => panic!("no text in {:?}", value),
    }
}

fn number(token: &Token) -> f64 {
    match &token.value {
        TokenValue::Number(s) => s.parse::<f64>().unwrap(),
        other => panic!("not a number: {:?}", other),
    }
}

#[test]
fn numbers_read_as_floats_and_span_their_text() {
    for (source, value) in [("123", 123.0), ("123.456", 123.456), ("123.", 123.0)] {
        let (tokens, errors) = lex(source);
        assert!(errors.is_empty());
        assert_eq!(tokens.len(), 1);
        assert_eq!(tokens[0].kind, TokenKind::Number);
        assert_eq!(number(&tokens[0]), value);
        assert_eq!(tokens[0].start, 0);
        assert_eq!(tokens[0].end, source.chars().count());
        assert_eq!(text(&tokens[0].value), source);
    }
}

#[test]
fn string_with_escaped_quotes() {
    let (tokens, errors) = lex("\"Hello \\\"World\\\"!\"");
    assert!(errors.is_empty());
    assert_eq!(tokens.len(), 1);
    assert_eq!(tokens[0].kind, TokenKind::String);
    assert_eq!(text(&tokens[0].value), "Hello \"World\"!");
    assert_eq!(tokens[0].end, 18);
}

#[test]
fn unterminated_string_runs_to_the_end() {
    let (tokens, errors) = lex("\"abc");
    assert!(errors.is_empty());
    assert_eq!(tokens.len(), 1);
    assert_eq!(tokens[0].kind, TokenKind::String);
    assert_eq!(text(&tokens[0].value), "abc");
    assert_eq!((tokens[0].start, tokens[0].end), (0, 4));
}

#[test]
fn keyword_needs_a_word_boundary() {
    let (tokens, errors) = lex("iffy = 1");
    assert!(errors.is_empty());
    assert_eq!(
        kinds(&tokens),
        vec![TokenKind::Identifier, TokenKind::Whitespace, TokenKind::Equals, TokenKind::Whitespace, TokenKind::Number]
    );
    assert_eq!(text(&tokens[0].value), "iffy");
}

#[test]
fn keywords_standing_alone() {
    let (tokens, errors) = lex("if else for while loop break continue return");
    assert!(errors.is_empty());
    let words: Vec<TokenKind> = kinds(&tokens).into_iter().filter(|k| *k != TokenKind::Whitespace).collect();
    assert_eq!(
        words,
        vec![
            TokenKind::If,
            TokenKind::Else,
            TokenKind::For,
            TokenKind::While,
            TokenKind::Loop,
            TokenKind::Break,
            TokenKind::Continue,
            TokenKind::Return
        ]
    );
    let (tokens, _) = lex("if(");
    assert_eq!(kinds(&tokens), vec![TokenKind::If, TokenKind::BraceRoundOpen]);
}

#[test]
fn operators_take_the_longest_form() {
    let (tokens, errors) = lex("= == += -= *= /= %= ^= <= <<= >= >>= &= &&= |= ||= != && || << >> .. . , ( ) { } [ ]");
    assert!(errors.is_empty());
    let ops: Vec<TokenKind> = kinds(&tokens).into_iter().filter(|k| *k != TokenKind::Whitespace).collect();
    assert_eq!(
        ops,
        vec![
            TokenKind::Equals,
            TokenKind::EqualsEquals,
            TokenKind::PlusEquals,
            TokenKind::MinusEquals,
            TokenKind::StarEquals,
            TokenKind::SlashEquals,
            TokenKind::PercentEquals,
            TokenKind::CaretEquals,
            TokenKind::LessThanEquals,
            TokenKind::LessThanLessThanEquals,
            TokenKind::GreaterThanEquals,
            TokenKind::GreaterThanGreaterThanEquals,
            TokenKind::AmpersandEquals,
            TokenKind::AmpersandAmpersandEquals,
            TokenKind::PipeEquals,
            TokenKind::PipePipeEquals,
            TokenKind::BangEquals,
            TokenKind::AmpersandAmpersand,
            TokenKind::PipePipe,
            TokenKind::LessThanLessThan,
            TokenKind::GreaterThanGreaterThan,
            TokenKind::DotDot,
            TokenKind::Dot,
            TokenKind::Comma,
            TokenKind::BraceRoundOpen,
            TokenKind::BraceRoundClose,
            TokenKind::BraceCurlyOpen,
            TokenKind::BraceCurlyClose,
            TokenKind::BraceSquareOpen,
            TokenKind::BraceSquareClose,
        ]
    );
}

#[test]
fn single_character_operators() {
    let (tokens, errors) = lex("+-*/%^&|!<>");
    assert!(errors.is_empty());
    assert_eq!(
        kinds(&tokens),
        vec![
            TokenKind::Plus,
            TokenKind::Minus,
            TokenKind::Star,
            TokenKind::Slash,
            TokenKind::Percent,
            TokenKind::Caret,
            TokenKind::Ampersand,
            TokenKind::Pipe,
            TokenKind::Bang,
            TokenKind::LessThan,
            TokenKind::GreaterThan
        ]
    );
}

#[test]
fn comment_drops_leading_whitespace_and_stops_at_newline() {
    let (tokens, errors) = lex("//   hello world\nx");
    assert!(errors.is_empty());
    assert_eq!(kinds(&tokens), vec![TokenKind::Comment, TokenKind::NewLine, TokenKind::Identifier]);
    assert_eq!(text(&tokens[0].value), "hello world");
    assert_eq!((tokens[0].start, tokens[0].end), (0, 16));
}

#[test]
fn command_joins_continued_lines() {
    let (tokens, errors) = lex("$ echo Multi \\\n line\nx");
    assert!(errors.is_empty());
    assert_eq!(kinds(&tokens), vec![TokenKind::Command, TokenKind::NewLine, TokenKind::Identifier]);
    assert_eq!(text(&tokens[0].value), "echo Multi  line");
    assert_eq!(tokens[0].end, 20);
}

#[test]
fn newline_and_whitespace_are_distinct() {
    let (tokens, errors) = lex("\n \t\n");
    assert!(errors.is_empty());
    assert_eq!(kinds(&tokens), vec![TokenKind::NewLine, TokenKind::Whitespace, TokenKind::NewLine]);
    assert_eq!((tokens[1].start, tokens[1].end), (1, 3));
    assert_eq!((tokens[2].start, tokens[2].end), (3, 4));
    let (tokens, _) = lex(" \n");
    assert_eq!(kinds(&tokens), vec![TokenKind::Whitespace, TokenKind::NewLine]);
    assert_eq!((tokens[0].start, tokens[0].end), (0, 1));
}

#[test]
fn empty_comment_stops_at_its_newline() {
    let (tokens, errors) = lex("//\nx");
    assert!(errors.is_empty());
    assert_eq!(kinds(&tokens), vec![TokenKind::Comment, TokenKind::NewLine, TokenKind::Identifier]);
    assert_eq!(text(&tokens[0].value), "");
    assert_eq!((tokens[0].start, tokens[0].end), (0, 2));
}

#[test]
fn empty_command_stops_at_its_newline() {
    let (tokens, errors) = lex("$ \nls");
    assert!(errors.is_empty());
    assert_eq!(kinds(&tokens), vec![TokenKind::Command, TokenKind::NewLine, TokenKind::Identifier]);
    assert_eq!(text(&tokens[0].value), "");
    assert_eq!((tokens[0].start, tokens[0].end), (0, 2));
}

#[test]
fn unexpected_character_is_an_error_and_lexing_goes_on() {
    let (tokens, errors) = lex("1 + @ 2");
    assert_eq!(errors, vec![("Unexpected character '@'".to_string(), 4)]);
    let kinds = kinds(&tokens);
    assert_eq!(
        kinds,
        vec![
            TokenKind::Number,
            TokenKind::Whitespace,
            TokenKind::Plus,
            TokenKind::Whitespace,
            TokenKind::Whitespace,
            TokenKind::Number
        ]
    );
}

#[test]
fn identifiers_follow_unicode_properties() {
    let (tokens, errors) = lex("ident_snake identCamel ident123 été _x");
    let words: Vec<String> = tokens.iter().filter(|t| t.kind == TokenKind::Identifier).map(|t| text(&t.value)).collect();
    assert_eq!(words, vec!["ident_snake", "identCamel", "ident123", "été", "x"]);
    assert_eq!(errors, vec![("Unexpected character '_'".to_string(), 36)]);
}

#[test]
fn positions_count_characters_not_bytes() {
    let (tokens, errors) = lex("é + 1");
    assert!(errors.is_empty());
    assert_eq!((tokens[2].start, tokens[2].end), (2, 3));
    assert_eq!((tokens[4].start, tokens[4].end), (4, 5));
}

#[test]
fn empty_source_gives_nothing() {
    let (tokens, errors) = lex("");
    assert!(tokens.is_empty());
    assert!(errors.is_empty());
}

#[test]
fn every_character_is_consumed() {
    let sources = ["", "a", "@@@", "x = \"s\" // c\n$ cmd\n", "1.2.3 é ü 🦀 ±", "&&& |||= <<<"];
    for source in sources {
        let result = default_lexer().lex(source);
        let n = source.chars().count();
        assert!(result.tokens.len() + result.errors.len() <= n);
        let mut covered = vec![false; n];
        for t in &result.tokens {
            assert!(t.start < t.end && t.end <= n);
            for i in t.start..t.end {
                assert!(!covered[i]);
                covered[i] = true;
            }
        }
        for e in &result.errors {
            assert!(!covered[e.position]);
            covered[e.position] = true;
        }
        assert!(covered.iter().all(|c| *c), "not all of {:?} covered", source);
    }
}

#[test]
fn token_ranges_hold_their_text() {
    let source = "if x1 <<= 2.5 { y }";
    let chars: Vec<char> = source.chars().collect();
    let (tokens, _) = lex(source);
    for t in &tokens {
        let slice: String = chars[t.start..t.end].iter().collect();
        match t.kind {
            TokenKind::Identifier | TokenKind::Number => assert_eq!(text(&t.value), slice),
            TokenKind::If => assert_eq!(slice, "if"),
            TokenKind::LessThanLessThanEquals => assert_eq!(slice, "<<="),
            TokenKind::BraceCurlyOpen => assert_eq!(slice, "{"),
            TokenKind::BraceCurlyClose => assert_eq!(slice, "}"),
            TokenKind::Whitespace => assert!(slice.chars().all(char::is_whitespace)),
            other => panic!("unexpected {:?}", other),
        }
    }
}

#[test]
fn lexer_without_catch_all_stops_where_nothing_matches() {
    let mut lexer = Lexer::new().add_reader(Reader::Number).add_reader(Reader::Whitespace);
    let result = lexer.lex("1 2 x 3");
    assert_eq!(kinds(&result.tokens), vec![TokenKind::Number, TokenKind::Whitespace, TokenKind::Number, TokenKind::Whitespace]);
    assert!(result.errors.is_empty());
}

#[test]
fn reader_names() {
    assert_eq!(Reader::Comment.name(), "CommentReader");
    assert_eq!(Reader::UnexpectedCharacter.name(), "UnexpectedCharacterReader");
    assert_eq!(TokenKind::GreaterThanGreaterThanEquals.to_string(), "GreaterThanGreaterThanEquals");
}

#[test]
fn whitespace_class_matches_std() {
    let spaces: String = (0u32..0x3100).filter_map(char::from_u32).filter(|c| c.is_whitespace() && *c != '\n').collect();
    assert_eq!(spaces.chars().count(), 24);
    let (tokens, errors) = lex(&spaces);
    assert!(errors.is_empty());
    assert_eq!(kinds(&tokens), vec![TokenKind::Whitespace]);
    assert_eq!(tokens[0].end, 24);
    let (_, errors) = lex("\u{180E}\u{200B}");
    assert_eq!(errors.len(), 2);
}
