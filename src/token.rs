//! Tokens: what the lexer produces and the parser consumes.
use vstd::prelude::*;

verus! {

/// The lexical category of a token.
#[derive(Clone, Copy, Debug, PartialEq, Eq, Structural)]
pub enum TokenKind {
    NewLine,
    Identifier,
    String,
    Number,
    Boolean,
    Command,
    Equals,
    EqualsEquals,
    BangEquals,
    LessThan,
    LessThanEquals,
    LessThanLessThan,
    LessThanLessThanEquals,
    GreaterThan,
    GreaterThanEquals,
    GreaterThanGreaterThan,
    GreaterThanGreaterThanEquals,
    SlashEquals,
    StarEquals,
    PlusEquals,
    MinusEquals,
    PercentEquals,
    CaretEquals,
    AmpersandEquals,
    AmpersandAmpersandEquals,
    Ampersand,
    AmpersandAmpersand,
    PipeEquals,
    PipePipeEquals,
    Pipe,
    PipePipe,
    Dot,
    DotDot,
    Bang,
    Plus,
    Minus,
    Slash,
    Star,
    Caret,
    Percent,
    Comma,
    Comment,
    BraceCurlyOpen,
    BraceCurlyClose,
    BraceSquareOpen,
    BraceSquareClose,
    BraceRoundOpen,
    BraceRoundClose,
    If,
    Else,
    For,
    While,
    Loop,
    Break,
    Continue,
    Return,
    Function,
    Whitespace,
}

/// The name of a kind, as diagnostics print it.
pub open spec fn kind_name(kind: TokenKind) -> Seq<char> {
    match kind {
        TokenKind::NewLine => "NewLine"@,
        TokenKind::Identifier => "Identifier"@,
        TokenKind::String => "String"@,
        TokenKind::Number => "Number"@,
        TokenKind::Boolean => "Boolean"@,
        TokenKind::Command => "Command"@,
        TokenKind::Equals => "Equals"@,
        TokenKind::EqualsEquals => "EqualsEquals"@,
        TokenKind::BangEquals => "BangEquals"@,
        TokenKind::LessThan => "LessThan"@,
        TokenKind::LessThanEquals => "LessThanEquals"@,
        TokenKind::LessThanLessThan => "LessThanLessThan"@,
        TokenKind::LessThanLessThanEquals => "LessThanLessThanEquals"@,
        TokenKind::GreaterThan => "GreaterThan"@,
        TokenKind::GreaterThanEquals => "GreaterThanEquals"@,
        TokenKind::GreaterThanGreaterThan => "GreaterThanGreaterThan"@,
        TokenKind::GreaterThanGreaterThanEquals => "GreaterThanGreaterThanEquals"@,
        TokenKind::SlashEquals => "SlashEquals"@,
        TokenKind::StarEquals => "StarEquals"@,
        TokenKind::PlusEquals => "PlusEquals"@,
        TokenKind::MinusEquals => "MinusEquals"@,
        TokenKind::PercentEquals => "PercentEquals"@,
        TokenKind::CaretEquals => "CaretEquals"@,
        TokenKind::AmpersandEquals => "AmpersandEquals"@,
        TokenKind::AmpersandAmpersandEquals => "AmpersandAmpersandEquals"@,
        TokenKind::Ampersand => "Ampersand"@,
        TokenKind::AmpersandAmpersand => "AmpersandAmpersand"@,
        TokenKind::PipeEquals => "PipeEquals"@,
        TokenKind::PipePipeEquals => "PipePipeEquals"@,
        TokenKind::Pipe => "Pipe"@,
        TokenKind::PipePipe => "PipePipe"@,
        TokenKind::Dot => "Dot"@,
        TokenKind::DotDot => "DotDot"@,
        TokenKind::Bang => "Bang"@,
        TokenKind::Plus => "Plus"@,
        TokenKind::Minus => "Minus"@,
        TokenKind::Slash => "Slash"@,
        TokenKind::Star => "Star"@,
        TokenKind::Caret => "Caret"@,
        TokenKind::Percent => "Percent"@,
        TokenKind::Comma => "Comma"@,
        TokenKind::Comment => "Comment"@,
        TokenKind::BraceCurlyOpen => "BraceCurlyOpen"@,
        TokenKind::BraceCurlyClose => "BraceCurlyClose"@,
        TokenKind::BraceSquareOpen => "BraceSquareOpen"@,
        TokenKind::BraceSquareClose => "BraceSquareClose"@,
        TokenKind::BraceRoundOpen => "BraceRoundOpen"@,
        TokenKind::BraceRoundClose => "BraceRoundClose"@,
        TokenKind::If => "If"@,
        TokenKind::Else => "Else"@,
        TokenKind::For => "For"@,
        TokenKind::While => "While"@,
        TokenKind::Loop => "Loop"@,
        TokenKind::Break => "Break"@,
        TokenKind::Continue => "Continue"@,
        TokenKind::Return => "Return"@,
        TokenKind::Function => "Function"@,
        TokenKind::Whitespace => "Whitespace"@,
    }
}

/// The exact source text of a token of `kind`, for the kinds whose text is
/// fixed; `None` for the kinds whose text varies.
pub open spec fn fixed_text(kind: TokenKind) -> Option<Seq<char>> {
    match kind {
        TokenKind::NewLine => Some(seq!['\n']),
        TokenKind::Equals => Some(seq!['=']),
        TokenKind::EqualsEquals => Some(seq!['=', '=']),
        TokenKind::BangEquals => Some(seq!['!', '=']),
        TokenKind::LessThan => Some(seq!['<']),
        TokenKind::LessThanEquals => Some(seq!['<', '=']),
        TokenKind::LessThanLessThan => Some(seq!['<', '<']),
        TokenKind::LessThanLessThanEquals => Some(seq!['<', '<', '=']),
        TokenKind::GreaterThan => Some(seq!['>']),
        TokenKind::GreaterThanEquals => Some(seq!['>', '=']),
        TokenKind::GreaterThanGreaterThan => Some(seq!['>', '>']),
        TokenKind::GreaterThanGreaterThanEquals => Some(seq!['>', '>', '=']),
        TokenKind::SlashEquals => Some(seq!['/', '=']),
        TokenKind::StarEquals => Some(seq!['*', '=']),
        TokenKind::PlusEquals => Some(seq!['+', '=']),
        TokenKind::MinusEquals => Some(seq!['-', '=']),
        TokenKind::PercentEquals => Some(seq!['%', '=']),
        TokenKind::CaretEquals => Some(seq!['^', '=']),
        TokenKind::AmpersandEquals => Some(seq!['&', '=']),
        TokenKind::AmpersandAmpersandEquals => Some(seq!['&', '&', '=']),
        TokenKind::Ampersand => Some(seq!['&']),
        TokenKind::AmpersandAmpersand => Some(seq!['&', '&']),
        TokenKind::PipeEquals => Some(seq!['|', '=']),
        TokenKind::PipePipeEquals => Some(seq!['|', '|', '=']),
        TokenKind::Pipe => Some(seq!['|']),
        TokenKind::PipePipe => Some(seq!['|', '|']),
        TokenKind::Dot => Some(seq!['.']),
        TokenKind::DotDot => Some(seq!['.', '.']),
        TokenKind::Bang => Some(seq!['!']),
        TokenKind::Plus => Some(seq!['+']),
        TokenKind::Minus => Some(seq!['-']),
        TokenKind::Slash => Some(seq!['/']),
        TokenKind::Star => Some(seq!['*']),
        TokenKind::Caret => Some(seq!['^']),
        TokenKind::Percent => Some(seq!['%']),
        TokenKind::Comma => Some(seq![',']),
        TokenKind::BraceCurlyOpen => Some(seq!['{']),
        TokenKind::BraceCurlyClose => Some(seq!['}']),
        TokenKind::BraceSquareOpen => Some(seq!['[']),
        TokenKind::BraceSquareClose => Some(seq![']']),
        TokenKind::BraceRoundOpen => Some(seq!['(']),
        TokenKind::BraceRoundClose => Some(seq![')']),
        TokenKind::If => Some("if"@),
        TokenKind::Else => Some("else"@),
        TokenKind::For => Some("for"@),
        TokenKind::While => Some("while"@),
        TokenKind::Loop => Some("loop"@),
        TokenKind::Break => Some("break"@),
        TokenKind::Continue => Some("continue"@),
        TokenKind::Return => Some("return"@),
        _ => None,
    }
}

impl TokenKind {
    /// The name of this kind, as diagnostics print it.
    pub fn to_string(&self) -> (r: String)
        ensures
            r@ == kind_name(*self),
    {
        match self {
            TokenKind::NewLine => String::from_str("NewLine"),
            TokenKind::Identifier => String::from_str("Identifier"),
            TokenKind::String => String::from_str("String"),
            TokenKind::Number => String::from_str("Number"),
            TokenKind::Boolean => String::from_str("Boolean"),
            TokenKind::Command => String::from_str("Command"),
            TokenKind::Equals => String::from_str("Equals"),
            TokenKind::EqualsEquals => String::from_str("EqualsEquals"),
            TokenKind::BangEquals => String::from_str("BangEquals"),
            TokenKind::LessThan => String::from_str("LessThan"),
            TokenKind::LessThanEquals => String::from_str("LessThanEquals"),
            TokenKind::LessThanLessThan => String::from_str("LessThanLessThan"),
            TokenKind::LessThanLessThanEquals => String::from_str("LessThanLessThanEquals"),
            TokenKind::GreaterThan => String::from_str("GreaterThan"),
            TokenKind::GreaterThanEquals => String::from_str("GreaterThanEquals"),
            TokenKind::GreaterThanGreaterThan => String::from_str("GreaterThanGreaterThan"),
            TokenKind::GreaterThanGreaterThanEquals => String::from_str("GreaterThanGreaterThanEquals"),
            TokenKind::SlashEquals => String::from_str("SlashEquals"),
            TokenKind::StarEquals => String::from_str("StarEquals"),
            TokenKind::PlusEquals => String::from_str("PlusEquals"),
            TokenKind::MinusEquals => String::from_str("MinusEquals"),
            TokenKind::PercentEquals => String::from_str("PercentEquals"),
            TokenKind::CaretEquals => String::from_str("CaretEquals"),
            TokenKind::AmpersandEquals => String::from_str("AmpersandEquals"),
            TokenKind::AmpersandAmpersandEquals => String::from_str("AmpersandAmpersandEquals"),
            TokenKind::Ampersand => String::from_str("Ampersand"),
            TokenKind::AmpersandAmpersand => String::from_str("AmpersandAmpersand"),
            TokenKind::PipeEquals => String::from_str("PipeEquals"),
            TokenKind::PipePipeEquals => String::from_str("PipePipeEquals"),
            TokenKind::Pipe => String::from_str("Pipe"),
            TokenKind::PipePipe => String::from_str("PipePipe"),
            TokenKind::Dot => String::from_str("Dot"),
            TokenKind::DotDot => String::from_str("DotDot"),
            TokenKind::Bang => String::from_str("Bang"),
            TokenKind::Plus => String::from_str("Plus"),
            TokenKind::Minus => String::from_str("Minus"),
            TokenKind::Slash => String::from_str("Slash"),
            TokenKind::Star => String::from_str("Star"),
            TokenKind::Caret => String::from_str("Caret"),
            TokenKind::Percent => String::from_str("Percent"),
            TokenKind::Comma => String::from_str("Comma"),
            TokenKind::Comment => String::from_str("Comment"),
            TokenKind::BraceCurlyOpen => String::from_str("BraceCurlyOpen"),
            TokenKind::BraceCurlyClose => String::from_str("BraceCurlyClose"),
            TokenKind::BraceSquareOpen => String::from_str("BraceSquareOpen"),
            TokenKind::BraceSquareClose => String::from_str("BraceSquareClose"),
            TokenKind::BraceRoundOpen => String::from_str("BraceRoundOpen"),
            TokenKind::BraceRoundClose => String::from_str("BraceRoundClose"),
            TokenKind::If => String::from_str("If"),
            TokenKind::Else => String::from_str("Else"),
            TokenKind::For => String::from_str("For"),
            TokenKind::While => String::from_str("While"),
            TokenKind::Loop => String::from_str("Loop"),
            TokenKind::Break => String::from_str("Break"),
            TokenKind::Continue => String::from_str("Continue"),
            TokenKind::Return => String::from_str("Return"),
            TokenKind::Function => String::from_str("Function"),
            TokenKind::Whitespace => String::from_str("Whitespace"),
        }
    }
}

/// The payload of a token. Which variant is present follows from the kind:
/// see [`Token::wf`].
#[derive(Clone, Debug, PartialEq)]
pub enum TokenValue {
    Empty,
    String(String),
    /// The decimal text of a number literal, digits with at most one `.`;
    /// its value is that text read as a 64-bit float.
    Number(String),
    Boolean(bool),
}

/// A token's payload as a mathematical value.
pub enum ValueModel {
    Empty,
    String(Seq<char>),
    Number(Seq<char>),
    Boolean(bool),
}

impl View for TokenValue {
    type V = ValueModel;

    open spec fn view(&self) -> ValueModel {
        match self {
            TokenValue::Empty => ValueModel::Empty,
            TokenValue::String(s) => ValueModel::String(s@),
            TokenValue::Number(s) => ValueModel::Number(s@),
            TokenValue::Boolean(b) => ValueModel::Boolean(*b),
        }
    }
}

/// A classified unit of source text over the half-open character range
/// `start..end`.
#[derive(Clone, Debug, PartialEq)]
pub struct Token {
    pub kind: TokenKind,
    pub start: usize,
    pub end: usize,
    pub value: TokenValue,
}

/// A token as a mathematical value.
pub struct TokenModel {
    pub kind: TokenKind,
    pub start: nat,
    pub end: nat,
    pub value: ValueModel,
}

impl View for Token {
    type V = TokenModel;

    open spec fn view(&self) -> TokenModel {
        TokenModel {
            kind: self.kind,
            start: self.start as nat,
            end: self.end as nat,
            value: self.value@,
        }
    }
}

/// Whether `value` is the payload variant that tokens of `kind` carry:
/// text for identifiers, strings, comments and commands, a numeral for
/// numbers, a flag for booleans, and nothing for every other kind.
pub open spec fn value_fits(kind: TokenKind, value: ValueModel) -> bool {
    match kind {
        TokenKind::Identifier | TokenKind::String | TokenKind::Comment | TokenKind::Command => {
            value is String
        },
        TokenKind::Number => value is Number,
        TokenKind::Boolean => value is Boolean,
        _ => value is Empty,
    }
}

impl TokenModel {
    /// A well-formed token: its range is ordered and its payload fits its kind.
    pub open spec fn wf(self) -> bool {
        &&& self.start <= self.end
        &&& value_fits(self.kind, self.value)
    }
}

impl Token {
    /// A well-formed token: its range is ordered and its payload fits its kind.
    pub open spec fn wf(&self) -> bool {
        self@.wf()
    }

    /// Whether this token is well formed.
    pub fn is_well_formed(&self) -> (r: bool)
        ensures
            r == self.wf(),
    {
        if self.start > self.end {
            return false;
        }
        match self.kind {
            TokenKind::Identifier | TokenKind::String | TokenKind::Comment | TokenKind::Command => {
                matches!(self.value, TokenValue::String(_))
            },
            TokenKind::Number => matches!(self.value, TokenValue::Number(_)),
            TokenKind::Boolean => matches!(self.value, TokenValue::Boolean(_)),
            _ => matches!(self.value, TokenValue::Empty),
        }
    }
}

} // verus!
