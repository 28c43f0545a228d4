//! The syntax tree, and its mathematical model.
use vstd::prelude::*;
use crate::span::Span;
use crate::token::{Token, TokenKind};

verus! {

/// A parsed program: its top-level expressions in source order.
#[derive(Debug)]
pub struct Program {
    pub ast: Vec<Expression>,
}

/// An expression node; each variant owns its children.
#[derive(Debug)]
pub enum Expression {
    Infix(Box<InfixExpression>),
    Prefix(Box<PrefixExpression>),
    Grouping(Box<GroupingExpression>),
    Block(Box<BlockExpression>),
    Literal(Box<LiteralExpression>),
    Identifier(Box<IdentifierExpression>),
    Call(Box<CallExpression>),
    If(Box<IfExpression>),
    Break(Box<BreakExpression>),
    FunctionDeclaration(Box<FunctionDeclarationExpression>),
}

#[derive(Debug)]
pub struct LiteralExpression {
    pub span: Box<Span>,
    pub value: Box<LiteralExpressionValue>,
}

/// The value of a literal; a number keeps its decimal text, which reads as
/// a 64-bit float.
#[derive(Debug)]
pub enum LiteralExpressionValue {
    String(String),
    Number(String),
    Boolean(bool),
}

#[derive(Debug)]
pub struct InfixExpression {
    pub span: Box<Span>,
    pub left: Box<Expression>,
    pub operator: InfixOperatorKind,
    pub right: Box<Expression>,
}

/// The binary operators.
#[derive(Debug, Clone, Copy, PartialEq, Eq, Structural)]
pub enum InfixOperatorKind {
    Equals,
    EqualsEquals,
    BangEquals,
    LessThan,
    LessThanEquals,
    LessThanLessThan,
    GreaterThan,
    GreaterThanEquals,
    GreaterThanGreaterThan,
    Ampersand,
    AmpersandAmpersand,
    Pipe,
    PipePipe,
    ColonEquals,
    Dot,
    DotDot,
    Plus,
    Minus,
    Slash,
    Star,
    Caret,
    Percent,
}

/// The binary operator a token of `kind` stands for, if any.
pub open spec fn infix_of(kind: TokenKind) -> Option<InfixOperatorKind> {
    match kind {
        TokenKind::Equals => Some(InfixOperatorKind::Equals),
        TokenKind::EqualsEquals => Some(InfixOperatorKind::EqualsEquals),
        TokenKind::BangEquals => Some(InfixOperatorKind::BangEquals),
        TokenKind::LessThan => Some(InfixOperatorKind::LessThan),
        TokenKind::LessThanEquals => Some(InfixOperatorKind::LessThanEquals),
        TokenKind::LessThanLessThan => Some(InfixOperatorKind::LessThanLessThan),
        TokenKind::GreaterThan => Some(InfixOperatorKind::GreaterThan),
        TokenKind::GreaterThanEquals => Some(InfixOperatorKind::GreaterThanEquals),
        TokenKind::GreaterThanGreaterThan => Some(InfixOperatorKind::GreaterThanGreaterThan),
        TokenKind::Ampersand => Some(InfixOperatorKind::Ampersand),
        TokenKind::AmpersandAmpersand => Some(InfixOperatorKind::AmpersandAmpersand),
        TokenKind::Pipe => Some(InfixOperatorKind::Pipe),
        TokenKind::PipePipe => Some(InfixOperatorKind::PipePipe),
        TokenKind::Dot => Some(InfixOperatorKind::Dot),
        TokenKind::DotDot => Some(InfixOperatorKind::DotDot),
        TokenKind::Plus => Some(InfixOperatorKind::Plus),
        TokenKind::Minus => Some(InfixOperatorKind::Minus),
        TokenKind::Slash => Some(InfixOperatorKind::Slash),
        TokenKind::Star => Some(InfixOperatorKind::Star),
        TokenKind::Caret => Some(InfixOperatorKind::Caret),
        TokenKind::Percent => Some(InfixOperatorKind::Percent),
        _ => None,
    }
}

/// The binding powers (left, right) of a binary operator. Assignment is
/// right-associative at (2, 1); comparison, equality, the logical operators
/// and ranges share (2, 3); additive operators, with the bitwise operators and
/// shifts, take (3, 4); multiplicative operators (5, 6); member access
/// (7, 8). Prefix operators bind at 7, above every binary operator but
/// member access, and calls bind tightest, at 10.
pub open spec fn infix_power(op: InfixOperatorKind) -> (u8, u8) {
    match op {
        InfixOperatorKind::Equals | InfixOperatorKind::ColonEquals => (2, 1),
        InfixOperatorKind::EqualsEquals | InfixOperatorKind::BangEquals | InfixOperatorKind::LessThan
        | InfixOperatorKind::LessThanEquals | InfixOperatorKind::GreaterThan
        | InfixOperatorKind::GreaterThanEquals | InfixOperatorKind::AmpersandAmpersand
        | InfixOperatorKind::PipePipe | InfixOperatorKind::DotDot => (2, 3),
        InfixOperatorKind::Plus | InfixOperatorKind::Minus | InfixOperatorKind::Pipe | InfixOperatorKind::Caret
        | InfixOperatorKind::Ampersand | InfixOperatorKind::LessThanLessThan
        | InfixOperatorKind::GreaterThanGreaterThan => (3, 4),
        InfixOperatorKind::Star | InfixOperatorKind::Slash | InfixOperatorKind::Percent => (5, 6),
        InfixOperatorKind::Dot => (7, 8),
    }
}

/// The right binding power of the prefix operators.
pub open spec fn prefix_power() -> u8 {
    7
}

/// The left binding power of the postfix forms.
pub open spec fn postfix_power() -> u8 {
    10
}

impl InfixOperatorKind {
    /// The binary operator `token` stands for, if any.
    pub fn try_from_token(token: &Token) -> (r: Option<Self>)
        ensures
            r == infix_of(token.kind),
    {
        match token.kind {
            TokenKind::Equals => Some(Self::Equals),
            TokenKind::EqualsEquals => Some(Self::EqualsEquals),
            TokenKind::BangEquals => Some(Self::BangEquals),
            TokenKind::LessThan => Some(Self::LessThan),
            TokenKind::LessThanEquals => Some(Self::LessThanEquals),
            TokenKind::LessThanLessThan => Some(Self::LessThanLessThan),
            TokenKind::GreaterThan => Some(Self::GreaterThan),
            TokenKind::GreaterThanEquals => Some(Self::GreaterThanEquals),
            TokenKind::GreaterThanGreaterThan => Some(Self::GreaterThanGreaterThan),
            TokenKind::Ampersand => Some(Self::Ampersand),
            TokenKind::AmpersandAmpersand => Some(Self::AmpersandAmpersand),
            TokenKind::Pipe => Some(Self::Pipe),
            TokenKind::PipePipe => Some(Self::PipePipe),
            TokenKind::Dot => Some(Self::Dot),
            TokenKind::DotDot => Some(Self::DotDot),
            TokenKind::Plus => Some(Self::Plus),
            TokenKind::Minus => Some(Self::Minus),
            TokenKind::Slash => Some(Self::Slash),
            TokenKind::Star => Some(Self::Star),
            TokenKind::Caret => Some(Self::Caret),
            TokenKind::Percent => Some(Self::Percent),
            _ => None,
        }
    }

    /// The binding powers (left, right) of this operator.
    pub fn binding_power(&self) -> (r: (u8, u8))
        ensures
            r == infix_power(*self),
    {
        match self {
            InfixOperatorKind::Equals | InfixOperatorKind::ColonEquals => (2, 1),
            InfixOperatorKind::EqualsEquals | InfixOperatorKind::BangEquals | InfixOperatorKind::LessThan
            | InfixOperatorKind::LessThanEquals | InfixOperatorKind::GreaterThan
            | InfixOperatorKind::GreaterThanEquals | InfixOperatorKind::AmpersandAmpersand
            | InfixOperatorKind::PipePipe | InfixOperatorKind::DotDot => (2, 3),
            InfixOperatorKind::Plus | InfixOperatorKind::Minus | InfixOperatorKind::Pipe
            | InfixOperatorKind::Caret | InfixOperatorKind::Ampersand | InfixOperatorKind::LessThanLessThan
            | InfixOperatorKind::GreaterThanGreaterThan => (3, 4),
            InfixOperatorKind::Star | InfixOperatorKind::Slash | InfixOperatorKind::Percent => (5, 6),
            InfixOperatorKind::Dot => (7, 8),
        }
    }
}

/// The postfix forms: indexing and calls.
#[derive(Debug, Clone, Copy, PartialEq, Eq, Structural)]
pub enum PostfixOperatorKind {
    BraceSquareOpen,
    BraceRoundOpen,
}

impl PostfixOperatorKind {
    /// The postfix form `token` opens, if any.
    pub fn try_from_token(token: &Token) -> (r: Option<Self>)
        ensures
            token.kind == TokenKind::BraceSquareOpen ==> r == Some(PostfixOperatorKind::BraceSquareOpen),
            token.kind == TokenKind::BraceRoundOpen ==> r == Some(PostfixOperatorKind::BraceRoundOpen),
            token.kind != TokenKind::BraceSquareOpen && token.kind != TokenKind::BraceRoundOpen ==> r is None,
    {
        match token.kind {
            TokenKind::BraceSquareOpen => Some(Self::BraceSquareOpen),
            TokenKind::BraceRoundOpen => Some(Self::BraceRoundOpen),
            _ => None,
        }
    }

    /// The left binding power of this form.
    pub fn postfix_binding_power(&self) -> (r: (u8, ()))
        ensures
            r.0 == postfix_power(),
    {
        (10, ())
    }
}

#[derive(Debug)]
pub struct PrefixExpression {
    pub span: Box<Span>,
    pub operator: PrefixOperatorKind,
    pub right: Box<Expression>,
}

/// The unary prefix operators.
#[derive(Debug, Clone, Copy, PartialEq, Eq, Structural)]
pub enum PrefixOperatorKind {
    Bang,
    Plus,
    Minus,
}

/// The prefix operator a token of `kind` stands for, if any.
pub open spec fn prefix_of(kind: TokenKind) -> Option<PrefixOperatorKind> {
    match kind {
        TokenKind::Bang => Some(PrefixOperatorKind::Bang),
        TokenKind::Plus => Some(PrefixOperatorKind::Plus),
        TokenKind::Minus => Some(PrefixOperatorKind::Minus),
        _ => None,
    }
}

impl PrefixOperatorKind {
    /// The prefix operator `token` stands for, if any.
    pub fn try_from_token(token: &Token) -> (r: Option<Self>)
        ensures
            r == prefix_of(token.kind),
    {
        match token.kind {
            TokenKind::Bang => Some(Self::Bang),
            TokenKind::Plus => Some(Self::Plus),
            TokenKind::Minus => Some(Self::Minus),
            _ => None,
        }
    }

    /// The right binding power of the prefix operators.
    pub fn prefix_binding_power(&self) -> (r: ((), u8))
        ensures
            r.1 == prefix_power(),
    {
        ((), 7)
    }
}

#[derive(Debug)]
pub struct CallExpression {
    pub span: Box<Span>,
    pub callee: Box<Expression>,
    pub arguments: Box<Vec<Expression>>,
}

#[derive(Debug)]
pub struct IfExpression {
    pub span: Box<Span>,
    pub conditions: Box<Vec<IfCondition>>,
    pub default: Option<Box<IfDefault>>,
}

#[derive(Debug)]
pub struct IfCondition {
    pub span: Box<Span>,
    pub condition: Box<Expression>,
    pub consequence: Box<Expression>,
}

#[derive(Debug)]
pub struct IfDefault {
    pub span: Box<Span>,
    pub consequence: Box<Expression>,
}

#[derive(Debug)]
pub struct BlockExpression {
    pub span: Box<Span>,
    pub expressions: Box<Vec<Expression>>,
}

/// `break`; the slot for a trailing expression is kept, and the parser
/// leaves it empty.
#[derive(Debug)]
pub struct BreakExpression {
    pub span: Box<Span>,
    pub expression: Option<Box<Expression>>,
}

#[derive(Debug)]
pub struct IdentifierExpression {
    pub span: Box<Span>,
    pub name: String,
}

#[derive(Debug)]
pub struct GroupingExpression {
    pub span: Box<Span>,
    pub expression: Box<Expression>,
}

#[derive(Debug)]
pub struct FunctionDeclarationExpression {
    pub span: Box<Span>,
    pub parameters: Box<Vec<IdentifierExpression>>,
    pub body: Box<Expression>,
}

/// The value of a literal as a mathematical value.
pub enum LiteralModel {
    String(Seq<char>),
    Number(Seq<char>),
    Boolean(bool),
}

/// A branch of a conditional as a mathematical value: its span, condition
/// and consequence.
pub struct BranchModel {
    pub span: Span,
    pub condition: Expr,
    pub consequence: Expr,
}

/// An expression as a mathematical value.
pub enum Expr {
    Infix(Span, Box<Expr>, InfixOperatorKind, Box<Expr>),
    Prefix(Span, PrefixOperatorKind, Box<Expr>),
    Grouping(Span, Box<Expr>),
    Block(Span, Seq<Expr>),
    Literal(Span, LiteralModel),
    Identifier(Span, Seq<char>),
    Call(Span, Box<Expr>, Seq<Expr>),
    If(Span, Seq<BranchModel>, Option<(Span, Box<Expr>)>),
    Break(Span, Option<Box<Expr>>),
    FunctionDeclaration(Span, Seq<(Span, Seq<char>)>, Box<Expr>),
}

impl Expr {
    /// The span of this expression.
    pub open spec fn span(self) -> Span {
        match self {
            Expr::Infix(s, _, _, _) => s,
            Expr::Prefix(s, _, _) => s,
            Expr::Grouping(s, _) => s,
            Expr::Block(s, _) => s,
            Expr::Literal(s, _) => s,
            Expr::Identifier(s, _) => s,
            Expr::Call(s, _, _) => s,
            Expr::If(s, _, _) => s,
            Expr::Break(s, _) => s,
            Expr::FunctionDeclaration(s, _, _) => s,
        }
    }
}

/// The value of a literal node as a mathematical value.
pub open spec fn literal_model(v: LiteralExpressionValue) -> LiteralModel {
    match v {
        LiteralExpressionValue::String(s) => LiteralModel::String(s@),
        LiteralExpressionValue::Number(s) => LiteralModel::Number(s@),
        LiteralExpressionValue::Boolean(b) => LiteralModel::Boolean(b),
    }
}

/// An expression node as a mathematical value.
pub open spec fn model(e: Expression) -> Expr
    decreases e,
{
    match e {
        Expression::Infix(x) => Expr::Infix(*x.span, Box::new(model(*x.left)), x.operator, Box::new(model(*x.right))),
        Expression::Prefix(x) => Expr::Prefix(*x.span, x.operator, Box::new(model(*x.right))),
        Expression::Grouping(x) => Expr::Grouping(*x.span, Box::new(model(*x.expression))),
        Expression::Block(x) => Expr::Block(
            *x.span,
            Seq::new(x.expressions@.len(), |i: int| if 0 <= i < x.expressions@.len() { model(x.expressions@[i]) } else { Expr::Identifier(*x.span, Seq::empty()) }),
        ),
        Expression::Literal(x) => Expr::Literal(*x.span, literal_model(*x.value)),
        Expression::Identifier(x) => Expr::Identifier(*x.span, x.name@),
        Expression::Call(x) => Expr::Call(
            *x.span,
            Box::new(model(*x.callee)),
            Seq::new(x.arguments@.len(), |i: int| if 0 <= i < x.arguments@.len() { model(x.arguments@[i]) } else { Expr::Identifier(*x.span, Seq::empty()) }),
        ),
        Expression::If(x) => Expr::If(
            *x.span,
            Seq::new(x.conditions@.len(), |i: int| if 0 <= i < x.conditions@.len() {
                BranchModel {
                    span: *x.conditions@[i].span,
                    condition: model(*x.conditions@[i].condition),
                    consequence: model(*x.conditions@[i].consequence),
                }
            } else {
                BranchModel { span: *x.span, condition: Expr::Identifier(*x.span, Seq::empty()), consequence: Expr::Identifier(*x.span, Seq::empty()) }
            }),
            match x.default {
                Some(d) => Some((*d.span, Box::new(model(*d.consequence)))),
                None => None,
            },
        ),
        Expression::Break(x) => Expr::Break(*x.span, match x.expression {
            Some(b) => Some(Box::new(model(*b))),
            None => None,
        }),
        Expression::FunctionDeclaration(x) => Expr::FunctionDeclaration(
            *x.span,
            Seq::new(x.parameters@.len(), |i: int| (*x.parameters@[i].span, x.parameters@[i].name@)),
            Box::new(model(*x.body)),
        ),
    }
}

/// A sequence of expression nodes as mathematical values.
pub open spec fn models(v: Seq<Expression>) -> Seq<Expr> {
    Seq::new(v.len(), |i: int| model(v[i]))
}

impl Expression {
    /// The span of this expression.
    pub fn span(&self) -> (r: Span)
        ensures
            r == model(*self).span(),
    {
        match self {
            Expression::Infix(expression) => *expression.span,
            Expression::Prefix(expression) => *expression.span,
            Expression::Grouping(expression) => *expression.span,
            Expression::Block(expression) => *expression.span,
            Expression::Literal(expression) => *expression.span,
            Expression::Identifier(expression) => *expression.span,
            Expression::Call(expression) => *expression.span,
            Expression::If(expression) => *expression.span,
            Expression::Break(expression) => *expression.span,
            Expression::FunctionDeclaration(expression) => *expression.span,
        }
    }

    /// The name of this expression's variant, for diagnostics.
    pub fn kind_name(&self) -> (r: String)
        ensures
            r@ == expression_kind_name(model(*self)),
    {
        match self {
            Expression::Infix(_) => String::from_str("infix"),
            Expression::Prefix(_) => String::from_str("prefix"),
            Expression::Grouping(_) => String::from_str("grouping"),
            Expression::Block(_) => String::from_str("block"),
            Expression::Literal(_) => String::from_str("literal"),
            Expression::Identifier(_) => String::from_str("identifier"),
            Expression::Call(_) => String::from_str("call"),
            Expression::If(_) => String::from_str("if"),
            Expression::Break(_) => String::from_str("break"),
            Expression::FunctionDeclaration(_) => String::from_str("function declaration"),
        }
    }
}

/// The name of an expression's variant, for diagnostics.
pub open spec fn expression_kind_name(e: Expr) -> Seq<char> {
    match e {
        Expr::Infix(..) => "infix"@,
        Expr::Prefix(..) => "prefix"@,
        Expr::Grouping(..) => "grouping"@,
        Expr::Block(..) => "block"@,
        Expr::Literal(..) => "literal"@,
        Expr::Identifier(..) => "identifier"@,
        Expr::Call(..) => "call"@,
        Expr::If(..) => "if"@,
        Expr::Break(..) => "break"@,
        Expr::FunctionDeclaration(..) => "function declaration"@,
    }
}

} // verus!
