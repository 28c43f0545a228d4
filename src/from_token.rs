//! Building syntax nodes from single tokens.
use vstd::prelude::*;
use crate::ast::{IdentifierExpression, LiteralExpression, LiteralExpressionValue, literal_model};
use crate::grammar::{literal_of, name_of, token_span};
use crate::parser::ParserError;
use crate::scan::ErrorModel;
use crate::span::Span;
use crate::token::{Token, TokenKind, TokenModel, TokenValue, kind_name};

verus! {

/// A syntax node that one token makes.
pub trait FromToken: Sized {
    /// The tokens this node can be made from.
    spec fn accepts(token: TokenModel) -> bool;

    /// Whether `r` is what `token` makes.
    spec fn made_from(token: TokenModel, r: Result<Self, ParserError>) -> bool;

    /// The node `token` makes, or an error where it makes none.
    fn from_token(token: &Token) -> (r: Result<Self, ParserError>)
        requires
            token.wf(),
            Self::accepts(token@),
        ensures
            Self::made_from(token@, r),
    ;
}

/// Whether tokens of `kind` are literals.
pub open spec fn is_literal_kind(kind: TokenKind) -> bool {
    kind == TokenKind::String || kind == TokenKind::Number || kind == TokenKind::Boolean
}

/// The error for a token that is not a literal.
pub open spec fn not_a_literal(t: TokenModel) -> ErrorModel {
    ErrorModel {
        message: "Token of kind "@ + kind_name(t.kind) + " is not a valid literal expression"@,
        position: t.start,
    }
}

impl FromToken for LiteralExpressionValue {
    open spec fn accepts(token: TokenModel) -> bool {
        true
    }

    open spec fn made_from(token: TokenModel, r: Result<Self, ParserError>) -> bool {
        if is_literal_kind(token.kind) {
            r is Ok && literal_model(r->Ok_0) == literal_of(token)
        } else {
            r is Err && r->Err_0@ == not_a_literal(token)
        }
    }

    fn from_token(token: &Token) -> (r: Result<Self, ParserError>) {
        match token.kind {
            TokenKind::String | TokenKind::Number | TokenKind::Boolean => {
                match &token.value {
                    TokenValue::String(value) => Ok(LiteralExpressionValue::String(value.clone())),
                    TokenValue::Number(value) => Ok(LiteralExpressionValue::Number(value.clone())),
                    TokenValue::Boolean(value) => Ok(LiteralExpressionValue::Boolean(*value)),
                    TokenValue::Empty => Ok(LiteralExpressionValue::Boolean(false)),
                }
            },
            _ => {
                let mut message = String::from_str("Token of kind ");
                let name = token.kind.to_string();
                message.append(name.as_str());
                message.append(" is not a valid literal expression");
                Err(ParserError { message, position: token.start })
            },
        }
    }
}

impl FromToken for LiteralExpression {
    open spec fn accepts(token: TokenModel) -> bool {
        true
    }

    open spec fn made_from(token: TokenModel, r: Result<Self, ParserError>) -> bool {
        if is_literal_kind(token.kind) {
            &&& r is Ok
            &&& *r->Ok_0.span == token_span(token)
            &&& literal_model(*r->Ok_0.value) == literal_of(token)
        } else {
            r is Err && r->Err_0@ == not_a_literal(token)
        }
    }

    fn from_token(token: &Token) -> (r: Result<Self, ParserError>) {
        match LiteralExpressionValue::from_token(token) {
            Ok(value) => Ok(LiteralExpression { span: Box::new(Span::new(token.start, token.end)), value: Box::new(value) }),
            Err(e) => Err(e),
        }
    }
}

impl FromToken for IdentifierExpression {
    open spec fn accepts(token: TokenModel) -> bool {
        token.kind == TokenKind::Identifier
    }

    open spec fn made_from(token: TokenModel, r: Result<Self, ParserError>) -> bool {
        &&& r is Ok
        &&& *r->Ok_0.span == token_span(token)
        &&& r->Ok_0.name@ == name_of(token)
    }

    fn from_token(token: &Token) -> (r: Result<Self, ParserError>) {
        let name = match &token.value {
            TokenValue::String(value) => value.clone(),
            _ => String::new(),
        };
        Ok(IdentifierExpression { span: Box::new(Span::new(token.start, token.end)), name })
    }
}

} // verus!
