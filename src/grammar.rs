//! The grammar as spec functions over token models: what parsing yields
//! from a position, an expression and the position after it, or an error.
use vstd::prelude::*;
use crate::ast::{BranchModel, Expr, LiteralModel, infix_of, infix_power, postfix_power, prefix_of, prefix_power};
use crate::scan::ErrorModel;
use crate::span::Span;
use crate::token::{TokenKind, TokenModel, ValueModel, kind_name};

verus! {

/// Whether tokens of `kind` are skipped between expressions.
pub open spec fn is_blank(kind: TokenKind) -> bool {
    kind == TokenKind::Whitespace || kind == TokenKind::NewLine
}

/// The first position at or after `p` whose token is not blank, or the
/// number of tokens.
pub open spec fn skip_blank(ts: Seq<TokenModel>, p: int) -> int
    decreases ts.len() - p,
{
    if p < 0 || p >= ts.len() || !is_blank(ts[p].kind) {
        p
    } else {
        skip_blank(ts, p + 1)
    }
}

/// `skip_blank` stays within `p..=len` and stops only where the blank
/// tokens end.
pub proof fn lemma_skip_blank(ts: Seq<TokenModel>, p: int)
    requires
        0 <= p <= ts.len(),
    ensures
        p <= skip_blank(ts, p) <= ts.len(),
        skip_blank(ts, p) < ts.len() ==> !is_blank(ts[skip_blank(ts, p)].kind),
        skip_blank(ts, skip_blank(ts, p)) == skip_blank(ts, p),
    decreases ts.len() - p,
{
    if p < ts.len() && is_blank(ts[p].kind) {
        lemma_skip_blank(ts, p + 1);
    }
}

/// The span of token `t`.
pub open spec fn token_span(t: TokenModel) -> Span {
    Span { start: t.start as usize, end: t.end as usize }
}

/// The span from `start` to `end`.
pub open spec fn span_of(start: usize, end: usize) -> Span {
    Span { start, end }
}

/// The error for a token that cannot stand where it stands.
pub open spec fn unexpected_token(t: TokenModel) -> ErrorModel {
    ErrorModel { message: "Unexpected token of kind "@ + kind_name(t.kind), position: t.start }
}

/// The error for a group whose closing parenthesis is missing, at the token
/// found in its place.
pub open spec fn unclosed_group(t: TokenModel) -> ErrorModel {
    ErrorModel { message: "Unexpected token of kind "@ + kind_name(t.kind) + ": Expected ')'"@, position: t.start }
}

/// The error for a missing expression after token `t`.
pub open spec fn expected_expression(t: TokenModel) -> ErrorModel {
    ErrorModel { message: "Expected expression"@, position: t.end }
}

/// The error for running out of tokens, at the end of the last token.
pub open spec fn end_of_file(ts: Seq<TokenModel>) -> ErrorModel {
    ErrorModel { message: "Unexpected end of file"@, position: if ts.len() > 0 { ts.last().end } else { 0 } }
}

/// The error for `break` outside a loop, at the `break` token.
pub open spec fn break_outside_loop(t: TokenModel) -> ErrorModel {
    ErrorModel { message: "Break expression outside of loop"@, position: t.start }
}

/// The literal a token carries.
pub open spec fn literal_of(t: TokenModel) -> LiteralModel {
    match t.value {
        ValueModel::String(s) => LiteralModel::String(s),
        ValueModel::Number(s) => LiteralModel::Number(s),
        ValueModel::Boolean(b) => LiteralModel::Boolean(b),
        ValueModel::Empty => LiteralModel::Boolean(false),
    }
}

/// The text an identifier token carries.
pub open spec fn name_of(t: TokenModel) -> Seq<char> {
    match t.value {
        ValueModel::String(s) => s,
        _ => Seq::empty(),
    }
}

/// An expression whose binding power is at least `min_bp`, from position
/// `p`: blanks are skipped; at the end of the tokens there is none; else an
/// atom, then the operators that bind at least as tightly.
pub open spec fn parse_expr(ts: Seq<TokenModel>, p: int, min_bp: u8, in_loop: bool) -> Result<(Option<Expr>, int), ErrorModel>
    decreases ts.len() - p, 6nat,
{
    let q = skip_blank(ts, p);
    if p < 0 || q < p || q >= ts.len() {
        Ok((None, q))
    } else {
        match parse_atom(ts, q, in_loop) {
            Err(e) => Err(e),
            Ok((lhs, r)) => if q < r <= ts.len() {
                parse_operators(ts, r, min_bp, lhs, ts[q].start as usize, in_loop)
            } else {
                Ok((None, r))
            },
        }
    }
}

/// The form that starts at the non-blank token at `q`, and the position
/// after it.
pub open spec fn parse_atom(ts: Seq<TokenModel>, q: int, in_loop: bool) -> Result<(Expr, int), ErrorModel>
    decreases ts.len() - q, 5nat,
{
    if q < 0 || q >= ts.len() {
        Err(end_of_file(ts))
    } else {
        let t = ts[q];
        match t.kind {
            TokenKind::Identifier => Ok((Expr::Identifier(token_span(t), name_of(t)), q + 1)),
            TokenKind::String | TokenKind::Number | TokenKind::Boolean => Ok((Expr::Literal(token_span(t), literal_of(t)), q + 1)),
            TokenKind::Bang | TokenKind::Plus | TokenKind::Minus => {
                let s = skip_blank(ts, q + 1);
                if s <= q || s > ts.len() {
                    Err(end_of_file(ts))
                } else {
                    match parse_expr(ts, s, prefix_power(), in_loop) {
                        Err(e) => Err(e),
                        Ok((None, _)) => Err(expected_expression(t)),
                        Ok((Some(operand), r)) => Ok((
                            Expr::Prefix(span_of(t.start as usize, operand.span().end), prefix_of(t.kind)->0, Box::new(operand)),
                            r,
                        )),
                    }
                }
            },
            TokenKind::BraceCurlyOpen => {
                let s = skip_blank(ts, q + 1);
                if s <= q || s > ts.len() {
                    Err(end_of_file(ts))
                } else {
                    match parse_list(ts, s, TokenKind::BraceCurlyClose, Seq::empty(), in_loop) {
                        Err(e) => Err(e),
                        Ok((items, c)) => Ok((Expr::Block(span_of(t.start as usize, ts[c].end as usize), items), c + 1)),
                    }
                }
            },
            TokenKind::BraceRoundOpen => {
                let s = skip_blank(ts, q + 1);
                if s <= q || s > ts.len() {
                    Err(end_of_file(ts))
                } else {
                    match parse_expr(ts, s, 0, in_loop) {
                        Err(e) => Err(e),
                        Ok((None, _)) => Err(expected_expression(t)),
                        Ok((Some(inner), r)) => {
                            let c = skip_blank(ts, r);
                            if c < 0 || c >= ts.len() {
                                Err(end_of_file(ts))
                            } else if ts[c].kind != TokenKind::BraceRoundClose {
                                Err(unclosed_group(ts[c]))
                            } else {
                                Ok((Expr::Grouping(span_of(t.start as usize, ts[c].end as usize), Box::new(inner)), c + 1))
                            }
                        },
                    }
                }
            },
            TokenKind::If => parse_if(ts, q, in_loop),
            TokenKind::Break => {
                if in_loop {
                    Ok((Expr::Break(token_span(t), None), q + 1))
                } else {
                    Err(break_outside_loop(t))
                }
            },
            _ => Err(unexpected_token(t)),
        }
    }
}

/// The postfix forms and binary operators that follow `lhs` at position
/// `q` and bind at least as tightly as `min_bp`, folded into `lhs`, whose
/// span starts at `start`.
pub open spec fn parse_operators(
    ts: Seq<TokenModel>,
    q: int,
    min_bp: u8,
    lhs: Expr,
    start: usize,
    in_loop: bool,
) -> Result<(Option<Expr>, int), ErrorModel>
    decreases ts.len() - q, 4nat,
{
    let r = skip_blank(ts, q);
    if q < 0 || r < q || r >= ts.len() {
        Ok((Some(lhs), r))
    } else {
        let t = ts[r];
        if t.kind == TokenKind::BraceRoundOpen {
            if postfix_power() < min_bp {
                Ok((Some(lhs), r))
            } else {
                match parse_call(ts, r, lhs, in_loop) {
                    Err(e) => Err(e),
                    Ok((call, c)) => {
                        if q < c <= ts.len() {
                            parse_operators(ts, c, min_bp, call, start, in_loop)
                        } else {
                            Ok((Some(call), c))
                        }
                    },
                }
            }
        } else if infix_of(t.kind) is Some {
            let op = infix_of(t.kind)->0;
            if infix_power(op).0 < min_bp {
                Ok((Some(lhs), r))
            } else {
                let s0 = skip_blank(ts, r + 1);
                if s0 <= r || s0 > ts.len() {
                    Err(end_of_file(ts))
                } else {
                    match parse_expr(ts, s0, infix_power(op).1, in_loop) {
                        Err(e) => Err(e),
                        Ok((None, _)) => Err(expected_expression(t)),
                        Ok((Some(rhs), s)) => {
                            let node = Expr::Infix(span_of(start, rhs.span().end), Box::new(lhs), op, Box::new(rhs));
                            if q < s <= ts.len() {
                                parse_operators(ts, s, min_bp, node, start, in_loop)
                            } else {
                                Ok((Some(node), s))
                            }
                        },
                    }
                }
            }
        } else {
            Ok((Some(lhs), r))
        }
    }
}

/// A call of `callee` whose argument list opens at position `r`, and the
/// position after its closing parenthesis.
pub open spec fn parse_call(ts: Seq<TokenModel>, r: int, callee: Expr, in_loop: bool) -> Result<(Expr, int), ErrorModel>
    decreases ts.len() - r, 3nat,
{
    let s = skip_blank(ts, r + 1);
    if r < 0 || r >= ts.len() || s <= r || s > ts.len() {
        Err(end_of_file(ts))
    } else {
        match parse_list(ts, s, TokenKind::BraceRoundClose, Seq::empty(), in_loop) {
            Err(e) => Err(e),
            Ok((args, c)) => Ok((Expr::Call(span_of(callee.span().start, ts[c].end as usize), Box::new(callee), args), c + 1)),
        }
    }
}

/// Expressions from position `q` up to a token of kind `close`, appended to
/// `items`; with the position of the closing token.
pub open spec fn parse_list(
    ts: Seq<TokenModel>,
    q: int,
    close: TokenKind,
    items: Seq<Expr>,
    in_loop: bool,
) -> Result<(Seq<Expr>, int), ErrorModel>
    decreases ts.len() - q, 7nat,
{
    if q < 0 || q >= ts.len() {
        Err(end_of_file(ts))
    } else if ts[q].kind == close {
        Ok((items, q))
    } else {
        match parse_expr(ts, q, 0, in_loop) {
            Err(e) => Err(e),
            Ok((e, r)) => {
                let more = match e {
                    Some(x) => items.push(x),
                    None => items,
                };
                if q < r <= ts.len() {
                    parse_list(ts, r, close, more, in_loop)
                } else {
                    Err(end_of_file(ts))
                }
            },
        }
    }
}

/// A conditional starting at the `if` token at `q`: a condition and a
/// consequence, then any `else if` branches and an optional `else`.
pub open spec fn parse_if(ts: Seq<TokenModel>, q: int, in_loop: bool) -> Result<(Expr, int), ErrorModel>
    decreases ts.len() - q, 3nat,
{
    if q < 0 || q >= ts.len() {
        Err(end_of_file(ts))
    } else {
        let t = ts[q];
        let s = skip_blank(ts, q + 1);
        if s <= q || s > ts.len() {
            Err(end_of_file(ts))
        } else {
            match parse_expr(ts, s, 0, in_loop) {
                Err(e) => Err(e),
                Ok((None, _)) => Err(expected_expression(t)),
                Ok((Some(condition), r)) => {
                    if r <= q || r >= ts.len() {
                        Err(end_of_file(ts))
                    } else {
                        match parse_expr(ts, r, 0, in_loop) {
                            Err(e) => Err(e),
                            Ok((None, _)) => Err(expected_expression(ts[r])),
                            Ok((Some(consequence), r2)) => {
                                let end = consequence.span().end;
                                let branch = BranchModel { span: span_of(t.start as usize, end), condition, consequence };
                                let n = skip_blank(ts, r2);
                                if q < n <= ts.len() {
                                    parse_else(ts, n, t.start as usize, seq![branch], end, in_loop)
                                } else {
                                    Err(end_of_file(ts))
                                }
                            },
                        }
                    }
                },
            }
        }
    }
}

/// The `else if` branches and the optional `else` from position `q`, after
/// the branches `branches` of a conditional that starts at `start` and so
/// far ends at `end`.
pub open spec fn parse_else(
    ts: Seq<TokenModel>,
    q: int,
    start: usize,
    branches: Seq<BranchModel>,
    end: usize,
    in_loop: bool,
) -> Result<(Expr, int), ErrorModel>
    decreases ts.len() - q, 1nat,
{
    if q < 0 || q >= ts.len() || ts[q].kind != TokenKind::Else {
        Ok((Expr::If(span_of(start, end), branches, None), q))
    } else {
        let e = ts[q];
        let r = skip_blank(ts, q + 1);
        if r <= q || r >= ts.len() {
            Err(end_of_file(ts))
        } else if ts[r].kind == TokenKind::If {
            let u = ts[r];
            let s = skip_blank(ts, r + 1);
            if s <= r || s > ts.len() {
                Err(end_of_file(ts))
            } else {
                match parse_expr(ts, s, 0, in_loop) {
                    Err(x) => Err(x),
                    Ok((None, _)) => Err(expected_expression(u)),
                    Ok((Some(condition), r1)) => {
                        if r1 <= q || r1 >= ts.len() {
                            Err(end_of_file(ts))
                        } else {
                            match parse_expr(ts, r1, 0, in_loop) {
                                Err(x) => Err(x),
                                Ok((None, _)) => Err(expected_expression(ts[r1])),
                                Ok((Some(consequence), r2)) => {
                                    let new_end = consequence.span().end;
                                    let branch = BranchModel { span: span_of(e.start as usize, new_end), condition, consequence };
                                    let n = skip_blank(ts, r2);
                                    if q < n <= ts.len() {
                                        parse_else(ts, n, start, branches.push(branch), new_end, in_loop)
                                    } else {
                                        Err(end_of_file(ts))
                                    }
                                },
                            }
                        }
                    },
                }
            }
        } else {
            match parse_expr(ts, r, 0, in_loop) {
                Err(x) => Err(x),
                Ok((None, _)) => Err(expected_expression(ts[r])),
                Ok((Some(consequence), r2)) => {
                    let new_end = consequence.span().end;
                    Ok((
                        Expr::If(span_of(start, new_end), branches, Some((span_of(e.start as usize, new_end), Box::new(consequence)))),
                        r2,
                    ))
                },
            }
        }
    }
}

/// A program: the expressions from position `p` to the end, appended to
/// `items`.
pub open spec fn parse_program(ts: Seq<TokenModel>, p: int, items: Seq<Expr>, in_loop: bool) -> Result<Seq<Expr>, ErrorModel>
    decreases ts.len() - p, 8nat,
{
    if p < 0 || p >= ts.len() {
        Ok(items)
    } else {
        match parse_expr(ts, p, 0, in_loop) {
            Err(e) => Err(e),
            Ok((e, r)) => {
                let more = match e {
                    Some(x) => items.push(x),
                    None => items,
                };
                if p < r <= ts.len() {
                    parse_program(ts, r, more, in_loop)
                } else {
                    Ok(more)
                }
            },
        }
    }
}

/// Outside a loop, a program whose next expression starts with `break`
/// fails with the break-outside-loop error at that token.
pub proof fn lemma_break_outside_loop(ts: Seq<TokenModel>, p: int, items: Seq<Expr>)
    requires
        0 <= p < ts.len(),
        skip_blank(ts, p) < ts.len(),
        ts[skip_blank(ts, p)].kind == TokenKind::Break,
    ensures
        parse_program(ts, p, items, false) == Err::<Seq<Expr>, ErrorModel>(break_outside_loop(ts[skip_blank(ts, p)])),
{
    lemma_skip_blank(ts, p);
}

} // verus!
