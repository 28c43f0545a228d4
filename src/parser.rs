//! The precedence-climbing parser over a token sequence.
use vstd::prelude::*;
use crate::ast::{
    BlockExpression, BranchModel, BreakExpression, CallExpression, Expr, Expression, GroupingExpression,
    IdentifierExpression, IfCondition, IfDefault, IfExpression, InfixExpression, InfixOperatorKind,
    LiteralExpression, PostfixOperatorKind, PrefixExpression, PrefixOperatorKind, Program, model, models,
};
use crate::from_token::FromToken;
use crate::grammar::{
    end_of_file, expected_expression, lemma_skip_blank, parse_atom, parse_call, parse_else, parse_expr,
    parse_if, parse_list, parse_operators, parse_program, skip_blank, unclosed_group,
    unexpected_token,
};
use crate::scan::ErrorModel;
use crate::span::Span;
use crate::token::{Token, TokenKind, TokenModel};

verus! {

/// A parse error: a message anchored at a character offset.
#[derive(Debug)]
pub struct ParserError {
    pub message: String,
    pub position: usize,
}

impl View for ParserError {
    type V = ErrorModel;

    open spec fn view(&self) -> ErrorModel {
        ErrorModel { message: self.message@, position: self.position as nat }
    }
}

/// What the parser knows of its surroundings.
struct ParserContext {
    is_loop: bool,
}

/// The token models of `tokens`.
pub open spec fn token_models(tokens: Seq<Token>) -> Seq<TokenModel> {
    tokens.map_values(|t: Token| t@)
}

/// Whether every token is well formed.
pub open spec fn all_wf(tokens: Seq<Token>) -> bool {
    forall|i: int| 0 <= i < tokens.len() ==> #[trigger] tokens[i].wf()
}

/// An optional expression node as a mathematical value.
pub open spec fn opt_model(e: Option<Expression>) -> Option<Expr> {
    match e {
        Some(x) => Some(model(x)),
        None => None,
    }
}

/// A result `r` that left the parser at `pos` is what the grammar gives,
/// `s`.
pub open spec fn agrees(r: Result<Expression, ParserError>, pos: int, s: Result<(Expr, int), ErrorModel>) -> bool {
    match s {
        Ok((e, q)) => r is Ok && model(r->Ok_0) == e && pos == q,
        Err(err) => r is Err && r->Err_0@ == err,
    }
}

/// Like `agrees`, for a result that may hold no expression.
pub open spec fn agrees_opt(r: Result<Option<Expression>, ParserError>, pos: int, s: Result<(Option<Expr>, int), ErrorModel>) -> bool {
    match s {
        Ok((e, q)) => r is Ok && opt_model(r->Ok_0) == e && pos == q,
        Err(err) => r is Err && r->Err_0@ == err,
    }
}

/// The branches of a conditional as mathematical values.
pub open spec fn branch_models(v: Seq<IfCondition>) -> Seq<BranchModel> {
    Seq::new(v.len(), |i: int| BranchModel { span: *v[i].span, condition: model(*v[i].condition), consequence: model(*v[i].consequence) })
}

proof fn lemma_block_model(e: Expression)
    requires
        e is Block,
    ensures
        model(e) == Expr::Block(*e->Block_0.span, models(e->Block_0.expressions@)),
{
    assert(model(e)->Block_1 =~= models(e->Block_0.expressions@));
}

proof fn lemma_call_model(e: Expression)
    requires
        e is Call,
    ensures
        model(e) == Expr::Call(*e->Call_0.span, Box::new(model(*e->Call_0.callee)), models(e->Call_0.arguments@)),
{
    assert(model(e)->Call_2 =~= models(e->Call_0.arguments@));
}

proof fn lemma_if_model(e: Expression)
    requires
        e is If,
    ensures
        model(e) == Expr::If(
            *e->If_0.span,
            branch_models(e->If_0.conditions@),
            match e->If_0.default {
                Some(d) => Some((*d.span, Box::new(model(*d.consequence)))),
                None => None,
            },
        ),
{
    assert(model(e)->If_1 =~= branch_models(e->If_0.conditions@));
}

proof fn lemma_models_push(v: Seq<Expression>, e: Expression)
    ensures
        models(v.push(e)) == models(v).push(model(e)),
{
    assert(models(v.push(e)) =~= models(v).push(model(e)));
}

proof fn lemma_branch_models_push(v: Seq<IfCondition>, c: IfCondition)
    ensures
        branch_models(v.push(c)) == branch_models(v).push(
            BranchModel { span: *c.span, condition: model(*c.condition), consequence: model(*c.consequence) },
        ),
{
    assert(branch_models(v.push(c)) =~= branch_models(v).push(
        BranchModel { span: *c.span, condition: model(*c.condition), consequence: model(*c.consequence) },
    ));
}

/// The message `"Unexpected token of kind "` followed by the kind's name.
fn unexpected_message(token: &Token) -> (r: String)
    ensures
        r@ == "Unexpected token of kind "@ + crate::token::kind_name(token.kind),
{
    let mut message = String::from_str("Unexpected token of kind ");
    let name = token.kind.to_string();
    message.append(name.as_str());
    message
}

fn unexpected_token_error(token: &Token) -> (r: ParserError)
    ensures
        r@ == unexpected_token(token@),
{
    ParserError { message: unexpected_message(token), position: token.start }
}

fn unclosed_group_error(token: &Token) -> (r: ParserError)
    ensures
        r@ == unclosed_group(token@),
{
    let mut message = unexpected_message(token);
    message.append(": Expected ')'");
    ParserError { message, position: token.start }
}

fn expected_expression_error(token: &Token) -> (r: ParserError)
    ensures
        r@ == expected_expression(token@),
{
    ParserError { message: String::from_str("Expected expression"), position: token.end }
}

/// A parser over a borrowed token sequence, with a cursor into it.
pub struct Parser<'a> {
    tokens: &'a Vec<Token>,
    position: usize,
    context: ParserContext,
}

impl<'a> Parser<'a> {
    /// The tokens as mathematical values.
    pub closed spec fn toks(&self) -> Seq<TokenModel> {
        token_models(self.tokens@)
    }

    /// The position of the cursor.
    pub closed spec fn pos(&self) -> int {
        self.position as int
    }

    /// Whether the parser stands inside a loop body.
    pub closed spec fn in_loop(&self) -> bool {
        self.context.is_loop
    }

    /// The cursor is within the tokens, and every token is well formed.
    pub closed spec fn wf(&self) -> bool {
        &&& self.position <= self.tokens.len()
        &&& all_wf(self.tokens@)
    }

    /// The same tokens and surroundings as `other`.
    pub closed spec fn same_input(&self, other: &Self) -> bool {
        &&& self.tokens == other.tokens
        &&& self.context == other.context
    }

    /// A parser at the start of `tokens`, outside any loop.
    pub fn new(tokens: &'a Vec<Token>) -> (r: Self)
        requires
            all_wf(tokens@),
        ensures
            r.wf(),
            r.toks() == token_models(tokens@),
            r.pos() == 0,
            !r.in_loop(),
    {
        Parser { tokens, position: 0, context: ParserContext { is_loop: false } }
    }

    /// Parses the expressions from the cursor to the end of the tokens;
    /// stops at the first error.
    pub fn parse(&mut self) -> (r: Result<Program, ParserError>)
        requires
            old(self).wf(),
        ensures
            match parse_program(old(self).toks(), old(self).pos(), Seq::empty(), old(self).in_loop()) {
                Ok(items) => r is Ok && models(r->Ok_0.ast@) == items,
                Err(e) => r is Err && r->Err_0@ == e,
            },
    {
        let ghost ts = self.toks();
        let ghost lp = self.in_loop();
        let ghost p0 = self.pos();
        let ghost whole = parse_program(ts, p0, Seq::empty(), lp);
        let mut program = Program { ast: Vec::new() };
        proof {
            assert(models(program.ast@) =~= Seq::<Expr>::empty());
        }
        while self.position < self.tokens.len()
            invariant
                self.wf(),
                self.toks() == ts,
                self.in_loop() == lp,
                ts == old(self).toks(),
                lp == old(self).in_loop(),
                p0 == old(self).pos(),
                whole == parse_program(ts, p0, Seq::empty(), lp),
                whole == parse_program(ts, self.pos(), models(program.ast@), lp),
            decreases self.tokens.len() - self.position,
        {
            let ghost before = program.ast@;
            let expression = self.parse_expression();
            match expression {
                Err(e) => {
                    return Err(e);
                },
                Ok(Some(expression)) => {
                    proof {
                        lemma_models_push(before, expression);
                    }
                    program.ast.push(expression);
                },
                Ok(None) => {},
            }
        }
        Ok(program)
    }

    /// An expression at the cursor, at the loosest binding power.
    fn parse_expression(&mut self) -> (r: Result<Option<Expression>, ParserError>)
        requires
            old(self).wf(),
        ensures
            final(self).wf(),
            final(self).same_input(old(self)),
            r is Ok ==> final(self).pos() >= old(self).pos(),
            r is Ok && r->Ok_0 is Some ==> final(self).pos() > old(self).pos(),
            r is Ok && r->Ok_0 is None ==> final(self).pos() == old(self).toks().len(),
            agrees_opt(r, final(self).pos(), parse_expr(old(self).toks(), old(self).pos(), 0, old(self).in_loop())),
        decreases old(self).tokens.len() - old(self).position, 7nat,
    {
        self.pratt_parse_expression(0)
    }

    /// The expression at the cursor whose binding power is at least
    /// `min_bp`.
    fn pratt_parse_expression(&mut self, min_bp: u8) -> (r: Result<Option<Expression>, ParserError>)
        requires
            old(self).wf(),
        ensures
            final(self).wf(),
            final(self).same_input(old(self)),
            r is Ok ==> final(self).pos() >= old(self).pos(),
            r is Ok && r->Ok_0 is Some ==> final(self).pos() > old(self).pos(),
            r is Ok && r->Ok_0 is None ==> final(self).pos() == old(self).toks().len(),
            agrees_opt(r, final(self).pos(), parse_expr(old(self).toks(), old(self).pos(), min_bp, old(self).in_loop())),
        decreases old(self).tokens.len() - old(self).position, 6nat,
    {
        let ghost ts = self.toks();
        let ghost lp = self.in_loop();
        let ghost p0 = self.pos();
        self.skip_whitespace();
        let tokens = self.tokens;
        let q = self.position;
        if q >= tokens.len() {
            return Ok(None);
        }
        let start = tokens[q].start;
        let mut lhs = match self.parse_atom() {
            Ok(lhs) => lhs,
            Err(e) => {
                return Err(e);
            },
        };
        proof {
            assert(ts[q as int] == tokens@[q as int]@);
        }
        loop
            invariant_except_break
                parse_expr(ts, p0, min_bp, lp) == parse_operators(ts, self.pos(), min_bp, model(lhs), start, lp),
            invariant
                self.wf(),
                self.toks() == ts,
                self.in_loop() == lp,
                self.same_input(old(self)),
                self.tokens == tokens,
                q < self.pos() <= ts.len(),
                p0 <= q,
                p0 == old(self).pos(),
            ensures
                self.wf(),
                self.toks() == ts,
                self.in_loop() == lp,
                self.same_input(old(self)),
                self.tokens == tokens,
                q < self.pos() <= ts.len(),
                parse_expr(ts, p0, min_bp, lp) == Ok::<(Option<Expr>, int), ErrorModel>((Some(model(lhs)), self.pos())),
            decreases ts.len() - self.pos(),
        {
            self.skip_whitespace();
            let r = self.position;
            if r >= tokens.len() {
                break;
            }
            let token = &tokens[r];
            proof {
                assert(ts[r as int] == tokens@[r as int]@);
            }
            match PostfixOperatorKind::try_from_token(token) {
                Some(PostfixOperatorKind::BraceRoundOpen) => {
                    let (l_bp, ()) = PostfixOperatorKind::BraceRoundOpen.postfix_binding_power();
                    if l_bp < min_bp {
                        break;
                    }
                    match self.parse_call_expression(lhs) {
                        Ok(call) => {
                            lhs = call;
                        },
                        Err(e) => {
                            return Err(e);
                        },
                    }
                },
                Some(PostfixOperatorKind::BraceSquareOpen) => {
                    break;
                },
                None => {
                    match InfixOperatorKind::try_from_token(token) {
                        Some(operator) => {
                            let (l_bp, r_bp) = operator.binding_power();
                            if l_bp < min_bp {
                                break;
                            }
                            self.advance_and_skip_whitespace();
                            let rhs = match self.pratt_parse_expression(r_bp) {
                                Ok(Some(rhs)) => rhs,
                                Ok(None) => {
                                    return Err(expected_expression_error(token));
                                },
                                Err(e) => {
                                    return Err(e);
                                },
                            };
                            let end = rhs.span().end;
                            lhs = Expression::Infix(
                                Box::new(
                                    InfixExpression {
                                        span: Box::new(Span::new(start, end)),
                                        left: Box::new(lhs),
                                        operator,
                                        right: Box::new(rhs),
                                    },
                                ),
                            );
                        },
                        None => {
                            break;
                        },
                    }
                },
            }
        }
        Ok(Some(lhs))
    }

    /// The form that starts at the cursor, which stands on a token that is
    /// not blank.
    fn parse_atom(&mut self) -> (r: Result<Expression, ParserError>)
        requires
            old(self).wf(),
            old(self).pos() < old(self).toks().len(),
        ensures
            final(self).wf(),
            final(self).same_input(old(self)),
            r is Ok ==> final(self).pos() > old(self).pos(),
            agrees(r, final(self).pos(), parse_atom(old(self).toks(), old(self).pos(), old(self).in_loop())),
        decreases old(self).tokens.len() - old(self).position, 5nat,
    {
        let tokens = self.tokens;
        let token = &tokens[self.position];
        proof {
            assert(self.toks()[self.pos()] == tokens@[self.pos()]@);
        }
        match token.kind {
            TokenKind::Identifier => self.parse_identifier_expression(),
            TokenKind::String | TokenKind::Number | TokenKind::Boolean => self.parse_literal_expression(),
            TokenKind::Bang | TokenKind::Plus | TokenKind::Minus => self.parse_prefix_expression(),
            TokenKind::BraceCurlyOpen => self.parse_block_expression(),
            TokenKind::BraceRoundOpen => self.parse_grouping_expression(),
            TokenKind::If => self.parse_if_expression(),
            TokenKind::Break => self.parse_break_expression(),
            _ => Err(unexpected_token_error(token)),
        }
    }

    /// The identifier at the cursor.
    fn parse_identifier_expression(&mut self) -> (r: Result<Expression, ParserError>)
        requires
            old(self).wf(),
            old(self).pos() < old(self).toks().len(),
            old(self).toks()[old(self).pos()].kind == TokenKind::Identifier,
        ensures
            final(self).wf(),
            final(self).same_input(old(self)),
            r is Ok ==> final(self).pos() > old(self).pos(),
            agrees(r, final(self).pos(), parse_atom(old(self).toks(), old(self).pos(), old(self).in_loop())),
    {
        let tokens = self.tokens;
        let token = &tokens[self.position];
        proof {
            assert(self.toks()[self.pos()] == tokens@[self.pos()]@);
            assert(tokens@[self.pos()].wf());
        }
        let identifier = IdentifierExpression::from_token(token);
        self.advance();
        match identifier {
            Ok(identifier) => Ok(Expression::Identifier(Box::new(identifier))),
            Err(e) => Err(e),
        }
    }

    /// The literal at the cursor.
    fn parse_literal_expression(&mut self) -> (r: Result<Expression, ParserError>)
        requires
            old(self).wf(),
            old(self).pos() < old(self).toks().len(),
            old(self).toks()[old(self).pos()].kind == TokenKind::String
                || old(self).toks()[old(self).pos()].kind == TokenKind::Number
                || old(self).toks()[old(self).pos()].kind == TokenKind::Boolean,
        ensures
            final(self).wf(),
            final(self).same_input(old(self)),
            r is Ok ==> final(self).pos() > old(self).pos(),
            agrees(r, final(self).pos(), parse_atom(old(self).toks(), old(self).pos(), old(self).in_loop())),
    {
        let tokens = self.tokens;
        let token = &tokens[self.position];
        proof {
            assert(self.toks()[self.pos()] == tokens@[self.pos()]@);
            assert(tokens@[self.pos()].wf());
        }
        let literal = LiteralExpression::from_token(token);
        self.advance();
        match literal {
            Ok(literal) => Ok(Expression::Literal(Box::new(literal))),
            Err(e) => Err(e),
        }
    }

    /// `break`, which stands only inside a loop body.
    fn parse_break_expression(&mut self) -> (r: Result<Expression, ParserError>)
        requires
            old(self).wf(),
            old(self).pos() < old(self).toks().len(),
            old(self).toks()[old(self).pos()].kind == TokenKind::Break,
        ensures
            final(self).wf(),
            final(self).same_input(old(self)),
            r is Ok ==> final(self).pos() > old(self).pos(),
            r is Err ==> final(self).pos() == old(self).pos(),
            agrees(r, final(self).pos(), parse_atom(old(self).toks(), old(self).pos(), old(self).in_loop())),
    {
        let tokens = self.tokens;
        let token = &tokens[self.position];
        proof {
            assert(self.toks()[self.pos()] == tokens@[self.pos()]@);
        }
        if !self.context.is_loop {
            return Err(ParserError { message: String::from_str("Break expression outside of loop"), position: token.start });
        }
        self.advance();
        Ok(Expression::Break(Box::new(BreakExpression { span: Box::new(Span::new(token.start, token.end)), expression: None })))
    }

    /// A prefix operator and its operand.
    fn parse_prefix_expression(&mut self) -> (r: Result<Expression, ParserError>)
        requires
            old(self).wf(),
            old(self).pos() < old(self).toks().len(),
            old(self).toks()[old(self).pos()].kind == TokenKind::Bang
                || old(self).toks()[old(self).pos()].kind == TokenKind::Plus
                || old(self).toks()[old(self).pos()].kind == TokenKind::Minus,
        ensures
            final(self).wf(),
            final(self).same_input(old(self)),
            r is Ok ==> final(self).pos() > old(self).pos(),
            agrees(r, final(self).pos(), parse_atom(old(self).toks(), old(self).pos(), old(self).in_loop())),
        decreases old(self).tokens.len() - old(self).position, 4nat,
    {
        let tokens = self.tokens;
        let token = &tokens[self.position];
        proof {
            assert(self.toks()[self.pos()] == tokens@[self.pos()]@);
        }
        let operator = match PrefixOperatorKind::try_from_token(token) {
            Some(operator) => operator,
            None => PrefixOperatorKind::Bang,
        };
        let ((), r_bp) = operator.prefix_binding_power();
        self.advance_and_skip_whitespace();
        let expression = match self.pratt_parse_expression(r_bp) {
            Ok(Some(expression)) => expression,
            Ok(None) => {
                return Err(expected_expression_error(token));
            },
            Err(e) => {
                return Err(e);
            },
        };
        let end = expression.span().end;
        Ok(Expression::Prefix(Box::new(PrefixExpression { span: Box::new(Span::new(token.start, end)), operator, right: Box::new(expression) })))
    }

    /// Expressions from the cursor up to a token of kind `close`, which is
    /// consumed; with the position of that token.
    fn parse_list(&mut self, close: TokenKind) -> (r: Result<(Vec<Expression>, usize), ParserError>)
        requires
            old(self).wf(),
        ensures
            final(self).wf(),
            final(self).same_input(old(self)),
            match parse_list(old(self).toks(), old(self).pos(), close, Seq::empty(), old(self).in_loop()) {
                Ok((items, c)) => r is Ok && models(r->Ok_0.0@) == items && r->Ok_0.1 == c
                    && final(self).pos() == c + 1 && c < old(self).toks().len() && old(self).pos() <= c,
                Err(e) => r is Err && r->Err_0@ == e,
            },
        decreases old(self).tokens.len() - old(self).position, 8nat,
    {
        let ghost ts = self.toks();
        let ghost lp = self.in_loop();
        let ghost p0 = self.pos();
        let ghost whole = parse_list(ts, p0, close, Seq::empty(), lp);
        let mut items: Vec<Expression> = Vec::new();
        proof {
            assert(models(items@) =~= Seq::<Expr>::empty());
        }
        loop
            invariant
                self.wf(),
                self.toks() == ts,
                self.in_loop() == lp,
                self.same_input(old(self)),
                p0 <= self.pos() <= ts.len(),
                p0 == old(self).pos(),
                ts == old(self).toks(),
                lp == old(self).in_loop(),
                whole == parse_list(ts, p0, close, Seq::empty(), lp),
                whole == parse_list(ts, self.pos(), close, models(items@), lp),
            decreases ts.len() - self.pos(),
        {
            let token = match self.peek_token() {
                Ok(token) => token,
                Err(e) => {
                    return Err(e);
                },
            };
            proof {
                assert(ts[self.pos()] == self.tokens@[self.pos()]@);
            }
            if token.kind == close {
                let c = self.position;
                self.advance();
                return Ok((items, c));
            }
            let ghost before = items@;
            match self.parse_expression() {
                Err(e) => {
                    return Err(e);
                },
                Ok(Some(expression)) => {
                    proof {
                        lemma_models_push(before, expression);
                    }
                    items.push(expression);
                },
                Ok(None) => {},
            }
        }
    }

    /// A block: `{`, expressions, `}`.
    fn parse_block_expression(&mut self) -> (r: Result<Expression, ParserError>)
        requires
            old(self).wf(),
            old(self).pos() < old(self).toks().len(),
            old(self).toks()[old(self).pos()].kind == TokenKind::BraceCurlyOpen,
        ensures
            final(self).wf(),
            final(self).same_input(old(self)),
            r is Ok ==> final(self).pos() > old(self).pos(),
            agrees(r, final(self).pos(), parse_atom(old(self).toks(), old(self).pos(), old(self).in_loop())),
        decreases old(self).tokens.len() - old(self).position, 4nat,
    {
        let tokens = self.tokens;
        let token = &tokens[self.position];
        proof {
            assert(self.toks()[self.pos()] == tokens@[self.pos()]@);
        }
        self.advance_and_skip_whitespace();
        match self.parse_list(TokenKind::BraceCurlyClose) {
            Ok((expressions, c)) => {
                proof {
                    assert(self.toks()[c as int] == tokens@[c as int]@);
                }
                let e = Expression::Block(
                    Box::new(BlockExpression { span: Box::new(Span::new(token.start, tokens[c].end)), expressions: Box::new(expressions) }),
                );
                proof {
                    lemma_block_model(e);
                }
                Ok(e)
            },
            Err(e) => Err(e),
        }
    }

    /// A call of `callee`; the cursor stands on its `(`.
    fn parse_call_expression(&mut self, callee: Expression) -> (r: Result<Expression, ParserError>)
        requires
            old(self).wf(),
            old(self).pos() < old(self).toks().len(),
        ensures
            final(self).wf(),
            final(self).same_input(old(self)),
            r is Ok ==> final(self).pos() > old(self).pos(),
            agrees(r, final(self).pos(), parse_call(old(self).toks(), old(self).pos(), model(callee), old(self).in_loop())),
        decreases old(self).tokens.len() - old(self).position, 4nat,
    {
        let tokens = self.tokens;
        let span = callee.span();
        self.advance_and_skip_whitespace();
        match self.parse_list(TokenKind::BraceRoundClose) {
            Ok((arguments, c)) => {
                proof {
                    assert(self.toks()[c as int] == tokens@[c as int]@);
                }
                let e = Expression::Call(
                    Box::new(CallExpression { span: Box::new(span.extend(tokens[c].end)), callee: Box::new(callee), arguments: Box::new(arguments) }),
                );
                proof {
                    lemma_call_model(e);
                }
                Ok(e)
            },
            Err(e) => Err(e),
        }
    }

    /// A grouping: `(`, one expression, `)`.
    fn parse_grouping_expression(&mut self) -> (r: Result<Expression, ParserError>)
        requires
            old(self).wf(),
            old(self).pos() < old(self).toks().len(),
            old(self).toks()[old(self).pos()].kind == TokenKind::BraceRoundOpen,
        ensures
            final(self).wf(),
            final(self).same_input(old(self)),
            r is Ok ==> final(self).pos() > old(self).pos(),
            agrees(r, final(self).pos(), parse_atom(old(self).toks(), old(self).pos(), old(self).in_loop())),
        decreases old(self).tokens.len() - old(self).position, 4nat,
    {
        let tokens = self.tokens;
        let token = &tokens[self.position];
        proof {
            assert(self.toks()[self.pos()] == tokens@[self.pos()]@);
        }
        self.advance_and_skip_whitespace();
        let expression = match self.parse_expression() {
            Ok(Some(expression)) => expression,
            Ok(None) => {
                return Err(expected_expression_error(token));
            },
            Err(e) => {
                return Err(e);
            },
        };
        self.skip_whitespace();
        let close = match self.peek_token() {
            Ok(close) => close,
            Err(e) => {
                return Err(e);
            },
        };
        proof {
            assert(self.toks()[self.pos()] == tokens@[self.pos()]@);
        }
        if close.kind != TokenKind::BraceRoundClose {
            return Err(unclosed_group_error(close));
        }
        self.advance();
        Ok(Expression::Grouping(Box::new(GroupingExpression { span: Box::new(Span::new(token.start, close.end)), expression: Box::new(expression) })))
    }

    /// A conditional: `if`, a condition and a consequence, then any
    /// `else if` branches and an optional `else`.
    fn parse_if_expression(&mut self) -> (r: Result<Expression, ParserError>)
        requires
            old(self).wf(),
            old(self).pos() < old(self).toks().len(),
            old(self).toks()[old(self).pos()].kind == TokenKind::If,
        ensures
            final(self).wf(),
            final(self).same_input(old(self)),
            r is Ok ==> final(self).pos() > old(self).pos(),
            agrees(r, final(self).pos(), parse_if(old(self).toks(), old(self).pos(), old(self).in_loop())),
        decreases old(self).tokens.len() - old(self).position, 4nat,
    {
        let ghost ts = self.toks();
        let ghost lp = self.in_loop();
        let ghost q0 = self.pos();
        let tokens = self.tokens;
        let token = &tokens[self.position];
        proof {
            assert(ts[q0] == tokens@[q0]@);
        }
        let start = token.start;
        self.advance_and_skip_whitespace();
        let condition = match self.parse_expression() {
            Ok(Some(condition)) => condition,
            Ok(None) => {
                return Err(expected_expression_error(token));
            },
            Err(e) => {
                return Err(e);
            },
        };
        let next = match self.peek_token() {
            Ok(next) => next,
            Err(e) => {
                return Err(e);
            },
        };
        proof {
            assert(ts[self.pos()] == tokens@[self.pos()]@);
        }
        let consequence = match self.parse_expression() {
            Ok(Some(consequence)) => consequence,
            Ok(None) => {
                return Err(expected_expression_error(next));
            },
            Err(e) => {
                return Err(e);
            },
        };
        let mut end = consequence.span().end;
        let first = IfCondition { span: Box::new(Span::new(start, end)), condition: Box::new(condition), consequence: Box::new(consequence) };
        let mut conditions: Vec<IfCondition> = Vec::new();
        proof {
            lemma_branch_models_push(conditions@, first);
        }
        conditions.push(first);
        proof {
            assert(branch_models(conditions@) =~= seq![branch_models(conditions@)[0]]);
        }
        self.skip_whitespace();
        loop
            invariant
                self.wf(),
                self.toks() == ts,
                self.in_loop() == lp,
                self.same_input(old(self)),
                self.tokens == tokens,
                q0 < self.pos() <= ts.len(),
                q0 == old(self).pos(),
                ts == old(self).toks(),
                lp == old(self).in_loop(),
                parse_if(ts, q0, lp) == parse_else(ts, self.pos(), start, branch_models(conditions@), end, lp),
            ensures
                self.wf(),
                self.same_input(old(self)),
                q0 < self.pos() <= ts.len(),
                ts == old(self).toks(),
                lp == old(self).in_loop(),
                q0 == old(self).pos(),
                parse_if(ts, q0, lp) == parse_else(ts, self.pos(), start, branch_models(conditions@), end, lp),
                self.pos() >= ts.len() || ts[self.pos()].kind != TokenKind::Else,
            decreases ts.len() - self.pos(),
        {
            let else_token = match self.peek() {
                Some(t) => t,
                None => {
                    break;
                },
            };
            proof {
                assert(ts[self.pos()] == tokens@[self.pos()]@);
            }
            if else_token.kind != TokenKind::Else {
                break;
            }
            self.advance_and_skip_whitespace();
            let next = match self.peek_token() {
                Ok(next) => next,
                Err(e) => {
                    return Err(e);
                },
            };
            proof {
                assert(ts[self.pos()] == tokens@[self.pos()]@);
            }
            if next.kind == TokenKind::If {
                self.advance_and_skip_whitespace();
                let condition = match self.parse_expression() {
                    Ok(Some(condition)) => condition,
                    Ok(None) => {
                        return Err(expected_expression_error(next));
                    },
                    Err(e) => {
                        return Err(e);
                    },
                };
                let after = match self.peek_token() {
                    Ok(after) => after,
                    Err(e) => {
                        return Err(e);
                    },
                };
                proof {
                    assert(ts[self.pos()] == tokens@[self.pos()]@);
                }
                let consequence = match self.parse_expression() {
                    Ok(Some(consequence)) => consequence,
                    Ok(None) => {
                        return Err(expected_expression_error(after));
                    },
                    Err(e) => {
                        return Err(e);
                    },
                };
                end = consequence.span().end;
                let branch = IfCondition {
                    span: Box::new(Span::new(else_token.start, end)),
                    condition: Box::new(condition),
                    consequence: Box::new(consequence),
                };
                proof {
                    lemma_branch_models_push(conditions@, branch);
                }
                conditions.push(branch);
                self.skip_whitespace();
            } else {
                let consequence = match self.parse_expression() {
                    Ok(Some(consequence)) => consequence,
                    Ok(None) => {
                        return Err(expected_expression_error(next));
                    },
                    Err(e) => {
                        return Err(e);
                    },
                };
                let new_end = consequence.span().end;
                let default = IfDefault { span: Box::new(Span::new(else_token.start, new_end)), consequence: Box::new(consequence) };
                let e = Expression::If(
                    Box::new(IfExpression { span: Box::new(Span::new(start, new_end)), conditions: Box::new(conditions), default: Some(Box::new(default)) }),
                );
                proof {
                    lemma_if_model(e);
                }
                return Ok(e);
            }
        }
        let e = Expression::If(Box::new(IfExpression { span: Box::new(Span::new(start, end)), conditions: Box::new(conditions), default: None }));
        proof {
            lemma_if_model(e);
        }
        Ok(e)
    }

    // === Helpers ===

    /// The token at the cursor, if any.
    fn peek(&self) -> (r: Option<&'a Token>)
        requires
            self.wf(),
        ensures
            self.pos() < self.toks().len() ==> r == Some(&self.tokens@[self.pos()]),
            self.pos() >= self.toks().len() ==> r is None,
    {
        if self.position < self.tokens.len() {
            Some(&self.tokens[self.position])
        } else {
            None
        }
    }

    /// The token at the cursor, or the end-of-file error.
    fn peek_token(&self) -> (r: Result<&'a Token, ParserError>)
        requires
            self.wf(),
        ensures
            self.pos() < self.toks().len() ==> r == Ok::<&'a Token, ParserError>(&self.tokens@[self.pos()]),
            self.pos() >= self.toks().len() ==> r is Err && r->Err_0@ == end_of_file(self.toks()),
    {
        match self.peek() {
            Some(token) => Ok(token),
            None => {
                let position = if self.tokens.len() > 0 { self.tokens[self.tokens.len() - 1].end } else { 0 };
                proof {
                    if self.tokens.len() > 0 {
                        assert(self.toks().last() == self.tokens@[self.tokens.len() - 1]@);
                    }
                }
                Err(ParserError { message: String::from_str("Unexpected end of file"), position })
            },
        }
    }

    /// Moves the cursor past one token.
    fn advance(&mut self)
        requires
            old(self).wf(),
            old(self).pos() < old(self).toks().len(),
        ensures
            final(self).wf(),
            final(self).same_input(old(self)),
            final(self).pos() == old(self).pos() + 1,
    {
        self.position = self.position + 1;
    }

    /// Moves the cursor past whitespace and newline tokens.
    fn skip_whitespace(&mut self)
        requires
            old(self).wf(),
        ensures
            final(self).wf(),
            final(self).same_input(old(self)),
            final(self).pos() == skip_blank(old(self).toks(), old(self).pos()),
            old(self).pos() <= final(self).pos() <= old(self).toks().len(),
            final(self).toks() == old(self).toks(),
            final(self).in_loop() == old(self).in_loop(),
    {
        let ghost ts = self.toks();
        let ghost from = self.pos();
        proof {
            lemma_skip_blank(ts, from);
        }
        while self.position < self.tokens.len()
            && (self.tokens[self.position].kind == TokenKind::Whitespace
            || self.tokens[self.position].kind == TokenKind::NewLine)
            invariant
                self.wf(),
                self.same_input(old(self)),
                self.toks() == ts,
                from <= self.pos() <= skip_blank(ts, from),
                skip_blank(ts, self.pos()) == skip_blank(ts, from),
            decreases self.tokens.len() - self.position,
        {
            proof {
                assert(ts[self.pos()] == self.tokens@[self.pos()]@);
                lemma_skip_blank(ts, self.pos() + 1);
            }
            self.position = self.position + 1;
        }
        proof {
            if self.pos() < ts.len() {
                assert(ts[self.pos()] == self.tokens@[self.pos()]@);
            }
        }
    }

    /// Moves the cursor past one token, then past whitespace and newlines.
    fn advance_and_skip_whitespace(&mut self)
        requires
            old(self).wf(),
            old(self).pos() < old(self).toks().len(),
        ensures
            final(self).wf(),
            final(self).same_input(old(self)),
            final(self).pos() == skip_blank(old(self).toks(), old(self).pos() + 1),
            old(self).pos() < final(self).pos() <= old(self).toks().len(),
    {
        proof {
            lemma_skip_blank(self.toks(), self.pos() + 1);
        }
        self.advance();
        self.skip_whitespace();
    }
}

} // verus!
