use frontend::ast::{Expression, InfixOperatorKind, LiteralExpressionValue, PostfixOperatorKind, PrefixOperatorKind, Program};
use frontend::lexer::default_lexer;
use frontend::parser::{Parser, ParserError};
use frontend::span::Span;
use frontend::token::{Token, TokenKind, TokenValue};

fn parse(source: &str) -> Result<Program, ParserError> {
    let result = default_lexer().lex(source);
    assert!(result.errors.is_empty());
    Parser::new(&result.tokens).parse()
}

fn infix(op: InfixOperatorKind) -> &'static str {
    match op {
        InfixOperatorKind::Plus => "Plus",
        InfixOperatorKind::Minus => "Minus",
        InfixOperatorKind::Star => "Star",
        InfixOperatorKind::Slash => "Slash",
        InfixOperatorKind::Equals => "Equals",
        InfixOperatorKind::EqualsEquals => "EqualsEquals",
        InfixOperatorKind::Dot => "Dot",
        InfixOperatorKind::AmpersandAmpersand => "AmpersandAmpersand",
        InfixOperatorKind::PipePipe => "PipePipe",
        InfixOperatorKind::LessThan => "LessThan",
        other => panic!("{:?}", other),
    }
}

fn show(e: &Expression) -> String {
    match e {
        Expression::Literal(l) => match &*l.value {
            LiteralExpressionValue::Number(n) => n.clone(),
            LiteralExpressionValue::String(s) => format!("{:?}", s),
            LiteralExpressionValue::Boolean(b) => b.to_string(),
        },
        Expression::Identifier(i) => i.name.clone(),
        Expression::Infix(i) => format!("{}({}, {})", infix(i.operator), show(&i.left), show(&i.right)),
        Expression::Prefix(p) => format!("{:?}({})", p.operator, show(&p.right)),
        Expression::Grouping(g) => format!("Grouping({})", show(&g.expression)),
        Expression::Block(b) => format!("Block[{}]", b.expressions.iter().map(show).collect::<Vec<_>>().join(", ")),
        Expression::Call(c) => format!("Call({}; {})", show(&c.callee), c.arguments.iter().map(show).collect::<Vec<_>>().join(", ")),
        Expression::If(i) => {
            let mut s = String::from("If[");
            for c in i.conditions.iter() {
                s.push_str(&format!("{} => {}; ", show(&c.condition), show(&c.consequence)));
            }
            if let Some(d) = &i.default {
                s.push_str(&format!("else {}", show(&d.consequence)));
            }
            s.push(']');
            s
        }
        Expression::Break(_) => "Break".to_string(),
        Expression::FunctionDeclaration(_) => "Function".to_string(),
    }
}

fn shows(source: &str) -> Vec<String> {
    parse(source).unwrap().ast.iter().map(show).collect()
}

#[test]
fn multiplication_binds_tighter_than_addition() {
    assert_eq!(shows("1 + 2 * 3"), vec!["Plus(1, Star(2, 3))"]);
}

#[test]
fn subtraction_is_left_associative() {
    assert_eq!(shows("1 - 2 - 3"), vec!["Minus(Minus(1, 2), 3)"]);
}

#[test]
fn grouping_overrides_precedence() {
    assert_eq!(shows("(1 + 2) * 3"), vec!["Star(Grouping(Plus(1, 2)), 3)"]);
}

#[test]
fn assignment_is_right_associative() {
    assert_eq!(shows("a = b = 1 + 2"), vec!["Equals(a, Equals(b, Plus(1, 2)))"]);
}

#[test]
fn comparison_and_logic_precedence() {
    assert_eq!(shows("a < b + 1 && c || d"), vec!["PipePipe(AmpersandAmpersand(LessThan(a, Plus(b, 1)), c), d)"]);
    assert_eq!(shows("x = a == b"), vec!["Equals(x, EqualsEquals(a, b))"]);
}

#[test]
fn prefix_binds_tighter_than_binary_but_not_member_access() {
    assert_eq!(shows("-a * b"), vec!["Star(Minus(a), b)"]);
    assert_eq!(shows("!a.b"), vec!["Bang(Dot(a, b))"]);
    assert_eq!(shows("- - 1"), vec!["Minus(Minus(1))"]);
}

#[test]
fn calls_and_blocks() {
    assert_eq!(shows("f(1 2)(3)"), vec!["Call(Call(f; 1, 2); 3)"]);
    assert_eq!(shows("f()"), vec!["Call(f; )"]);
    assert_eq!(shows("{ a\n b }"), vec!["Block[a, b]"]);
    assert_eq!(shows("{}"), vec!["Block[]"]);
    assert_eq!(shows("a.b(c)"), vec!["Dot(a, Call(b; c))"]);
}

#[test]
fn conditional_chains() {
    assert_eq!(shows("if a { 1 } else if b { 2 } else { 3 }"), vec!["If[a => Block[1]; b => Block[2]; else Block[3]]"]);
    assert_eq!(shows("if a { 1 }\nx"), vec!["If[a => Block[1]; ]", "x"]);
}

#[test]
fn program_holds_top_level_expressions_with_spans() {
    let program = parse("  x = 1\n\"s\" + y  ").unwrap();
    assert_eq!(program.ast.len(), 2);
    assert_eq!(program.ast[0].span(), Span::new(2, 7));
    assert_eq!(program.ast[1].span(), Span::new(8, 15));
    assert_eq!(program.ast[0].kind_name(), "infix");
    assert_eq!(show(&program.ast[1]), "Plus(\"s\", y)");
}

#[test]
fn prefix_operator_kinds() {
    let program = parse("+x").unwrap();
    match &program.ast[0] {
        Expression::Prefix(p) => assert!(matches!(p.operator, PrefixOperatorKind::Plus)),
        _ => panic!(),
    }
}

#[test]
fn break_outside_loop_is_an_error() {
    let error = parse("break").unwrap_err();
    assert_eq!(error.message, "Break expression outside of loop");
    assert_eq!(error.position, 0);
    let error = parse("x\n  break").unwrap_err();
    assert_eq!(error.position, 4);
}

#[test]
fn errors_carry_messages_and_positions() {
    let error = parse("1 +").unwrap_err();
    assert_eq!((error.message.as_str(), error.position), ("Expected expression", 3));
    let error = parse("(1 2").unwrap_err();
    assert_eq!((error.message.as_str(), error.position), ("Unexpected token of kind Number: Expected ')'", 3));
    let error = parse("(1").unwrap_err();
    assert_eq!((error.message.as_str(), error.position), ("Unexpected end of file", 2));
    let error = parse(") 1").unwrap_err();
    assert_eq!((error.message.as_str(), error.position), ("Unexpected token of kind BraceRoundClose", 0));
    let error = parse("{ 1").unwrap_err();
    assert_eq!((error.message.as_str(), error.position), ("Unexpected end of file", 3));
    let error = parse("while").unwrap_err();
    assert_eq!((error.message.as_str(), error.position), ("Unexpected token of kind While", 0));
}

#[test]
fn blank_program_is_empty() {
    assert!(parse("").unwrap().ast.is_empty());
    assert!(parse(" \n ").unwrap().ast.is_empty());
}

#[test]
fn hand_built_tokens() {
    let tokens = vec![
        Token { kind: TokenKind::Boolean, start: 0, end: 4, value: TokenValue::Boolean(true) },
        Token { kind: TokenKind::PipePipe, start: 5, end: 7, value: TokenValue::Empty },
        Token { kind: TokenKind::Number, start: 8, end: 9, value: TokenValue::Number("0".to_string()) },
    ];
    let program = Parser::new(&tokens).parse().unwrap();
    assert_eq!(show(&program.ast[0]), "PipePipe(true, 0)");
    assert_eq!(program.ast[0].span(), Span::new(0, 9));
}

#[test]
fn binding_power_table() {
    assert_eq!(InfixOperatorKind::Equals.binding_power(), (2, 1));
    assert_eq!(InfixOperatorKind::ColonEquals.binding_power(), (2, 1));
    assert_eq!(InfixOperatorKind::EqualsEquals.binding_power(), (2, 3));
    assert_eq!(InfixOperatorKind::Plus.binding_power(), (3, 4));
    assert_eq!(InfixOperatorKind::Minus.binding_power(), (3, 4));
    assert_eq!(InfixOperatorKind::Star.binding_power(), (5, 6));
    assert_eq!(InfixOperatorKind::Slash.binding_power(), (5, 6));
    assert_eq!(InfixOperatorKind::Dot.binding_power(), (7, 8));
    assert_eq!(PrefixOperatorKind::Minus.prefix_binding_power(), ((), 7));
    assert_eq!(PostfixOperatorKind::BraceRoundOpen.postfix_binding_power(), (10, ()));
}

#[test]
fn span_operations() {
    let s = Span::start_from(3);
    assert_eq!(s, Span::new(3, 3));
    assert_eq!(s.extend(9), Span::new(3, 9));
}

#[test]
fn token_well_formedness() {
    let good = Token { kind: TokenKind::Number, start: 0, end: 1, value: TokenValue::Number("1".to_string()) };
    let wrong_payload = Token { kind: TokenKind::Number, start: 0, end: 1, value: TokenValue::Empty };
    let reversed = Token { kind: TokenKind::Plus, start: 2, end: 1, value: TokenValue::Empty };
    assert!(good.is_well_formed());
    assert!(!wrong_payload.is_well_formed());
    assert!(!reversed.is_well_formed());
    let lexed = default_lexer().lex("x = \"s\" // c\n$ run");
    assert!(lexed.tokens.iter().all(|t| t.is_well_formed()));
}
