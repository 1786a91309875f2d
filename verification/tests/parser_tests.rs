use treewalk::ast::{
    ASTExpression, ASTExpressionBody, ASTExpressionKind, ASTStatement, ASTStatementKind,
    BinaryExpression, CallExpression, ConditionalStatement, FunctionDeclaration,
    MemberExpression, Object, Property, Value, VariableAssignment, VariableDeclaration, AST,
};
use treewalk::grammar::Expected;
use treewalk::lexer::{tokenize, Token, Type};
use treewalk::parser::{parse, ParseError, Parser};

fn program(source: &str) -> Result<AST, ParseError> {
    Parser::new(String::from(source)).unwrap().parse()
}

fn statements(source: &str) -> Vec<ASTStatement> {
    let ast = program(source).unwrap();
    assert_eq!(ast.kind, "Program");
    ast.statements
}

fn expression(source: &str) -> ASTExpression {
    let mut all = statements(source);
    assert_eq!(all.len(), 1);
    match all.remove(0).kind {
        ASTStatementKind::ExpressionStatement(e) => e,
        other => panic!("no expression: {:?}", other),
    }
}

fn failure(source: &str) -> ParseError {
    program(source).unwrap_err()
}

fn text(s: &str) -> Value {
    Value::String(String::from(s))
}

fn num(n: f64) -> ASTExpression {
    ASTExpression {
        kind: ASTExpressionKind::NumericLiteral,
        body: ASTExpressionBody::Value(Value::Number(n.to_bits())),
    }
}

fn ident(name: &str) -> ASTExpression {
    ASTExpression { kind: ASTExpressionKind::Identifier, body: ASTExpressionBody::Value(text(name)) }
}

fn binary(op: &str, left: ASTExpression, right: ASTExpression) -> ASTExpression {
    ASTExpression {
        kind: ASTExpressionKind::BinaryExpression,
        body: ASTExpressionBody::BinaryExpressionBody(BinaryExpression {
            left: Box::new(left),
            operator: text(op),
            right: Box::new(right),
        }),
    }
}

fn assign(assignee: ASTExpression, value: ASTExpression) -> ASTExpression {
    ASTExpression {
        kind: ASTExpressionKind::AssignmentExpression,
        body: ASTExpressionBody::AssignmentExpressionBody(VariableAssignment {
            assignee: Box::new(assignee),
            value: Box::new(value),
        }),
    }
}

fn call(caller: ASTExpression, arguments: Vec<ASTExpression>) -> ASTExpression {
    ASTExpression {
        kind: ASTExpressionKind::CallExpression,
        body: ASTExpressionBody::CallExpressionBody(CallExpression {
            arguments,
            caller: Box::new(caller),
        }),
    }
}

fn member(object: ASTExpression, property: ASTExpression, computed: bool) -> ASTExpression {
    ASTExpression {
        kind: ASTExpressionKind::MemberExpression,
        body: ASTExpressionBody::MemberExpressionBody(MemberExpression {
            object: Box::new(object),
            property: Box::new(property),
            computed,
        }),
    }
}

fn object(properties: Vec<(&str, Option<ASTExpression>)>) -> ASTExpression {
    ASTExpression {
        kind: ASTExpressionKind::ObjectLiteral,
        body: ASTExpressionBody::Value(Value::Object(Object {
            properties: properties
                .into_iter()
                .map(|(key, value)| Property { key: String::from(key), value })
                .collect(),
        })),
    }
}

fn statement(e: ASTExpression) -> ASTStatement {
    ASTStatement { kind: ASTStatementKind::ExpressionStatement(e) }
}

fn conditional(
    condition: Option<ASTExpression>,
    consequence: Vec<ASTStatement>,
    alternate: Option<ASTStatement>,
) -> ASTStatement {
    ASTStatement {
        kind: ASTStatementKind::ConditionalStatement(ConditionalStatement {
            condition,
            consequence,
            alternate: alternate.map(Box::new),
        }),
    }
}

fn token(kind: Type, s: &str) -> Token {
    Token { kind, value: text(s) }
}

#[test]
fn multiplication_binds_tighter_than_addition() {
    assert_eq!(expression("1 + 2 * 3"), binary("+", num(1.0), binary("*", num(2.0), num(3.0))));
    assert_eq!(expression("1 * 2 + 3"), binary("+", binary("*", num(1.0), num(2.0)), num(3.0)));
}

#[test]
fn operators_associate_to_the_left() {
    assert_eq!(expression("1 - 2 - 3"), binary("-", binary("-", num(1.0), num(2.0)), num(3.0)));
    assert_eq!(expression("8 / 4 % 3"), binary("%", binary("/", num(8.0), num(4.0)), num(3.0)));
}

#[test]
fn parentheses_group() {
    assert_eq!(expression("(1 + 2) * 3"), binary("*", binary("+", num(1.0), num(2.0)), num(3.0)));
    assert_eq!(expression("((x))"), ident("x"));
}

#[test]
fn assignment_associates_to_the_right() {
    assert_eq!(expression("a = b = 1"), assign(ident("a"), assign(ident("b"), num(1.0))));
    assert_eq!(expression("a = 1 + 2"), assign(ident("a"), binary("+", num(1.0), num(2.0))));
    assert_eq!(expression("1 = 2"), assign(num(1.0), num(2.0)));
}

#[test]
fn object_literals() {
    assert_eq!(
        expression("{ a: 1, b: 2 }"),
        object(vec![("a", Some(num(1.0))), ("b", Some(num(2.0)))])
    );
    assert_eq!(expression("{}"), object(vec![]));
    assert_eq!(expression("{ a, b: x, }"), object(vec![("a", None), ("b", Some(ident("x")))]));
    assert_eq!(expression("{ a }"), object(vec![("a", None)]));
    assert_eq!(
        expression("{ a: { b: 1 } }"),
        object(vec![("a", Some(object(vec![("b", Some(num(1.0)))])))])
    );
    assert_eq!(
        expression("x = { a: 1 }"),
        assign(ident("x"), object(vec![("a", Some(num(1.0)))]))
    );
}

#[test]
fn object_literal_errors() {
    assert_eq!(
        failure("{ a: 1 b: 2 }"),
        ParseError { expected: Expected::Token(Type::Comma), found: token(Type::Identifier, "b") }
    );
    assert_eq!(
        failure("{ a 1 }"),
        ParseError {
            expected: Expected::Token(Type::Colon),
            found: Token { kind: Type::Number, value: Value::Number(1.0f64.to_bits()) }
        }
    );
    assert_eq!(
        failure("{ a: 1"),
        ParseError { expected: Expected::Token(Type::Comma), found: token(Type::EOF, "\0") }
    );
    assert_eq!(
        failure("{ a: 1,"),
        ParseError { expected: Expected::Token(Type::CloseBrace), found: token(Type::EOF, "\0") }
    );
    assert_eq!(
        failure("{ 1: 2 }"),
        ParseError {
            expected: Expected::Token(Type::Identifier),
            found: Token { kind: Type::Number, value: Value::Number(1.0f64.to_bits()) }
        }
    );
}

#[test]
fn calls_and_member_accesses_chain_to_the_left() {
    assert_eq!(
        expression("f(a)(b).c[d]"),
        member(
            member(call(call(ident("f"), vec![ident("a")]), vec![ident("b")]), ident("c"), false),
            ident("d"),
            true
        )
    );
    assert_eq!(expression("a.b.c"), member(member(ident("a"), ident("b"), false), ident("c"), false));
    assert_eq!(expression("a[1 + 2]"), member(ident("a"), binary("+", num(1.0), num(2.0)), true));
    assert_eq!(expression("a.b(1)"), call(member(ident("a"), ident("b"), false), vec![num(1.0)]));
    assert_eq!(expression("f()"), call(ident("f"), vec![]));
    assert_eq!(
        expression("f(1, x = 2, g(3))"),
        call(ident("f"), vec![num(1.0), assign(ident("x"), num(2.0)), call(ident("g"), vec![num(3.0)])])
    );
}

#[test]
fn a_call_is_an_operand_on_either_side() {
    assert_eq!(
        expression("f(1) * g(2)"),
        binary("*", call(ident("f"), vec![num(1.0)]), call(ident("g"), vec![num(2.0)]))
    );
    assert_eq!(
        expression("a + b.c * d"),
        binary("+", ident("a"), binary("*", member(ident("b"), ident("c"), false), ident("d")))
    );
}

#[test]
fn a_property_after_a_dot_is_an_identifier() {
    assert_eq!(
        failure("a.1"),
        ParseError {
            expected: Expected::Token(Type::Identifier),
            found: Token { kind: Type::Number, value: Value::Number(1.0f64.to_bits()) }
        }
    );
    assert_eq!(expression("a.(b)"), member(ident("a"), ident("b"), false));
    assert_eq!(
        failure("a[1"),
        ParseError { expected: Expected::Token(Type::CloseBracket), found: token(Type::EOF, "\0") }
    );
}

#[test]
fn string_literal_nodes_keep_the_quotes() {
    assert_eq!(
        expression("\"hi\""),
        ASTExpression {
            kind: ASTExpressionKind::StringLiteral,
            body: ASTExpressionBody::Value(text("\"hi\"")),
        }
    );
}

#[test]
fn variable_declarations() {
    assert_eq!(
        statements("let x = 5; const y = x; let z;"),
        vec![
            ASTStatement {
                kind: ASTStatementKind::VariableDeclaration(VariableDeclaration {
                    constant: false,
                    identifier: text("x"),
                    value: Some(num(5.0)),
                })
            },
            ASTStatement {
                kind: ASTStatementKind::VariableDeclaration(VariableDeclaration {
                    constant: true,
                    identifier: text("y"),
                    value: Some(ident("x")),
                })
            },
            ASTStatement {
                kind: ASTStatementKind::VariableDeclaration(VariableDeclaration {
                    constant: false,
                    identifier: text("z"),
                    value: None,
                })
            },
        ]
    );
}

#[test]
fn variable_declaration_errors() {
    assert_eq!(
        failure("const x;"),
        ParseError { expected: Expected::Token(Type::Equals), found: token(Type::Semi, ";") }
    );
    assert_eq!(
        failure("let 1 = 2;"),
        ParseError {
            expected: Expected::Token(Type::Identifier),
            found: Token { kind: Type::Number, value: Value::Number(1.0f64.to_bits()) }
        }
    );
    assert_eq!(
        failure("let x 1;"),
        ParseError {
            expected: Expected::Token(Type::Equals),
            found: Token { kind: Type::Number, value: Value::Number(1.0f64.to_bits()) }
        }
    );
    assert_eq!(
        failure("let x = 1"),
        ParseError { expected: Expected::Token(Type::Semi), found: token(Type::EOF, "\0") }
    );
    assert_eq!(
        failure("let"),
        ParseError { expected: Expected::Token(Type::Identifier), found: token(Type::EOF, "\0") }
    );
}

#[test]
fn function_declarations() {
    assert_eq!(
        statements("fn add(a, b) { a + b }"),
        vec![ASTStatement {
            kind: ASTStatementKind::FunctionDeclaration(FunctionDeclaration {
                identifier: String::from("add"),
                parameters: vec![String::from("a"), String::from("b")],
                body: vec![statement(binary("+", ident("a"), ident("b")))],
            })
        }]
    );
    assert_eq!(
        statements("fn nothing() { }"),
        vec![ASTStatement {
            kind: ASTStatementKind::FunctionDeclaration(FunctionDeclaration {
                identifier: String::from("nothing"),
                parameters: vec![],
                body: vec![],
            })
        }]
    );
}

#[test]
fn function_declaration_errors() {
    assert_eq!(
        failure("fn f(a, 1) { }"),
        ParseError { expected: Expected::Token(Type::Identifier), found: token(Type::OpenParen, "(") }
    );
    assert_eq!(
        failure("fn f(a = 1) { }"),
        ParseError { expected: Expected::Token(Type::Identifier), found: token(Type::OpenParen, "(") }
    );
    assert_eq!(
        failure("fn (a) { }"),
        ParseError { expected: Expected::Token(Type::Identifier), found: token(Type::OpenParen, "(") }
    );
    assert_eq!(
        failure("fn f { }"),
        ParseError { expected: Expected::Token(Type::OpenParen), found: token(Type::OpenBrace, "{") }
    );
    assert_eq!(
        failure("fn f() x"),
        ParseError { expected: Expected::Token(Type::OpenBrace), found: token(Type::Identifier, "x") }
    );
    assert_eq!(
        failure("fn f() { x"),
        ParseError { expected: Expected::Token(Type::CloseBrace), found: token(Type::EOF, "\0") }
    );
}

#[test]
fn conditionals() {
    assert_eq!(
        statements("if a { 1 }"),
        vec![conditional(Some(ident("a")), vec![statement(num(1.0))], None)]
    );
    assert_eq!(
        statements("if a { 1 } else { 2 }"),
        vec![conditional(
            Some(ident("a")),
            vec![statement(num(1.0))],
            Some(conditional(None, vec![statement(num(2.0))], None))
        )]
    );
    assert_eq!(
        statements("if a { 1 } else if b { 2 } else { 3 }"),
        vec![conditional(
            Some(ident("a")),
            vec![statement(num(1.0))],
            Some(conditional(
                Some(ident("b")),
                vec![statement(num(2.0))],
                Some(conditional(None, vec![statement(num(3.0))], None))
            ))
        )]
    );
    assert_eq!(
        statements("if a { 1; 2; }"),
        vec![conditional(Some(ident("a")), vec![statement(num(1.0)), statement(num(2.0))], None)]
    );
}

#[test]
fn conditional_errors() {
    assert_eq!(
        failure("if a { }"),
        ParseError { expected: Expected::Expression, found: token(Type::CloseBrace, "}") }
    );
    assert_eq!(
        failure("if a 1"),
        ParseError {
            expected: Expected::Token(Type::OpenBrace),
            found: Token { kind: Type::Number, value: Value::Number(1.0f64.to_bits()) }
        }
    );
    assert_eq!(
        failure("if a { 1 } else 2"),
        ParseError {
            expected: Expected::Token(Type::OpenBrace),
            found: Token { kind: Type::Number, value: Value::Number(2.0f64.to_bits()) }
        }
    );
}

#[test]
fn loops_cannot_be_built() {
    assert_eq!(
        failure("for i in 1..3 { }"),
        ParseError { expected: Expected::Statement, found: token(Type::For, "for") }
    );
    assert_eq!(
        failure("while x { }"),
        ParseError { expected: Expected::Statement, found: token(Type::While, "while") }
    );
}

#[test]
fn a_semicolon_may_close_an_expression_statement() {
    assert_eq!(
        statements("let x = 5; x + 1;"),
        vec![
            ASTStatement {
                kind: ASTStatementKind::VariableDeclaration(VariableDeclaration {
                    constant: false,
                    identifier: text("x"),
                    value: Some(num(5.0)),
                })
            },
            statement(binary("+", ident("x"), num(1.0))),
        ]
    );
    assert_eq!(statements("x y"), vec![statement(ident("x")), statement(ident("y"))]);
    assert_eq!(statements("x; y;"), vec![statement(ident("x")), statement(ident("y"))]);
    assert_eq!(statements(""), vec![]);
}

#[test]
fn expression_errors() {
    assert_eq!(
        failure(")"),
        ParseError { expected: Expected::Expression, found: token(Type::CloseParen, ")") }
    );
    assert_eq!(
        failure("1 +"),
        ParseError { expected: Expected::Expression, found: token(Type::EOF, "\0") }
    );
    assert_eq!(
        failure("(1"),
        ParseError { expected: Expected::Token(Type::CloseParen), found: token(Type::EOF, "\0") }
    );
    assert_eq!(
        failure("f(1"),
        ParseError { expected: Expected::Token(Type::CloseParen), found: token(Type::EOF, "\0") }
    );
    assert_eq!(
        failure("x;;"),
        ParseError { expected: Expected::Expression, found: token(Type::Semi, ";") }
    );
    assert_eq!(
        failure("a > b"),
        ParseError { expected: Expected::Expression, found: token(Type::GreaterThan, ">") }
    );
}

#[test]
fn the_first_failure_ends_the_parse() {
    let mut parser = Parser::new(String::from("x ) y")).unwrap();
    assert!(parser.parse().is_err());
    assert_eq!(parser.cursor, 1);
}

#[test]
fn parse_takes_tokens() {
    let tokens = tokenize("1 + 2").unwrap();
    let ast = parse(tokens).unwrap();
    assert_eq!(ast.statements, vec![statement(binary("+", num(1.0), num(2.0)))]);
    assert_eq!(parse(vec![]).unwrap().statements, vec![]);
    assert_eq!(
        parse(vec![token(Type::Identifier, "x")]).unwrap().statements,
        vec![statement(ident("x"))]
    );
}

#[test]
fn a_lexing_failure_is_reported_by_new() {
    assert!(Parser::new(String::from("let x = #;")).is_err());
}

#[test]
fn the_cursor_rests_on_the_end_marker() {
    let mut parser = Parser::new(String::from("let x = 1; f(x) + 2;")).unwrap();
    parser.parse().unwrap();
    assert_eq!(parser.cursor, parser.tokens.len() - 1);
    assert_eq!(parser.tokens[parser.cursor].kind, Type::EOF);
    let mut empty = Parser::new(String::new()).unwrap();
    assert_eq!(empty.parse().unwrap().statements, vec![]);
    assert_eq!(empty.cursor, 0);
    let mut unmarked = Parser { tokens: vec![token(Type::Identifier, "x")], cursor: 0 };
    unmarked.parse().unwrap();
    assert_eq!(unmarked.cursor, 1);
    let mut twice = Parser {
        tokens: vec![
            token(Type::Identifier, "x"),
            token(Type::EOF, "\0"),
            token(Type::Identifier, "y"),
            token(Type::EOF, "\0"),
        ],
        cursor: 0,
    };
    assert_eq!(twice.parse().unwrap().statements, vec![statement(ident("x"))]);
    assert_eq!(twice.cursor, 1);
    let mut past = Parser { tokens: vec![token(Type::Identifier, "x")], cursor: 5 };
    assert_eq!(past.parse().unwrap().statements, vec![]);
    assert_eq!(past.cursor, 5);
}

#[test]
fn an_operator_is_known_by_tag_and_text() {
    let plus = token(Type::Operator, "+");
    let one = Token { kind: Type::Number, value: Value::Number(1.0f64.to_bits()) };
    let two = Token { kind: Type::Number, value: Value::Number(2.0f64.to_bits()) };
    assert_eq!(
        parse(vec![one.clone(), plus, two.clone(), token(Type::EOF, "\0")]).unwrap().statements,
        vec![statement(binary("+", num(1.0), num(2.0)))]
    );
    assert_eq!(
        parse(vec![one.clone(), token(Type::EOF, "+"), two.clone()]).unwrap().statements,
        vec![statement(num(1.0))]
    );
    assert_eq!(
        parse(vec![one, token(Type::Identifier, "+"), two]).unwrap().statements,
        vec![statement(num(1.0)), statement(ident("+")), statement(num(2.0))]
    );
}
