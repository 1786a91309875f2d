use treewalk::ast::ASTStatementKind;
use treewalk::duplicate::{duplicate_expressions, duplicate_names, duplicate_statements};
use treewalk::helpers::{
    build_bool_runtime_value, build_native_function, build_null_runtime_value,
    build_number_runtime_value, build_string_runtime_value, characters, LiteralHelpers,
};
use treewalk::lexer::tokenize;
use treewalk::natives::{clock_value, display_text};
use treewalk::number::encodes_zero;
use treewalk::parser::parse;
use treewalk::values::{RuntimeValue, ValueType, ValueTypes};

#[test]
fn string_literals_are_recognised() {
    assert!("\"abc\"".is_string_literal());
    assert!(String::from("\"\"").is_string_literal());
    assert!("\"".is_string_literal());
    assert!(!"".is_string_literal());
    assert!(!"abc".is_string_literal());
    assert!(!"\"abc".is_string_literal());
    assert!(!"abc\"".is_string_literal());
    assert!(!String::from("\"é\"").is_string_literal());
}

#[test]
fn text_is_read_by_character() {
    assert_eq!(characters("héllo"), vec!['h', 'é', 'l', 'l', 'o']);
    assert!(characters("").is_empty());
}

#[test]
fn both_zeros_are_zero() {
    assert!(encodes_zero(0.0f64.to_bits()));
    assert!(encodes_zero((-0.0f64).to_bits()));
    assert!(!encodes_zero(1.0f64.to_bits()));
    assert!(!encodes_zero(f64::MIN_POSITIVE.to_bits()));
    assert!(!encodes_zero(f64::NAN.to_bits()));
}

#[test]
fn built_values_have_their_type() {
    assert_eq!(build_bool_runtime_value(true).kind(), ValueTypes::Boolean);
    assert_eq!(build_null_runtime_value().kind(), ValueTypes::Null);
    assert_eq!(build_number_runtime_value(1.5f64.to_bits()).kind(), ValueTypes::Number);
    assert_eq!(build_string_runtime_value(String::from("\"a\"")).kind(), ValueTypes::String);
    assert_eq!(build_native_function(3).kind(), ValueTypes::Function);
    match build_native_function(3).value_type {
        ValueType::NativeFunction(f) => assert_eq!(f.call, 3),
        other => panic!("{:?}", other),
    }
    match build_bool_runtime_value(false).value_type {
        ValueType::Boolean(b) => assert!(!b.value),
        other => panic!("{:?}", other),
    }
}

#[test]
fn a_copy_equals_the_original() {
    let value: RuntimeValue = build_string_runtime_value(String::from("\"a\""));
    assert_eq!(value.duplicate(), value);
    assert_eq!(value.clone(), value);
}

#[test]
fn the_clock_value_is_the_nearest_double() {
    let number = |v: RuntimeValue| match v.value_type {
        ValueType::Number(n) => f64::from_bits(n.value),
        other => panic!("{:?}", other),
    };
    assert_eq!(number(clock_value(0)), 0.0);
    assert_eq!(number(clock_value(1_700_000_000_123)), 1_700_000_000_123.0);
    assert_eq!(number(clock_value(9_007_199_254_740_993)), 9_007_199_254_740_992.0);
    assert_eq!(number(clock_value(u128::MAX)), u128::MAX as f64);
}

#[test]
fn simple_values_have_a_text() {
    assert_eq!(display_text(&build_null_runtime_value()), Some(String::from("null")));
    assert_eq!(display_text(&build_bool_runtime_value(true)), Some(String::from("true")));
    assert_eq!(display_text(&build_bool_runtime_value(false)), Some(String::from("false")));
    assert_eq!(
        display_text(&build_string_runtime_value(String::from("\"hi\""))),
        Some(String::from("\"hi\""))
    );
    assert_eq!(display_text(&build_number_runtime_value(1.0f64.to_bits())), None);
    assert_eq!(display_text(&build_native_function(0)), None);
}

#[test]
fn copies_of_nodes_equal_the_nodes() {
    let source = "let a = { x: 1, y, z: f(2)(3).g[h] }; fn f(p, q) { p + q * 2 } \
                  if a { b = c = 1 } else if d { \"s\" } else { e }";
    let tokens = tokenize(source).unwrap();
    assert_eq!(tokens.clone(), tokens);
    let ast = parse(tokens).unwrap();
    assert_eq!(duplicate_statements(&ast.statements), ast.statements);
    for statement in &ast.statements {
        assert_eq!(&statement.duplicate(), statement);
        assert_eq!(&statement.clone(), statement);
        match &statement.kind {
            ASTStatementKind::ExpressionStatement(e) => assert_eq!(&e.duplicate(), e),
            ASTStatementKind::VariableDeclaration(d) => {
                assert_eq!(&d.duplicate(), d);
                assert_eq!(d.identifier.duplicate(), d.identifier);
                assert_eq!(
                    duplicate_expressions(&d.value.iter().cloned().collect()),
                    d.value.iter().cloned().collect::<Vec<_>>()
                );
            }
            ASTStatementKind::FunctionDeclaration(f) => {
                assert_eq!(&f.duplicate(), f);
                assert_eq!(duplicate_names(&f.parameters), f.parameters);
            }
            ASTStatementKind::ConditionalStatement(c) => assert_eq!(&c.duplicate(), c),
            ASTStatementKind::LoopStatement(l) => assert_eq!(&l.duplicate(), l),
        }
    }
}

#[test]
fn a_conditional_can_be_taken_out_of_its_statement() {
    let mut ast = parse(tokenize("if a { 1 } b").unwrap()).unwrap();
    let first = ast.statements[0].kind.extract_conditional().unwrap();
    assert_eq!(first.consequence.len(), 1);
    assert!(first.alternate.is_none());
    assert!(ast.statements[1].kind.extract_conditional().is_none());
    assert!(ast.statements[1].kind.extract_conditional_mut().is_none());
    ast.statements[0].kind.extract_conditional_mut().unwrap().condition = None;
    assert!(ast.statements[0].kind.extract_conditional().unwrap().condition.is_none());
}
