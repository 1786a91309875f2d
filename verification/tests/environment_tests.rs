use treewalk::environment::{build_scope, Environment};
use treewalk::ast::FunctionDeclaration;
use treewalk::eval::{
    apply_binary_operator, call_function, evaluate_function_declaration,
    evaluate_identifier_expression, evaluate_numeric_binary_expression,
};
use treewalk::natives::{NativeFunctions, Natives};
use treewalk::ast::Value;
use treewalk::helpers::{
    build_bool_runtime_value, build_null_runtime_value, build_number_runtime_value,
};
use treewalk::values::{
    EvalError, FunctionValue, Mismatch, NumberValue, RuntimeValue, ValueType, ValueTypes,
};

struct Silent;

impl NativeFunctions for Silent {
    fn call(&mut self, _: usize, _: Vec<RuntimeValue>, _: &Environment) -> RuntimeValue {
        build_null_runtime_value()
    }
}

fn n(x: f64) -> RuntimeValue {
    build_number_runtime_value(x.to_bits())
}

fn name(s: &str) -> String {
    String::from(s)
}

#[test]
fn a_new_environment_is_the_seeded_global_scope() {
    let env = Environment::new();
    assert_eq!(env.scope_count(), 1);
    assert_eq!(env.current_scope(), 0);
    for seeded in ["true", "false", "null", "print", "get_current_time"] {
        assert_eq!(env.resolve(&name(seeded)), Some(0));
    }
    assert_eq!(env.resolve(&name("x")), None);
    assert_eq!(env.peek_variable(name("true")), Ok(build_bool_runtime_value(true)));
}

#[test]
fn seeding_twice_fails() {
    let mut env = Environment::new();
    assert_eq!(build_scope(&mut env), Err(EvalError::DeclarationError(name("true"))));
}

#[test]
fn declare_then_peek() {
    let mut env = Environment::new();
    assert_eq!(env.declare_variable(name("x"), n(1.0), false), Ok(n(1.0)));
    assert_eq!(env.peek_variable(name("x")), Ok(n(1.0)));
    assert_eq!(env.peek_variable(name("y")), Err(EvalError::NameError(name("y"))));
}

#[test]
fn declaring_a_name_twice_in_a_scope_fails() {
    let mut env = Environment::new();
    env.declare_variable(name("x"), n(1.0), false).unwrap();
    assert_eq!(
        env.declare_variable(name("x"), n(2.0), false),
        Err(EvalError::DeclarationError(name("x")))
    );
    assert_eq!(
        env.declare_variable(name("x"), n(2.0), true),
        Err(EvalError::DeclarationError(name("x")))
    );
    assert_eq!(env.peek_variable(name("x")), Ok(n(1.0)));
}

#[test]
fn a_nested_declaration_shadows_only_inside() {
    let mut env = Environment::new();
    env.declare_variable(name("x"), n(1.0), false).unwrap();
    let outer = env.enter_scope(0).unwrap();
    assert_eq!(outer, 0);
    assert_eq!(env.current_scope(), 1);
    assert_eq!(env.peek_variable(name("x")), Ok(n(1.0)));
    assert_eq!(env.declare_variable(name("x"), n(2.0), false), Ok(n(2.0)));
    assert_eq!(env.peek_variable(name("x")), Ok(n(2.0)));
    assert_eq!(env.resolve(&name("x")), Some(1));
    let middle = env.enter_scope(1).unwrap();
    assert_eq!(env.peek_variable(name("x")), Ok(n(2.0)));
    assert!(env.leave_scope(middle));
    assert!(env.leave_scope(outer));
    assert_eq!(env.peek_variable(name("x")), Ok(n(1.0)));
    assert_eq!(env.resolve(&name("x")), Some(0));
    let sibling = env.enter_scope(0).unwrap();
    assert_eq!(env.peek_variable(name("x")), Ok(n(1.0)));
    env.leave_scope(sibling);
}

#[test]
fn assignment_writes_to_the_nearest_declaring_scope() {
    let mut env = Environment::new();
    env.declare_variable(name("x"), n(1.0), false).unwrap();
    env.declare_variable(name("y"), n(1.0), false).unwrap();
    let outer = env.enter_scope(0).unwrap();
    env.declare_variable(name("y"), n(2.0), false).unwrap();
    assert_eq!(env.assign_variable(name("x"), n(10.0)), Ok(n(10.0)));
    assert_eq!(env.assign_variable(name("y"), n(20.0)), Ok(n(20.0)));
    assert_eq!(env.peek_variable(name("x")), Ok(n(10.0)));
    assert_eq!(env.peek_variable(name("y")), Ok(n(20.0)));
    env.leave_scope(outer);
    assert_eq!(env.peek_variable(name("x")), Ok(n(10.0)));
    assert_eq!(env.peek_variable(name("y")), Ok(n(1.0)));
}

#[test]
fn assignment_errors() {
    let mut env = Environment::new();
    env.declare_variable(name("c"), n(1.0), true).unwrap();
    assert_eq!(env.assign_variable(name("c"), n(2.0)), Err(EvalError::ConstError(name("c"))));
    assert_eq!(env.peek_variable(name("c")), Ok(n(1.0)));
    assert_eq!(env.assign_variable(name("u"), n(2.0)), Err(EvalError::NameError(name("u"))));
    let outer = env.enter_scope(0).unwrap();
    assert_eq!(env.assign_variable(name("c"), n(2.0)), Err(EvalError::ConstError(name("c"))));
    env.declare_variable(name("c"), n(3.0), false).unwrap();
    assert_eq!(env.assign_variable(name("c"), n(4.0)), Ok(n(4.0)));
    env.leave_scope(outer);
    assert_eq!(env.peek_variable(name("c")), Ok(n(1.0)));
}

#[test]
fn numeric_operators() {
    let op = |s: &str| Value::String(String::from(s));
    let a = 7.5f64;
    let b = 2.0f64;
    let value = |r: Result<NumberValue, EvalError>| f64::from_bits(r.unwrap().value);
    assert_eq!(value(evaluate_numeric_binary_expression(a.to_bits(), b.to_bits(), &op("+"))), a + b);
    assert_eq!(value(evaluate_numeric_binary_expression(a.to_bits(), b.to_bits(), &op("-"))), a - b);
    assert_eq!(value(evaluate_numeric_binary_expression(a.to_bits(), b.to_bits(), &op("*"))), a * b);
    assert_eq!(value(evaluate_numeric_binary_expression(a.to_bits(), b.to_bits(), &op("/"))), a / b);
    assert_eq!(value(evaluate_numeric_binary_expression(a.to_bits(), b.to_bits(), &op("%"))), a % b);
    assert_eq!(
        evaluate_numeric_binary_expression(a.to_bits(), 0.0f64.to_bits(), &op("/")),
        Err(EvalError::DivisionByZero)
    );
    assert_eq!(
        evaluate_numeric_binary_expression(a.to_bits(), (-0.0f64).to_bits(), &op("/")),
        Err(EvalError::DivisionByZero)
    );
    assert_eq!(
        evaluate_numeric_binary_expression(a.to_bits(), b.to_bits(), &op("^")),
        Err(EvalError::Unsupported)
    );
    assert_eq!(
        evaluate_numeric_binary_expression(a.to_bits(), b.to_bits(), &Value::Number(1)),
        Err(EvalError::Unsupported)
    );
    assert_eq!(
        value(evaluate_numeric_binary_expression(
            f64::INFINITY.to_bits(),
            1.0f64.to_bits(),
            &op("-")
        )),
        f64::INFINITY
    );
    assert!(value(evaluate_numeric_binary_expression(
        f64::INFINITY.to_bits(),
        f64::INFINITY.to_bits(),
        &op("-")
    ))
    .is_nan());
}

#[test]
fn binary_operators_on_values() {
    let plus = Value::String(String::from("+"));
    assert_eq!(apply_binary_operator(&plus, &n(1.0), &n(2.0)), Ok(n(3.0)));
    assert_eq!(
        apply_binary_operator(&plus, &n(1.0), &build_bool_runtime_value(true)),
        Ok(build_null_runtime_value())
    );
    let unknown = Value::String(String::from("?"));
    assert_eq!(apply_binary_operator(&unknown, &n(1.0), &n(2.0)), Err(EvalError::Unsupported));
    assert_eq!(
        apply_binary_operator(&unknown, &build_null_runtime_value(), &n(2.0)),
        Ok(build_null_runtime_value())
    );
}

#[test]
fn a_function_of_a_missing_scope_cannot_be_called() {
    let mut env = Environment::new();
    let mut natives = Natives::new(Silent);
    let stray = RuntimeValue {
        value_type: ValueType::Function(FunctionValue {
            name: name("f"),
            parameters: vec![],
            body: vec![],
            scope: 5,
        }),
    };
    assert_eq!(
        call_function(&stray, vec![], &mut env, &mut natives, 10),
        Err(EvalError::TypeError(Mismatch::CalleeScope))
    );
    let here = RuntimeValue {
        value_type: ValueType::Function(FunctionValue {
            name: name("f"),
            parameters: vec![name("a")],
            body: vec![],
            scope: 0,
        }),
    };
    assert_eq!(
        call_function(&here, vec![n(1.0)], &mut env, &mut natives, 0),
        Err(EvalError::RecursionLimit)
    );
    assert_eq!(
        call_function(&here, vec![], &mut env, &mut natives, 1),
        Err(EvalError::ArityError)
    );
    assert_eq!(
        call_function(&here, vec![n(1.0)], &mut env, &mut natives, 1),
        Ok(build_null_runtime_value())
    );
    assert_eq!(env.current_scope(), 0);
    assert_eq!(env.scope_count(), 2);
    assert_eq!(
        call_function(&n(1.0), vec![], &mut env, &mut natives, 1),
        Err(EvalError::TypeError(Mismatch::Callee(ValueTypes::Number)))
    );
}

#[test]
fn scopes_that_do_not_exist_cannot_be_entered() {
    let mut env = Environment::new();
    assert_eq!(env.enter_scope(1), None);
    assert_eq!(env.scope_count(), 1);
    assert!(!env.leave_scope(1));
    assert_eq!(env.current_scope(), 0);
    assert_eq!(env.enter_scope(0), Some(0));
    assert_eq!(env.enter_scope(1), Some(1));
    assert_eq!(env.current_scope(), 2);
    assert!(env.leave_scope(0));
    assert_eq!(env.current_scope(), 0);
    assert_eq!(env.scope_count(), 3);
}

#[test]
fn a_function_declaration_captures_the_current_scope() {
    let mut env = Environment::new();
    env.enter_scope(0).unwrap();
    let declaration = FunctionDeclaration {
        identifier: name("f"),
        parameters: vec![name("a")],
        body: vec![],
    };
    let function = evaluate_function_declaration(&declaration, &mut env).unwrap();
    match &function.value_type {
        ValueType::Function(f) => {
            assert_eq!(f.name, "f");
            assert_eq!(f.parameters, vec![name("a")]);
            assert!(f.body.is_empty());
            assert_eq!(f.scope, 1);
        }
        other => panic!("{:?}", other),
    }
    assert_eq!(evaluate_identifier_expression(name("f"), &env), Ok(function));
    assert_eq!(
        evaluate_function_declaration(&declaration, &mut env),
        Err(EvalError::DeclarationError(name("f")))
    );
    assert!(env.leave_scope(0));
    assert_eq!(
        evaluate_identifier_expression(name("f"), &env),
        Err(EvalError::NameError(name("f")))
    );
    assert_eq!(env.assign_variable(name("f"), n(1.0)), Err(EvalError::NameError(name("f"))));
}
