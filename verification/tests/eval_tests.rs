use treewalk::ast::ASTExpressionKind;
use treewalk::environment::{Environment, GET_CURRENT_TIME, PRINT};
use treewalk::eval::{evaluate, evaluate_program};
use treewalk::natives::{NativeFunctions, Natives};
use treewalk::helpers::{build_null_runtime_value, build_number_runtime_value};
use treewalk::parser::Parser;
use treewalk::values::{EvalError, Mismatch, RuntimeValue, ValueType, ValueTypes};

struct Host {
    printed: Vec<Vec<RuntimeValue>>,
    time: f64,
    scopes_seen: Vec<usize>,
    functions_called: Vec<usize>,
}

impl NativeFunctions for Host {
    fn call(
        &mut self,
        function: usize,
        arguments: Vec<RuntimeValue>,
        environment: &Environment,
    ) -> RuntimeValue {
        self.scopes_seen.push(environment.current_scope());
        self.functions_called.push(function);
        if function == PRINT {
            self.printed.push(arguments);
            build_null_runtime_value()
        } else if function == GET_CURRENT_TIME {
            self.time += 1.0;
            build_number_runtime_value(self.time.to_bits())
        } else {
            build_number_runtime_value((function as f64).to_bits())
        }
    }
}

fn host() -> Natives<Host> {
    Natives::new(Host { printed: vec![], time: 1000.0, scopes_seen: vec![], functions_called: vec![] })
}

fn run_with(source: &str, natives: &mut Natives<Host>) -> Result<RuntimeValue, EvalError> {
    let ast = Parser::new(String::from(source)).unwrap().parse().unwrap();
    let mut env = Environment::new();
    evaluate(&ast, &mut env, natives)
}

fn run(source: &str) -> Result<RuntimeValue, EvalError> {
    run_with(source, &mut host())
}

fn number(value: &RuntimeValue) -> f64 {
    match &value.value_type {
        ValueType::Number(n) => f64::from_bits(n.value),
        other => panic!("no number: {:?}", other),
    }
}

fn value_of(source: &str) -> f64 {
    number(&run(source).unwrap())
}

fn is_null(value: &RuntimeValue) -> bool {
    matches!(value.value_type, ValueType::Null(_))
}

fn property(value: &RuntimeValue, name: &str) -> Option<RuntimeValue> {
    match &value.value_type {
        ValueType::Object(o) => {
            o.properties.iter().rev().find(|p| p.name == name).map(|p| p.value.clone())
        }
        other => panic!("no object: {:?}", other),
    }
}

fn names(value: &RuntimeValue) -> Vec<String> {
    match &value.value_type {
        ValueType::Object(o) => {
            let mut all: Vec<String> = o.properties.iter().map(|p| p.name.clone()).collect();
            all.sort();
            all.dedup();
            all
        }
        other => panic!("no object: {:?}", other),
    }
}

#[test]
fn a_declared_variable_is_read_back() {
    assert_eq!(value_of("let x = 5; x + 1;"), 6.0);
}

#[test]
fn an_empty_program_is_null() {
    assert!(is_null(&run("").unwrap()));
}

#[test]
fn a_declaration_has_the_value_it_declares() {
    assert_eq!(value_of("let x = 5;"), 5.0);
    assert!(is_null(&run("let x;").unwrap()));
    assert_eq!(value_of("const c = 2 * 3;"), 6.0);
}

#[test]
fn arithmetic_is_double_precision() {
    assert_eq!(value_of("1 + 2"), 3.0);
    assert_eq!(value_of("5 - 3"), 2.0);
    assert_eq!(value_of("1 - 3"), -2.0);
    assert_eq!(value_of("2 * 3"), 6.0);
    assert_eq!(value_of("7 / 2"), 3.5);
    assert_eq!(value_of("7 % 4"), 3.0);
    assert_eq!(value_of("1 / 3"), 1.0 / 3.0);
    assert_eq!(value_of("2 * 3 + 4"), 10.0);
    assert_eq!(value_of("2 + 3 * 4"), 14.0);
    assert_eq!(value_of("(2 + 3) * 4"), 20.0);
    assert_eq!(value_of("1 / 10 + 2 / 10"), 0.1 + 0.2);
    assert_eq!(value_of("9007199254740992 + 1"), 9007199254740992.0);
    assert_eq!(value_of("(0 - 7) % 4"), -7.0 % 4.0);
    assert_eq!(value_of("7 % (0 - 4)"), 7.0 % -4.0);
    assert_eq!(value_of("55 % 10 / 4"), 55.0 % 10.0 / 4.0);
}

#[test]
fn arithmetic_overflows_to_infinity() {
    let big = "9".repeat(200);
    assert_eq!(value_of(&format!("{} * {}", big, big)), f64::INFINITY);
    assert_eq!(value_of(&format!("0 - {} * {}", big, big)), f64::NEG_INFINITY);
}

#[test]
fn division_by_zero_is_an_error() {
    assert_eq!(run("5 / 0"), Err(EvalError::DivisionByZero));
    assert_eq!(run("0 / 0"), Err(EvalError::DivisionByZero));
    assert_eq!(run("5 / (0 * (0 - 1))"), Err(EvalError::DivisionByZero));
    assert_eq!(run("let z = 1 - 1; 1 / z"), Err(EvalError::DivisionByZero));
}

#[test]
fn remainder_by_zero_is_not_a_number() {
    assert!(value_of("5 % 0").is_nan());
}

#[test]
fn operands_that_are_not_numbers_give_null() {
    assert!(is_null(&run("\"a\" + 1").unwrap()));
    assert!(is_null(&run("1 + \"a\"").unwrap()));
    assert!(is_null(&run("true + false").unwrap()));
    assert!(is_null(&run("null / 0").unwrap()));
    assert!(is_null(&run("\"a\" + \"b\"").unwrap()));
}

#[test]
fn both_operands_are_evaluated() {
    assert_eq!(run("\"a\" + missing"), Err(EvalError::NameError(String::from("missing"))));
    assert_eq!(run("missing + (1 / 0)"), Err(EvalError::NameError(String::from("missing"))));
    assert_eq!(run("(1 / 0) + missing"), Err(EvalError::DivisionByZero));
}

#[test]
fn string_literals_evaluate_to_their_text() {
    match run("\"hi\"").unwrap().value_type {
        ValueType::String(s) => assert_eq!(s.value, "\"hi\""),
        other => panic!("{:?}", other),
    }
}

#[test]
fn the_global_scope_is_seeded() {
    match run("true").unwrap().value_type {
        ValueType::Boolean(b) => assert!(b.value),
        other => panic!("{:?}", other),
    }
    match run("false").unwrap().value_type {
        ValueType::Boolean(b) => assert!(!b.value),
        other => panic!("{:?}", other),
    }
    assert!(is_null(&run("null").unwrap()));
    match run("print").unwrap().value_type {
        ValueType::NativeFunction(f) => assert_eq!(f.call, PRINT),
        other => panic!("{:?}", other),
    }
    match run("get_current_time").unwrap().value_type {
        ValueType::NativeFunction(f) => assert_eq!(f.call, GET_CURRENT_TIME),
        other => panic!("{:?}", other),
    }
    assert_eq!(run("true = 1"), Err(EvalError::ConstError(String::from("true"))));
    assert_eq!(run("let null = 1;"), Err(EvalError::DeclarationError(String::from("null"))));
    assert_eq!(run("print = 1"), Err(EvalError::ConstError(String::from("print"))));
}

#[test]
fn declaring_twice_in_one_scope_fails() {
    assert_eq!(
        run("let x = 1; let x = 2;"),
        Err(EvalError::DeclarationError(String::from("x")))
    );
    assert_eq!(
        run("let f = 1; fn f() { 1 }"),
        Err(EvalError::DeclarationError(String::from("f")))
    );
    assert_eq!(
        run("fn f(a, a) { a } f(1, 2)"),
        Err(EvalError::DeclarationError(String::from("a")))
    );
}

#[test]
fn a_nested_scope_shadows() {
    assert_eq!(value_of("let x = 1; fn f() { let x = 2; x } f()"), 2.0);
    assert_eq!(value_of("let x = 1; fn f() { let x = 2; x } f(); x"), 1.0);
    assert_eq!(value_of("let x = 1; fn f(x) { x } f(7)"), 7.0);
    assert_eq!(value_of("let x = 1; fn f(x) { x = 3; x } f(7); x"), 1.0);
    assert_eq!(
        value_of("let x = 1; fn f() { let x = 2; fn g() { x } g() } f()"),
        2.0
    );
}

#[test]
fn assigning_to_a_constant_fails() {
    assert_eq!(run("const c = 1; c = 2;"), Err(EvalError::ConstError(String::from("c"))));
    assert_eq!(
        run("const c = 1; fn f() { c = 2 } f()"),
        Err(EvalError::ConstError(String::from("c")))
    );
    assert_eq!(value_of("const c = 1; fn f() { let c = 5; c = 2; c } f()"), 2.0);
}

#[test]
fn assigning_to_an_undeclared_name_fails() {
    assert_eq!(run("y = 1"), Err(EvalError::NameError(String::from("y"))));
    assert_eq!(run("fn f() { let y = 1; } f(); y = 2"), Err(EvalError::NameError(String::from("y"))));
}

#[test]
fn reading_an_undeclared_name_fails() {
    assert_eq!(run("y"), Err(EvalError::NameError(String::from("y"))));
    assert_eq!(run("let x = y;"), Err(EvalError::NameError(String::from("y"))));
}

#[test]
fn an_assignment_has_the_value_assigned() {
    assert_eq!(value_of("let x = 1; x = 4"), 4.0);
    assert_eq!(value_of("let x = 1; let y = 2; x = y = 9; x + y"), 18.0);
}

#[test]
fn assigning_to_something_else_than_a_name_is_a_type_error() {
    assert_eq!(
        run("1 = 2"),
        Err(EvalError::TypeError(Mismatch::AssignmentTarget(ASTExpressionKind::NumericLiteral)))
    );
    assert_eq!(
        run("let a = 1; a.b = 2"),
        Err(EvalError::TypeError(Mismatch::AssignmentTarget(ASTExpressionKind::MemberExpression)))
    );
    assert_eq!(
        run("f() = missing"),
        Err(EvalError::TypeError(Mismatch::AssignmentTarget(ASTExpressionKind::CallExpression)))
    );
}

#[test]
fn a_closure_sees_later_assignments() {
    assert_eq!(value_of("let x = 1; fn counter() { x } x = 2; counter()"), 2.0);
    assert_eq!(
        value_of("let x = 1; fn counter() { x } let a = counter(); x = 2; a + counter()"),
        3.0
    );
    assert_eq!(value_of("let x = 1; fn bump() { x = x + 1 } bump(); bump(); x"), 3.0);
    assert_eq!(value_of("fn f() { late } let late = 8; f()"), 8.0);
}

#[test]
fn scoping_is_lexical() {
    assert_eq!(value_of("let x = 1; fn f() { x } fn g() { let x = 2; f() } g()"), 1.0);
    assert_eq!(
        run("fn f() { hidden } fn g() { let hidden = 2; f() } g()"),
        Err(EvalError::NameError(String::from("hidden")))
    );
}

#[test]
fn a_function_keeps_the_scope_it_was_declared_in() {
    assert_eq!(
        value_of(
            "fn make() { let n = 0; fn next() { n = n + 1 } next } \
             let a = make(); let b = make(); a(); a(); b(); a()"
        ),
        3.0
    );
    assert_eq!(value_of("fn make(n) { fn get() { n } get } make(4)() + make(5)()"), 9.0);
}

#[test]
fn an_object_literal_is_its_properties() {
    let value = run("{ a: 1, b: 2 }").unwrap();
    assert_eq!(value.kind(), ValueTypes::Object);
    assert_eq!(names(&value), vec![String::from("a"), String::from("b")]);
    assert_eq!(number(&property(&value, "a").unwrap()), 1.0);
    assert_eq!(number(&property(&value, "b").unwrap()), 2.0);
    assert!(property(&value, "c").is_none());
    let swapped = run("{ b: 2, a: 1 }").unwrap();
    assert_eq!(names(&swapped), names(&value));
    assert_eq!(property(&swapped, "a"), property(&value, "a"));
    assert_eq!(property(&swapped, "b"), property(&value, "b"));
}

#[test]
fn object_properties() {
    let value = run("let x = 3; { x, y: x + 1, z: { w: x } }").unwrap();
    assert_eq!(names(&value), vec![String::from("x"), String::from("y"), String::from("z")]);
    assert_eq!(number(&property(&value, "x").unwrap()), 3.0);
    assert_eq!(number(&property(&value, "y").unwrap()), 4.0);
    assert_eq!(number(&property(&property(&value, "z").unwrap(), "w").unwrap()), 3.0);
    assert!(names(&run("{}").unwrap()).is_empty());
    let repeated = run("{ a: 1, a: 2 }").unwrap();
    assert_eq!(names(&repeated), vec![String::from("a")]);
    assert_eq!(number(&property(&repeated, "a").unwrap()), 2.0);
    assert_eq!(run("{ missing }"), Err(EvalError::NameError(String::from("missing"))));
    assert_eq!(run("{ a: 1 / 0, b: missing }"), Err(EvalError::DivisionByZero));
}

#[test]
fn a_function_returns_its_last_statement() {
    assert_eq!(value_of("fn f() { 1; 2; 3 } f()"), 3.0);
    assert!(is_null(&run("fn f() { } f()").unwrap()));
    assert_eq!(value_of("fn add(a, b) { a + b } add(2, 3)"), 5.0);
    assert_eq!(value_of("fn f(a) { let b = a * 2; b + 1 } f(4)"), 9.0);
}

#[test]
fn a_function_declaration_is_the_function() {
    let value = run("fn f(a, b) { a }").unwrap();
    match value.value_type {
        ValueType::Function(f) => {
            assert_eq!(f.name, "f");
            assert_eq!(f.parameters, vec![String::from("a"), String::from("b")]);
            assert_eq!(f.body.len(), 1);
            assert_eq!(f.scope, 0);
        }
        other => panic!("{:?}", other),
    }
    assert_eq!(value_of("fn f() { 1 } f = 2; f"), 2.0);
}

#[test]
fn surplus_arguments_are_ignored() {
    assert_eq!(value_of("fn f(a) { a } f(1, 2, 3)"), 1.0);
    assert_eq!(run("fn f(a) { a } f(1, 2 / 0)"), Err(EvalError::DivisionByZero));
}

#[test]
fn arguments_are_evaluated_left_to_right() {
    assert_eq!(value_of("let x = 1; fn f(a, b) { a * 10 + b } f(x = 2, x + 1)"), 23.0);
    assert_eq!(run("fn f(a, b) { a } f(1 / 0, missing)"), Err(EvalError::DivisionByZero));
    assert_eq!(
        run("fn f(a, b) { a } f(missing, 1 / 0)"),
        Err(EvalError::NameError(String::from("missing")))
    );
    assert_eq!(run("missing(1 / 0)"), Err(EvalError::NameError(String::from("missing"))));
    assert_eq!(run("let x = 1; x(1 / 0)"), Err(EvalError::DivisionByZero));
}

#[test]
fn missing_arguments_are_currently_unchecked() {
    let outcome = run("fn f(a, b) { a } f(1)");
    assert!(matches!(outcome, Err(EvalError::ArityError)));
}

#[test]
fn calling_something_else_than_a_function_is_a_type_error() {
    assert_eq!(
        run("let x = 1; x()"),
        Err(EvalError::TypeError(Mismatch::Callee(ValueTypes::Number)))
    );
    assert_eq!(run("null()"), Err(EvalError::TypeError(Mismatch::Callee(ValueTypes::Null))));
    assert_eq!(run("\"f\"()"), Err(EvalError::TypeError(Mismatch::Callee(ValueTypes::String))));
    assert_eq!(run("true(1)"), Err(EvalError::TypeError(Mismatch::Callee(ValueTypes::Boolean))));
    assert_eq!(
        run("let o = { a: 1 }; o()"),
        Err(EvalError::TypeError(Mismatch::Callee(ValueTypes::Object)))
    );
}

#[test]
fn endless_recursion_stops_at_the_limit() {
    assert_eq!(run("fn f() { f() } f()"), Err(EvalError::RecursionLimit));
    assert_eq!(run("fn f(n) { g(n + 1) } fn g(n) { f(n + 1) } f(0)"), Err(EvalError::RecursionLimit));
}

#[test]
fn the_depth_limit_counts_nested_calls() {
    let source = "fn a() { 1 } fn b() { a() } fn c() { b() } c()";
    let ast = Parser::new(String::from(source)).unwrap().parse().unwrap();
    let mut env = Environment::new();
    assert_eq!(
        evaluate_program(&ast, &mut env, &mut host(), 2),
        Err(EvalError::RecursionLimit)
    );
    let mut env = Environment::new();
    assert_eq!(number(&evaluate_program(&ast, &mut env, &mut host(), 3).unwrap()), 1.0);
    let flat = Parser::new(String::from("1 + 2")).unwrap().parse().unwrap();
    let mut env = Environment::new();
    assert_eq!(number(&evaluate_program(&flat, &mut env, &mut host(), 0).unwrap()), 3.0);
}

#[test]
fn the_host_is_called_with_the_arguments() {
    let mut natives = host();
    let value = run_with("let x = 2; print(x, x + 1, \"s\"); print(); 7", &mut natives).unwrap();
    assert_eq!(number(&value), 7.0);
    let printed = &natives.host().printed;
    assert_eq!(printed.len(), 2);
    assert_eq!(printed[0].len(), 3);
    assert_eq!(number(&printed[0][0]), 2.0);
    assert_eq!(number(&printed[0][1]), 3.0);
    assert_eq!(printed[0][2].kind(), ValueTypes::String);
    assert!(printed[1].is_empty());
}

#[test]
fn the_host_is_called_for_the_function_named() {
    let mut natives = host();
    run_with("print(1); get_current_time(); print(2, 3)", &mut natives).unwrap();
    assert_eq!(natives.host().functions_called, vec![PRINT, GET_CURRENT_TIME, PRINT]);
    assert_eq!(natives.host().printed.len(), 2);
    assert_eq!(number(&natives.host().printed[0][0]), 1.0);
    assert_eq!(number(&natives.host().printed[1][0]), 2.0);
    assert_eq!(number(&natives.host().printed[1][1]), 3.0);
}

#[test]
fn the_host_sees_the_environment_of_the_call() {
    struct Reader {
        seen: Vec<Result<RuntimeValue, EvalError>>,
    }
    impl NativeFunctions for Reader {
        fn call(&mut self, _: usize, _: Vec<RuntimeValue>, env: &Environment) -> RuntimeValue {
            self.seen.push(env.peek_variable(String::from("x")));
            build_null_runtime_value()
        }
    }
    let ast = Parser::new(String::from("print(); let x = 1; print(); x = 2; print()"))
        .unwrap()
        .parse()
        .unwrap();
    let mut env = Environment::new();
    let mut natives = Natives::new(Reader { seen: vec![] });
    evaluate(&ast, &mut env, &mut natives).unwrap();
    let seen = &natives.host().seen;
    assert_eq!(seen[0], Err(EvalError::NameError(String::from("x"))));
    assert_eq!(number(seen[1].as_ref().unwrap()), 1.0);
    assert_eq!(number(seen[2].as_ref().unwrap()), 2.0);
}

#[test]
fn the_host_answers() {
    let mut natives = host();
    assert_eq!(
        number(&run_with("get_current_time() + get_current_time()", &mut natives).unwrap()),
        2003.0
    );
    assert!(is_null(&run_with("print(1)", &mut natives).unwrap()));
    assert_eq!(natives.into_host().time, 1002.0);
}

#[test]
fn output_before_a_failure_is_kept() {
    let mut natives = host();
    assert_eq!(
        run_with("print(1); print(2); 1 / 0; print(3)", &mut natives),
        Err(EvalError::DivisionByZero)
    );
    assert_eq!(natives.host().printed.len(), 2);
    assert_eq!(natives.host().functions_called, vec![PRINT, PRINT]);
    assert_eq!(natives.host().printed[0].len(), 1);
    assert_eq!(number(&natives.host().printed[0][0]), 1.0);
    assert_eq!(number(&natives.host().printed[1][0]), 2.0);
}

#[test]
fn the_host_sees_the_scope_of_the_call() {
    let mut natives = host();
    run_with("print(0); fn f() { print(1) } f(); print(2)", &mut natives).unwrap();
    assert_eq!(natives.host().scopes_seen, vec![0, 1, 0]);
}

#[test]
fn conditionals_and_member_accesses_have_no_evaluation() {
    assert_eq!(run("if true { 1 }"), Err(EvalError::Unsupported));
    assert_eq!(run("let o = { a: 1 }; o.a"), Err(EvalError::Unsupported));
    assert_eq!(run("let o = { a: 1 }; o[1]"), Err(EvalError::Unsupported));
}

#[test]
fn the_first_error_stops_the_run() {
    let ast = Parser::new(String::from("let x = 1; y; let z = 2;")).unwrap().parse().unwrap();
    let mut env = Environment::new();
    let mut natives = host();
    assert_eq!(
        evaluate(&ast, &mut env, &mut natives),
        Err(EvalError::NameError(String::from("y")))
    );
    assert_eq!(number(&env.peek_variable(String::from("x")).unwrap()), 1.0);
    assert_eq!(
        env.peek_variable(String::from("z")),
        Err(EvalError::NameError(String::from("z")))
    );
}
