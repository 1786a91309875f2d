//! The evaluator: it walks the syntax tree and computes what `semantics`
//! defines, on an `Environment` and with the host's functions at hand.
//!
//! The host's answers cannot be known beforehand, so every contract here
//! speaks of all tapes that begin with the answers that the host has given by
//! the time the function returns: on each of them the semantics gives the
//! value that the function returned, the environment that it left, and the
//! record of the calls that the host has received, each with the function
//! called, the arguments and the environment handed over, and the answer.
use crate::ast::{
    expressions_model, lemma_expressions_model, lemma_names_model, lemma_properties_model,
    lemma_statements_model, names_model, properties_model, statements_model, AST, ASTExpression,
    ASTExpressionBody, ASTExpressionKind, ASTStatement, ASTStatementKind, BinaryExpression,
    CallExpression, ExpressionBodyView, FunctionDeclaration, Object, Property, Value, ValueView,
    VariableAssignment, VariableDeclaration,
};
use crate::duplicate::{duplicate_names, duplicate_statements};
use crate::environment::{
    declare_spec, lookup_spec, well_formed, Environment, EnvironmentView,
};
use crate::grammar::{assignment_node, binary_node, call_node};
use crate::natives::{HostCall, NativeFunctions, Natives};
use crate::helpers::{
    build_null_runtime_value, build_number_runtime_value, build_string_runtime_value, spells,
};
use crate::number::{
    add_doubles, divide_doubles, encodes_zero, multiply_doubles, remainder_doubles,
    subtract_doubles,
};
use crate::semantics::{
    apply, binary_spec, bind_parameters, done, eval_arguments, eval_assignment, eval_binary,
    eval_block, eval_call, eval_expression, eval_program, eval_properties, eval_statement,
    numeric_spec, Machine, Outcome,
};
use crate::values::{
    assoc_map, lemma_assoc_map_push, lemma_property_values, lemma_values_push, property_names,
    property_values, values_model,
    EvalError, EvalErrorView, FunctionValue, Mismatch, NumberValue, ObjectValue, PropertyValue,
    RuntimeValue, RuntimeValueView, ValueType,
};
use vstd::prelude::*;

verus! {

/// Whether `tape` begins with `answers`.
pub open spec fn extends(tape: Seq<RuntimeValueView>, answers: Seq<RuntimeValueView>) -> bool {
    &&& answers.len() <= tape.len()
    &&& forall|i: int| 0 <= i < answers.len() ==> tape[i] == answers[i]
}

/// A tape that begins with a sequence begins with every beginning of it.
pub proof fn lemma_extends_transitive(
    tape: Seq<RuntimeValueView>,
    later: Seq<RuntimeValueView>,
    earlier: Seq<RuntimeValueView>,
)
    requires
        extends(tape, later),
        extends(later, earlier),
    ensures
        extends(tape, earlier),
{
}

/// The machine of an environment and the calls of the host made so far.
pub open spec fn machine_of(env: EnvironmentView, calls: Seq<HostCall>) -> Machine {
    Machine { environment: env, calls }
}

/// Whether `r`, `env` and `calls` are what `outcome` says.
pub open spec fn is_outcome(
    r: Result<RuntimeValue, EvalError>,
    env: EnvironmentView,
    calls: Seq<HostCall>,
    outcome: Outcome,
) -> bool {
    &&& outcome.machine == machine_of(env, calls)
    &&& match r {
        Ok(v) => outcome.result == Ok::<RuntimeValueView, EvalErrorView>(v@),
        Err(e) => outcome.result == Err::<RuntimeValueView, EvalErrorView>(e@),
    }
}

/// What every evaluation keeps: the environment stays well-formed and loses no
/// scope, and the answers that the host has given stay as they are, with new
/// ones after them.
pub open spec fn ran(
    env: EnvironmentView,
    answers: Seq<RuntimeValueView>,
    new_env: EnvironmentView,
    new_answers: Seq<RuntimeValueView>,
) -> bool {
    &&& well_formed(new_env)
    &&& env.scopes.len() <= new_env.scopes.len()
    &&& extends(new_answers, answers)
}

/// The value of a name.
pub fn evaluate_identifier_expression(identifier: String, env: &Environment) -> (r: Result<
    RuntimeValue,
    EvalError,
>)
    requires
        well_formed(env@),
    ensures
        match r {
            Ok(v) => lookup_spec(env@, identifier@) == Ok::<RuntimeValueView, EvalErrorView>(v@),
            Err(e) => lookup_spec(env@, identifier@) == Err::<RuntimeValueView, EvalErrorView>(
                e@,
            ),
        },
{
    env.peek_variable(identifier)
}

/// What a numeric operator gives for two doubles.
pub fn evaluate_numeric_binary_expression(
    left_hand_side: u64,
    right_hand_side: u64,
    operator: &Value,
) -> (r: Result<NumberValue, EvalError>)
    ensures
        match r {
            Ok(n) => numeric_spec(operator@, left_hand_side, right_hand_side) == Ok::<
                RuntimeValueView,
                EvalErrorView,
            >(RuntimeValueView::Number(n.value)),
            Err(e) => numeric_spec(operator@, left_hand_side, right_hand_side) == Err::<
                RuntimeValueView,
                EvalErrorView,
            >(e@),
        },
{
    proof {
        reveal_with_fuel(Value::model, 1);
    }
    match operator {
        Value::String(text) => {
            if spells(text, "+") {
                Ok(NumberValue { value: add_doubles(left_hand_side, right_hand_side) })
            } else if spells(text, "-") {
                Ok(NumberValue { value: subtract_doubles(left_hand_side, right_hand_side) })
            } else if spells(text, "*") {
                Ok(NumberValue { value: multiply_doubles(left_hand_side, right_hand_side) })
            } else if spells(text, "/") {
                if encodes_zero(right_hand_side) {
                    Err(EvalError::DivisionByZero)
                } else {
                    Ok(NumberValue { value: divide_doubles(left_hand_side, right_hand_side) })
                }
            } else if spells(text, "%") {
                Ok(NumberValue { value: remainder_doubles(left_hand_side, right_hand_side) })
            } else {
                Err(EvalError::Unsupported)
            }
        },
        _ => Err(EvalError::Unsupported),
    }
}

/// What a binary operator gives for two values.
pub fn apply_binary_operator(operator: &Value, left: &RuntimeValue, right: &RuntimeValue) -> (r:
    Result<RuntimeValue, EvalError>)
    ensures
        match r {
            Ok(v) => binary_spec(operator@, left@, right@) == Ok::<RuntimeValueView, EvalErrorView>(
                v@,
            ),
            Err(e) => binary_spec(operator@, left@, right@) == Err::<
                RuntimeValueView,
                EvalErrorView,
            >(e@),
        },
{
    proof {
        reveal_with_fuel(RuntimeValue::model, 1);
    }
    match (&left.value_type, &right.value_type) {
        (ValueType::Number(a), ValueType::Number(b)) => {
            match evaluate_numeric_binary_expression(a.value, b.value, operator) {
                Ok(n) => Ok(build_number_runtime_value(n.value)),
                Err(e) => Err(e),
            }
        },
        _ => Ok(build_null_runtime_value()),
    }
}

/// The value of a binary expression.
pub fn evaluate_binary_expression<H: NativeFunctions>(
    binary_exp: &BinaryExpression,
    env: &mut Environment,
    natives: &mut Natives<H>,
    depth: usize,
) -> (r: Result<RuntimeValue, EvalError>)
    requires
        well_formed(old(env)@),
    ensures
        ran(old(env)@, old(natives).answers(), final(env)@, final(natives).answers()),
        forall|tape: Seq<RuntimeValueView>|
            extends(tape, final(natives).answers()) ==> is_outcome(
                r,
                final(env)@,
                final(natives).calls(),
                #[trigger] eval_binary(
                    binary_node(binary_exp.left@, binary_exp.operator@, binary_exp.right@),
                    machine_of(old(env)@, old(natives).calls()),
                    depth as nat,
                    tape,
                ),
            ),
    decreases depth, 1nat, binary_exp, 0nat,
{
    let ghost start = machine_of(env@, natives.calls());
    let ghost node = binary_node(binary_exp.left@, binary_exp.operator@, binary_exp.right@);
    let ghost answers0 = natives.answers();
    let ghost calls0 = natives.calls();
    let first = evaluate_expression(&binary_exp.left, env, natives, depth);
    let ghost answers1 = natives.answers();
    let ghost middle = machine_of(env@, natives.calls());
    let left = match first {
        Ok(left) => left,
        Err(e) => {
            proof {
                assert forall|tape: Seq<RuntimeValueView>|
                    extends(tape, natives.answers()) implies is_outcome(
                    Err(e),
                    env@,
                    natives.calls(),
                    #[trigger] eval_binary(node, start, depth as nat, tape),
                ) by {
                    reveal_with_fuel(eval_binary, 1);
                    reveal_with_fuel(eval_expression, 1);
                    let a = eval_expression(binary_exp.left@, start, depth as nat, tape);
                }
            }
            return Err(e);
        },
    };
    let second = evaluate_expression(&binary_exp.right, env, natives, depth);
    let right = match second {
        Ok(right) => right,
        Err(e) => {
            proof {
                assert forall|tape: Seq<RuntimeValueView>|
                    extends(tape, natives.answers()) implies is_outcome(
                    Err(e),
                    env@,
                    natives.calls(),
                    #[trigger] eval_binary(node, start, depth as nat, tape),
                ) by {
                    reveal_with_fuel(eval_binary, 1);
                    reveal_with_fuel(eval_expression, 1);
                    lemma_extends_transitive(tape, natives.answers(), answers1);
                    let a = eval_expression(binary_exp.left@, start, depth as nat, tape);
                    let b = eval_expression(binary_exp.right@, middle, depth as nat, tape);
                }
            }
            return Err(e);
        },
    };
    let r = apply_binary_operator(&binary_exp.operator, &left, &right);
    proof {
        lemma_extends_transitive(natives.answers(), answers1, answers0);
        assert forall|tape: Seq<RuntimeValueView>|
            extends(tape, natives.answers()) implies is_outcome(
            r,
            env@,
            natives.calls(),
            #[trigger] eval_binary(node, start, depth as nat, tape),
        ) by {
            reveal_with_fuel(eval_binary, 1);
            reveal_with_fuel(eval_expression, 1);
            lemma_extends_transitive(tape, natives.answers(), answers1);
            let a = eval_expression(binary_exp.left@, start, depth as nat, tape);
            let b = eval_expression(binary_exp.right@, middle, depth as nat, tape);
        }
    }
    r
}

/// The value of an assignment.
pub fn evaluate_assignment_expression<H: NativeFunctions>(
    node: &VariableAssignment,
    env: &mut Environment,
    natives: &mut Natives<H>,
    depth: usize,
) -> (r: Result<RuntimeValue, EvalError>)
    requires
        well_formed(old(env)@),
    ensures
        ran(old(env)@, old(natives).answers(), final(env)@, final(natives).answers()),
        forall|tape: Seq<RuntimeValueView>|
            extends(tape, final(natives).answers()) ==> is_outcome(
                r,
                final(env)@,
                final(natives).calls(),
                #[trigger] eval_assignment(
                    assignment_node(node.assignee@, node.value@),
                    machine_of(old(env)@, old(natives).calls()),
                    depth as nat,
                    tape,
                ),
            ),
    decreases depth, 1nat, node, 0nat,
{
    proof {
        reveal_with_fuel(eval_assignment, 1);
        reveal_with_fuel(ASTExpression::model, 1);
        reveal_with_fuel(Value::model, 1);
    }
    let ghost start = machine_of(env@, natives.calls());
    let ghost target = assignment_node(node.assignee@, node.value@);
    if node.assignee.kind != ASTExpressionKind::Identifier {
        return Err(EvalError::TypeError(Mismatch::AssignmentTarget(node.assignee.kind)));
    }
    let name = match &node.assignee.body {
        ASTExpressionBody::Value(value) => {
            assert(node.assignee@.body == ExpressionBodyView::Value(value.model()));
            match value {
                Value::String(name) => name.clone(),
                _ => {
                    return Err(EvalError::Unsupported);
                },
            }
        },
        _ => {
            return Err(EvalError::Unsupported);
        },
    };
    let value = match evaluate_expression(&node.value, env, natives, depth) {
        Ok(value) => value,
        Err(e) => {
            proof {
                assert forall|tape: Seq<RuntimeValueView>|
                    extends(tape, natives.answers()) implies is_outcome(
                    Err(e),
                    env@,
                    natives.calls(),
                    #[trigger] eval_assignment(target, start, depth as nat, tape),
                ) by {
                    reveal_with_fuel(eval_expression, 1);
                    let a = eval_expression(node.value@, start, depth as nat, tape);
                }
            }
            return Err(e);
        },
    };
    let ghost before = env@;
    let r = env.assign_variable(name, value);
    proof {
        assert(env@.scopes.len() == before.scopes.len());
        assert forall|tape: Seq<RuntimeValueView>|
            extends(tape, natives.answers()) implies is_outcome(
            r,
            env@,
            natives.calls(),
            #[trigger] eval_assignment(target, start, depth as nat, tape),
        ) by {
            reveal_with_fuel(eval_expression, 1);
            let a = eval_expression(node.value@, start, depth as nat, tape);
        }
    }
    r
}

/// The value of the last of `statements`, run in order; null for none.
pub fn evaluate_block<H: NativeFunctions>(
    statements: &Vec<ASTStatement>,
    env: &mut Environment,
    natives: &mut Natives<H>,
    depth: usize,
) -> (r: Result<RuntimeValue, EvalError>)
    requires
        well_formed(old(env)@),
    ensures
        ran(old(env)@, old(natives).answers(), final(env)@, final(natives).answers()),
        forall|tape: Seq<RuntimeValueView>|
            extends(tape, final(natives).answers()) ==> is_outcome(
                r,
                final(env)@,
                final(natives).calls(),
                #[trigger] eval_block(
                    statements_model(statements@),
                    0,
                    machine_of(old(env)@, old(natives).calls()),
                    depth as nat,
                    tape,
                    RuntimeValueView::Null,
                ),
            ),
    decreases depth, 4nat, statements, 0nat,
{
    let ghost start = machine_of(env@, natives.calls());
    let ghost answers0 = natives.answers();
    let ghost calls0 = natives.calls();
    let ghost env0 = env@;
    let ghost nodes = statements_model(statements@);
    proof {
        lemma_statements_model(statements@);
    }
    let mut last = build_null_runtime_value();
    let mut i: usize = 0;
    while i < statements.len()
        invariant
            i <= statements.len(),
            env0 == old(env)@,
            answers0 == old(natives).answers(),
            calls0 == old(natives).calls(),
            start == machine_of(env0, calls0),
            nodes == statements_model(statements@),
            nodes.len() == statements@.len(),
            forall|j: int| 0 <= j < statements@.len() ==> (#[trigger] nodes[j]) == statements@[j]@,
            ran(env0, answers0, env@, natives.answers()),
            forall|tape: Seq<RuntimeValueView>|
                extends(tape, natives.answers()) ==> (#[trigger] eval_block(
                    nodes,
                    0,
                    start,
                    depth as nat,
                    tape,
                    RuntimeValueView::Null,
                )) == eval_block(
                    nodes,
                    i as nat,
                    machine_of(env@, natives.calls()),
                    depth as nat,
                    tape,
                    last@,
                ),
        decreases statements.len() - i,
    {
        let ghost here = machine_of(env@, natives.calls());
        let ghost answers1 = natives.answers();
        let ghost previous = last@;
        let step = evaluate_statement(&statements[i], env, natives, depth);
        proof {
            lemma_extends_transitive(natives.answers(), answers1, answers0);
        }
        match step {
            Ok(value) => {
                proof {
                    assert forall|tape: Seq<RuntimeValueView>|
                        extends(tape, natives.answers()) implies (#[trigger] eval_block(
                        nodes,
                        0,
                        start,
                        depth as nat,
                        tape,
                        RuntimeValueView::Null,
                    )) == eval_block(
                        nodes,
                        (i + 1) as nat,
                        machine_of(env@, natives.calls()),
                        depth as nat,
                        tape,
                        value@,
                    ) by {
                        reveal_with_fuel(eval_block, 1);
                        reveal_with_fuel(eval_statement, 1);
                        lemma_extends_transitive(tape, natives.answers(), answers1);
                        let a = eval_statement(nodes[i as int], here, depth as nat, tape);
                        let b = eval_block(nodes, i as nat, here, depth as nat, tape, previous);
                    }
                }
                last = value;
            },
            Err(e) => {
                proof {
                    assert forall|tape: Seq<RuntimeValueView>|
                        extends(tape, natives.answers()) implies is_outcome(
                        Err(e),
                        env@,
                        natives.calls(),
                        #[trigger] eval_block(
                            nodes,
                            0,
                            start,
                            depth as nat,
                            tape,
                            RuntimeValueView::Null,
                        ),
                    ) by {
                        reveal_with_fuel(eval_block, 1);
                        reveal_with_fuel(eval_statement, 1);
                        lemma_extends_transitive(tape, natives.answers(), answers1);
                        let a = eval_statement(nodes[i as int], here, depth as nat, tape);
                        let b = eval_block(nodes, i as nat, here, depth as nat, tape, previous);
                    }
                }
                return Err(e);
            },
        }
        i += 1;
    }
    proof {
        assert forall|tape: Seq<RuntimeValueView>|
            extends(tape, natives.answers()) implies is_outcome(
            Ok(last),
            env@,
            natives.calls(),
            #[trigger] eval_block(nodes, 0, start, depth as nat, tape, RuntimeValueView::Null),
        ) by {
            reveal_with_fuel(eval_block, 1);
            let b = eval_block(
                nodes,
                i as nat,
                machine_of(env@, natives.calls()),
                depth as nat,
                tape,
                last@,
            );
        }
    }
    Ok(last)
}

/// The value of a statement.
pub fn evaluate_statement<H: NativeFunctions>(
    ast_node: &ASTStatement,
    env: &mut Environment,
    natives: &mut Natives<H>,
    depth: usize,
) -> (r: Result<RuntimeValue, EvalError>)
    requires
        well_formed(old(env)@),
    ensures
        ran(old(env)@, old(natives).answers(), final(env)@, final(natives).answers()),
        forall|tape: Seq<RuntimeValueView>|
            extends(tape, final(natives).answers()) ==> is_outcome(
                r,
                final(env)@,
                final(natives).calls(),
                #[trigger] eval_statement(
                    ast_node@,
                    machine_of(old(env)@, old(natives).calls()),
                    depth as nat,
                    tape,
                ),
            ),
    decreases depth, 3nat, ast_node, 0nat,
{
    proof {
        reveal_with_fuel(eval_statement, 1);
        reveal_with_fuel(ASTStatement::model, 1);
        reveal_with_fuel(VariableDeclaration::model, 1);
        reveal_with_fuel(FunctionDeclaration::model, 1);
    }
    let ghost start = machine_of(env@, natives.calls());
    match &ast_node.kind {
        ASTStatementKind::ExpressionStatement(expression) => {
            let r = evaluate_expression(expression, env, natives, depth);
            proof {
                assert forall|tape: Seq<RuntimeValueView>|
                    extends(tape, natives.answers()) implies is_outcome(
                    r,
                    env@,
                    natives.calls(),
                    #[trigger] eval_statement(ast_node@, start, depth as nat, tape),
                ) by {
                    reveal_with_fuel(eval_expression, 1);
                    reveal_with_fuel(ASTExpression::model, 1);
                    let a = eval_expression(expression@, start, depth as nat, tape);
                }
            }
            r
        },
        ASTStatementKind::VariableDeclaration(declaration) => {
            assert(ast_node@ == declaration.model());
            evaluate_variable_declaration(declaration, env, natives, depth)
        },
        ASTStatementKind::FunctionDeclaration(declaration) => {
            assert(ast_node@ == declaration.model());
            evaluate_function_declaration(declaration, env)
        },
        ASTStatementKind::ConditionalStatement(c) => {
            proof {
                reveal_with_fuel(crate::ast::ConditionalStatement::model, 1);
            }
            Err(EvalError::Unsupported)
        },
        ASTStatementKind::LoopStatement(l) => {
            proof {
                reveal_with_fuel(crate::ast::LoopStatement::model, 1);
            }
            Err(EvalError::Unsupported)
        },
    }
}

/// The value of a declaration: that of its initializer (null without one),
/// declared under the name in the current scope.
pub fn evaluate_variable_declaration<H: NativeFunctions>(
    variable_declaration_statement: &VariableDeclaration,
    env: &mut Environment,
    natives: &mut Natives<H>,
    depth: usize,
) -> (r: Result<RuntimeValue, EvalError>)
    requires
        well_formed(old(env)@),
    ensures
        ran(old(env)@, old(natives).answers(), final(env)@, final(natives).answers()),
        forall|tape: Seq<RuntimeValueView>|
            extends(tape, final(natives).answers()) ==> is_outcome(
                r,
                final(env)@,
                final(natives).calls(),
                #[trigger] eval_statement(
                    variable_declaration_statement.model(),
                    machine_of(old(env)@, old(natives).calls()),
                    depth as nat,
                    tape,
                ),
            ),
    decreases depth, 2nat, variable_declaration_statement, 0nat,
{
    proof {
        reveal_with_fuel(eval_statement, 1);
        reveal_with_fuel(VariableDeclaration::model, 1);
        reveal_with_fuel(Value::model, 1);
    }
    let ghost start = machine_of(env@, natives.calls());
    let ghost node = variable_declaration_statement.model();
    let name = match &variable_declaration_statement.identifier {
        Value::String(name) => name.clone(),
        _ => {
            assert(variable_declaration_statement.identifier.model() !is String);
            return Err(EvalError::Unsupported);
        },
    };
    assert(variable_declaration_statement.identifier.model() == ValueView::String(name@));
    let value = match &variable_declaration_statement.value {
        Some(initializer) => {
            match evaluate_expression(initializer, env, natives, depth) {
                Ok(value) => value,
                Err(e) => {
                    proof {
                        assert forall|tape: Seq<RuntimeValueView>|
                            extends(tape, natives.answers()) implies is_outcome(
                            Err(e),
                            env@,
                            natives.calls(),
                            #[trigger] eval_statement(node, start, depth as nat, tape),
                        ) by {
                            reveal_with_fuel(eval_expression, 1);
                            reveal_with_fuel(ASTExpression::model, 1);
                            let a = eval_expression(initializer@, start, depth as nat, tape);
                        }
                    }
                    return Err(e);
                },
            }
        },
        None => build_null_runtime_value(),
    };
    let r = env.declare_variable(name, value, variable_declaration_statement.constant);
    proof {
        assert forall|tape: Seq<RuntimeValueView>|
            extends(tape, natives.answers()) implies is_outcome(
            r,
            env@,
            natives.calls(),
            #[trigger] eval_statement(node, start, depth as nat, tape),
        ) by {
            reveal_with_fuel(eval_expression, 1);
            reveal_with_fuel(ASTExpression::model, 1);
            match &variable_declaration_statement.value {
                Some(initializer) => {
                    let a = eval_expression(initializer@, start, depth as nat, tape);
                },
                None => {},
            }
        }
    }
    r
}

/// The function value that a declaration makes in scope `scope`.
pub open spec fn declared_function(
    function_declaration: FunctionDeclaration,
    scope: nat,
) -> RuntimeValueView {
    RuntimeValueView::Function {
        name: function_declaration.identifier@,
        parameters: names_model(function_declaration.parameters@),
        body: statements_model(function_declaration.body@),
        scope,
    }
}

/// The value of a function declaration: the function value that captures the
/// current scope, declared under the function's name, not constant.
pub fn evaluate_function_declaration(
    function_declaration: &FunctionDeclaration,
    env: &mut Environment,
) -> (r: Result<RuntimeValue, EvalError>)
    requires
        well_formed(old(env)@),
    ensures
        well_formed(final(env)@),
        final(env)@.scopes.len() == old(env)@.scopes.len(),
        final(env)@ == declare_spec(
            old(env)@,
            function_declaration.identifier@,
            declared_function(*function_declaration, old(env)@.current),
            false,
        ).1,
        match r {
            Ok(v) => declare_spec(
                old(env)@,
                function_declaration.identifier@,
                declared_function(*function_declaration, old(env)@.current),
                false,
            ).0 == Ok::<RuntimeValueView, EvalErrorView>(v@),
            Err(e) => declare_spec(
                old(env)@,
                function_declaration.identifier@,
                declared_function(*function_declaration, old(env)@.current),
                false,
            ).0 == Err::<RuntimeValueView, EvalErrorView>(e@),
        },
{
    proof {
        reveal_with_fuel(RuntimeValue::model, 1);
    }
    let function = RuntimeValue {
        value_type: ValueType::Function(
            FunctionValue {
                name: function_declaration.identifier.clone(),
                parameters: duplicate_names(&function_declaration.parameters),
                body: duplicate_statements(&function_declaration.body),
                scope: env.current_scope(),
            },
        ),
    };
    env.declare_variable(function_declaration.identifier.clone(), function, false)
}

/// The names of a list of properties, item by item.
pub proof fn lemma_property_names(items: Seq<PropertyValue>)
    ensures
        property_names(items).len() == items.len(),
        forall|i: int|
            0 <= i < items.len() ==> (#[trigger] property_names(items)[i]) == items[i].name@,
{
}

/// The model of an object value.
pub open spec fn object_model(items: Seq<PropertyValue>) -> Map<Seq<char>, RuntimeValueView> {
    assoc_map(property_names(items), property_values(items))
}

/// Appending a property sets its entry.
pub proof fn lemma_object_push(items: Seq<PropertyValue>, item: PropertyValue)
    ensures
        object_model(items.push(item)) == object_model(items).insert(item.name@, item.value@),
{
    lemma_property_values(items);
    lemma_property_values(items.push(item));
    assert(property_names(items.push(item)) =~= property_names(items).push(item.name@));
    assert(property_values(items.push(item)) =~= property_values(items).push(item.value@));
    lemma_assoc_map_push(property_names(items), property_values(items), item.name@, item.value@);
}

/// The value of an object literal.
pub fn evaluate_object_expression<H: NativeFunctions>(
    obj: &Object,
    env: &mut Environment,
    natives: &mut Natives<H>,
    depth: usize,
) -> (r: Result<RuntimeValue, EvalError>)
    requires
        well_formed(old(env)@),
    ensures
        ran(old(env)@, old(natives).answers(), final(env)@, final(natives).answers()),
        forall|tape: Seq<RuntimeValueView>|
            extends(tape, final(natives).answers()) ==> is_outcome(
                r,
                final(env)@,
                final(natives).calls(),
                #[trigger] eval_properties(
                    properties_model(obj.properties@),
                    0,
                    machine_of(old(env)@, old(natives).calls()),
                    depth as nat,
                    tape,
                    Map::empty(),
                ),
            ),
    decreases depth, 1nat, obj, 0nat,
{
    let ghost start = machine_of(env@, natives.calls());
    let ghost answers0 = natives.answers();
    let ghost calls0 = natives.calls();
    let ghost env0 = env@;
    let ghost nodes = properties_model(obj.properties@);
    proof {
        lemma_properties_model(obj.properties@);
    }
    let mut entries: Vec<PropertyValue> = Vec::new();
    proof {
        assert(property_names(entries@) =~= Seq::empty());
        assert(object_model(entries@) =~= Map::empty());
    }
    let mut i: usize = 0;
    while i < obj.properties.len()
        invariant
            i <= obj.properties.len(),
            env0 == old(env)@,
            answers0 == old(natives).answers(),
            calls0 == old(natives).calls(),
            start == machine_of(env0, calls0),
            nodes == properties_model(obj.properties@),
            nodes.len() == obj.properties@.len(),
            forall|j: int|
                0 <= j < obj.properties@.len() ==> (#[trigger] nodes[j]) == obj.properties@[j]@,
            ran(env0, answers0, env@, natives.answers()),
            forall|tape: Seq<RuntimeValueView>|
                extends(tape, natives.answers()) ==> (#[trigger] eval_properties(
                    nodes,
                    0,
                    start,
                    depth as nat,
                    tape,
                    Map::empty(),
                )) == eval_properties(
                    nodes,
                    i as nat,
                    machine_of(env@, natives.calls()),
                    depth as nat,
                    tape,
                    object_model(entries@),
                ),
        decreases obj.properties.len() - i,
    {
        let ghost here = machine_of(env@, natives.calls());
        let ghost answers1 = natives.answers();
        let ghost before = object_model(entries@);
        let property = &obj.properties[i];
        proof {
            reveal_with_fuel(Property::model, 1);
            reveal_with_fuel(ASTExpression::model, 1);
        }
        assert(nodes[i as int] == property.model());
        let computed = match &property.value {
            Some(expression) => evaluate_expression(expression, env, natives, depth),
            None => env.peek_variable(property.key.clone()),
        };
        proof {
            lemma_extends_transitive(natives.answers(), answers1, answers0);
        }
        match computed {
            Ok(value) => {
                let entry = PropertyValue { name: property.key.clone(), value };
                proof {
                    lemma_object_push(entries@, entry);
                    assert forall|tape: Seq<RuntimeValueView>|
                        extends(tape, natives.answers()) implies (#[trigger] eval_properties(
                        nodes,
                        0,
                        start,
                        depth as nat,
                        tape,
                        Map::empty(),
                    )) == eval_properties(
                        nodes,
                        (i + 1) as nat,
                        machine_of(env@, natives.calls()),
                        depth as nat,
                        tape,
                        object_model(entries@.push(entry)),
                    ) by {
                        reveal_with_fuel(eval_properties, 1);
                        reveal_with_fuel(eval_expression, 1);
                        lemma_extends_transitive(tape, natives.answers(), answers1);
                        match &property.value {
                            Some(expression) => {
                                let a = eval_expression(expression@, here, depth as nat, tape);
                            },
                            None => {},
                        }
                        let b = eval_properties(nodes, i as nat, here, depth as nat, tape, before);
                    }
                }
                entries.push(entry);
            },
            Err(e) => {
                proof {
                    assert forall|tape: Seq<RuntimeValueView>|
                        extends(tape, natives.answers()) implies is_outcome(
                        Err(e),
                        env@,
                        natives.calls(),
                        #[trigger] eval_properties(
                            nodes,
                            0,
                            start,
                            depth as nat,
                            tape,
                            Map::empty(),
                        ),
                    ) by {
                        reveal_with_fuel(eval_properties, 1);
                        reveal_with_fuel(eval_expression, 1);
                        lemma_extends_transitive(tape, natives.answers(), answers1);
                        match &property.value {
                            Some(expression) => {
                                let a = eval_expression(expression@, here, depth as nat, tape);
                            },
                            None => {},
                        }
                        let b = eval_properties(nodes, i as nat, here, depth as nat, tape, before);
                    }
                }
                return Err(e);
            },
        }
        i += 1;
    }
    let object = RuntimeValue {
        value_type: ValueType::Object(ObjectValue { properties: entries }),
    };
    proof {
        reveal_with_fuel(RuntimeValue::model, 1);
        assert(object@ == RuntimeValueView::Object(object_model(entries@)));
        assert forall|tape: Seq<RuntimeValueView>|
            extends(tape, natives.answers()) implies is_outcome(
            Ok(object),
            env@,
            natives.calls(),
            #[trigger] eval_properties(nodes, 0, start, depth as nat, tape, Map::empty()),
        ) by {
            reveal_with_fuel(eval_properties, 1);
            let b = eval_properties(
                nodes,
                i as nat,
                machine_of(env@, natives.calls()),
                depth as nat,
                tape,
                object_model(entries@),
            );
        }
    }
    Ok(object)
}

/// Binds the parameters from `from` on to the arguments at their positions, in
/// the current scope.
fn bind(
    parameters: &Vec<String>,
    arguments: &Vec<RuntimeValue>,
    env: &mut Environment,
) -> (r: Result<(), EvalError>)
    requires
        well_formed(old(env)@),
        parameters.len() <= arguments.len(),
    ensures
        well_formed(final(env)@),
        final(env)@.scopes.len() == old(env)@.scopes.len(),
        final(env)@ == bind_parameters(
            old(env)@,
            names_model(parameters@),
            values_model(arguments@),
            0,
        ).1,
        match r {
            Ok(_) => bind_parameters(
                old(env)@,
                names_model(parameters@),
                values_model(arguments@),
                0,
            ).0 is Ok,
            Err(e) => bind_parameters(
                old(env)@,
                names_model(parameters@),
                values_model(arguments@),
                0,
            ).0 == Err::<RuntimeValueView, EvalErrorView>(e@),
        },
{
    let ghost env0 = env@;
    let ghost names = names_model(parameters@);
    let ghost values = values_model(arguments@);
    proof {
        lemma_names_model(parameters@);
    }
    let mut i: usize = 0;
    while i < parameters.len()
        invariant
            i <= parameters.len() <= arguments.len(),
            env0 == old(env)@,
            names == names_model(parameters@),
            values == values_model(arguments@),
            names.len() == parameters@.len(),
            forall|j: int| 0 <= j < parameters@.len() ==> (#[trigger] names[j]) == parameters@[j]@,
            well_formed(env@),
            env@.scopes.len() == env0.scopes.len(),
            bind_parameters(env0, names, values, 0) == bind_parameters(
                env@,
                names,
                values,
                i as nat,
            ),
        decreases parameters.len() - i,
    {
        let ghost before = env@;
        assert(values[i as int] == arguments@[i as int]@);
        match env.declare_variable(parameters[i].clone(), arguments[i].duplicate(), false) {
            Ok(_) => {},
            Err(e) => {
                return Err(e);
            },
        }
        i += 1;
    }
    Ok(())
}

/// What calling `function` with `arguments` gives.
pub fn call_function<H: NativeFunctions>(
    function: &RuntimeValue,
    arguments: Vec<RuntimeValue>,
    env: &mut Environment,
    natives: &mut Natives<H>,
    depth: usize,
) -> (r: Result<RuntimeValue, EvalError>)
    requires
        well_formed(old(env)@),
    ensures
        ran(old(env)@, old(natives).answers(), final(env)@, final(natives).answers()),
        forall|tape: Seq<RuntimeValueView>|
            extends(tape, final(natives).answers()) ==> is_outcome(
                r,
                final(env)@,
                final(natives).calls(),
                #[trigger] apply(
                    function@,
                    values_model(arguments@),
                    machine_of(old(env)@, old(natives).calls()),
                    depth as nat,
                    tape,
                ),
            ),
    decreases depth, 0nat, function, 0nat,
{
    proof {
        reveal_with_fuel(apply, 1);
        reveal_with_fuel(RuntimeValue::model, 1);
    }
    let ghost start = machine_of(env@, natives.calls());
    let ghost answers0 = natives.answers();
    let ghost calls0 = natives.calls();
    let ghost env0 = env@;
    let ghost values = values_model(arguments@);
    match &function.value_type {
        ValueType::NativeFunction(native) => {
            let answer = natives.call(native.call, arguments, env);
            Ok(answer)
        },
        ValueType::Function(f) => {
            if f.scope >= env.scope_count() {
                return Err(EvalError::TypeError(Mismatch::CalleeScope));
            }
            if depth == 0 || env.scope_count() == usize::MAX {
                return Err(EvalError::RecursionLimit);
            }
            if arguments.len() < f.parameters.len() {
                proof {
                    lemma_names_model(f.parameters@);
                }
                return Err(EvalError::ArityError);
            }
            proof {
                lemma_names_model(f.parameters@);
            }
            let back = match env.enter_scope(f.scope) {
                Some(back) => back,
                None => {
                    return Err(EvalError::RecursionLimit);
                },
            };
            match bind(&f.parameters, &arguments, env) {
                Ok(_) => {},
                Err(e) => {
                    return Err(e);
                },
            }
            let ghost inside = machine_of(env@, natives.calls());
            let ran = evaluate_block(&f.body, env, natives, depth - 1);
            match ran {
                Ok(value) => {
                    let left = env.leave_scope(back);
                    proof {
                        assert forall|tape: Seq<RuntimeValueView>|
                            extends(tape, natives.answers()) implies is_outcome(
                            Ok(value),
                            env@,
                            natives.calls(),
                            #[trigger] apply(function@, values, start, depth as nat, tape),
                        ) by {
                            reveal_with_fuel(eval_block, 1);
                            let b = eval_block(
                                statements_model(f.body@),
                                0,
                                inside,
                                (depth - 1) as nat,
                                tape,
                                RuntimeValueView::Null,
                            );
                        }
                    }
                    Ok(value)
                },
                Err(e) => {
                    proof {
                        assert forall|tape: Seq<RuntimeValueView>|
                            extends(tape, natives.answers()) implies is_outcome(
                            Err(e),
                            env@,
                            natives.calls(),
                            #[trigger] apply(function@, values, start, depth as nat, tape),
                        ) by {
                            reveal_with_fuel(eval_block, 1);
                            let b = eval_block(
                                statements_model(f.body@),
                                0,
                                inside,
                                (depth - 1) as nat,
                                tape,
                                RuntimeValueView::Null,
                            );
                        }
                    }
                    Err(e)
                },
            }
        },
        _ => Err(EvalError::TypeError(Mismatch::Callee(function.kind()))),
    }
}

/// The value of a call.
pub fn evaluate_call_expression<H: NativeFunctions>(
    call_expression: &CallExpression,
    env: &mut Environment,
    natives: &mut Natives<H>,
    depth: usize,
) -> (r: Result<RuntimeValue, EvalError>)
    requires
        well_formed(old(env)@),
    ensures
        ran(old(env)@, old(natives).answers(), final(env)@, final(natives).answers()),
        forall|tape: Seq<RuntimeValueView>|
            extends(tape, final(natives).answers()) ==> is_outcome(
                r,
                final(env)@,
                final(natives).calls(),
                #[trigger] eval_call(
                    call_node(
                        expressions_model(call_expression.arguments@),
                        call_expression.caller@,
                    ),
                    machine_of(old(env)@, old(natives).calls()),
                    depth as nat,
                    tape,
                ),
            ),
    decreases depth, 1nat, call_expression, 0nat,
{
    let ghost start = machine_of(env@, natives.calls());
    let ghost answers0 = natives.answers();
    let ghost calls0 = natives.calls();
    let ghost env0 = env@;
    let ghost nodes = expressions_model(call_expression.arguments@);
    let ghost node = call_node(nodes, call_expression.caller@);
    proof {
        lemma_expressions_model(call_expression.arguments@);
    }
    let callee = match evaluate_expression(&call_expression.caller, env, natives, depth) {
        Ok(callee) => callee,
        Err(e) => {
            proof {
                assert forall|tape: Seq<RuntimeValueView>|
                    extends(tape, natives.answers()) implies is_outcome(
                    Err(e),
                    env@,
                    natives.calls(),
                    #[trigger] eval_call(node, start, depth as nat, tape),
                ) by {
                    reveal_with_fuel(eval_call, 1);
                    reveal_with_fuel(eval_expression, 1);
                    let a = eval_expression(call_expression.caller@, start, depth as nat, tape);
                }
            }
            return Err(e);
        },
    };
    let ghost called = machine_of(env@, natives.calls());
    let ghost answers_called = natives.answers();
    let mut values: Vec<RuntimeValue> = Vec::new();
    proof {
        assert(values_model(values@) =~= Seq::empty());
    }
    let mut i: usize = 0;
    while i < call_expression.arguments.len()
        invariant
            i <= call_expression.arguments.len(),
            env0 == old(env)@,
            answers0 == old(natives).answers(),
            calls0 == old(natives).calls(),
            start == machine_of(env0, calls0),
            nodes == expressions_model(call_expression.arguments@),
            node == call_node(nodes, call_expression.caller@),
            nodes.len() == call_expression.arguments@.len(),
            forall|j: int|
                0 <= j < call_expression.arguments@.len() ==> (#[trigger] nodes[j])
                    == call_expression.arguments@[j]@,
            ran(env0, answers0, env@, natives.answers()),
            extends(natives.answers(), answers_called),
            forall|tape: Seq<RuntimeValueView>|
                extends(tape, answers_called) ==> (#[trigger] eval_expression(
                    call_expression.caller@,
                    start,
                    depth as nat,
                    tape,
                )) == done(callee@, called),
            forall|tape: Seq<RuntimeValueView>|
                extends(tape, natives.answers()) ==> (#[trigger] eval_arguments(
                    nodes,
                    0,
                    called,
                    depth as nat,
                    tape,
                    Seq::empty(),
                )) == eval_arguments(
                    nodes,
                    i as nat,
                    machine_of(env@, natives.calls()),
                    depth as nat,
                    tape,
                    values_model(values@),
                ),
        decreases call_expression.arguments.len() - i,
    {
        let ghost here = machine_of(env@, natives.calls());
        let ghost answers1 = natives.answers();
        let ghost before = values_model(values@);
        let computed = evaluate_expression(&call_expression.arguments[i], env, natives, depth);
        proof {
            lemma_extends_transitive(natives.answers(), answers1, answers0);
            lemma_extends_transitive(natives.answers(), answers1, answers_called);
        }
        match computed {
            Ok(value) => {
                proof {
                    lemma_values_push(values@, value);
                    assert forall|tape: Seq<RuntimeValueView>|
                        extends(tape, natives.answers()) implies (#[trigger] eval_arguments(
                        nodes,
                        0,
                        called,
                        depth as nat,
                        tape,
                        Seq::empty(),
                    )) == eval_arguments(
                        nodes,
                        (i + 1) as nat,
                        machine_of(env@, natives.calls()),
                        depth as nat,
                        tape,
                        values_model(values@.push(value)),
                    ) by {
                        reveal_with_fuel(eval_arguments, 1);
                        reveal_with_fuel(eval_expression, 1);
                        lemma_extends_transitive(tape, natives.answers(), answers1);
                        let a = eval_expression(nodes[i as int], here, depth as nat, tape);
                        let b = eval_arguments(nodes, i as nat, here, depth as nat, tape, before);
                    }
                }
                values.push(value);
            },
            Err(e) => {
                proof {
                    assert forall|tape: Seq<RuntimeValueView>|
                        extends(tape, natives.answers()) implies is_outcome(
                        Err(e),
                        env@,
                        natives.calls(),
                        #[trigger] eval_call(node, start, depth as nat, tape),
                    ) by {
                        reveal_with_fuel(eval_call, 1);
                        reveal_with_fuel(eval_arguments, 1);
                        reveal_with_fuel(eval_expression, 1);
                        lemma_extends_transitive(tape, natives.answers(), answers1);
                        lemma_extends_transitive(tape, natives.answers(), answers_called);
                        let c = eval_expression(call_expression.caller@, start, depth as nat, tape);
                        let a = eval_expression(nodes[i as int], here, depth as nat, tape);
                        let b = eval_arguments(nodes, i as nat, here, depth as nat, tape, before);
                        let d = eval_arguments(nodes, 0, called, depth as nat, tape, Seq::empty());
                    }
                }
                return Err(e);
            },
        }
        i += 1;
    }
    let ghost given = machine_of(env@, natives.calls());
    let ghost answers_given = natives.answers();
    let ghost passed = values_model(values@);
    let r = call_function(&callee, values, env, natives, depth);
    proof {
        lemma_extends_transitive(natives.answers(), answers_given, answers0);
        assert forall|tape: Seq<RuntimeValueView>|
            extends(tape, natives.answers()) implies is_outcome(
            r,
            env@,
            natives.calls(),
            #[trigger] eval_call(node, start, depth as nat, tape),
        ) by {
            reveal_with_fuel(eval_call, 1);
            reveal_with_fuel(eval_arguments, 1);
            reveal_with_fuel(eval_expression, 1);
            reveal_with_fuel(apply, 1);
            lemma_extends_transitive(tape, natives.answers(), answers_given);
            lemma_extends_transitive(tape, answers_given, answers_called);
            let c = eval_expression(call_expression.caller@, start, depth as nat, tape);
            let d = eval_arguments(nodes, 0, called, depth as nat, tape, Seq::empty());
            let b = eval_arguments(nodes, i as nat, given, depth as nat, tape, passed);
            let f = apply(callee@, passed, given, depth as nat, tape);
        }
    }
    r
}

/// The value of an expression.
pub fn evaluate_expression<H: NativeFunctions>(
    expression: &ASTExpression,
    env: &mut Environment,
    natives: &mut Natives<H>,
    depth: usize,
) -> (r: Result<RuntimeValue, EvalError>)
    requires
        well_formed(old(env)@),
    ensures
        ran(old(env)@, old(natives).answers(), final(env)@, final(natives).answers()),
        forall|tape: Seq<RuntimeValueView>|
            extends(tape, final(natives).answers()) ==> is_outcome(
                r,
                final(env)@,
                final(natives).calls(),
                #[trigger] eval_expression(
                    expression@,
                    machine_of(old(env)@, old(natives).calls()),
                    depth as nat,
                    tape,
                ),
            ),
    decreases depth, 1nat, expression, 1nat,
{
    proof {
        reveal_with_fuel(eval_expression, 1);
        reveal_with_fuel(ASTExpression::model, 1);
        reveal_with_fuel(Value::model, 1);
    }
    let ghost start = machine_of(env@, natives.calls());
    let ghost node = expression@;
    match &expression.body {
        ASTExpressionBody::Value(value) => {
            assert(expression@.body == ExpressionBodyView::Value(value.model()));
            match (expression.kind, value) {
                (ASTExpressionKind::NumericLiteral, Value::Number(bits)) => Ok(
                    build_number_runtime_value(*bits),
                ),
                (ASTExpressionKind::StringLiteral, Value::String(text)) => Ok(
                    build_string_runtime_value(text.clone()),
                ),
                (ASTExpressionKind::Identifier, Value::String(name)) => {
                    evaluate_identifier_expression(name.clone(), env)
                },
                (ASTExpressionKind::ObjectLiteral, Value::Object(obj)) => {
                    let r = evaluate_object_expression(obj, env, natives, depth);
                    proof {
                        assert forall|tape: Seq<RuntimeValueView>|
                            extends(tape, natives.answers()) implies is_outcome(
                            r,
                            env@,
                            natives.calls(),
                            #[trigger] eval_expression(node, start, depth as nat, tape),
                        ) by {
                            reveal_with_fuel(eval_properties, 1);
                            let a = eval_properties(
                                properties_model(obj.properties@),
                                0,
                                start,
                                depth as nat,
                                tape,
                                Map::empty(),
                            );
                        }
                    }
                    r
                },
                _ => Err(EvalError::Unsupported),
            }
        },
        ASTExpressionBody::BinaryExpressionBody(binary_exp) => {
            if expression.kind == ASTExpressionKind::BinaryExpression {
                assert(node == binary_node(
                    binary_exp.left@,
                    binary_exp.operator@,
                    binary_exp.right@,
                ));
                let r = evaluate_binary_expression(binary_exp, env, natives, depth);
                proof {
                    assert forall|tape: Seq<RuntimeValueView>|
                        extends(tape, natives.answers()) implies is_outcome(
                        r,
                        env@,
                        natives.calls(),
                        #[trigger] eval_expression(node, start, depth as nat, tape),
                    ) by {
                        reveal_with_fuel(eval_binary, 1);
                        let a = eval_binary(node, start, depth as nat, tape);
                    }
                }
                r
            } else {
                Err(EvalError::Unsupported)
            }
        },
        ASTExpressionBody::AssignmentExpressionBody(assignment) => {
            if expression.kind == ASTExpressionKind::AssignmentExpression {
                assert(node == assignment_node(assignment.assignee@, assignment.value@));
                let r = evaluate_assignment_expression(assignment, env, natives, depth);
                proof {
                    assert forall|tape: Seq<RuntimeValueView>|
                        extends(tape, natives.answers()) implies is_outcome(
                        r,
                        env@,
                        natives.calls(),
                        #[trigger] eval_expression(node, start, depth as nat, tape),
                    ) by {
                        reveal_with_fuel(eval_assignment, 1);
                        let a = eval_assignment(node, start, depth as nat, tape);
                    }
                }
                r
            } else {
                Err(EvalError::Unsupported)
            }
        },
        ASTExpressionBody::CallExpressionBody(call_expression) => {
            if expression.kind == ASTExpressionKind::CallExpression {
                assert(node == call_node(
                    expressions_model(call_expression.arguments@),
                    call_expression.caller@,
                ));
                let r = evaluate_call_expression(call_expression, env, natives, depth);
                proof {
                    assert forall|tape: Seq<RuntimeValueView>|
                        extends(tape, natives.answers()) implies is_outcome(
                        r,
                        env@,
                        natives.calls(),
                        #[trigger] eval_expression(node, start, depth as nat, tape),
                    ) by {
                        reveal_with_fuel(eval_call, 1);
                        let a = eval_call(node, start, depth as nat, tape);
                    }
                }
                r
            } else {
                Err(EvalError::Unsupported)
            }
        },
        ASTExpressionBody::MemberExpressionBody(_) => Err(EvalError::Unsupported),
    }
}

/// The deepest nesting of calls that `evaluate` allows.
pub const CALL_DEPTH: usize = 200;

/// The value of a program: that of its last statement, null for an empty one.
pub fn evaluate_program<H: NativeFunctions>(
    ast: &AST,
    env: &mut Environment,
    natives: &mut Natives<H>,
    depth: usize,
) -> (r: Result<RuntimeValue, EvalError>)
    requires
        well_formed(old(env)@),
    ensures
        ran(old(env)@, old(natives).answers(), final(env)@, final(natives).answers()),
        forall|tape: Seq<RuntimeValueView>|
            extends(tape, final(natives).answers()) ==> is_outcome(
                r,
                final(env)@,
                final(natives).calls(),
                #[trigger] eval_program(
                    ast@,
                    machine_of(old(env)@, old(natives).calls()),
                    depth as nat,
                    tape,
                ),
            ),
{
    if spells(&ast.kind, "Program") {
        let r = evaluate_block(&ast.statements, env, natives, depth);
        proof {
            let start = machine_of(old(env)@, old(natives).calls());
            assert forall|tape: Seq<RuntimeValueView>|
                extends(tape, natives.answers()) implies is_outcome(
                r,
                env@,
                natives.calls(),
                #[trigger] eval_program(ast@, start, depth as nat, tape),
            ) by {
                let b = eval_block(
                    statements_model(ast.statements@),
                    0,
                    start,
                    depth as nat,
                    tape,
                    RuntimeValueView::Null,
                );
            }
        }
        r
    } else {
        Err(EvalError::Unsupported)
    }
}

/// Runs a program, with calls nested at most `CALL_DEPTH` deep.
pub fn evaluate<H: NativeFunctions>(
    ast: &AST,
    env: &mut Environment,
    natives: &mut Natives<H>,
) -> (r: Result<RuntimeValue, EvalError>)
    requires
        well_formed(old(env)@),
    ensures
        ran(old(env)@, old(natives).answers(), final(env)@, final(natives).answers()),
        forall|tape: Seq<RuntimeValueView>|
            extends(tape, final(natives).answers()) ==> is_outcome(
                r,
                final(env)@,
                final(natives).calls(),
                #[trigger] eval_program(
                    ast@,
                    machine_of(old(env)@, old(natives).calls()),
                    CALL_DEPTH as nat,
                    tape,
                ),
            ),
{
    evaluate_program(ast, env, natives, CALL_DEPTH)
}

} // verus!
