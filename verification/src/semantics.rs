//! What evaluation means: the value of each node, and what it leaves behind.
//!
//! Evaluation runs on a `Machine`: the environment, and the calls that the
//! host has received so far. The host's functions are outside the language,
//! so the meaning of a program is stated relative to a `tape`: the sequence
//! of answers that the host gives, in the order of the calls. A call of a
//! host function hands over the function's number, the values of the
//! arguments and the environment, takes the next answer from the tape, and is
//! recorded. `depth` bounds how deeply
//! calls of the program's own functions may nest.
use crate::ast::{
    ASTExpressionKind, ExpressionBodyView, ExpressionView, ProgramView, PropertyView,
    StatementView, ValueView,
};
use crate::environment::{
    assign_spec, declare_spec, enter_spec, leave_spec, lookup_spec, EnvironmentView,
};
use crate::natives::HostCall;
use crate::number::{
    float_difference, float_product, float_quotient, float_remainder, float_sum, is_zero,
};
use crate::values::{type_of, EvalErrorView, Mismatch, RuntimeValueView};
use vstd::prelude::*;

verus! {

/// The state that evaluation threads through a program.
pub struct Machine {
    pub environment: EnvironmentView,
    /// The calls that the host has received, oldest first.
    pub calls: Seq<HostCall>,
}

/// What evaluating a node gives: a value or the error that stopped it, and the
/// machine it leaves.
pub struct Outcome {
    pub result: Result<RuntimeValueView, EvalErrorView>,
    pub machine: Machine,
}

/// What evaluating a list of nodes gives.
pub struct Outcomes {
    pub result: Result<Seq<RuntimeValueView>, EvalErrorView>,
    pub machine: Machine,
}

/// Evaluation gave `value` and left `machine`.
pub open spec fn done(value: RuntimeValueView, machine: Machine) -> Outcome {
    Outcome { result: Ok(value), machine }
}

/// Evaluation stopped with `error` and left `machine`.
pub open spec fn stopped(error: EvalErrorView, machine: Machine) -> Outcome {
    Outcome { result: Err(error), machine }
}

/// The outcome of an operation on the environment alone.
pub open spec fn on_environment(
    step: (Result<RuntimeValueView, EvalErrorView>, EnvironmentView),
    machine: Machine,
) -> Outcome {
    Outcome {
        result: step.0,
        machine: Machine { environment: step.1, calls: machine.calls },
    }
}

/// What a numeric operator gives for two doubles: the sum, difference,
/// product, quotient or remainder; `DivisionByZero` for `/` with a zero
/// divisor; `Unsupported` for any other operator.
pub open spec fn numeric_spec(operator: ValueView, left: u64, right: u64) -> Result<
    RuntimeValueView,
    EvalErrorView,
> {
    if operator == ValueView::String("+"@) {
        Ok(RuntimeValueView::Number(float_sum(left, right)))
    } else if operator == ValueView::String("-"@) {
        Ok(RuntimeValueView::Number(float_difference(left, right)))
    } else if operator == ValueView::String("*"@) {
        Ok(RuntimeValueView::Number(float_product(left, right)))
    } else if operator == ValueView::String("/"@) {
        if is_zero(right) {
            Err(EvalErrorView::DivisionByZero)
        } else {
            Ok(RuntimeValueView::Number(float_quotient(left, right)))
        }
    } else if operator == ValueView::String("%"@) {
        Ok(RuntimeValueView::Number(float_remainder(left, right)))
    } else {
        Err(EvalErrorView::Unsupported)
    }
}

/// What a binary operator gives for two values: the numeric result for two
/// numbers, else null.
pub open spec fn binary_spec(
    operator: ValueView,
    left: RuntimeValueView,
    right: RuntimeValueView,
) -> Result<RuntimeValueView, EvalErrorView> {
    match (left, right) {
        (RuntimeValueView::Number(a), RuntimeValueView::Number(b)) => numeric_spec(operator, a, b),
        _ => Ok(RuntimeValueView::Null),
    }
}

/// A call of the host's function number `function` with `arguments`: the
/// result is the host's next answer, and the call is recorded with what was
/// handed over, the environment as it is at the call among it.
pub open spec fn native_answer(
    function: nat,
    arguments: Seq<RuntimeValueView>,
    machine: Machine,
    tape: Seq<RuntimeValueView>,
) -> Outcome {
    let answer = if machine.calls.len() < tape.len() {
        tape[machine.calls.len() as int]
    } else {
        RuntimeValueView::Null
    };
    done(
        answer,
        Machine {
            environment: machine.environment,
            calls: machine.calls.push(
                HostCall { function, arguments, environment: machine.environment, answer },
            ),
        },
    )
}

/// The environment after the parameters from `from` on were declared, in
/// order, in the current scope, each with the argument at its position; or the
/// `DeclarationError` of the first parameter that is already declared.
pub open spec fn bind_parameters(
    env: EnvironmentView,
    parameters: Seq<Seq<char>>,
    arguments: Seq<RuntimeValueView>,
    from: nat,
) -> (Result<RuntimeValueView, EvalErrorView>, EnvironmentView)
    decreases parameters.len() - from,
{
    if from >= parameters.len() || from >= arguments.len() {
        (Ok(RuntimeValueView::Null), env)
    } else {
        let step = declare_spec(env, parameters[from as int], arguments[from as int], false);
        match step.0 {
            Err(_) => step,
            Ok(_) => bind_parameters(step.1, parameters, arguments, from + 1),
        }
    }
}

/// The value of a binary expression: the left operand is evaluated, then the
/// right one, then the operator is applied.
#[verifier::opaque]
pub open spec fn eval_binary(
    e: ExpressionView,
    machine: Machine,
    depth: nat,
    tape: Seq<RuntimeValueView>,
) -> Outcome
    decreases depth, 1nat, e, 0nat,
{
    match e.body {
        ExpressionBodyView::Binary { left, operator, right } => {
            let first = eval_expression(*left, machine, depth, tape);
            match first.result {
                Err(_) => first,
                Ok(a) => {
                    let second = eval_expression(*right, first.machine, depth, tape);
                    match second.result {
                        Err(_) => second,
                        Ok(b) => Outcome {
                            result: binary_spec(operator, a, b),
                            machine: second.machine,
                        },
                    }
                },
            }
        },
        _ => stopped(EvalErrorView::Unsupported, machine),
    }
}

/// The value of an assignment: `TypeError` where the left side is no
/// identifier; else the right side is evaluated and assigned.
#[verifier::opaque]
pub open spec fn eval_assignment(
    e: ExpressionView,
    machine: Machine,
    depth: nat,
    tape: Seq<RuntimeValueView>,
) -> Outcome
    decreases depth, 1nat, e, 0nat,
{
    match e.body {
        ExpressionBodyView::Assignment { assignee, value } => {
            if assignee.kind != ASTExpressionKind::Identifier {
                stopped(
                    EvalErrorView::TypeError(Mismatch::AssignmentTarget(assignee.kind)),
                    machine,
                )
            } else {
                match assignee.body {
                    ExpressionBodyView::Value(ValueView::String(name)) => {
                        let right = eval_expression(*value, machine, depth, tape);
                        match right.result {
                            Err(_) => right,
                            Ok(v) => on_environment(
                                assign_spec(right.machine.environment, name, v),
                                right.machine,
                            ),
                        }
                    },
                    _ => stopped(EvalErrorView::Unsupported, machine),
                }
            }
        },
        _ => stopped(EvalErrorView::Unsupported, machine),
    }
}

/// The value of a call: the callee is evaluated, then the arguments from left
/// to right, then the call is made. A host function answers with the host's
/// next answer; a function of the program with the value of the last
/// statement of its body (null for an empty body).
#[verifier::opaque]
pub open spec fn eval_call(
    e: ExpressionView,
    machine: Machine,
    depth: nat,
    tape: Seq<RuntimeValueView>,
) -> Outcome
    decreases depth, 1nat, e, 0nat,
{
    match e.body {
        ExpressionBodyView::Call { arguments, caller } => {
            let callee = eval_expression(*caller, machine, depth, tape);
            match callee.result {
                Err(_) => callee,
                Ok(function) => {
                    let given = eval_arguments(
                        arguments,
                        0,
                        callee.machine,
                        depth,
                        tape,
                        Seq::empty(),
                    );
                    match given.result {
                        Err(error) => stopped(error, given.machine),
                        Ok(values) => apply(function, values, given.machine, depth, tape),
                    }
                },
            }
        },
        _ => stopped(EvalErrorView::Unsupported, machine),
    }
}

/// What calling `function` with `arguments` gives.
#[verifier::opaque]
pub open spec fn apply(
    function: RuntimeValueView,
    arguments: Seq<RuntimeValueView>,
    machine: Machine,
    depth: nat,
    tape: Seq<RuntimeValueView>,
) -> Outcome
    decreases depth, 0nat, arguments, 0nat,
{
    match enter_call(function, arguments, machine, depth) {
        Entry::Host { function } => native_answer(function, arguments, machine, tape),
        Entry::Refuse { error, machine } => stopped(error, machine),
        Entry::Enter { inside, body, back } => if depth > 0 {
            leave_call(
                eval_block(body, 0, inside, (depth - 1) as nat, tape, RuntimeValueView::Null),
                back,
            )
        } else {
            stopped(EvalErrorView::RecursionLimit, machine)
        },
    }
}

/// The value of an expression.
///
/// - a literal is its payload; an identifier is looked up;
/// - binary expressions, assignments, object literals and calls have the
///   values that `eval_binary`, `eval_assignment`, `eval_properties` and
///   `eval_call` define;
/// - everything else, and a node whose kind and body disagree, is `Unsupported`.
#[verifier::opaque]
pub open spec fn eval_expression(
    e: ExpressionView,
    machine: Machine,
    depth: nat,
    tape: Seq<RuntimeValueView>,
) -> Outcome
    decreases depth, 1nat, e, 1nat,
{
    match (e.kind, e.body) {
        (
            ASTExpressionKind::NumericLiteral,
            ExpressionBodyView::Value(ValueView::Number(bits)),
        ) => done(RuntimeValueView::Number(bits), machine),
        (
            ASTExpressionKind::StringLiteral,
            ExpressionBodyView::Value(ValueView::String(text)),
        ) => done(RuntimeValueView::String(text), machine),
        (
            ASTExpressionKind::Identifier,
            ExpressionBodyView::Value(ValueView::String(name)),
        ) => Outcome { result: lookup_spec(machine.environment, name), machine },
        (ASTExpressionKind::BinaryExpression, ExpressionBodyView::Binary { .. }) => eval_binary(
            e,
            machine,
            depth,
            tape,
        ),
        (ASTExpressionKind::AssignmentExpression, ExpressionBodyView::Assignment { .. }) => {
            eval_assignment(e, machine, depth, tape)
        },
        (
            ASTExpressionKind::ObjectLiteral,
            ExpressionBodyView::Value(ValueView::Object(properties)),
        ) => eval_properties(properties, 0, machine, depth, tape, Map::empty()),
        (ASTExpressionKind::CallExpression, ExpressionBodyView::Call { .. }) => eval_call(
            e,
            machine,
            depth,
            tape,
        ),
        _ => stopped(EvalErrorView::Unsupported, machine),
    }
}

/// The object that the properties from `from` on complete, after the
/// properties in `before`. A property with a value is that value; a shorthand
/// is the variable of that name. A later property of the same name wins.
#[verifier::opaque]
pub open spec fn eval_properties(
    properties: Seq<PropertyView>,
    from: nat,
    machine: Machine,
    depth: nat,
    tape: Seq<RuntimeValueView>,
    before: Map<Seq<char>, RuntimeValueView>,
) -> Outcome
    decreases depth, 1nat, properties, properties.len() - from,
{
    if from >= properties.len() {
        done(RuntimeValueView::Object(before), machine)
    } else {
        let property = properties[from as int];
        let value = match property.value {
            Some(e) => eval_expression(e, machine, depth, tape),
            None => Outcome { result: lookup_spec(machine.environment, property.key), machine },
        };
        match value.result {
            Err(_) => value,
            Ok(v) => eval_properties(
                properties,
                from + 1,
                value.machine,
                depth,
                tape,
                before.insert(property.key, v),
            ),
        }
    }
}

/// The values of the arguments from `from` on, left to right, after the values
/// in `before`.
#[verifier::opaque]
pub open spec fn eval_arguments(
    arguments: Seq<ExpressionView>,
    from: nat,
    machine: Machine,
    depth: nat,
    tape: Seq<RuntimeValueView>,
    before: Seq<RuntimeValueView>,
) -> Outcomes
    decreases depth, 1nat, arguments, arguments.len() - from,
{
    if from >= arguments.len() {
        Outcomes { result: Ok(before), machine }
    } else {
        let value = eval_expression(arguments[from as int], machine, depth, tape);
        match value.result {
            Err(error) => Outcomes { result: Err(error), machine: value.machine },
            Ok(v) => eval_arguments(
                arguments,
                from + 1,
                value.machine,
                depth,
                tape,
                before.push(v),
            ),
        }
    }
}

/// How a call begins.
pub enum Entry {
    /// The callee is the host's function number `function`: the host answers.
    Host { function: nat },
    /// The callee is a function of the program: `body` runs on `inside`, in a
    /// new scope, and scope `back` is current again afterwards.
    Enter { inside: Machine, body: Seq<StatementView>, back: nat },
    /// The call cannot be made.
    Refuse { error: EvalErrorView, machine: Machine },
}

/// How calling `function` with `arguments` begins.
///
/// A function of the program runs in a new scope under the scope it was
/// declared in, with its parameters bound to the arguments by position
/// (surplus arguments are ignored). Such a call is refused with `TypeError`
/// where the function's scope is not in the environment, with
/// `RecursionLimit` where `depth` is used up or the environment is full, with
/// `ArityError` where arguments are missing, and with `DeclarationError`
/// where two parameters share a name. Calling a value that is no function is
/// refused with `TypeError`.
pub open spec fn enter_call(
    function: RuntimeValueView,
    arguments: Seq<RuntimeValueView>,
    machine: Machine,
    depth: nat,
) -> Entry {
    match function {
        RuntimeValueView::NativeFunction(function) => Entry::Host { function },
        RuntimeValueView::Function { name, parameters, body, scope } => {
            let env = machine.environment;
            if scope >= env.scopes.len() {
                Entry::Refuse {
                    error: EvalErrorView::TypeError(Mismatch::CalleeScope),
                    machine,
                }
            } else if depth == 0 || env.scopes.len() >= usize::MAX {
                Entry::Refuse { error: EvalErrorView::RecursionLimit, machine }
            } else if arguments.len() < parameters.len() {
                Entry::Refuse { error: EvalErrorView::ArityError, machine }
            } else {
                let bound = bind_parameters(enter_spec(env, scope), parameters, arguments, 0);
                let inside = Machine { environment: bound.1, calls: machine.calls };
                match bound.0 {
                    Err(error) => Entry::Refuse { error, machine: inside },
                    Ok(_) => Entry::Enter { inside, body, back: env.current },
                }
            }
        },
        _ => Entry::Refuse {
            error: EvalErrorView::TypeError(Mismatch::Callee(type_of(function))),
            machine,
        },
    }
}

/// How a call of a function of the program ends: its result is what its body
/// gave, and after a body that ran to its end scope `back` is current again.
pub open spec fn leave_call(ran: Outcome, back: nat) -> Outcome {
    match ran.result {
        Err(_) => ran,
        Ok(_) => Outcome {
            result: ran.result,
            machine: Machine {
                environment: leave_spec(ran.machine.environment, back),
                calls: ran.machine.calls,
            },
        },
    }
}

/// The value of the last of the statements from `from` on, run in order; `last`
/// where there is none. The first error stops the run.
#[verifier::opaque]
pub open spec fn eval_block(
    statements: Seq<StatementView>,
    from: nat,
    machine: Machine,
    depth: nat,
    tape: Seq<RuntimeValueView>,
    last: RuntimeValueView,
) -> Outcome
    decreases depth, 2nat, statements, statements.len() - from,
{
    if from >= statements.len() {
        done(last, machine)
    } else {
        let step = eval_statement(statements[from as int], machine, depth, tape);
        match step.result {
            Err(_) => step,
            Ok(v) => eval_block(statements, from + 1, step.machine, depth, tape, v),
        }
    }
}

/// The value of a statement.
///
/// - an expression statement is the value of its expression;
/// - a declaration evaluates its initializer (null without one) and declares
///   the name in the current scope;
/// - a function declaration declares, not constant, the function value that
///   captures the current scope;
/// - a conditional and a loop are `Unsupported`.
#[verifier::opaque]
pub open spec fn eval_statement(
    statement: StatementView,
    machine: Machine,
    depth: nat,
    tape: Seq<RuntimeValueView>,
) -> Outcome
    decreases depth, 2nat, statement, 0nat,
{
    match statement {
        StatementView::Expression(e) => eval_expression(e, machine, depth, tape),
        StatementView::Variable { constant, identifier, value } => match identifier {
            ValueView::String(name) => {
                let initial = match value {
                    Some(e) => eval_expression(e, machine, depth, tape),
                    None => done(RuntimeValueView::Null, machine),
                };
                match initial.result {
                    Err(_) => initial,
                    Ok(v) => on_environment(
                        declare_spec(initial.machine.environment, name, v, constant),
                        initial.machine,
                    ),
                }
            },
            _ => stopped(EvalErrorView::Unsupported, machine),
        },
        StatementView::Function { name, parameters, body } => on_environment(
            declare_spec(
                machine.environment,
                name,
                RuntimeValueView::Function {
                    name,
                    parameters,
                    body,
                    scope: machine.environment.current,
                },
                false,
            ),
            machine,
        ),
        _ => stopped(EvalErrorView::Unsupported, machine),
    }
}

/// The value of a program: that of its last statement, null for an empty one.
pub open spec fn eval_program(
    program: ProgramView,
    machine: Machine,
    depth: nat,
    tape: Seq<RuntimeValueView>,
) -> Outcome {
    if program.kind == "Program"@ {
        eval_block(program.statements, 0, machine, depth, tape, RuntimeValueView::Null)
    } else {
        stopped(EvalErrorView::Unsupported, machine)
    }
}

} // verus!
