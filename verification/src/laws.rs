//! Laws of lexing, parsing, scoping and evaluation, proved from the
//! definitions in `lexer`, `grammar`, `environment` and `semantics`.
use crate::ast::{ASTExpressionKind, ExpressionView, StatementView, ValueView};
use crate::environment::{
    assign_spec, declare_spec, enter_spec, leave_spec, lemma_resolve_from, lookup_spec,
    resolve_from, resolve_spec, well_formed, EnvironmentView,
};
use crate::grammar::{
    binary_node, call_node, is_additive, is_multiplicative, kind_at, leaf, parse_additive,
    parse_additive_tail, parse_assignment, parse_call_member, parse_expression,
    parse_multiplicative, parse_multiplicative_tail, parse_object, parse_postfix, parse_primary,
    text_at, value_at, ParseErrorView,
};
use crate::lexer::{
    continues_string, continues_word, digits_len, end_marker, has_char, lex, scan, scan_extra,
    string_len, symbol_at, symbol_extra, tokenize_spec, word_len, LexError, Scan, Token,
    TokenView, Type,
};
use crate::natives::HostCall;
use crate::number::{is_decimal_digit, is_zero};
use crate::semantics::{
    apply, bind_parameters, enter_call, eval_arguments, eval_block, eval_call, eval_expression,
    eval_statement, numeric_spec, Entry, Machine,
};
use crate::values::{EvalErrorView, RuntimeValueView};
use vstd::prelude::*;

verus! {

/// Resolution from a scope looks only at that scope and its ancestors, and in
/// each only at its parent and at whether it declares the name: two
/// environments that agree on these up to `from` resolve alike.
pub proof fn lemma_resolve_alike(
    first: EnvironmentView,
    second: EnvironmentView,
    from: nat,
    name: Seq<char>,
)
    requires
        from < first.scopes.len(),
        from < second.scopes.len(),
        forall|i: int|
            0 <= i <= from ==> (#[trigger] first.scopes[i]).parent == second.scopes[i].parent
                && first.scopes[i].variables.contains_key(name)
                == second.scopes[i].variables.contains_key(name),
    ensures
        resolve_from(first, from, name) == resolve_from(second, from, name),
    decreases from,
{
    assert(first.scopes[from as int].parent == second.scopes[from as int].parent);
    if !first.scopes[from as int].variables.contains_key(name) {
        match first.scopes[from as int].parent {
            Some(parent) => {
                if parent < from {
                    lemma_resolve_alike(first, second, parent, name);
                }
            },
            None => {},
        }
    }
}

/// Declaring a name twice in one scope fails: after a declaration that
/// succeeded, every further declaration of the name in that scope fails with
/// `DeclarationError` and changes nothing.
pub proof fn law_redeclaration_fails(
    env: EnvironmentView,
    name: Seq<char>,
    first: RuntimeValueView,
    first_constant: bool,
    second: RuntimeValueView,
    second_constant: bool,
)
    requires
        well_formed(env),
        declare_spec(env, name, first, first_constant).0 is Ok,
    ensures
        declare_spec(
            declare_spec(env, name, first, first_constant).1,
            name,
            second,
            second_constant,
        ) == (
            Err::<RuntimeValueView, EvalErrorView>(EvalErrorView::DeclarationError(name)),
            declare_spec(env, name, first, first_constant).1,
        ),
{
}

/// A declaration in a nested scope shadows, and only there: whatever the
/// enclosing scopes declare, a new scope under the current one can declare
/// the name; inside that scope and in a scope nested in it the name then has
/// the new value; back in the enclosing scope it resolves as it did before.
pub proof fn law_nested_declaration_shadows(
    env: EnvironmentView,
    name: Seq<char>,
    value: RuntimeValueView,
    constant: bool,
)
    requires
        well_formed(env),
    ensures
        ({
            let nested = enter_spec(env, env.current);
            let declared = declare_spec(nested, name, value, constant);
            &&& declared.0 == Ok::<RuntimeValueView, EvalErrorView>(value)
            &&& well_formed(declared.1)
            &&& lookup_spec(declared.1, name) == Ok::<RuntimeValueView, EvalErrorView>(value)
            &&& lookup_spec(enter_spec(declared.1, declared.1.current), name) == Ok::<
                RuntimeValueView,
                EvalErrorView,
            >(value)
            &&& lookup_spec(leave_spec(declared.1, env.current), name) == lookup_spec(env, name)
        }),
{
    reveal_with_fuel(resolve_from, 3);
    let nested = enter_spec(env, env.current);
    let declared = declare_spec(nested, name, value, constant);
    let inner = nested.current;
    assert(nested.scopes[inner as int].variables =~= Map::empty());
    assert forall|i: int| 0 <= i < env.scopes.len() implies (#[trigger] declared.1.scopes[i])
        == env.scopes[i] by {
        assert(nested.scopes[i] == env.scopes[i]);
    }
    assert(declared.1.scopes[inner as int].variables.contains_key(name));
    let deeper = enter_spec(declared.1, declared.1.current);
    assert(deeper.scopes[deeper.current as int].variables =~= Map::empty());
    assert(deeper.scopes[deeper.current as int].parent == Some(inner));
    assert(deeper.scopes[inner as int] == declared.1.scopes[inner as int]);
    assert(resolve_from(deeper, inner, name) == Some(inner));
    assert(resolve_from(deeper, deeper.current, name) == Some(inner));
    let outside = leave_spec(declared.1, env.current);
    lemma_resolve_alike(outside, env, env.current, name);
    lemma_resolve_from(env, env.current, name);
}

/// Assigning to a constant fails: after a constant was declared, an
/// assignment to the name from the declaring scope fails with `ConstError`
/// and changes nothing.
pub proof fn law_assignment_to_constant_fails(
    env: EnvironmentView,
    name: Seq<char>,
    value: RuntimeValueView,
    other: RuntimeValueView,
)
    requires
        well_formed(env),
        declare_spec(env, name, value, true).0 is Ok,
    ensures
        assign_spec(declare_spec(env, name, value, true).1, name, other) == (
            Err::<RuntimeValueView, EvalErrorView>(EvalErrorView::ConstError(name)),
            declare_spec(env, name, value, true).1,
        ),
{
    let declared = declare_spec(env, name, value, true).1;
    assert(declared.scopes[env.current as int].variables.contains_key(name));
}

/// The constant is constant in nested scopes too: an assignment from a scope
/// nested in the declaring one, which does not declare the name itself, fails
/// with `ConstError`.
pub proof fn law_assignment_to_constant_fails_nested(
    env: EnvironmentView,
    name: Seq<char>,
    value: RuntimeValueView,
    other: RuntimeValueView,
)
    requires
        well_formed(env),
        declare_spec(env, name, value, true).0 is Ok,
    ensures
        assign_spec(
            enter_spec(declare_spec(env, name, value, true).1, env.current),
            name,
            other,
        ).0 == Err::<RuntimeValueView, EvalErrorView>(EvalErrorView::ConstError(name)),
{
    reveal_with_fuel(resolve_from, 3);
    let declared = declare_spec(env, name, value, true).1;
    let nested = enter_spec(declared, env.current);
    assert(declared.scopes[env.current as int].variables.contains_key(name));
    assert(declared.scopes[env.current as int].constants.contains(name));
    assert(nested.scopes[nested.current as int].parent == Some(env.current));
    assert(resolve_from(nested, env.current, name) == Some(env.current));
    assert(nested.scopes[nested.current as int].variables =~= Map::empty());
    assert(nested.scopes[env.current as int] == declared.scopes[env.current as int]);
}

/// Assigning to a name that no scope of the chain declares fails with
/// `NameError` and changes nothing; so does reading it.
pub proof fn law_undeclared_name_fails(
    env: EnvironmentView,
    name: Seq<char>,
    value: RuntimeValueView,
)
    requires
        resolve_spec(env, name) is None,
    ensures
        assign_spec(env, name, value) == (
            Err::<RuntimeValueView, EvalErrorView>(EvalErrorView::NameError(name)),
            env,
        ),
        lookup_spec(env, name) == Err::<RuntimeValueView, EvalErrorView>(
            EvalErrorView::NameError(name),
        ),
{
}

/// An assignment that succeeds is read back: from the scope that assigned,
/// the name then has the assigned value.
pub proof fn law_assignment_is_read_back(
    env: EnvironmentView,
    name: Seq<char>,
    value: RuntimeValueView,
)
    requires
        well_formed(env),
        assign_spec(env, name, value).0 is Ok,
    ensures
        lookup_spec(assign_spec(env, name, value).1, name) == Ok::<
            RuntimeValueView,
            EvalErrorView,
        >(value),
        well_formed(assign_spec(env, name, value).1),
{
    let after = assign_spec(env, name, value).1;
    lemma_resolve_from(env, env.current, name);
    let at = resolve_spec(env, name)->0;
    assert forall|i: int| 0 <= i <= env.current implies (#[trigger] after.scopes[i]).parent
        == env.scopes[i].parent && after.scopes[i].variables.contains_key(name)
        == env.scopes[i].variables.contains_key(name) by {
        if i == at {
        }
    }
    lemma_resolve_alike(after, env, env.current, name);
}

/// The body of a function that does nothing but read the variable `name`.
pub open spec fn reader_body(name: Seq<char>) -> Seq<StatementView> {
    seq![StatementView::Expression(leaf(ASTExpressionKind::Identifier, ValueView::String(name)))]
}

/// A closure captures its scope, not a snapshot of it: a function without
/// parameters whose body reads `name`, declared in the current scope, gives,
/// when called after `name` was assigned a new value from that scope, the new
/// value. This holds on every tape and wherever the assignment found the name.
pub proof fn law_closure_sees_assignment(
    env: EnvironmentView,
    calls: Seq<HostCall>,
    function: Seq<char>,
    name: Seq<char>,
    value: RuntimeValueView,
    depth: nat,
    tape: Seq<RuntimeValueView>,
)
    requires
        well_formed(env),
        assign_spec(env, name, value).0 is Ok,
        depth > 0,
        env.scopes.len() < usize::MAX,
    ensures
        apply(
            RuntimeValueView::Function {
                name: function,
                parameters: Seq::empty(),
                body: reader_body(name),
                scope: env.current,
            },
            Seq::empty(),
            Machine { environment: assign_spec(env, name, value).1, calls },
            depth,
            tape,
        ).result == Ok::<RuntimeValueView, EvalErrorView>(value),
{
    let after = assign_spec(env, name, value).1;
    law_assignment_is_read_back(env, name, value);
    let closure = RuntimeValueView::Function {
        name: function,
        parameters: Seq::empty(),
        body: reader_body(name),
        scope: env.current,
    };
    let machine = Machine { environment: after, calls };
    lemma_resolve_from(env, env.current, name);
    assert(after.scopes.len() == env.scopes.len());
    let entered = enter_spec(after, env.current);
    assert(bind_parameters(entered, Seq::empty(), Seq::empty(), 0) == (
        Ok::<RuntimeValueView, EvalErrorView>(RuntimeValueView::Null),
        entered,
    ));
    let inside = Machine { environment: entered, calls };
    assert(enter_call(closure, Seq::empty(), machine, depth) == (Entry::Enter {
        inside,
        body: reader_body(name),
        back: after.current,
    }));
    assert(entered.scopes[entered.current as int].variables =~= Map::empty());
    assert(entered.scopes[entered.current as int].parent == Some(env.current));
    lemma_resolve_alike(entered, after, env.current, name);
    lemma_resolve_from(after, after.current, name);
    assert(lookup_spec(entered, name) == Ok::<RuntimeValueView, EvalErrorView>(value));
    let reader = leaf(ASTExpressionKind::Identifier, ValueView::String(name));
    let inner = (depth - 1) as nat;
    reveal_with_fuel(apply, 1);
    reveal_with_fuel(eval_block, 3);
    reveal_with_fuel(eval_statement, 2);
    reveal_with_fuel(eval_expression, 2);
    assert(eval_expression(reader, inside, inner, tape).result == Ok::<
        RuntimeValueView,
        EvalErrorView,
    >(value));
    assert(eval_statement(reader_body(name)[0], inside, inner, tape).result == Ok::<
        RuntimeValueView,
        EvalErrorView,
    >(value));
    assert(eval_block(reader_body(name), 1, inside, inner, tape, value).result == Ok::<
        RuntimeValueView,
        EvalErrorView,
    >(value));
    assert(eval_block(reader_body(name), 0, inside, inner, tape, RuntimeValueView::Null).result
        == Ok::<RuntimeValueView, EvalErrorView>(value));
}

/// The function value that a declaration of `function`, without parameters
/// and with a body that reads `name`, makes in scope `scope`.
pub open spec fn reader(function: Seq<char>, name: Seq<char>, scope: nat) -> RuntimeValueView {
    RuntimeValueView::Function {
        name: function,
        parameters: Seq::empty(),
        body: reader_body(name),
        scope,
    }
}

/// The same from declaration to call: after `fn function() { name }` was
/// declared in the current scope and `name` was then assigned a new value
/// from that scope, the call `function()` there gives the new value.
pub proof fn law_declared_closure_sees_assignment(
    env: EnvironmentView,
    calls: Seq<HostCall>,
    function: Seq<char>,
    name: Seq<char>,
    value: RuntimeValueView,
    depth: nat,
    tape: Seq<RuntimeValueView>,
)
    requires
        well_formed(env),
        function != name,
        declare_spec(env, function, reader(function, name, env.current), false).0 is Ok,
        assign_spec(
            declare_spec(env, function, reader(function, name, env.current), false).1,
            name,
            value,
        ).0 is Ok,
        depth > 0,
        env.scopes.len() < usize::MAX,
    ensures
        eval_call(
            call_node(
                Seq::empty(),
                leaf(ASTExpressionKind::Identifier, ValueView::String(function)),
            ),
            Machine {
                environment: assign_spec(
                    declare_spec(env, function, reader(function, name, env.current), false).1,
                    name,
                    value,
                ).1,
                calls,
            },
            depth,
            tape,
        ).result == Ok::<RuntimeValueView, EvalErrorView>(value),
{
    let closure = reader(function, name, env.current);
    let declared = declare_spec(env, function, closure, false).1;
    let assigned = assign_spec(declared, name, value).1;
    let machine = Machine { environment: assigned, calls };
    assert(declared.scopes[env.current as int].variables.contains_key(function));
    assert(resolve_spec(declared, function) == Some(env.current));
    lemma_resolve_from(declared, declared.current, name);
    let at = resolve_spec(declared, name)->0;
    assert forall|i: int| 0 <= i <= declared.current implies (#[trigger] assigned.scopes[i]).parent
        == declared.scopes[i].parent && assigned.scopes[i].variables.contains_key(function)
        == declared.scopes[i].variables.contains_key(function) by {
        if i == at {
        }
    }
    lemma_resolve_alike(assigned, declared, declared.current, function);
    assert(assigned.scopes[env.current as int].variables[function] == closure);
    assert(lookup_spec(assigned, function) == Ok::<RuntimeValueView, EvalErrorView>(closure));
    law_closure_sees_assignment(declared, calls, function, name, value, depth, tape);
    let callee = leaf(ASTExpressionKind::Identifier, ValueView::String(function));
    reveal_with_fuel(eval_call, 1);
    reveal_with_fuel(eval_expression, 1);
    reveal_with_fuel(eval_arguments, 1);
    reveal_with_fuel(apply, 1);
    assert(eval_expression(callee, machine, depth, tape).result == Ok::<
        RuntimeValueView,
        EvalErrorView,
    >(closure));
    assert(eval_arguments(Seq::empty(), 0, machine, depth, tape, Seq::empty()).result == Ok::<
        Seq<RuntimeValueView>,
        EvalErrorView,
    >(Seq::empty()));
}

/// The tokens read from any position on end with the end marker.
pub proof fn lemma_lex_ends_with_marker(chars: Seq<char>, pos: int, before: Seq<TokenView>)
    ensures
        lex(chars, pos, before) matches Ok(tokens) ==> tokens.len() > before.len() && tokens.last()
            == end_marker(),
    decreases
            (if pos < chars.len() {
                chars.len() - pos
            } else {
                0
            }),
{
    if 0 <= pos < chars.len() {
        match scan(chars, pos) {
            Scan::Fail(_) => {},
            Scan::Skip => {
                lemma_lex_ends_with_marker(chars, pos + 1 + scan_extra(chars, pos), before);
            },
            Scan::Emit(token) => {
                lemma_lex_ends_with_marker(
                    chars,
                    pos + 1 + scan_extra(chars, pos),
                    before.push(token),
                );
            },
        }
    }
}

/// The tokens read from any position on hold no end marker but the last,
/// if those before hold none.
pub proof fn lemma_lex_marks_only_the_end(chars: Seq<char>, pos: int, before: Seq<TokenView>)
    requires
        forall|i: int| 0 <= i < before.len() ==> (#[trigger] before[i]).kind != Type::EOF,
    ensures
        lex(chars, pos, before) matches Ok(tokens) ==> forall|i: int|
            0 <= i < tokens.len() - 1 ==> (#[trigger] tokens[i]).kind != Type::EOF,
    decreases
            (if pos < chars.len() {
                chars.len() - pos
            } else {
                0
            }),
{
    if 0 <= pos < chars.len() {
        match scan(chars, pos) {
            Scan::Fail(_) => {},
            Scan::Skip => {
                lemma_lex_marks_only_the_end(chars, pos + 1 + scan_extra(chars, pos), before);
            },
            Scan::Emit(token) => {
                assert(token.kind != Type::EOF);
                lemma_lex_marks_only_the_end(
                    chars,
                    pos + 1 + scan_extra(chars, pos),
                    before.push(token),
                );
            },
        }
    }
}

/// The end marker stands at the end only: where lexing succeeds, no token
/// but the last is tagged as the end marker.
pub proof fn law_only_the_last_token_is_the_end_marker(chars: Seq<char>)
    ensures
        tokenize_spec(chars) matches Ok(tokens) ==> forall|i: int|
            0 <= i < tokens.len() - 1 ==> (#[trigger] tokens[i]).kind != Type::EOF,
{
    lemma_lex_marks_only_the_end(chars, 0, Seq::empty());
}

/// Every token sequence is closed by the end marker: where lexing succeeds,
/// the last token is the end marker.
pub proof fn law_tokens_end_with_marker(chars: Seq<char>)
    ensures
        tokenize_spec(chars) matches Ok(tokens) ==> tokens.len() > 0 && tokens.last()
            == end_marker(),
{
    lemma_lex_ends_with_marker(chars, 0, Seq::empty());
}

/// Whether the token at `pos` is an operand that stands for itself: an
/// identifier, a number or a string.
pub open spec fn is_operand(tokens: Seq<Token>, pos: int) -> bool {
    &&& 0 <= pos < tokens.len()
    &&& tokens[pos].kind == Type::Identifier || tokens[pos].kind == Type::Number
        || tokens[pos].kind == Type::String
}

/// The node of the operand at `pos`.
pub open spec fn operand_node(tokens: Seq<Token>, pos: int) -> ExpressionView {
    leaf(
        if tokens[pos].kind == Type::Identifier {
            ASTExpressionKind::Identifier
        } else if tokens[pos].kind == Type::Number {
            ASTExpressionKind::NumericLiteral
        } else {
            ASTExpressionKind::StringLiteral
        },
        value_at(tokens, pos),
    )
}

/// Whether the token at `pos` is an operator token, which starts no call and
/// no member access.
pub open spec fn is_operator_token(tokens: Seq<Token>, pos: int) -> bool {
    0 <= pos < tokens.len() && tokens[pos].kind == Type::Operator
}

/// An operand alone, before an operator or the end, is a call-member chain of
/// its own.
proof fn lemma_lone_operand(tokens: Seq<Token>, pos: int)
    requires
        is_operand(tokens, pos),
        is_operator_token(tokens, pos + 1) || kind_at(tokens, pos + 1) == Type::EOF,
    ensures
        parse_call_member(tokens, pos) == Ok::<(ExpressionView, int), ParseErrorView>(
            (operand_node(tokens, pos), pos + 1),
        ),
{
    reveal_with_fuel(parse_call_member, 1);
    reveal_with_fuel(parse_primary, 1);
    reveal_with_fuel(parse_postfix, 1);
}

/// Multiplication binds tighter than addition: `a + b * c`, for any operands
/// `a`, `b`, `c`, is the sum of `a` and the product of `b` and `c`.
pub proof fn law_multiplication_binds_tighter(tokens: Seq<Token>)
    requires
        tokens.len() == 6,
        is_operand(tokens, 0),
        is_operator_token(tokens, 1) && text_at(tokens, 1, "+"@),
        is_operand(tokens, 2),
        is_operator_token(tokens, 3) && text_at(tokens, 3, "*"@),
        is_operand(tokens, 4),
        tokens[5].kind == Type::EOF,
    ensures
        parse_expression(tokens, 0) == Ok::<(ExpressionView, int), ParseErrorView>(
            (
                binary_node(
                    operand_node(tokens, 0),
                    ValueView::String("+"@),
                    binary_node(
                        operand_node(tokens, 2),
                        ValueView::String("*"@),
                        operand_node(tokens, 4),
                    ),
                ),
                5,
            ),
        ),
{
    reveal_strlit("+");
    reveal_strlit("-");
    reveal_strlit("*");
    reveal_strlit("/");
    reveal_strlit("%");
    assert("+"@[0] == '+' && "-"@[0] == '-' && "*"@[0] == '*' && "/"@[0] == '/' && "%"@[0] == '%');
    lemma_lone_operand(tokens, 0);
    lemma_lone_operand(tokens, 2);
    lemma_lone_operand(tokens, 4);
    let a = operand_node(tokens, 0);
    let b = operand_node(tokens, 2);
    let c = operand_node(tokens, 4);
    let product = binary_node(b, ValueView::String("*"@), c);
    assert(is_additive(tokens, 1) && !is_multiplicative(tokens, 1));
    assert(is_multiplicative(tokens, 3) && !is_additive(tokens, 3));
    assert(parse_multiplicative(tokens, 0) == Ok::<(ExpressionView, int), ParseErrorView>(
        (a, 1),
    )) by {
        reveal_with_fuel(parse_multiplicative, 1);
        reveal_with_fuel(parse_multiplicative_tail, 1);
        reveal_with_fuel(parse_call_member, 1);
    }
    assert(parse_multiplicative(tokens, 2) == Ok::<(ExpressionView, int), ParseErrorView>(
        (product, 5),
    )) by {
        reveal_with_fuel(parse_multiplicative, 1);
        reveal_with_fuel(parse_multiplicative_tail, 2);
        reveal_with_fuel(parse_call_member, 1);
        assert(parse_multiplicative_tail(tokens, 5, product) == Ok::<
            (ExpressionView, int),
            ParseErrorView,
        >((product, 5)));
        assert(parse_multiplicative_tail(tokens, 3, b) == Ok::<
            (ExpressionView, int),
            ParseErrorView,
        >((product, 5)));
    }
    let sum = binary_node(a, ValueView::String("+"@), product);
    assert(parse_additive(tokens, 0) == Ok::<(ExpressionView, int), ParseErrorView>((sum, 5))) by {
        reveal_with_fuel(parse_additive, 1);
        reveal_with_fuel(parse_additive_tail, 2);
        reveal_with_fuel(parse_multiplicative, 1);
        assert(parse_additive_tail(tokens, 5, sum) == Ok::<(ExpressionView, int), ParseErrorView>(
            (sum, 5),
        ));
        assert(parse_additive_tail(tokens, 1, a) == Ok::<(ExpressionView, int), ParseErrorView>(
            (sum, 5),
        ));
    }
    assert(parse_expression(tokens, 0) == Ok::<(ExpressionView, int), ParseErrorView>(
        (sum, 5),
    )) by {
        reveal_with_fuel(parse_expression, 1);
        reveal_with_fuel(parse_assignment, 1);
        reveal_with_fuel(parse_object, 1);
        reveal_with_fuel(parse_additive, 1);
    }
}

/// Whether `text` begins with `head`, followed by a space.
pub open spec fn begins_with(text: Seq<char>, head: Seq<char>) -> bool {
    &&& head.len() < text.len()
    &&& forall|i: int| 0 <= i < head.len() ==> text[i] == head[i]
    &&& text[head.len() as int] == ' '
}

/// Whether `text` is `tail` from position `at` on.
pub open spec fn ends_with(text: Seq<char>, tail: Seq<char>, at: int) -> bool {
    &&& 0 <= at
    &&& text.len() == at + tail.len()
    &&& forall|i: int| 0 <= i < tail.len() ==> text[at + i] == tail[i]
}

/// A run of digits within the head of a text is the same in the head alone,
/// and ends within it.
proof fn lemma_digits_in_head(text: Seq<char>, head: Seq<char>, from: int)
    requires
        begins_with(text, head),
        0 <= from <= head.len(),
    ensures
        digits_len(text, from) == digits_len(head, from),
        from + digits_len(head, from) <= head.len(),
    decreases head.len() - from,
{
    if from < head.len() && is_decimal_digit(head[from]) {
        lemma_digits_in_head(text, head, from + 1);
    }
}

/// A string literal within the head of a text is the same in the head alone,
/// and ends within it.
proof fn lemma_string_in_head(text: Seq<char>, head: Seq<char>, from: int)
    requires
        begins_with(text, head),
        0 <= from <= head.len(),
    ensures
        string_len(text, from) == string_len(head, from),
        from + string_len(head, from) <= head.len(),
    decreases head.len() - from,
{
    if from < head.len() && continues_string(head[from]) && head[from] != '"' {
        lemma_string_in_head(text, head, from + 1);
    }
}

/// A word within the head of a text is the same in the head alone, and ends
/// within it.
proof fn lemma_word_in_head(text: Seq<char>, head: Seq<char>, from: int)
    requires
        begins_with(text, head),
        0 <= from <= head.len(),
    ensures
        word_len(text, from) == word_len(head, from),
        from + word_len(head, from) <= head.len(),
    decreases head.len() - from,
{
    if from < head.len() && continues_word(head[from]) {
        lemma_word_in_head(text, head, from + 1);
    }
}

/// A run of digits within the tail of a text is the same in the tail alone.
proof fn lemma_digits_in_tail(text: Seq<char>, tail: Seq<char>, at: int, from: int)
    requires
        ends_with(text, tail, at),
        0 <= from <= tail.len(),
    ensures
        digits_len(text, at + from) == digits_len(tail, from),
        from + digits_len(tail, from) <= tail.len(),
    decreases tail.len() - from,
{
    if from < tail.len() && is_decimal_digit(tail[from]) {
        lemma_digits_in_tail(text, tail, at, from + 1);
    }
}

/// A string literal within the tail of a text is the same in the tail alone.
proof fn lemma_string_in_tail(text: Seq<char>, tail: Seq<char>, at: int, from: int)
    requires
        ends_with(text, tail, at),
        0 <= from <= tail.len(),
    ensures
        string_len(text, at + from) == string_len(tail, from),
        from + string_len(tail, from) <= tail.len(),
    decreases tail.len() - from,
{
    if from < tail.len() && continues_string(tail[from]) && tail[from] != '"' {
        lemma_string_in_tail(text, tail, at, from + 1);
    }
}

/// A word within the tail of a text is the same in the tail alone.
proof fn lemma_word_in_tail(text: Seq<char>, tail: Seq<char>, at: int, from: int)
    requires
        ends_with(text, tail, at),
        0 <= from <= tail.len(),
    ensures
        word_len(text, at + from) == word_len(tail, from),
        from + word_len(tail, from) <= tail.len(),
    decreases tail.len() - from,
{
    if from < tail.len() && continues_word(tail[from]) {
        lemma_word_in_tail(text, tail, at, from + 1);
    }
}

/// What the lexer finds within the head of a text is what it finds in the
/// head alone, and what it takes stays within the head.
proof fn lemma_scan_in_head(text: Seq<char>, head: Seq<char>, pos: int)
    requires
        begins_with(text, head),
        0 <= pos < head.len(),
    ensures
        scan(text, pos) == scan(head, pos),
        scan_extra(text, pos) == scan_extra(head, pos),
        pos + 1 + scan_extra(head, pos) <= head.len(),
{
    lemma_digits_in_head(text, head, pos + 1);
    lemma_string_in_head(text, head, pos + 1);
    lemma_word_in_head(text, head, pos + 1);
    let number_end = pos + 1 + digits_len(head, pos + 1);
    assert(text.subrange(pos, number_end) =~= head.subrange(pos, number_end));
    let string_end = pos + 1 + string_len(head, pos + 1);
    assert(text.subrange(pos, string_end) =~= head.subrange(pos, string_end));
    let word_end = pos + 1 + word_len(head, pos + 1);
    assert(text.subrange(pos, word_end) =~= head.subrange(pos, word_end));
    assert(symbol_at(text, pos) == symbol_at(head, pos));
    assert(symbol_extra(text, pos) == symbol_extra(head, pos));
}

/// What the lexer finds within the tail of a text is, but for the position of
/// a failure, what it finds in the tail alone.
proof fn lemma_scan_in_tail(text: Seq<char>, tail: Seq<char>, at: int, pos: int)
    requires
        ends_with(text, tail, at),
        0 <= pos < tail.len(),
    ensures
        scan_extra(text, at + pos) == scan_extra(tail, pos),
        pos + 1 + scan_extra(tail, pos) <= tail.len(),
        scan(tail, pos) is Skip ==> scan(text, at + pos) is Skip,
        scan(tail, pos) is Emit ==> scan(text, at + pos) == scan(tail, pos),
{
    lemma_digits_in_tail(text, tail, at, pos + 1);
    lemma_string_in_tail(text, tail, at, pos + 1);
    lemma_word_in_tail(text, tail, at, pos + 1);
    assert(text[at + pos] == tail[pos]);
    let number_end = pos + 1 + digits_len(tail, pos + 1);
    assert(text.subrange(at + pos, at + number_end) =~= tail.subrange(pos, number_end));
    let string_end = pos + 1 + string_len(tail, pos + 1);
    assert(text.subrange(at + pos, at + string_end) =~= tail.subrange(pos, string_end));
    let word_end = pos + 1 + word_len(tail, pos + 1);
    assert(text.subrange(at + pos, at + word_end) =~= tail.subrange(pos, word_end));
    if pos + 1 < tail.len() {
        assert(text[at + (pos + 1)] == tail[pos + 1]);
    }
    if pos + 2 < tail.len() {
        assert(text[at + (pos + 2)] == tail[pos + 2]);
    }
    assert(has_char(text, at + pos + 1, '=') == has_char(tail, pos + 1, '='));
    assert(has_char(text, at + pos + 1, '.') == has_char(tail, pos + 1, '.'));
    assert(has_char(text, at + pos + 2, '=') == has_char(tail, pos + 2, '='));
    assert(symbol_at(text, at + pos) == symbol_at(tail, pos));
    assert(symbol_extra(text, at + pos) == symbol_extra(tail, pos));
    if number_end < tail.len() {
        assert(text[at + number_end] == tail[number_end]);
    }
}

/// The tokens read after the tokens `before` are `before`, then the tokens
/// read after none.
pub proof fn lemma_lex_after(chars: Seq<char>, pos: int, before: Seq<TokenView>)
    ensures
        lex(chars, pos, before) == (match lex(chars, pos, Seq::empty()) {
            Ok(rest) => Ok::<Seq<TokenView>, LexError>(before + rest),
            Err(e) => Err::<Seq<TokenView>, LexError>(e),
        }),
    decreases
            (if pos < chars.len() {
                chars.len() - pos
            } else {
                0
            }),
{
    let none = Seq::<TokenView>::empty();
    if 0 <= pos < chars.len() {
        let next = pos + 1 + scan_extra(chars, pos);
        match scan(chars, pos) {
            Scan::Fail(_) => {},
            Scan::Skip => {
                lemma_lex_after(chars, next, before);
            },
            Scan::Emit(token) => {
                lemma_lex_after(chars, next, before.push(token));
                lemma_lex_after(chars, next, none.push(token));
                match lex(chars, next, none) {
                    Ok(rest) => {
                        assert(before.push(token) + rest =~= before + (none.push(token) + rest));
                    },
                    Err(_) => {},
                }
            },
        }
    } else {
        assert(before.push(end_marker()) =~= before + none.push(end_marker()));
    }
}

/// The tokens read from within the head of a text are those read in the head
/// alone, without its end marker, then those read from the end of the head.
proof fn lemma_lex_in_head(text: Seq<char>, head: Seq<char>, pos: int)
    requires
        begins_with(text, head),
        0 <= pos <= head.len(),
        lex(head, pos, Seq::empty()) is Ok,
    ensures
        lex(text, pos, Seq::empty()) == (match lex(text, head.len() as int, Seq::empty()) {
            Ok(rest) => Ok::<Seq<TokenView>, LexError>(
                lex(head, pos, Seq::empty())->Ok_0.drop_last() + rest,
            ),
            Err(e) => Err::<Seq<TokenView>, LexError>(e),
        }),
    decreases head.len() - pos,
{
    let none = Seq::<TokenView>::empty();
    if pos < head.len() {
        lemma_scan_in_head(text, head, pos);
        let next = pos + 1 + scan_extra(head, pos);
        match scan(head, pos) {
            Scan::Fail(_) => {},
            Scan::Skip => {
                lemma_lex_in_head(text, head, next);
            },
            Scan::Emit(token) => {
                lemma_lex_after(head, next, none.push(token));
                lemma_lex_after(text, next, none.push(token));
                lemma_lex_in_head(text, head, next);
                lemma_lex_ends_with_marker(head, next, none);
                let in_head = lex(head, next, none)->Ok_0;
                match lex(text, head.len() as int, none) {
                    Ok(rest) => {
                        assert((none.push(token) + in_head).drop_last() + rest =~= none.push(token)
                            + (in_head.drop_last() + rest));
                    },
                    Err(_) => {},
                }
            },
        }
    } else {
        match lex(text, head.len() as int, none) {
            Ok(rest) => {
                assert(none.push(end_marker()).drop_last() + rest =~= rest);
            },
            Err(_) => {},
        }
    }
}

/// The tokens read from within the tail of a text are those read in the tail
/// alone.
proof fn lemma_lex_in_tail(text: Seq<char>, tail: Seq<char>, at: int, pos: int)
    requires
        ends_with(text, tail, at),
        0 <= pos <= tail.len(),
        lex(tail, pos, Seq::empty()) is Ok,
    ensures
        lex(text, at + pos, Seq::empty()) == lex(tail, pos, Seq::empty()),
    decreases tail.len() - pos,
{
    let none = Seq::<TokenView>::empty();
    if pos < tail.len() {
        lemma_scan_in_tail(text, tail, at, pos);
        let next = pos + 1 + scan_extra(tail, pos);
        match scan(tail, pos) {
            Scan::Fail(_) => {},
            Scan::Skip => {
                lemma_lex_in_tail(text, tail, at, next);
            },
            Scan::Emit(token) => {
                lemma_lex_after(tail, next, none.push(token));
                lemma_lex_after(text, at + next, none.push(token));
                lemma_lex_in_tail(text, tail, at, next);
            },
        }
    }
}

/// A space joins two texts as it joins their tokens: where two texts can be
/// lexed, the first, a space and the second have the tokens of the first
/// without its end marker, then the tokens of the second.
pub proof fn law_a_space_joins_token_sequences(first: Seq<char>, second: Seq<char>)
    requires
        tokenize_spec(first) is Ok,
        tokenize_spec(second) is Ok,
    ensures
        tokenize_spec(first + seq![' '] + second) == Ok::<Seq<TokenView>, LexError>(
            tokenize_spec(first)->Ok_0.drop_last() + tokenize_spec(second)->Ok_0,
        ),
{
    let text = first + seq![' '] + second;
    let at = first.len() + 1;
    assert(begins_with(text, first));
    assert(ends_with(text, second, at as int));
    lemma_lex_in_head(text, first, 0);
    lemma_lex_in_tail(text, second, at as int, 0);
    assert(scan(text, first.len() as int) is Skip);
    assert(scan_extra(text, first.len() as int) == 0);
}

/// Division fails exactly on a zero divisor: for `/`, the result is
/// `DivisionByZero` if and only if the divisor is a zero of either sign; no
/// other operator gives that error.
pub proof fn law_division_by_zero(operator: ValueView, left: u64, right: u64)
    ensures
        numeric_spec(operator, left, right) == Err::<RuntimeValueView, EvalErrorView>(
            EvalErrorView::DivisionByZero,
        ) <==> operator == ValueView::String("/"@) && is_zero(right),
{
    reveal_strlit("+");
    reveal_strlit("-");
    reveal_strlit("*");
    reveal_strlit("/");
    reveal_strlit("%");
    assert("+"@[0] == '+' && "-"@[0] == '-' && "*"@[0] == '*' && "/"@[0] == '/' && "%"@[0] == '%');
}

} // verus!
