//! The grammar, as functions from a token sequence and a position to the node
//! that starts there and the position after it.
//!
//! Precedence, lowest first: assignment (right-associative), object literal,
//! additive, multiplicative, the chain of calls and member accesses, primary.
//! An operator is a token with the operator tag and the operator's text. The
//! first failure ends the parse.
//!
//! Where a function goes on at the position that a sub-parse returned, it
//! first asks that the sub-parse `advanced`. Every successful sub-parse does
//! (`progress` proves it), so the question is always answered yes; it is
//! asked so that the definitions are well-founded on their face.
use crate::ast::{
    ASTExpressionKind, ExpressionBodyView, ExpressionView, PropertyView, StatementView, ValueView,
};
use crate::lexer::{end_marker, Token, TokenView, Type};
use vstd::prelude::*;

verus! {

/// What the parser was looking for when it failed.
#[derive(Debug, Clone, Copy, PartialEq, Eq, Structural)]
pub enum Expected {
    /// A token with this tag.
    Token(Type),
    /// The start of an expression.
    Expression,
    /// A statement that this grammar can build.
    Statement,
}

/// Model of a parse failure: what was expected, and the token found instead.
pub struct ParseErrorView {
    pub expected: Expected,
    pub found: TokenView,
}

/// A node and the position after it, or the failure.
pub type Parsed<T> = Result<(T, int), ParseErrorView>;

/// The tag of the token at `pos`; past the end, the end marker's.
pub open spec fn kind_at(tokens: Seq<Token>, pos: int) -> Type {
    if 0 <= pos < tokens.len() {
        tokens[pos].kind
    } else {
        Type::EOF
    }
}

/// The token at `pos`; past the end, the end marker.
pub open spec fn token_at(tokens: Seq<Token>, pos: int) -> TokenView {
    if 0 <= pos < tokens.len() {
        tokens[pos]@
    } else {
        end_marker()
    }
}

/// The payload of the token at `pos`.
pub open spec fn value_at(tokens: Seq<Token>, pos: int) -> ValueView {
    token_at(tokens, pos).value
}

/// Whether the token at `pos` carries the text `text`.
pub open spec fn text_at(tokens: Seq<Token>, pos: int, text: Seq<char>) -> bool {
    0 <= pos < tokens.len() && value_at(tokens, pos) == ValueView::String(text)
}

/// The failure at `pos` of a parser that expected `expected`.
pub open spec fn failure<T>(tokens: Seq<Token>, pos: int, expected: Expected) -> Parsed<T> {
    Err(ParseErrorView { expected, found: token_at(tokens, pos) })
}

/// The number of tokens from `pos` to the end.
pub open spec fn left(tokens: Seq<Token>, pos: int) -> nat {
    if 0 <= pos < tokens.len() {
        (tokens.len() - pos) as nat
    } else {
        0
    }
}

/// Whether the token at `pos` is tagged as the end marker.
pub open spec fn is_marker(tokens: Seq<Token>, pos: int) -> bool {
    0 <= pos < tokens.len() && tokens[pos].kind == Type::EOF
}

/// Whether no token from `from` up to, not including, `to` is tagged as
/// the end marker.
pub open spec fn unmarked(tokens: Seq<Token>, from: int, to: int) -> bool {
    forall|i: int| from <= i < to ==> !(#[trigger] is_marker(tokens, i))
}

/// The number of tokens before `pos` that are tagged as the end marker.
#[verifier::opaque]
pub open spec fn markers_before(tokens: Seq<Token>, pos: int) -> nat
    decreases pos,
{
    if pos <= 0 {
        0
    } else {
        markers_before(tokens, pos - 1) + if is_marker(tokens, pos - 1) {
            1nat
        } else {
            0nat
        }
    }
}

/// Whether as many tokens are tagged as the end marker before `to` as before
/// `from`: for `from <= to`, whether none from `from` up to `to` is.
pub open spec fn clear(tokens: Seq<Token>, from: int, to: int) -> bool {
    markers_before(tokens, to) == markers_before(tokens, from)
}

/// The count of end markers does not fall along the sequence.
pub proof fn lemma_markers_grow(tokens: Seq<Token>, from: int, to: int)
    requires
        from <= to,
    ensures
        markers_before(tokens, from) <= markers_before(tokens, to),
    decreases to - from,
{
    reveal_with_fuel(markers_before, 1);
    if from < to {
        lemma_markers_grow(tokens, from, to - 1);
    }
}

/// A token that is not tagged as the end marker does not change the count.
pub proof fn lemma_clear_step(tokens: Seq<Token>, pos: int)
    requires
        !is_marker(tokens, pos),
    ensures
        clear(tokens, pos, pos + 1),
{
    reveal_with_fuel(markers_before, 1);
}

/// Where the count of end markers stays the same from `from` to `to`, no
/// token between them is tagged as the end marker.
pub proof fn lemma_clear_is_unmarked(tokens: Seq<Token>, from: int, to: int)
    requires
        from <= to,
        clear(tokens, from, to),
    ensures
        unmarked(tokens, from, to),
{
    assert forall|i: int| from <= i < to implies !(#[trigger] is_marker(tokens, i)) by {
        reveal_with_fuel(markers_before, 1);
        lemma_markers_grow(tokens, from, i);
        lemma_markers_grow(tokens, i + 1, to);
    }
}

/// Whether a parse that started at `pos` and ended at `next` took a token.
pub open spec fn advanced(tokens: Seq<Token>, pos: int, next: int) -> bool {
    0 <= pos < next <= tokens.len()
}

/// A node whose body is a payload.
pub open spec fn leaf(kind: ASTExpressionKind, value: ValueView) -> ExpressionView {
    ExpressionView { kind, body: ExpressionBodyView::Value(value) }
}

/// The node of `left operator right`.
pub open spec fn binary_node(
    left: ExpressionView,
    operator: ValueView,
    right: ExpressionView,
) -> ExpressionView {
    ExpressionView {
        kind: ASTExpressionKind::BinaryExpression,
        body: ExpressionBodyView::Binary { left: Box::new(left), operator, right: Box::new(right) },
    }
}

/// The node of `assignee = value`.
pub open spec fn assignment_node(
    assignee: ExpressionView,
    value: ExpressionView,
) -> ExpressionView {
    ExpressionView {
        kind: ASTExpressionKind::AssignmentExpression,
        body: ExpressionBodyView::Assignment {
            assignee: Box::new(assignee),
            value: Box::new(value),
        },
    }
}

/// The node of `caller(arguments)`.
pub open spec fn call_node(
    arguments: Seq<ExpressionView>,
    caller: ExpressionView,
) -> ExpressionView {
    ExpressionView {
        kind: ASTExpressionKind::CallExpression,
        body: ExpressionBodyView::Call { arguments, caller: Box::new(caller) },
    }
}

/// The node of `object.property`, or of `object[property]` where `computed`.
pub open spec fn member_node(
    object: ExpressionView,
    property: ExpressionView,
    computed: bool,
) -> ExpressionView {
    ExpressionView {
        kind: ASTExpressionKind::MemberExpression,
        body: ExpressionBodyView::Member {
            object: Box::new(object),
            property: Box::new(property),
            computed,
        },
    }
}

/// The node of an object literal.
pub open spec fn object_node(properties: Seq<PropertyView>) -> ExpressionView {
    leaf(ASTExpressionKind::ObjectLiteral, ValueView::Object(properties))
}

/// primary := identifier | number | string | `(` expression `)`
#[verifier::opaque]
pub open spec fn parse_primary(tokens: Seq<Token>, pos: int) -> Parsed<ExpressionView>
    decreases left(tokens, pos), 13nat,
{
    let kind = kind_at(tokens, pos);
    if !(0 <= pos < tokens.len()) {
        failure(tokens, pos, Expected::Expression)
    } else if kind == Type::Identifier {
        Ok((leaf(ASTExpressionKind::Identifier, value_at(tokens, pos)), pos + 1))
    } else if kind == Type::Number {
        Ok((leaf(ASTExpressionKind::NumericLiteral, value_at(tokens, pos)), pos + 1))
    } else if kind == Type::String {
        Ok((leaf(ASTExpressionKind::StringLiteral, value_at(tokens, pos)), pos + 1))
    } else if kind == Type::OpenParen {
        match parse_expression(tokens, pos + 1) {
            Err(e) => Err(e),
            Ok((inner, next)) => if kind_at(tokens, next) == Type::CloseParen {
                Ok((inner, next + 1))
            } else {
                failure(tokens, next, Expected::Token(Type::CloseParen))
            },
        }
    } else {
        failure(tokens, pos, Expected::Expression)
    }
}

/// arguments := `(` [ assignment { `,` assignment } ] `)`
#[verifier::opaque]
pub open spec fn parse_arguments(tokens: Seq<Token>, pos: int) -> Parsed<Seq<ExpressionView>>
    decreases left(tokens, pos), 9nat,
{
    if kind_at(tokens, pos) != Type::OpenParen {
        failure(tokens, pos, Expected::Token(Type::OpenParen))
    } else if kind_at(tokens, pos + 1) == Type::CloseParen {
        Ok((Seq::empty(), pos + 2))
    } else {
        match parse_arguments_list(tokens, pos + 1) {
            Err(e) => Err(e),
            Ok((arguments, next)) => if kind_at(tokens, next) == Type::CloseParen {
                Ok((arguments, next + 1))
            } else {
                failure(tokens, next, Expected::Token(Type::CloseParen))
            },
        }
    }
}

/// A non-empty, comma-separated list of assignment expressions.
#[verifier::opaque]
pub open spec fn parse_arguments_list(tokens: Seq<Token>, pos: int) -> Parsed<Seq<ExpressionView>>
    decreases left(tokens, pos), 21nat,
{
    match parse_assignment(tokens, pos) {
        Err(e) => Err(e),
        Ok((first, next)) => if advanced(tokens, pos, next) {
            parse_arguments_tail(tokens, next, seq![first])
        } else {
            failure(tokens, pos, Expected::Expression)
        },
    }
}

/// The rest of an argument list, after the arguments `before`.
#[verifier::opaque]
pub open spec fn parse_arguments_tail(
    tokens: Seq<Token>,
    pos: int,
    before: Seq<ExpressionView>,
) -> Parsed<Seq<ExpressionView>>
    decreases left(tokens, pos), 0nat,
{
    if kind_at(tokens, pos) == Type::Comma {
        match parse_assignment(tokens, pos + 1) {
            Err(e) => Err(e),
            Ok((argument, next)) => if advanced(tokens, pos, next) {
                parse_arguments_tail(tokens, next, before.push(argument))
            } else {
                failure(tokens, pos, Expected::Expression)
            },
        }
    } else {
        Ok((before, pos))
    }
}

/// One call of `caller`: its argument list.
#[verifier::opaque]
pub open spec fn parse_call_suffix(tokens: Seq<Token>, pos: int, caller: ExpressionView) -> Parsed<
    ExpressionView,
>
    decreases left(tokens, pos), 10nat,
{
    match parse_arguments(tokens, pos) {
        Err(e) => Err(e),
        Ok((arguments, next)) => Ok((call_node(arguments, caller), next)),
    }
}

/// One member access on `object`: `.` property, where the property parses as
/// a primary and is an identifier, or `[` expression `]`.
#[verifier::opaque]
pub open spec fn parse_member_suffix(
    tokens: Seq<Token>,
    pos: int,
    object: ExpressionView,
) -> Parsed<ExpressionView>
    decreases left(tokens, pos), 10nat,
{
    if kind_at(tokens, pos) == Type::Dot {
        match parse_primary(tokens, pos + 1) {
            Err(e) => Err(e),
            Ok((property, next)) => if property.kind != ASTExpressionKind::Identifier {
                failure(tokens, pos + 1, Expected::Token(Type::Identifier))
            } else {
                Ok((member_node(object, property, false), next))
            },
        }
    } else if kind_at(tokens, pos) == Type::OpenBracket {
        match parse_expression(tokens, pos + 1) {
            Err(e) => Err(e),
            Ok((property, next)) => if kind_at(tokens, next) != Type::CloseBracket {
                failure(tokens, next, Expected::Token(Type::CloseBracket))
            } else {
                Ok((member_node(object, property, true), next + 1))
            },
        }
    } else {
        failure(tokens, pos, Expected::Token(Type::Dot))
    }
}

/// The calls and member accesses that follow `inner`, applied innermost first.
#[verifier::opaque]
pub open spec fn parse_postfix(tokens: Seq<Token>, pos: int, inner: ExpressionView) -> Parsed<
    ExpressionView,
>
    decreases left(tokens, pos), 12nat,
{
    let kind = kind_at(tokens, pos);
    if kind == Type::OpenParen || kind == Type::Dot || kind == Type::OpenBracket {
        match (if kind == Type::OpenParen {
            parse_call_suffix(tokens, pos, inner)
        } else {
            parse_member_suffix(tokens, pos, inner)
        }) {
            Err(e) => Err(e),
            Ok((applied, next)) => if advanced(tokens, pos, next) {
                parse_postfix(tokens, next, applied)
            } else {
                failure(tokens, pos, Expected::Expression)
            },
        }
    } else {
        Ok((inner, pos))
    }
}

/// call_member := primary { call | member access }
#[verifier::opaque]
pub open spec fn parse_call_member(tokens: Seq<Token>, pos: int) -> Parsed<ExpressionView>
    decreases left(tokens, pos), 15nat,
{
    match parse_primary(tokens, pos) {
        Err(e) => Err(e),
        Ok((inner, next)) => if advanced(tokens, pos, next) {
            parse_postfix(tokens, next, inner)
        } else {
            failure(tokens, pos, Expected::Expression)
        },
    }
}

/// Whether the token at `pos` is the operator `*`, `/` or `%`.
pub open spec fn is_multiplicative(tokens: Seq<Token>, pos: int) -> bool {
    kind_at(tokens, pos) == Type::Operator && (text_at(tokens, pos, "*"@) || text_at(
        tokens,
        pos,
        "/"@,
    ) || text_at(tokens, pos, "%"@))
}

/// Whether the token at `pos` is the operator `+` or `-`.
pub open spec fn is_additive(tokens: Seq<Token>, pos: int) -> bool {
    kind_at(tokens, pos) == Type::Operator && (text_at(tokens, pos, "+"@) || text_at(
        tokens,
        pos,
        "-"@,
    ))
}

/// The rest of a product whose operands so far make `product`.
#[verifier::opaque]
pub open spec fn parse_multiplicative_tail(
    tokens: Seq<Token>,
    pos: int,
    product: ExpressionView,
) -> Parsed<ExpressionView>
    decreases left(tokens, pos), 0nat,
{
    if is_multiplicative(tokens, pos) {
        match parse_call_member(tokens, pos + 1) {
            Err(e) => Err(e),
            Ok((right, next)) => if advanced(tokens, pos, next) {
                parse_multiplicative_tail(
                    tokens,
                    next,
                    binary_node(product, value_at(tokens, pos), right),
                )
            } else {
                failure(tokens, pos, Expected::Expression)
            },
        }
    } else {
        Ok((product, pos))
    }
}

/// multiplicative := call_member { (`*` | `/` | `%`) call_member }, left-associative
#[verifier::opaque]
pub open spec fn parse_multiplicative(tokens: Seq<Token>, pos: int) -> Parsed<ExpressionView>
    decreases left(tokens, pos), 16nat,
{
    match parse_call_member(tokens, pos) {
        Err(e) => Err(e),
        Ok((first, next)) => if advanced(tokens, pos, next) {
            parse_multiplicative_tail(tokens, next, first)
        } else {
            failure(tokens, pos, Expected::Expression)
        },
    }
}

/// The rest of a sum whose operands so far make `sum`.
#[verifier::opaque]
pub open spec fn parse_additive_tail(tokens: Seq<Token>, pos: int, sum: ExpressionView) -> Parsed<
    ExpressionView,
>
    decreases left(tokens, pos), 0nat,
{
    if is_additive(tokens, pos) {
        match parse_multiplicative(tokens, pos + 1) {
            Err(e) => Err(e),
            Ok((right, next)) => if advanced(tokens, pos, next) {
                parse_additive_tail(tokens, next, binary_node(sum, value_at(tokens, pos), right))
            } else {
                failure(tokens, pos, Expected::Expression)
            },
        }
    } else {
        Ok((sum, pos))
    }
}

/// additive := multiplicative { (`+` | `-`) multiplicative }, left-associative
#[verifier::opaque]
pub open spec fn parse_additive(tokens: Seq<Token>, pos: int) -> Parsed<ExpressionView>
    decreases left(tokens, pos), 17nat,
{
    match parse_multiplicative(tokens, pos) {
        Err(e) => Err(e),
        Ok((first, next)) => if advanced(tokens, pos, next) {
            parse_additive_tail(tokens, next, first)
        } else {
            failure(tokens, pos, Expected::Expression)
        },
    }
}

/// The rest of an object literal, after the properties `before`: properties
/// `key` or `key: expression`, a comma after each but the last, where it is
/// optional, then `}`.
#[verifier::opaque]
pub open spec fn parse_properties(
    tokens: Seq<Token>,
    pos: int,
    before: Seq<PropertyView>,
) -> Parsed<ExpressionView>
    decreases left(tokens, pos), 0nat,
{
    let kind = kind_at(tokens, pos);
    if kind == Type::CloseBrace {
        Ok((object_node(before), pos + 1))
    } else if kind == Type::EOF {
        failure(tokens, pos, Expected::Token(Type::CloseBrace))
    } else if kind != Type::Identifier {
        failure(tokens, pos, Expected::Token(Type::Identifier))
    } else {
        match value_at(tokens, pos) {
            ValueView::String(key) => {
                let after = kind_at(tokens, pos + 1);
                let shorthand = before.push(PropertyView { key, value: None });
                if after == Type::Comma {
                    parse_properties(tokens, pos + 2, shorthand)
                } else if after == Type::CloseBrace {
                    parse_properties(tokens, pos + 1, shorthand)
                } else if after != Type::Colon {
                    failure(tokens, pos + 1, Expected::Token(Type::Colon))
                } else {
                    match parse_expression(tokens, pos + 2) {
                        Err(e) => Err(e),
                        Ok((value, next)) => {
                            let full = before.push(PropertyView { key, value: Some(value) });
                            if !advanced(tokens, pos, next) {
                                failure(tokens, pos, Expected::Expression)
                            } else if kind_at(tokens, next) == Type::CloseBrace {
                                parse_properties(tokens, next, full)
                            } else if kind_at(tokens, next) == Type::Comma {
                                parse_properties(tokens, next + 1, full)
                            } else {
                                failure(tokens, next, Expected::Token(Type::Comma))
                            }
                        },
                    }
                }
            },
            _ => failure(tokens, pos, Expected::Token(Type::Identifier)),
        }
    }
}

/// object := `{` properties `}` | additive
#[verifier::opaque]
pub open spec fn parse_object(tokens: Seq<Token>, pos: int) -> Parsed<ExpressionView>
    decreases left(tokens, pos), 18nat,
{
    if kind_at(tokens, pos) == Type::OpenBrace {
        parse_properties(tokens, pos + 1, Seq::empty())
    } else {
        parse_additive(tokens, pos)
    }
}

/// assignment := object [ `=` assignment ], right-associative
#[verifier::opaque]
pub open spec fn parse_assignment(tokens: Seq<Token>, pos: int) -> Parsed<ExpressionView>
    decreases left(tokens, pos), 19nat,
{
    match parse_object(tokens, pos) {
        Err(e) => Err(e),
        Ok((target, next)) => if kind_at(tokens, next) != Type::Equals {
            Ok((target, next))
        } else if !advanced(tokens, pos, next) {
            failure(tokens, pos, Expected::Expression)
        } else {
            match parse_assignment(tokens, next + 1) {
                Err(e) => Err(e),
                Ok((value, end)) => Ok((assignment_node(target, value), end)),
            }
        },
    }
}

/// expression := assignment
#[verifier::opaque]
pub open spec fn parse_expression(tokens: Seq<Token>, pos: int) -> Parsed<ExpressionView>
    decreases left(tokens, pos), 20nat,
{
    parse_assignment(tokens, pos)
}

/// The name that a parameter node declares, if it is a plain identifier.
pub open spec fn parameter_name(node: ExpressionView) -> Option<Seq<char>> {
    match node.body {
        ExpressionBodyView::Value(ValueView::String(name)) => if node.kind
            == ASTExpressionKind::Identifier {
            Some(name)
        } else {
            None
        },
        _ => None,
    }
}

/// Whether every node of `nodes` is a plain identifier.
pub open spec fn are_parameters(nodes: Seq<ExpressionView>) -> bool {
    forall|i: int| 0 <= i < nodes.len() ==> (#[trigger] parameter_name(nodes[i])) is Some
}

/// The names that the parameter nodes declare.
pub open spec fn parameter_names(nodes: Seq<ExpressionView>) -> Seq<Seq<char>> {
    Seq::new(nodes.len(), |i: int| parameter_name(nodes[i])->0)
}

/// The node of a conditional.
pub open spec fn conditional_node(
    condition: Option<ExpressionView>,
    consequence: Seq<StatementView>,
    alternate: Option<StatementView>,
) -> StatementView {
    StatementView::Conditional {
        condition,
        consequence,
        alternate: match alternate {
            Some(a) => Some(Box::new(a)),
            None => None,
        },
    }
}

/// declaration := (`let` | `const`) identifier [ `=` expression ] `;`
/// A constant needs its initializer.
#[verifier::opaque]
pub open spec fn parse_variable_declaration(tokens: Seq<Token>, pos: int) -> Parsed<StatementView>
    decreases left(tokens, pos), 25nat,
{
    let kind = kind_at(tokens, pos);
    let constant = kind == Type::Const;
    if kind != Type::Let && kind != Type::Const {
        failure(tokens, pos, Expected::Statement)
    } else if kind_at(tokens, pos + 1) != Type::Identifier {
        failure(tokens, pos + 1, Expected::Token(Type::Identifier))
    } else if kind_at(tokens, pos + 2) == Type::Semi {
        if constant {
            failure(tokens, pos + 2, Expected::Token(Type::Equals))
        } else {
            Ok(
                (
                    StatementView::Variable {
                        constant: false,
                        identifier: value_at(tokens, pos + 1),
                        value: None,
                    },
                    pos + 3,
                ),
            )
        }
    } else if kind_at(tokens, pos + 2) != Type::Equals {
        failure(tokens, pos + 2, Expected::Token(Type::Equals))
    } else {
        match parse_expression(tokens, pos + 3) {
            Err(e) => Err(e),
            Ok((value, next)) => if kind_at(tokens, next) == Type::Semi {
                Ok(
                    (
                        StatementView::Variable {
                            constant,
                            identifier: value_at(tokens, pos + 1),
                            value: Some(value),
                        },
                        next + 1,
                    ),
                )
            } else {
                failure(tokens, next, Expected::Token(Type::Semi))
            },
        }
    }
}

/// The rest of a brace-delimited body, after the statements `before`, up to
/// and including the closing brace.
#[verifier::opaque]
pub open spec fn parse_block(tokens: Seq<Token>, pos: int, before: Seq<StatementView>) -> Parsed<
    Seq<StatementView>,
>
    decreases left(tokens, pos), 31nat,
{
    let kind = kind_at(tokens, pos);
    if kind == Type::CloseBrace {
        Ok((before, pos + 1))
    } else if kind == Type::EOF {
        failure(tokens, pos, Expected::Token(Type::CloseBrace))
    } else {
        match parse_statement(tokens, pos) {
            Err(e) => Err(e),
            Ok((statement, next)) => if advanced(tokens, pos, next) {
                parse_block(tokens, next, before.push(statement))
            } else {
                failure(tokens, pos, Expected::Statement)
            },
        }
    }
}

/// `{` statement { statement } `}`: a body that holds at least one statement.
#[verifier::opaque]
pub open spec fn parse_body(tokens: Seq<Token>, pos: int) -> Parsed<Seq<StatementView>>
    decreases left(tokens, pos), 32nat,
{
    if kind_at(tokens, pos) != Type::OpenBrace {
        failure(tokens, pos, Expected::Token(Type::OpenBrace))
    } else {
        match parse_statement(tokens, pos + 1) {
            Err(e) => Err(e),
            Ok((first, next)) => if advanced(tokens, pos, next) {
                parse_block(tokens, next, seq![first])
            } else {
                failure(tokens, pos, Expected::Statement)
            },
        }
    }
}

/// function := `fn` identifier arguments `{` { statement } `}`
/// where every argument is a plain identifier.
#[verifier::opaque]
pub open spec fn parse_function_declaration(tokens: Seq<Token>, pos: int) -> Parsed<StatementView>
    decreases left(tokens, pos), 25nat,
{
    if kind_at(tokens, pos) != Type::Fn {
        failure(tokens, pos, Expected::Statement)
    } else if kind_at(tokens, pos + 1) != Type::Identifier {
        failure(tokens, pos + 1, Expected::Token(Type::Identifier))
    } else {
        match value_at(tokens, pos + 1) {
            ValueView::String(name) => match parse_arguments(tokens, pos + 2) {
                Err(e) => Err(e),
                Ok((parameters, next)) => if !are_parameters(parameters) {
                    failure(tokens, pos + 2, Expected::Token(Type::Identifier))
                } else if kind_at(tokens, next) != Type::OpenBrace {
                    failure(tokens, next, Expected::Token(Type::OpenBrace))
                } else if !advanced(tokens, pos, next) {
                    failure(tokens, pos, Expected::Statement)
                } else {
                    match parse_block(tokens, next + 1, Seq::empty()) {
                        Err(e) => Err(e),
                        Ok((body, end)) => Ok(
                            (
                                StatementView::Function {
                                    name,
                                    parameters: parameter_names(parameters),
                                    body,
                                },
                                end,
                            ),
                        ),
                    }
                },
            },
            _ => failure(tokens, pos + 1, Expected::Token(Type::Identifier)),
        }
    }
}

/// The `else` parts that follow a conditional whose alternate so far is
/// `alternate`. An `else if` is a conditional of its own and becomes the
/// alternate; a bare `else` body becomes the alternate, as a node without a
/// condition, and ends the statement.
#[verifier::opaque]
pub open spec fn parse_alternates(
    tokens: Seq<Token>,
    pos: int,
    condition: Option<ExpressionView>,
    consequence: Seq<StatementView>,
    alternate: Option<StatementView>,
) -> Parsed<StatementView>
    decreases left(tokens, pos), 26nat,
{
    if kind_at(tokens, pos) != Type::Else {
        Ok((conditional_node(condition, consequence, alternate), pos))
    } else if kind_at(tokens, pos + 1) == Type::If {
        match parse_conditional(tokens, pos + 1) {
            Err(e) => Err(e),
            Ok((nested, next)) => if advanced(tokens, pos, next) {
                parse_alternates(tokens, next, condition, consequence, Some(nested))
            } else {
                failure(tokens, pos, Expected::Statement)
            },
        }
    } else {
        match parse_body(tokens, pos + 1) {
            Err(e) => Err(e),
            Ok((body, next)) => Ok(
                (
                    conditional_node(
                        condition,
                        consequence,
                        Some(conditional_node(None, body, None)),
                    ),
                    next,
                ),
            ),
        }
    }
}

/// conditional := `if` expression body { `else` conditional } [ `else` body ]
#[verifier::opaque]
pub open spec fn parse_conditional(tokens: Seq<Token>, pos: int) -> Parsed<StatementView>
    decreases left(tokens, pos), 25nat,
{
    if kind_at(tokens, pos) != Type::If {
        failure(tokens, pos, Expected::Statement)
    } else {
        match parse_expression(tokens, pos + 1) {
            Err(e) => Err(e),
            Ok((condition, next)) => if !advanced(tokens, pos, next) {
                failure(tokens, pos, Expected::Statement)
            } else {
                match parse_body(tokens, next) {
                    Err(e) => Err(e),
                    Ok((consequence, end)) => if advanced(tokens, pos, end) {
                        parse_alternates(tokens, end, Some(condition), consequence, None)
                    } else {
                        failure(tokens, pos, Expected::Statement)
                    },
                }
            },
        }
    }
}

/// statement := declaration | function | conditional | expression [ `;` ]
/// A statement that starts with `for` or `while` cannot be built.
#[verifier::opaque]
pub open spec fn parse_statement(tokens: Seq<Token>, pos: int) -> Parsed<StatementView>
    decreases left(tokens, pos), 30nat,
{
    let kind = kind_at(tokens, pos);
    if kind == Type::Let || kind == Type::Const {
        parse_variable_declaration(tokens, pos)
    } else if kind == Type::For || kind == Type::While {
        failure(tokens, pos, Expected::Statement)
    } else if kind == Type::Fn {
        parse_function_declaration(tokens, pos)
    } else if kind == Type::If {
        parse_conditional(tokens, pos)
    } else {
        match parse_expression(tokens, pos) {
            Err(e) => Err(e),
            Ok((expression, next)) => Ok(
                (
                    StatementView::Expression(expression),
                    if kind_at(tokens, next) == Type::Semi {
                        next + 1
                    } else {
                        next
                    },
                ),
            ),
        }
    }
}

/// The statements from `pos` up to the end marker, after the statements `before`.
#[verifier::opaque]
pub open spec fn parse_program(tokens: Seq<Token>, pos: int, before: Seq<StatementView>) -> Result<
    Seq<StatementView>,
    ParseErrorView,
>
    decreases left(tokens, pos), 33nat,
{
    if kind_at(tokens, pos) == Type::EOF {
        Ok(before)
    } else {
        match parse_statement(tokens, pos) {
            Err(e) => Err(e),
            Ok((statement, next)) => if advanced(tokens, pos, next) {
                parse_program(tokens, next, before.push(statement))
            } else {
                Err(ParseErrorView { expected: Expected::Statement, found: token_at(tokens, pos) })
            },
        }
    }
}

} // verus!
