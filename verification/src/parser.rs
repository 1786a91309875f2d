//! The recursive-descent parser: tokens to syntax tree.
//!
//! Every method builds exactly the node that `grammar` defines for the cursor
//! it starts at, and leaves the cursor after the node, having taken no token
//! that is tagged as the end marker. On a failure the cursor is left where
//! the parser stopped.
use crate::ast::{
    expressions_model, lemma_expressions_model, lemma_expressions_push, lemma_names_model,
    lemma_properties_push, lemma_statements_push, names_model, properties_model, statements_model,
    AST, ASTExpression, ASTExpressionBody, ASTExpressionKind, ASTStatement, ASTStatementKind,
    BinaryExpression, CallExpression, ConditionalStatement, ExpressionBodyView, ExpressionView,
    FunctionDeclaration, MemberExpression, Object, ProgramView, Property, StatementView, Value,
    VariableAssignment, VariableDeclaration,
};
use crate::grammar::{
    advanced, are_parameters, binary_node, call_node, conditional_node, kind_at, left, member_node,
    clear, is_marker, lemma_clear_is_unmarked, lemma_clear_step, unmarked,
    parameter_name, parameter_names, parse_additive, parse_additive_tail, parse_alternates,
    parse_arguments, parse_arguments_list, parse_arguments_tail, parse_assignment, parse_block,
    parse_body, parse_call_member, parse_call_suffix, parse_conditional, parse_expression,
    parse_function_declaration, parse_member_suffix, parse_multiplicative,
    parse_multiplicative_tail, parse_object, parse_postfix, parse_primary, parse_program,
    parse_properties, parse_statement, parse_variable_declaration, text_at, token_at, value_at,
    Expected, ParseErrorView, Parsed,
};
use crate::helpers::spells;
use crate::laws::{law_only_the_last_token_is_the_end_marker, law_tokens_end_with_marker};
use crate::lexer::{
    end_marker_token, tokenize, tokenize_spec, tokens_view, LexError, Token, TokenView, Type,
};
use vstd::prelude::*;

verus! {

/// A parse failure: what was expected, and the token found instead.
#[derive(Debug, Clone, PartialEq, Eq)]
pub struct ParseError {
    pub expected: Expected,
    pub found: Token,
}

impl View for ParseError {
    type V = ParseErrorView;

    open spec fn view(&self) -> ParseErrorView {
        ParseErrorView { expected: self.expected, found: self.found@ }
    }
}

/// A token sequence and a forward cursor into it.
#[derive(Debug, Clone)]
pub struct Parser {
    pub tokens: Vec<Token>,
    pub cursor: usize,
}

/// Whether a method that started in state `before` and answered `r` in state
/// `after` did what the grammar's `expected` says.
pub open spec fn parsed_expression(
    before: Parser,
    after: Parser,
    r: Result<ASTExpression, ParseError>,
    expected: Parsed<ExpressionView>,
) -> bool {
    &&& after.tokens == before.tokens
    &&& match expected {
        Ok((node, next)) => {
            &&& r matches Ok(e)
            &&& e@ == node
            &&& after.cursor == next
            &&& advanced(before.tokens@, before.cursor as int, next)
            &&& clear(before.tokens@, before.cursor as int, next)
        },
        Err(error) => r matches Err(e) && e@ == error,
    }
}

/// The same for a method that builds a statement.
pub open spec fn parsed_statement(
    before: Parser,
    after: Parser,
    r: Result<ASTStatement, ParseError>,
    expected: Parsed<StatementView>,
) -> bool {
    &&& after.tokens == before.tokens
    &&& match expected {
        Ok((node, next)) => {
            &&& r matches Ok(s)
            &&& s@ == node
            &&& after.cursor == next
            &&& advanced(before.tokens@, before.cursor as int, next)
            &&& clear(before.tokens@, before.cursor as int, next)
        },
        Err(error) => r matches Err(e) && e@ == error,
    }
}

/// The same for a method that builds a list of expressions.
pub open spec fn parsed_expressions(
    before: Parser,
    after: Parser,
    r: Result<Vec<ASTExpression>, ParseError>,
    expected: Parsed<Seq<ExpressionView>>,
) -> bool {
    &&& after.tokens == before.tokens
    &&& match expected {
        Ok((nodes, next)) => {
            &&& r matches Ok(items)
            &&& expressions_model(items@) == nodes
            &&& after.cursor == next
            &&& advanced(before.tokens@, before.cursor as int, next)
            &&& clear(before.tokens@, before.cursor as int, next)
        },
        Err(error) => r matches Err(e) && e@ == error,
    }
}

/// The same for a method that builds a list of statements.
pub open spec fn parsed_statements(
    before: Parser,
    after: Parser,
    r: Result<Vec<ASTStatement>, ParseError>,
    expected: Parsed<Seq<StatementView>>,
) -> bool {
    &&& after.tokens == before.tokens
    &&& match expected {
        Ok((nodes, next)) => {
            &&& r matches Ok(items)
            &&& statements_model(items@) == nodes
            &&& after.cursor == next
            &&& advanced(before.tokens@, before.cursor as int, next)
            &&& clear(before.tokens@, before.cursor as int, next)
        },
        Err(error) => r matches Err(e) && e@ == error,
    }
}

fn leaf_node(kind: ASTExpressionKind, value: Value) -> (r: ASTExpression)
    ensures
        r@ == crate::grammar::leaf(kind, value@),
{
    proof {
        reveal_with_fuel(ASTExpression::model, 1);
        reveal_with_fuel(Value::model, 1);
    }
    ASTExpression { kind, body: ASTExpressionBody::Value(value) }
}

fn make_binary(left: ASTExpression, operator: Value, right: ASTExpression) -> (r: ASTExpression)
    ensures
        r@ == binary_node(left@, operator@, right@),
{
    proof {
        reveal_with_fuel(ASTExpression::model, 1);
        reveal_with_fuel(Value::model, 1);
    }
    ASTExpression {
        kind: ASTExpressionKind::BinaryExpression,
        body: ASTExpressionBody::BinaryExpressionBody(
            BinaryExpression { left: Box::new(left), operator, right: Box::new(right) },
        ),
    }
}

fn make_member(object: ASTExpression, property: ASTExpression, computed: bool) -> (r: ASTExpression)
    ensures
        r@ == member_node(object@, property@, computed),
{
    proof {
        reveal_with_fuel(ASTExpression::model, 1);
    }
    ASTExpression {
        kind: ASTExpressionKind::MemberExpression,
        body: ASTExpressionBody::MemberExpressionBody(
            MemberExpression { object: Box::new(object), property: Box::new(property), computed },
        ),
    }
}

fn make_call(arguments: Vec<ASTExpression>, caller: ASTExpression) -> (r: ASTExpression)
    ensures
        r@ == call_node(expressions_model(arguments@), caller@),
{
    proof {
        reveal_with_fuel(ASTExpression::model, 1);
    }
    ASTExpression {
        kind: ASTExpressionKind::CallExpression,
        body: ASTExpressionBody::CallExpressionBody(
            CallExpression { arguments, caller: Box::new(caller) },
        ),
    }
}

fn make_assignment(assignee: ASTExpression, value: ASTExpression) -> (r: ASTExpression)
    ensures
        r@ == crate::grammar::assignment_node(assignee@, value@),
{
    proof {
        reveal_with_fuel(ASTExpression::model, 1);
    }
    ASTExpression {
        kind: ASTExpressionKind::AssignmentExpression,
        body: ASTExpressionBody::AssignmentExpressionBody(
            VariableAssignment { assignee: Box::new(assignee), value: Box::new(value) },
        ),
    }
}

fn make_object(properties: Vec<Property>) -> (r: ASTExpression)
    ensures
        r@ == crate::grammar::object_node(properties_model(properties@)),
{
    proof {
        reveal_with_fuel(ASTExpression::model, 1);
        reveal_with_fuel(Value::model, 1);
        reveal_with_fuel(Property::model, 1);
    }
    leaf_node(ASTExpressionKind::ObjectLiteral, Value::Object(Object { properties }))
}

impl Parser {
    /// A parser at the start of the tokens of `file_contents`. The last of
    /// them, and no other, is tagged as the end marker.
    pub fn new(file_contents: String) -> (r: Result<Parser, LexError>)
        ensures
            match r {
                Ok(parser) => {
                    &&& parser.cursor == 0
                    &&& tokenize_spec(file_contents@) == Ok::<Seq<TokenView>, LexError>(
                        tokens_view(parser.tokens@),
                    )
                    &&& parser.tokens@.len() > 0
                    &&& forall|i: int| #[trigger]
                        is_marker(parser.tokens@, i) <==> i == parser.tokens@.len() - 1
                },
                Err(e) => tokenize_spec(file_contents@) == Err::<Seq<TokenView>, LexError>(e),
            },
    {
        match tokenize(file_contents.as_str()) {
            Ok(tokens) => {
                proof {
                    law_tokens_end_with_marker(file_contents@);
                    law_only_the_last_token_is_the_end_marker(file_contents@);
                    let views = tokens_view(tokens@);
                    assert forall|i: int| #[trigger]
                        is_marker(tokens@, i) <==> i == tokens@.len() - 1 by {
                        if 0 <= i < tokens@.len() {
                            assert(views[i].kind == tokens@[i].kind);
                        }
                    }
                }
                Ok(Parser { tokens, cursor: 0 })
            },
            Err(e) => Err(e),
        }
    }

    /// The tag of the token under the cursor.
    fn peek(&self) -> (kind: Type)
        ensures
            kind == kind_at(self.tokens@, self.cursor as int),
    {
        if self.cursor < self.tokens.len() {
            self.tokens[self.cursor].kind
        } else {
            Type::EOF
        }
    }

    /// The tag of the token `offset` places after the cursor.
    fn peek_ahead(&self, offset: usize) -> (kind: Type)
        ensures
            kind == kind_at(self.tokens@, self.cursor + offset),
    {
        if offset < self.tokens.len() && self.cursor < self.tokens.len() - offset {
            self.tokens[self.cursor + offset].kind
        } else {
            Type::EOF
        }
    }

    /// Tells whether the cursor is before the end marker.
    fn not_eof(&self) -> (r: bool)
        ensures
            r == (kind_at(self.tokens@, self.cursor as int) != Type::EOF),
    {
        self.peek() != Type::EOF
    }

    /// Tells whether the token under the cursor is the operator `text`.
    fn peek_operator(&self, text: &str) -> (r: bool)
        ensures
            r == (kind_at(self.tokens@, self.cursor as int) == Type::Operator && text_at(
                self.tokens@,
                self.cursor as int,
                text@,
            )),
    {
        proof {
            reveal_with_fuel(Value::model, 1);
        }
        if self.cursor < self.tokens.len() && self.tokens[self.cursor].kind == Type::Operator {
            match &self.tokens[self.cursor].value {
                Value::String(s) => spells(s, text),
                _ => false,
            }
        } else {
            false
        }
    }

    /// A copy of the token at `index`; past the end, the end marker.
    fn token_copy(&self, index: usize) -> (token: Token)
        ensures
            token@ == token_at(self.tokens@, index as int),
    {
        if index < self.tokens.len() {
            self.tokens[index].clone()
        } else {
            end_marker_token()
        }
    }

    /// The failure of a parser that expected `expected` at `index`.
    fn unexpected(&self, index: usize, expected: Expected) -> (e: ParseError)
        ensures
            e@ == (ParseErrorView { expected, found: token_at(self.tokens@, index as int) }),
    {
        ParseError { expected, found: self.token_copy(index) }
    }

    /// Moves the cursor past the token under it, if there is one.
    fn bump(&mut self)
        ensures
            final(self).tokens == old(self).tokens,
            final(self).cursor == (if old(self).cursor < old(self).tokens@.len() {
                old(self).cursor + 1
            } else {
                old(self).cursor as int
            }),
            kind_at(old(self).tokens@, old(self).cursor as int) != Type::EOF ==> clear(
                old(self).tokens@,
                old(self).cursor as int,
                final(self).cursor as int,
            ),
    {
        proof {
            if kind_at(self.tokens@, self.cursor as int) != Type::EOF {
                lemma_clear_step(self.tokens@, self.cursor as int);
            }
        }
        if self.cursor < self.tokens.len() {
            self.cursor = self.cursor + 1;
        }
    }

    /// Takes the token under the cursor; there must be one. Answers a copy of
    /// its payload and moves the cursor past it.
    fn advance(&mut self) -> (value: Value)
        requires
            old(self).cursor < old(self).tokens.len(),
        ensures
            final(self).tokens == old(self).tokens,
            final(self).cursor == old(self).cursor + 1,
            kind_at(old(self).tokens@, old(self).cursor as int) != Type::EOF ==> clear(
                old(self).tokens@,
                old(self).cursor as int,
                final(self).cursor as int,
            ),
            value@ == value_at(old(self).tokens@, old(self).cursor as int),
    {
        let value = self.tokens[self.cursor].value.duplicate();
        self.bump();
        value
    }

    /// Takes the token under the cursor if there is one and its tag is `kind`:
    /// answers a copy of its payload and moves the cursor past it. Fails
    /// otherwise, and leaves the cursor where it is.
    fn expect(&mut self, kind: Type) -> (r: Result<Value, ParseError>)
        ensures
            final(self).tokens == old(self).tokens,
            match r {
                Ok(value) => {
                    &&& old(self).cursor < old(self).tokens.len()
                    &&& kind_at(old(self).tokens@, old(self).cursor as int) == kind
                    &&& final(self).cursor == old(self).cursor + 1
                    &&& value@ == value_at(old(self).tokens@, old(self).cursor as int)
                    &&& kind != Type::EOF ==> clear(
                        old(self).tokens@,
                        old(self).cursor as int,
                        final(self).cursor as int,
                    )
                },
                Err(e) => {
                    &&& !(old(self).cursor < old(self).tokens.len() && kind_at(
                        old(self).tokens@,
                        old(self).cursor as int,
                    ) == kind)
                    &&& final(self).cursor == old(self).cursor
                    &&& e@ == (ParseErrorView {
                        expected: Expected::Token(kind),
                        found: token_at(old(self).tokens@, old(self).cursor as int),
                    })
                },
            },
    {
        if self.cursor < self.tokens.len() && self.tokens[self.cursor].kind == kind {
            Ok(self.advance())
        } else {
            Err(self.unexpected(self.cursor, Expected::Token(kind)))
        }
    }

    /// primary := identifier | number | string | `(` expression `)`
    fn parse_primary_expression(&mut self) -> (r: Result<ASTExpression, ParseError>)
        ensures
            parsed_expression(
                *old(self),
                *final(self),
                r,
                parse_primary(old(self).tokens@, old(self).cursor as int),
            ),
        decreases left(old(self).tokens@, old(self).cursor as int), 13nat,
    {
        proof {
            reveal_with_fuel(parse_primary, 1);
            reveal_with_fuel(parse_expression, 1);
        }
        let kind = self.peek();
        if self.cursor >= self.tokens.len() {
            return Err(self.unexpected(self.cursor, Expected::Expression));
        }
        if kind == Type::Identifier {
            let value = self.advance();
            Ok(leaf_node(ASTExpressionKind::Identifier, value))
        } else if kind == Type::Number {
            let value = self.advance();
            Ok(leaf_node(ASTExpressionKind::NumericLiteral, value))
        } else if kind == Type::String {
            let value = self.advance();
            Ok(leaf_node(ASTExpressionKind::StringLiteral, value))
        } else if kind == Type::OpenParen {
            self.bump();
            let inner = match self.parse_expression() {
                Ok(inner) => inner,
                Err(e) => {
                    return Err(e);
                },
            };
            match self.expect(Type::CloseParen) {
                Ok(_) => Ok(inner),
                Err(e) => Err(e),
            }
        } else {
            Err(self.unexpected(self.cursor, Expected::Expression))
        }
    }

    /// expression := assignment
    fn parse_expression(&mut self) -> (r: Result<ASTExpression, ParseError>)
        ensures
            parsed_expression(
                *old(self),
                *final(self),
                r,
                parse_expression(old(self).tokens@, old(self).cursor as int),
            ),
        decreases left(old(self).tokens@, old(self).cursor as int), 20nat,
    {
        proof {
            reveal_with_fuel(parse_expression, 1);
            reveal_with_fuel(parse_assignment, 1);
        }
        self.parse_assignment_expression()
    }

    /// assignment := object [ `=` assignment ], right-associative
    fn parse_assignment_expression(&mut self) -> (r: Result<ASTExpression, ParseError>)
        ensures
            parsed_expression(
                *old(self),
                *final(self),
                r,
                parse_assignment(old(self).tokens@, old(self).cursor as int),
            ),
        decreases left(old(self).tokens@, old(self).cursor as int), 19nat,
    {
        proof {
            reveal_with_fuel(parse_assignment, 1);
            reveal_with_fuel(parse_object, 1);
        }
        let target = match self.parse_object_expression() {
            Ok(target) => target,
            Err(e) => {
                return Err(e);
            },
        };
        if self.peek() == Type::Equals {
            self.bump();
            match self.parse_assignment_expression() {
                Ok(value) => Ok(make_assignment(target, value)),
                Err(e) => Err(e),
            }
        } else {
            Ok(target)
        }
    }

    /// object := `{` properties `}` | additive
    #[verifier::rlimit(50)]
    fn parse_object_expression(&mut self) -> (r: Result<ASTExpression, ParseError>)
        ensures
            parsed_expression(
                *old(self),
                *final(self),
                r,
                parse_object(old(self).tokens@, old(self).cursor as int),
            ),
        decreases left(old(self).tokens@, old(self).cursor as int), 18nat,
    {
        proof {
            reveal_with_fuel(Value::model, 1);
            reveal_with_fuel(Property::model, 1);
            reveal_with_fuel(ASTExpression::model, 1);
            reveal_with_fuel(parse_object, 1);
            reveal_with_fuel(parse_properties, 1);
            reveal_with_fuel(parse_additive, 1);
            reveal_with_fuel(parse_expression, 1);
        }
        if self.peek() != Type::OpenBrace {
            return self.parse_additive_expression();
        }
        let ghost tokens = self.tokens@;
        let ghost start = self.cursor as int;
        self.bump();
        let mut properties: Vec<Property> = Vec::new();
        assert(properties_model(properties@) =~= Seq::empty());
        while self.not_eof() && self.peek() != Type::CloseBrace
            invariant
                self.tokens == old(self).tokens,
                self.tokens@ == tokens,
                old(self).cursor == start,
                advanced(tokens, start, self.cursor as int),
                clear(tokens, start, self.cursor as int),
                parse_object(tokens, start) == parse_properties(
                    tokens,
                    self.cursor as int,
                    properties_model(properties@),
                ),
            decreases left(tokens, self.cursor as int),
        {
            proof {
                reveal_with_fuel(Value::model, 1);
                reveal_with_fuel(Property::model, 1);
                reveal_with_fuel(ASTExpression::model, 1);
                reveal_with_fuel(parse_object, 1);
                reveal_with_fuel(parse_properties, 1);
                reveal_with_fuel(parse_additive, 1);
                reveal_with_fuel(parse_expression, 1);
            }
            let key = match self.expect(Type::Identifier) {
                Ok(Value::String(key)) => key,
                Ok(_) => {
                    return Err(self.unexpected(self.cursor - 1, Expected::Token(Type::Identifier)));
                },
                Err(e) => {
                    return Err(e);
                },
            };
            let after = self.peek();
            if after == Type::Comma {
                self.bump();
                let property = Property { key, value: None };
                proof {
                    lemma_properties_push(properties@, property);
                }
                properties.push(property);
            } else if after == Type::CloseBrace {
                let property = Property { key, value: None };
                proof {
                    lemma_properties_push(properties@, property);
                }
                properties.push(property);
            } else {
                match self.expect(Type::Colon) {
                    Ok(_) => {},
                    Err(e) => {
                        return Err(e);
                    },
                }
                let value = match self.parse_expression() {
                    Ok(value) => value,
                    Err(e) => {
                        return Err(e);
                    },
                };
                let property = Property { key, value: Some(value) };
                proof {
                    lemma_properties_push(properties@, property);
                }
                properties.push(property);
                if self.peek() != Type::CloseBrace {
                    match self.expect(Type::Comma) {
                        Ok(_) => {},
                        Err(e) => {
                            return Err(e);
                        },
                    }
                }
            }
        }
        match self.expect(Type::CloseBrace) {
            Ok(_) => Ok(make_object(properties)),
            Err(e) => Err(e),
        }
    }

    /// additive := multiplicative { (`+` | `-`) multiplicative }, left-associative
    fn parse_additive_expression(&mut self) -> (r: Result<ASTExpression, ParseError>)
        ensures
            parsed_expression(
                *old(self),
                *final(self),
                r,
                parse_additive(old(self).tokens@, old(self).cursor as int),
            ),
        decreases left(old(self).tokens@, old(self).cursor as int), 17nat,
    {
        proof {
            reveal_with_fuel(parse_additive, 1);
            reveal_with_fuel(parse_additive_tail, 1);
            reveal_with_fuel(parse_multiplicative, 1);
        }
        let ghost tokens = self.tokens@;
        let ghost start = self.cursor as int;
        let mut sum = match self.parse_multiplicative_expression() {
            Ok(first) => first,
            Err(e) => {
                return Err(e);
            },
        };
        while self.peek_operator("+") || self.peek_operator("-")
            invariant
                self.tokens == old(self).tokens,
                self.tokens@ == tokens,
                old(self).cursor == start,
                advanced(tokens, start, self.cursor as int),
                clear(tokens, start, self.cursor as int),
                parse_additive(tokens, start) == parse_additive_tail(
                    tokens,
                    self.cursor as int,
                    sum@,
                ),
            decreases left(tokens, self.cursor as int),
        {
            proof {
                reveal_with_fuel(parse_additive, 1);
                reveal_with_fuel(parse_additive_tail, 1);
                reveal_with_fuel(parse_multiplicative, 1);
            }
            let operator = self.advance();
            let right = match self.parse_multiplicative_expression() {
                Ok(right) => right,
                Err(e) => {
                    return Err(e);
                },
            };
            sum = make_binary(sum, operator, right);
        }
        Ok(sum)
    }

    /// multiplicative := call_member { (`*` | `/` | `%`) call_member }, left-associative
    fn parse_multiplicative_expression(&mut self) -> (r: Result<ASTExpression, ParseError>)
        ensures
            parsed_expression(
                *old(self),
                *final(self),
                r,
                parse_multiplicative(old(self).tokens@, old(self).cursor as int),
            ),
        decreases left(old(self).tokens@, old(self).cursor as int), 16nat,
    {
        proof {
            reveal_with_fuel(parse_multiplicative, 1);
            reveal_with_fuel(parse_multiplicative_tail, 1);
            reveal_with_fuel(parse_call_member, 1);
        }
        let ghost tokens = self.tokens@;
        let ghost start = self.cursor as int;
        let mut product = match self.parse_call_member_expression() {
            Ok(first) => first,
            Err(e) => {
                return Err(e);
            },
        };
        while self.peek_operator("*") || self.peek_operator("/") || self.peek_operator("%")
            invariant
                self.tokens == old(self).tokens,
                self.tokens@ == tokens,
                old(self).cursor == start,
                advanced(tokens, start, self.cursor as int),
                clear(tokens, start, self.cursor as int),
                parse_multiplicative(tokens, start) == parse_multiplicative_tail(
                    tokens,
                    self.cursor as int,
                    product@,
                ),
            decreases left(tokens, self.cursor as int),
        {
            proof {
                reveal_with_fuel(parse_multiplicative, 1);
                reveal_with_fuel(parse_multiplicative_tail, 1);
                reveal_with_fuel(parse_call_member, 1);
            }
            let operator = self.advance();
            let right = match self.parse_call_member_expression() {
                Ok(right) => right,
                Err(e) => {
                    return Err(e);
                },
            };
            product = make_binary(product, operator, right);
        }
        Ok(product)
    }

    /// call_member := primary { call | member access }
    fn parse_call_member_expression(&mut self) -> (r: Result<ASTExpression, ParseError>)
        ensures
            parsed_expression(
                *old(self),
                *final(self),
                r,
                parse_call_member(old(self).tokens@, old(self).cursor as int),
            ),
        decreases left(old(self).tokens@, old(self).cursor as int), 15nat,
    {
        proof {
            reveal_with_fuel(parse_call_member, 1);
            reveal_with_fuel(parse_postfix, 1);
            reveal_with_fuel(parse_primary, 1);
            reveal_with_fuel(parse_call_suffix, 1);
            reveal_with_fuel(parse_member_suffix, 1);
        }
        let ghost tokens = self.tokens@;
        let ghost start = self.cursor as int;
        let mut inner = match self.parse_primary_expression() {
            Ok(first) => first,
            Err(e) => {
                return Err(e);
            },
        };
        while self.peek() == Type::OpenParen || self.peek() == Type::Dot || self.peek()
            == Type::OpenBracket
            invariant
                self.tokens == old(self).tokens,
                self.tokens@ == tokens,
                old(self).cursor == start,
                advanced(tokens, start, self.cursor as int),
                clear(tokens, start, self.cursor as int),
                parse_call_member(tokens, start) == parse_postfix(
                    tokens,
                    self.cursor as int,
                    inner@,
                ),
            decreases left(tokens, self.cursor as int),
        {
            proof {
                reveal_with_fuel(parse_call_member, 1);
                reveal_with_fuel(parse_postfix, 1);
                reveal_with_fuel(parse_primary, 1);
                reveal_with_fuel(parse_call_suffix, 1);
                reveal_with_fuel(parse_member_suffix, 1);
            }
            let applied = if self.peek() == Type::OpenParen {
                self.parse_call_expression(inner)
            } else {
                self.parse_member_expression(inner)
            };
            inner = match applied {
                Ok(applied) => applied,
                Err(e) => {
                    return Err(e);
                },
            };
        }
        Ok(inner)
    }

    /// One call of `caller`: its argument list.
    fn parse_call_expression(&mut self, caller: ASTExpression) -> (r: Result<
        ASTExpression,
        ParseError,
    >)
        ensures
            parsed_expression(
                *old(self),
                *final(self),
                r,
                parse_call_suffix(old(self).tokens@, old(self).cursor as int, caller@),
            ),
        decreases left(old(self).tokens@, old(self).cursor as int), 10nat,
    {
        proof {
            reveal_with_fuel(parse_call_suffix, 1);
            reveal_with_fuel(parse_arguments, 1);
        }
        match self.parse_arguments() {
            Ok(arguments) => Ok(make_call(arguments, caller)),
            Err(e) => Err(e),
        }
    }

    /// arguments := `(` [ assignment { `,` assignment } ] `)`
    fn parse_arguments(&mut self) -> (r: Result<Vec<ASTExpression>, ParseError>)
        ensures
            parsed_expressions(
                *old(self),
                *final(self),
                r,
                parse_arguments(old(self).tokens@, old(self).cursor as int),
            ),
        decreases left(old(self).tokens@, old(self).cursor as int), 9nat,
    {
        proof {
            reveal_with_fuel(parse_arguments, 1);
            reveal_with_fuel(parse_arguments_list, 1);
        }
        match self.expect(Type::OpenParen) {
            Ok(_) => {},
            Err(e) => {
                return Err(e);
            },
        }
        let arguments = if self.peek() == Type::CloseParen {
            let empty: Vec<ASTExpression> = Vec::new();
            assert(expressions_model(empty@) =~= Seq::empty());
            empty
        } else {
            match self.parse_arguments_list() {
                Ok(arguments) => arguments,
                Err(e) => {
                    return Err(e);
                },
            }
        };
        match self.expect(Type::CloseParen) {
            Ok(_) => Ok(arguments),
            Err(e) => Err(e),
        }
    }

    /// A non-empty, comma-separated list of assignment expressions.
    fn parse_arguments_list(&mut self) -> (r: Result<Vec<ASTExpression>, ParseError>)
        ensures
            parsed_expressions(
                *old(self),
                *final(self),
                r,
                parse_arguments_list(old(self).tokens@, old(self).cursor as int),
            ),
        decreases left(old(self).tokens@, old(self).cursor as int), 21nat,
    {
        proof {
            reveal_with_fuel(parse_arguments_list, 1);
            reveal_with_fuel(parse_arguments_tail, 1);
            reveal_with_fuel(parse_assignment, 1);
        }
        let ghost tokens = self.tokens@;
        let ghost start = self.cursor as int;
        let first = match self.parse_assignment_expression() {
            Ok(first) => first,
            Err(e) => {
                return Err(e);
            },
        };
        let mut arguments: Vec<ASTExpression> = Vec::new();
        proof {
            lemma_expressions_push(arguments@, first);
            assert(expressions_model(arguments@) =~= Seq::empty());
            assert(Seq::<ExpressionView>::empty().push(first@) =~= seq![first@]);
        }
        arguments.push(first);
        while self.peek() == Type::Comma
            invariant
                self.tokens == old(self).tokens,
                self.tokens@ == tokens,
                old(self).cursor == start,
                advanced(tokens, start, self.cursor as int),
                clear(tokens, start, self.cursor as int),
                parse_arguments_list(tokens, start) == parse_arguments_tail(
                    tokens,
                    self.cursor as int,
                    expressions_model(arguments@),
                ),
            decreases left(tokens, self.cursor as int),
        {
            proof {
                reveal_with_fuel(parse_arguments_list, 1);
                reveal_with_fuel(parse_arguments_tail, 1);
                reveal_with_fuel(parse_assignment, 1);
            }
            self.bump();
            let argument = match self.parse_assignment_expression() {
                Ok(argument) => argument,
                Err(e) => {
                    return Err(e);
                },
            };
            proof {
                lemma_expressions_push(arguments@, argument);
            }
            arguments.push(argument);
        }
        Ok(arguments)
    }

    /// One member access on `object`: `.` property or `[` expression `]`.
    fn parse_member_expression(&mut self, object: ASTExpression) -> (r: Result<
        ASTExpression,
        ParseError,
    >)
        ensures
            parsed_expression(
                *old(self),
                *final(self),
                r,
                parse_member_suffix(old(self).tokens@, old(self).cursor as int, object@),
            ),
        decreases left(old(self).tokens@, old(self).cursor as int), 10nat,
    {
        proof {
            reveal_with_fuel(ASTExpression::model, 1);
            reveal_with_fuel(parse_member_suffix, 1);
            reveal_with_fuel(parse_primary, 1);
            reveal_with_fuel(parse_expression, 1);
        }
        let kind = self.peek();
        if kind != Type::Dot && kind != Type::OpenBracket {
            return Err(self.unexpected(self.cursor, Expected::Token(Type::Dot)));
        }
        let dot = kind == Type::Dot;
        let at = self.cursor;
        self.bump();
        if dot {
            let property = match self.parse_primary_expression() {
                Ok(property) => property,
                Err(e) => {
                    return Err(e);
                },
            };
            if property.kind != ASTExpressionKind::Identifier {
                return Err(self.unexpected(at + 1, Expected::Token(Type::Identifier)));
            }
            Ok(make_member(object, property, false))
        } else {
            let property = match self.parse_expression() {
                Ok(property) => property,
                Err(e) => {
                    return Err(e);
                },
            };
            match self.expect(Type::CloseBracket) {
                Ok(_) => Ok(make_member(object, property, true)),
                Err(e) => Err(e),
            }
        }
    }
}

/// The model of an optional expression.
pub open spec fn optional_view(item: Option<ASTExpression>) -> Option<ExpressionView> {
    match item {
        Some(e) => Some(e@),
        None => None,
    }
}

/// The model of an optional statement.
pub open spec fn optional_statement_view(item: Option<ASTStatement>) -> Option<StatementView> {
    match item {
        Some(s) => Some(s@),
        None => None,
    }
}

fn make_expression_statement(expression: ASTExpression) -> (r: ASTStatement)
    ensures
        r@ == StatementView::Expression(expression@),
{
    proof {
        reveal_with_fuel(ASTStatement::model, 1);
        reveal_with_fuel(ASTExpression::model, 1);
    }
    ASTStatement { kind: ASTStatementKind::ExpressionStatement(expression) }
}

fn make_variable(constant: bool, identifier: Value, value: Option<ASTExpression>) -> (r:
    ASTStatement)
    ensures
        r@ == (StatementView::Variable {
            constant,
            identifier: identifier@,
            value: optional_view(value),
        }),
{
    proof {
        reveal_with_fuel(ASTStatement::model, 1);
        reveal_with_fuel(VariableDeclaration::model, 1);
        reveal_with_fuel(ASTExpression::model, 1);
        reveal_with_fuel(Value::model, 1);
    }
    ASTStatement {
        kind: ASTStatementKind::VariableDeclaration(
            VariableDeclaration { constant, identifier, value },
        ),
    }
}

fn make_function(identifier: String, parameters: Vec<String>, body: Vec<ASTStatement>) -> (r:
    ASTStatement)
    ensures
        r@ == (StatementView::Function {
            name: identifier@,
            parameters: names_model(parameters@),
            body: statements_model(body@),
        }),
{
    proof {
        reveal_with_fuel(ASTStatement::model, 1);
        reveal_with_fuel(FunctionDeclaration::model, 1);
    }
    ASTStatement {
        kind: ASTStatementKind::FunctionDeclaration(
            FunctionDeclaration { identifier, parameters, body },
        ),
    }
}

fn make_conditional(
    condition: Option<ASTExpression>,
    consequence: Vec<ASTStatement>,
    alternate: Option<ASTStatement>,
) -> (r: ASTStatement)
    ensures
        r@ == conditional_node(
            optional_view(condition),
            statements_model(consequence@),
            optional_statement_view(alternate),
        ),
{
    proof {
        reveal_with_fuel(ASTStatement::model, 1);
        reveal_with_fuel(ConditionalStatement::model, 1);
        reveal_with_fuel(ASTExpression::model, 1);
    }
    let alternate = match alternate {
        Some(a) => Some(Box::new(a)),
        None => None,
    };
    ASTStatement {
        kind: ASTStatementKind::ConditionalStatement(
            ConditionalStatement { condition, consequence, alternate },
        ),
    }
}

/// The names that the parameter nodes declare, if every node is a plain identifier.
fn parameters_of(nodes: &Vec<ASTExpression>) -> (r: Option<Vec<String>>)
    ensures
        match r {
            Some(names) => are_parameters(expressions_model(nodes@)) && names_model(names@)
                == parameter_names(expressions_model(nodes@)),
            None => !are_parameters(expressions_model(nodes@)),
        },
{
    let mut names: Vec<String> = Vec::new();
    let mut i: usize = 0;
    proof {
        lemma_expressions_model(nodes@);
    }
    while i < nodes.len()
        invariant
            i <= nodes.len(),
            names@.len() == i,
            expressions_model(nodes@).len() == nodes@.len(),
            forall|j: int|
                0 <= j < nodes@.len() ==> (#[trigger] expressions_model(nodes@)[j]) == nodes@[j]@,
            forall|j: int|
                0 <= j < i ==> parameter_name(#[trigger] expressions_model(nodes@)[j]) == Some(
                    names@[j]@,
                ),
        decreases nodes.len() - i,
    {
        proof {
            reveal_with_fuel(ASTExpression::model, 1);
            reveal_with_fuel(Value::model, 1);
        }
        let node = &nodes[i];
        let ghost model = expressions_model(nodes@)[i as int];
        assert(model == nodes@[i as int]@);
        assert(model == node.model());
        assert(model.kind == node.kind);
        match &node.body {
            ASTExpressionBody::Value(value) => {
                assert(model.body == ExpressionBodyView::Value(value.model()));
                match value {
                    Value::String(name) => {
                        if node.kind == ASTExpressionKind::Identifier {
                            names.push(name.clone());
                        } else {
                            return None;
                        }
                    },
                    _ => {
                        return None;
                    },
                }
            },
            _ => {
                return None;
            },
        }
        i += 1;
    }
    proof {
        lemma_names_model(names@);
        assert(names_model(names@) =~= parameter_names(expressions_model(nodes@)));
    }
    Some(names)
}

impl Parser {
    /// Parses the whole program: statements up to the first end marker, on
    /// which the cursor then rests.
    pub fn parse(&mut self) -> (r: Result<AST, ParseError>)
        ensures
            final(self).tokens == old(self).tokens,
            r is Ok ==> {
                &&& old(self).cursor <= final(self).cursor
                &&& unmarked(old(self).tokens@, old(self).cursor as int, final(self).cursor as int)
                &&& kind_at(old(self).tokens@, final(self).cursor as int) == Type::EOF
                &&& (exists|j: int|
                    old(self).cursor <= j && #[trigger] is_marker(old(self).tokens@, j))
                    ==> is_marker(old(self).tokens@, final(self).cursor as int)
            },
            match parse_program(old(self).tokens@, old(self).cursor as int, Seq::empty()) {
                Ok(statements) => r matches Ok(ast) && ast@ == (ProgramView {
                    kind: "Program"@,
                    statements,
                }),
                Err(error) => r matches Err(e) && e@ == error,
            },
    {
        let ghost tokens = self.tokens@;
        let ghost start = self.cursor as int;
        let mut statements: Vec<ASTStatement> = Vec::new();
        assert(statements_model(statements@) =~= Seq::empty());
        while self.not_eof()
            invariant
                self.tokens == old(self).tokens,
                self.tokens@ == tokens,
                old(self).cursor == start,
                start <= self.cursor,
                clear(tokens, start, self.cursor as int),
                parse_program(tokens, start, Seq::empty()) == parse_program(
                    tokens,
                    self.cursor as int,
                    statements_model(statements@),
                ),
            decreases left(tokens, self.cursor as int),
        {
            proof {
                reveal_with_fuel(parse_program, 1);
                reveal_with_fuel(parse_statement, 1);
            }
            let statement = match self.parse_statement() {
                Ok(statement) => statement,
                Err(e) => {
                    return Err(e);
                },
            };
            proof {
                lemma_statements_push(statements@, statement);
            }
            statements.push(statement);
        }
        proof {
            reveal_with_fuel(parse_program, 1);
            lemma_clear_is_unmarked(tokens, start, self.cursor as int);
        }
        Ok(AST { kind: "Program".to_owned(), statements })
    }

    /// statement := declaration | function | conditional | expression [ `;` ]
    fn parse_statement(&mut self) -> (r: Result<ASTStatement, ParseError>)
        ensures
            parsed_statement(
                *old(self),
                *final(self),
                r,
                parse_statement(old(self).tokens@, old(self).cursor as int),
            ),
        decreases left(old(self).tokens@, old(self).cursor as int), 30nat,
    {
        proof {
            reveal_with_fuel(parse_statement, 1);
            reveal_with_fuel(parse_variable_declaration, 1);
            reveal_with_fuel(parse_function_declaration, 1);
            reveal_with_fuel(parse_conditional, 1);
            reveal_with_fuel(parse_expression, 1);
        }
        let kind = self.peek();
        if kind == Type::Let || kind == Type::Const {
            self.parse_variable_declaration()
        } else if kind == Type::For || kind == Type::While {
            self.parse_loop_statement()
        } else if kind == Type::Fn {
            self.parse_function_declaration()
        } else if kind == Type::If {
            self.parse_conditional_statement()
        } else {
            match self.parse_expression() {
                Ok(expression) => {
                    if self.peek() == Type::Semi {
                        self.bump();
                    }
                    Ok(make_expression_statement(expression))
                },
                Err(e) => Err(e),
            }
        }
    }

    /// A statement that starts with `for` or `while`: it cannot be built.
    fn parse_loop_statement(&mut self) -> (r: Result<ASTStatement, ParseError>)
        ensures
            *final(self) == *old(self),
            r matches Err(e) && e@ == (ParseErrorView {
                expected: Expected::Statement,
                found: token_at(old(self).tokens@, old(self).cursor as int),
            }),
    {
        Err(self.unexpected(self.cursor, Expected::Statement))
    }

    /// declaration := (`let` | `const`) identifier [ `=` expression ] `;`
    fn parse_variable_declaration(&mut self) -> (r: Result<ASTStatement, ParseError>)
        ensures
            parsed_statement(
                *old(self),
                *final(self),
                r,
                parse_variable_declaration(old(self).tokens@, old(self).cursor as int),
            ),
        decreases left(old(self).tokens@, old(self).cursor as int), 25nat,
    {
        proof {
            reveal_with_fuel(parse_variable_declaration, 1);
            reveal_with_fuel(parse_expression, 1);
        }
        let kind = self.peek();
        if kind != Type::Let && kind != Type::Const {
            return Err(self.unexpected(self.cursor, Expected::Statement));
        }
        let constant = kind == Type::Const;
        self.bump();
        let identifier = match self.expect(Type::Identifier) {
            Ok(identifier) => identifier,
            Err(e) => {
                return Err(e);
            },
        };
        if self.peek() == Type::Semi {
            if constant {
                return Err(self.unexpected(self.cursor, Expected::Token(Type::Equals)));
            }
            self.bump();
            return Ok(make_variable(false, identifier, None));
        }
        match self.expect(Type::Equals) {
            Ok(_) => {},
            Err(e) => {
                return Err(e);
            },
        }
        let value = match self.parse_expression() {
            Ok(value) => value,
            Err(e) => {
                return Err(e);
            },
        };
        match self.expect(Type::Semi) {
            Ok(_) => Ok(make_variable(constant, identifier, Some(value))),
            Err(e) => Err(e),
        }
    }

    /// The rest of a brace-delimited body, after the statements `before`, up
    /// to and including the closing brace.
    fn parse_block(&mut self, before: Vec<ASTStatement>) -> (r: Result<
        Vec<ASTStatement>,
        ParseError,
    >)
        ensures
            parsed_statements(
                *old(self),
                *final(self),
                r,
                parse_block(
                    old(self).tokens@,
                    old(self).cursor as int,
                    statements_model(before@),
                ),
            ),
        decreases left(old(self).tokens@, old(self).cursor as int), 31nat,
    {
        let ghost tokens = self.tokens@;
        let ghost start = self.cursor as int;
        let mut statements = before;
        while self.not_eof() && self.peek() != Type::CloseBrace
            invariant
                self.tokens == old(self).tokens,
                self.tokens@ == tokens,
                old(self).cursor == start,
                start <= self.cursor,
                clear(tokens, start, self.cursor as int),
                parse_block(tokens, start, statements_model(before@)) == parse_block(
                    tokens,
                    self.cursor as int,
                    statements_model(statements@),
                ),
            decreases left(tokens, self.cursor as int),
        {
            proof {
                reveal_with_fuel(parse_block, 1);
                reveal_with_fuel(parse_statement, 1);
            }
            let statement = match self.parse_statement() {
                Ok(statement) => statement,
                Err(e) => {
                    return Err(e);
                },
            };
            proof {
                lemma_statements_push(statements@, statement);
            }
            statements.push(statement);
        }
        proof {
            reveal_with_fuel(parse_block, 1);
        }
        match self.expect(Type::CloseBrace) {
            Ok(_) => Ok(statements),
            Err(e) => Err(e),
        }
    }

    /// `{` statement { statement } `}`
    fn parse_body(&mut self) -> (r: Result<Vec<ASTStatement>, ParseError>)
        ensures
            parsed_statements(
                *old(self),
                *final(self),
                r,
                parse_body(old(self).tokens@, old(self).cursor as int),
            ),
        decreases left(old(self).tokens@, old(self).cursor as int), 32nat,
    {
        proof {
            reveal_with_fuel(parse_body, 1);
            reveal_with_fuel(parse_block, 1);
            reveal_with_fuel(parse_statement, 1);
        }
        match self.expect(Type::OpenBrace) {
            Ok(_) => {},
            Err(e) => {
                return Err(e);
            },
        }
        let first = match self.parse_statement() {
            Ok(first) => first,
            Err(e) => {
                return Err(e);
            },
        };
        let mut statements: Vec<ASTStatement> = Vec::new();
        proof {
            lemma_statements_push(statements@, first);
            assert(statements_model(statements@) =~= Seq::empty());
            assert(Seq::<StatementView>::empty().push(first@) =~= seq![first@]);
        }
        statements.push(first);
        self.parse_block(statements)
    }

    /// function := `fn` identifier arguments `{` { statement } `}`
    fn parse_function_declaration(&mut self) -> (r: Result<ASTStatement, ParseError>)
        ensures
            parsed_statement(
                *old(self),
                *final(self),
                r,
                parse_function_declaration(old(self).tokens@, old(self).cursor as int),
            ),
        decreases left(old(self).tokens@, old(self).cursor as int), 25nat,
    {
        proof {
            reveal_with_fuel(parse_function_declaration, 1);
            reveal_with_fuel(parse_arguments, 1);
            reveal_with_fuel(parse_block, 1);
            reveal_with_fuel(Value::model, 1);
        }
        if self.peek() != Type::Fn {
            return Err(self.unexpected(self.cursor, Expected::Statement));
        }
        self.bump();
        let identifier = match self.expect(Type::Identifier) {
            Ok(Value::String(identifier)) => identifier,
            Ok(_) => {
                return Err(self.unexpected(self.cursor - 1, Expected::Token(Type::Identifier)));
            },
            Err(e) => {
                return Err(e);
            },
        };
        let open = self.cursor;
        let arguments = match self.parse_arguments() {
            Ok(arguments) => arguments,
            Err(e) => {
                return Err(e);
            },
        };
        let parameters = match parameters_of(&arguments) {
            Some(parameters) => parameters,
            None => {
                return Err(self.unexpected(open, Expected::Token(Type::Identifier)));
            },
        };
        match self.expect(Type::OpenBrace) {
            Ok(_) => {},
            Err(e) => {
                return Err(e);
            },
        }
        let empty: Vec<ASTStatement> = Vec::new();
        assert(statements_model(empty@) =~= Seq::empty());
        match self.parse_block(empty) {
            Ok(body) => Ok(make_function(identifier, parameters, body)),
            Err(e) => Err(e),
        }
    }

    /// conditional := `if` expression body { `else` conditional } [ `else` body ]
    fn parse_conditional_statement(&mut self) -> (r: Result<ASTStatement, ParseError>)
        ensures
            parsed_statement(
                *old(self),
                *final(self),
                r,
                parse_conditional(old(self).tokens@, old(self).cursor as int),
            ),
        decreases left(old(self).tokens@, old(self).cursor as int), 25nat,
    {
        proof {
            reveal_with_fuel(parse_conditional, 1);
            reveal_with_fuel(parse_alternates, 1);
            reveal_with_fuel(parse_expression, 1);
            reveal_with_fuel(parse_body, 1);
        }
        let ghost tokens = self.tokens@;
        let ghost start = self.cursor as int;
        if self.peek() != Type::If {
            return Err(self.unexpected(self.cursor, Expected::Statement));
        }
        self.bump();
        let condition = match self.parse_expression() {
            Ok(condition) => condition,
            Err(e) => {
                return Err(e);
            },
        };
        let consequence = match self.parse_body() {
            Ok(consequence) => consequence,
            Err(e) => {
                return Err(e);
            },
        };
        let mut alternate: Option<ASTStatement> = None;
        while self.peek() == Type::Else
            invariant
                self.tokens == old(self).tokens,
                self.tokens@ == tokens,
                old(self).cursor == start,
                advanced(tokens, start, self.cursor as int),
                clear(tokens, start, self.cursor as int),
                parse_conditional(tokens, start) == parse_alternates(
                    tokens,
                    self.cursor as int,
                    Some(condition@),
                    statements_model(consequence@),
                    optional_statement_view(alternate),
                ),
            decreases left(tokens, self.cursor as int),
        {
            proof {
                reveal_with_fuel(parse_conditional, 1);
                reveal_with_fuel(parse_alternates, 1);
                reveal_with_fuel(parse_body, 1);
            }
            if self.peek_ahead(1) == Type::If {
                self.bump();
                let next = match self.parse_conditional_statement() {
                    Ok(next) => next,
                    Err(e) => {
                        return Err(e);
                    },
                };
                alternate = Some(next);
            } else {
                self.bump();
                let body = match self.parse_body() {
                    Ok(body) => body,
                    Err(e) => {
                        return Err(e);
                    },
                };
                let otherwise = make_conditional(None, body, None);
                return Ok(make_conditional(Some(condition), consequence, Some(otherwise)));
            }
        }
        Ok(make_conditional(Some(condition), consequence, alternate))
    }
}

/// Parses a token sequence into a program.
pub fn parse(tokens: Vec<Token>) -> (r: Result<AST, ParseError>)
    ensures
        match parse_program(tokens@, 0, Seq::empty()) {
            Ok(statements) => r matches Ok(ast) && ast@ == (ProgramView {
                kind: "Program"@,
                statements,
            }),
            Err(error) => r matches Err(e) && e@ == error,
        },
{
    let mut parser = Parser { tokens, cursor: 0 };
    parser.parse()
}

} // verus!
