//! Every successful parse takes at least one token and stays within the
//! token sequence.
//!
//! The grammar asks, wherever it goes on after a sub-parse, that the
//! sub-parse `advanced`. The laws here, one for each function of the grammar,
//! show for every token sequence that the answer is always yes.
use crate::ast::{ExpressionView, PropertyView, StatementView, ValueView};
use crate::grammar::{
    advanced, are_parameters, binary_node, is_additive, is_multiplicative, kind_at, left,
    parse_additive, parse_additive_tail, parse_alternates, parse_arguments,
    parse_arguments_list, parse_arguments_tail, parse_assignment, parse_block, parse_body,
    parse_call_member, parse_call_suffix, parse_conditional, parse_expression,
    parse_function_declaration, parse_member_suffix, parse_multiplicative,
    parse_multiplicative_tail, parse_object, parse_postfix, parse_primary, parse_properties,
    parse_statement, parse_variable_declaration, value_at,
};
use crate::lexer::{Token, Type};
use vstd::prelude::*;

verus! {

/// Whether a parse that may take nothing, started at `pos` within the
/// sequence, ended at `next` within it and not before `pos`.
pub open spec fn continued(tokens: Seq<Token>, pos: int, next: int) -> bool {
    0 <= pos <= tokens.len() ==> pos <= next <= tokens.len()
}

/// Where `parse_primary` succeeds, it has taken at least one token and ended within the
/// token sequence.
pub proof fn law_primary_advances(tokens: Seq<Token>, pos: int)
    ensures
        parse_primary(tokens, pos) matches Ok((_, next)) ==> advanced(tokens, pos, next),
    decreases left(tokens, pos), 13nat,
{
    reveal_with_fuel(parse_primary, 1);
    reveal_with_fuel(parse_expression, 1);
    if 0 <= pos < tokens.len() && kind_at(tokens, pos) == Type::OpenParen {
        law_expression_advances(tokens, pos + 1);
    }
}

/// Where `parse_arguments` succeeds, it has taken at least one token and ended within the
/// token sequence.
pub proof fn law_arguments_advance(tokens: Seq<Token>, pos: int)
    ensures
        parse_arguments(tokens, pos) matches Ok((_, next)) ==> advanced(tokens, pos, next),
    decreases left(tokens, pos), 9nat,
{
    reveal_with_fuel(parse_arguments, 1);
    reveal_with_fuel(parse_arguments_list, 1);
    if kind_at(tokens, pos) == Type::OpenParen && kind_at(tokens, pos + 1) != Type::CloseParen {
        law_arguments_list_advances(tokens, pos + 1);
    }
}

/// Where `parse_arguments_list` succeeds, it has taken at least one token and ended within the
/// token sequence.
pub proof fn law_arguments_list_advances(tokens: Seq<Token>, pos: int)
    ensures
        parse_arguments_list(tokens, pos) matches Ok((_, next)) ==> advanced(tokens, pos, next),
    decreases left(tokens, pos), 21nat,
{
    reveal_with_fuel(parse_arguments_list, 1);
    reveal_with_fuel(parse_arguments_tail, 1);
    reveal_with_fuel(parse_assignment, 1);
    match parse_assignment(tokens, pos) {
        Ok((first, next)) => {
            if advanced(tokens, pos, next) {
                law_arguments_tail_continues(tokens, next, seq![first]);
            }
        },
        Err(_) => {},
    }
}

/// Where `parse_arguments_tail` succeeds from a position within the token
/// sequence, it has ended within the sequence and not before that position.
pub proof fn law_arguments_tail_continues(
    tokens: Seq<Token>,
    pos: int,
    before: Seq<ExpressionView>,
)
    ensures
        parse_arguments_tail(tokens, pos, before) matches Ok((_, next)) ==> continued(
            tokens,
            pos,
            next,
        ),
    decreases left(tokens, pos), 0nat,
{
    reveal_with_fuel(parse_arguments_tail, 1);
    reveal_with_fuel(parse_assignment, 1);
    if kind_at(tokens, pos) == Type::Comma {
        match parse_assignment(tokens, pos + 1) {
            Ok((argument, next)) => {
                if advanced(tokens, pos, next) {
                    law_arguments_tail_continues(tokens, next, before.push(argument));
                }
            },
            Err(_) => {},
        }
    }
}

/// Where `parse_call_suffix` succeeds, it has taken at least one token and ended within the
/// token sequence.
pub proof fn law_call_suffix_advances(tokens: Seq<Token>, pos: int, caller: ExpressionView)
    ensures
        parse_call_suffix(tokens, pos, caller) matches Ok((_, next)) ==> advanced(
            tokens,
            pos,
            next,
        ),
    decreases left(tokens, pos), 10nat,
{
    reveal_with_fuel(parse_call_suffix, 1);
    reveal_with_fuel(parse_arguments, 1);
    law_arguments_advance(tokens, pos);
}

/// Where `parse_member_suffix` succeeds, it has taken at least one token and ended within the
/// token sequence.
pub proof fn law_member_suffix_advances(tokens: Seq<Token>, pos: int, object: ExpressionView)
    ensures
        parse_member_suffix(tokens, pos, object) matches Ok((_, next)) ==> advanced(
            tokens,
            pos,
            next,
        ),
    decreases left(tokens, pos), 10nat,
{
    reveal_with_fuel(parse_member_suffix, 1);
    reveal_with_fuel(parse_primary, 1);
    reveal_with_fuel(parse_expression, 1);
    if kind_at(tokens, pos) == Type::Dot {
        law_primary_advances(tokens, pos + 1);
    } else if kind_at(tokens, pos) == Type::OpenBracket {
        law_expression_advances(tokens, pos + 1);
    }
}

/// Where `parse_postfix` succeeds from a position within the token
/// sequence, it has ended within the sequence and not before that position.
pub proof fn law_postfix_continues(tokens: Seq<Token>, pos: int, inner: ExpressionView)
    ensures
        parse_postfix(tokens, pos, inner) matches Ok((_, next)) ==> continued(tokens, pos, next),
    decreases left(tokens, pos), 12nat,
{
    reveal_with_fuel(parse_postfix, 1);
    reveal_with_fuel(parse_call_suffix, 1);
    reveal_with_fuel(parse_member_suffix, 1);
    let kind = kind_at(tokens, pos);
    if kind == Type::OpenParen || kind == Type::Dot || kind == Type::OpenBracket {
        let applied = if kind == Type::OpenParen {
            parse_call_suffix(tokens, pos, inner)
        } else {
            parse_member_suffix(tokens, pos, inner)
        };
        match applied {
            Ok((node, next)) => {
                if advanced(tokens, pos, next) {
                    law_postfix_continues(tokens, next, node);
                }
            },
            Err(_) => {},
        }
    }
}

/// Where `parse_call_member` succeeds, it has taken at least one token and ended within the
/// token sequence.
pub proof fn law_call_member_advances(tokens: Seq<Token>, pos: int)
    ensures
        parse_call_member(tokens, pos) matches Ok((_, next)) ==> advanced(tokens, pos, next),
    decreases left(tokens, pos), 15nat,
{
    reveal_with_fuel(parse_call_member, 1);
    reveal_with_fuel(parse_primary, 1);
    reveal_with_fuel(parse_postfix, 1);
    match parse_primary(tokens, pos) {
        Ok((inner, next)) => {
            if advanced(tokens, pos, next) {
                law_postfix_continues(tokens, next, inner);
            }
        },
        Err(_) => {},
    }
}

/// Where `parse_multiplicative_tail` succeeds from a position within the token
/// sequence, it has ended within the sequence and not before that position.
pub proof fn law_multiplicative_tail_continues(
    tokens: Seq<Token>,
    pos: int,
    product: ExpressionView,
)
    ensures
        parse_multiplicative_tail(tokens, pos, product) matches Ok((_, next)) ==> continued(
            tokens,
            pos,
            next,
        ),
    decreases left(tokens, pos), 0nat,
{
    reveal_with_fuel(parse_multiplicative_tail, 1);
    reveal_with_fuel(parse_call_member, 1);
    if is_multiplicative(tokens, pos) {
        match parse_call_member(tokens, pos + 1) {
            Ok((right, next)) => {
                if advanced(tokens, pos, next) {
                    law_multiplicative_tail_continues(
                        tokens,
                        next,
                        binary_node(product, value_at(tokens, pos), right),
                    );
                }
            },
            Err(_) => {},
        }
    }
}

/// Where `parse_multiplicative` succeeds, it has taken at least one token and ended within the
/// token sequence.
pub proof fn law_multiplicative_advances(tokens: Seq<Token>, pos: int)
    ensures
        parse_multiplicative(tokens, pos) matches Ok((_, next)) ==> advanced(tokens, pos, next),
    decreases left(tokens, pos), 16nat,
{
    reveal_with_fuel(parse_multiplicative, 1);
    reveal_with_fuel(parse_multiplicative_tail, 1);
    reveal_with_fuel(parse_call_member, 1);
    match parse_call_member(tokens, pos) {
        Ok((first, next)) => {
            if advanced(tokens, pos, next) {
                law_multiplicative_tail_continues(tokens, next, first);
            }
        },
        Err(_) => {},
    }
}

/// Where `parse_additive_tail` succeeds from a position within the token
/// sequence, it has ended within the sequence and not before that position.
pub proof fn law_additive_tail_continues(tokens: Seq<Token>, pos: int, sum: ExpressionView)
    ensures
        parse_additive_tail(tokens, pos, sum) matches Ok((_, next)) ==> continued(
            tokens,
            pos,
            next,
        ),
    decreases left(tokens, pos), 0nat,
{
    reveal_with_fuel(parse_additive_tail, 1);
    reveal_with_fuel(parse_multiplicative, 1);
    if is_additive(tokens, pos) {
        match parse_multiplicative(tokens, pos + 1) {
            Ok((right, next)) => {
                if advanced(tokens, pos, next) {
                    law_additive_tail_continues(
                        tokens,
                        next,
                        binary_node(sum, value_at(tokens, pos), right),
                    );
                }
            },
            Err(_) => {},
        }
    }
}

/// Where `parse_additive` succeeds, it has taken at least one token and ended within the
/// token sequence.
pub proof fn law_additive_advances(tokens: Seq<Token>, pos: int)
    ensures
        parse_additive(tokens, pos) matches Ok((_, next)) ==> advanced(tokens, pos, next),
    decreases left(tokens, pos), 17nat,
{
    reveal_with_fuel(parse_additive, 1);
    reveal_with_fuel(parse_additive_tail, 1);
    reveal_with_fuel(parse_multiplicative, 1);
    match parse_multiplicative(tokens, pos) {
        Ok((first, next)) => {
            if advanced(tokens, pos, next) {
                law_additive_tail_continues(tokens, next, first);
            }
        },
        Err(_) => {},
    }
}

/// Where `parse_properties` succeeds, it has taken at least one token and ended within the
/// token sequence.
pub proof fn law_properties_advance(tokens: Seq<Token>, pos: int, before: Seq<PropertyView>)
    ensures
        parse_properties(tokens, pos, before) matches Ok((_, next)) ==> advanced(
            tokens,
            pos,
            next,
        ),
    decreases left(tokens, pos), 0nat,
{
    reveal_with_fuel(parse_properties, 1);
    reveal_with_fuel(parse_expression, 1);
    let kind = kind_at(tokens, pos);
    if kind == Type::Identifier {
        match value_at(tokens, pos) {
            ValueView::String(key) => {
                let after = kind_at(tokens, pos + 1);
                let shorthand = before.push(PropertyView { key, value: None });
                if after == Type::Comma {
                    law_properties_advance(tokens, pos + 2, shorthand);
                } else if after == Type::CloseBrace {
                    law_properties_advance(tokens, pos + 1, shorthand);
                } else if after == Type::Colon {
                    match parse_expression(tokens, pos + 2) {
                        Ok((value, next)) => {
                            let full = before.push(PropertyView { key, value: Some(value) });
                            if advanced(tokens, pos, next) {
                                if kind_at(tokens, next) == Type::CloseBrace {
                                    law_properties_advance(tokens, next, full);
                                } else if kind_at(tokens, next) == Type::Comma {
                                    law_properties_advance(tokens, next + 1, full);
                                }
                            }
                        },
                        Err(_) => {},
                    }
                }
            },
            _ => {},
        }
    }
}

/// Where `parse_object` succeeds, it has taken at least one token and ended within the
/// token sequence.
pub proof fn law_object_advances(tokens: Seq<Token>, pos: int)
    ensures
        parse_object(tokens, pos) matches Ok((_, next)) ==> advanced(tokens, pos, next),
    decreases left(tokens, pos), 18nat,
{
    reveal_with_fuel(parse_object, 1);
    reveal_with_fuel(parse_properties, 1);
    reveal_with_fuel(parse_additive, 1);
    if kind_at(tokens, pos) == Type::OpenBrace {
        law_properties_advance(tokens, pos + 1, Seq::empty());
    } else {
        law_additive_advances(tokens, pos);
    }
}

/// Where `parse_assignment` succeeds, it has taken at least one token and ended within the
/// token sequence.
pub proof fn law_assignment_advances(tokens: Seq<Token>, pos: int)
    ensures
        parse_assignment(tokens, pos) matches Ok((_, next)) ==> advanced(tokens, pos, next),
    decreases left(tokens, pos), 19nat,
{
    reveal_with_fuel(parse_assignment, 2);
    reveal_with_fuel(parse_object, 1);
    law_object_advances(tokens, pos);
    match parse_object(tokens, pos) {
        Ok((target, next)) => {
            if kind_at(tokens, next) == Type::Equals && advanced(tokens, pos, next) {
                law_assignment_advances(tokens, next + 1);
            }
        },
        Err(_) => {},
    }
}

/// Where `parse_expression` succeeds, it has taken at least one token and ended within the
/// token sequence.
pub proof fn law_expression_advances(tokens: Seq<Token>, pos: int)
    ensures
        parse_expression(tokens, pos) matches Ok((_, next)) ==> advanced(tokens, pos, next),
    decreases left(tokens, pos), 20nat,
{
    reveal_with_fuel(parse_expression, 1);
    reveal_with_fuel(parse_assignment, 1);
    law_assignment_advances(tokens, pos);
}

/// Where `parse_variable_declaration` succeeds, it has taken at least one
/// token and ended within the token sequence.
pub proof fn law_variable_declaration_advances(tokens: Seq<Token>, pos: int)
    ensures
        parse_variable_declaration(tokens, pos) matches Ok((_, next)) ==> advanced(
            tokens,
            pos,
            next,
        ),
    decreases left(tokens, pos), 25nat,
{
    reveal_with_fuel(parse_variable_declaration, 1);
    reveal_with_fuel(parse_expression, 1);
    let kind = kind_at(tokens, pos);
    if kind == Type::Let || kind == Type::Const {
        law_expression_advances(tokens, pos + 3);
    }
}

/// Where `parse_block` succeeds, it has taken at least one token and ended within the
/// token sequence.
pub proof fn law_block_advances(tokens: Seq<Token>, pos: int, before: Seq<StatementView>)
    ensures
        parse_block(tokens, pos, before) matches Ok((_, next)) ==> advanced(tokens, pos, next),
    decreases left(tokens, pos), 31nat,
{
    reveal_with_fuel(parse_block, 1);
    reveal_with_fuel(parse_statement, 1);
    let kind = kind_at(tokens, pos);
    if kind != Type::CloseBrace && kind != Type::EOF {
        match parse_statement(tokens, pos) {
            Ok((statement, next)) => {
                if advanced(tokens, pos, next) {
                    law_block_advances(tokens, next, before.push(statement));
                }
            },
            Err(_) => {},
        }
    }
}

/// Where `parse_body` succeeds, it has taken at least one token and ended within the
/// token sequence.
pub proof fn law_body_advances(tokens: Seq<Token>, pos: int)
    ensures
        parse_body(tokens, pos) matches Ok((_, next)) ==> advanced(tokens, pos, next),
    decreases left(tokens, pos), 32nat,
{
    reveal_with_fuel(parse_body, 1);
    reveal_with_fuel(parse_block, 1);
    reveal_with_fuel(parse_statement, 1);
    if kind_at(tokens, pos) == Type::OpenBrace {
        match parse_statement(tokens, pos + 1) {
            Ok((first, next)) => {
                if advanced(tokens, pos, next) {
                    law_block_advances(tokens, next, seq![first]);
                }
            },
            Err(_) => {},
        }
    }
}

/// Where `parse_function_declaration` succeeds, it has taken at least one
/// token and ended within the token sequence.
pub proof fn law_function_declaration_advances(tokens: Seq<Token>, pos: int)
    ensures
        parse_function_declaration(tokens, pos) matches Ok((_, next)) ==> advanced(
            tokens,
            pos,
            next,
        ),
    decreases left(tokens, pos), 25nat,
{
    reveal_with_fuel(parse_function_declaration, 1);
    reveal_with_fuel(parse_arguments, 1);
    reveal_with_fuel(parse_block, 1);
    if kind_at(tokens, pos) == Type::Fn && kind_at(tokens, pos + 1) == Type::Identifier {
        match parse_arguments(tokens, pos + 2) {
            Ok((parameters, next)) => {
                if are_parameters(parameters) && kind_at(tokens, next) == Type::OpenBrace
                    && advanced(tokens, pos, next) {
                    law_block_advances(tokens, next + 1, Seq::empty());
                }
            },
            Err(_) => {},
        }
    }
}

/// Where `parse_alternates` succeeds from a position within the token
/// sequence, it has ended within the sequence and not before that position.
pub proof fn law_alternates_continue(
    tokens: Seq<Token>,
    pos: int,
    condition: Option<ExpressionView>,
    consequence: Seq<StatementView>,
    alternate: Option<StatementView>,
)
    ensures
        parse_alternates(tokens, pos, condition, consequence, alternate) matches Ok(
            (_, next),
        ) ==> continued(tokens, pos, next),
    decreases left(tokens, pos), 26nat,
{
    reveal_with_fuel(parse_alternates, 1);
    reveal_with_fuel(parse_conditional, 1);
    reveal_with_fuel(parse_body, 1);
    if kind_at(tokens, pos) == Type::Else {
        if kind_at(tokens, pos + 1) == Type::If {
            law_conditional_advances(tokens, pos + 1);
            match parse_conditional(tokens, pos + 1) {
                Ok((nested, next)) => {
                    if advanced(tokens, pos, next) {
                        law_alternates_continue(
                            tokens,
                            next,
                            condition,
                            consequence,
                            Some(nested),
                        );
                    }
                },
                Err(_) => {},
            }
        } else {
            law_body_advances(tokens, pos + 1);
        }
    }
}

/// Where `parse_conditional` succeeds, it has taken at least one token and ended within the
/// token sequence.
pub proof fn law_conditional_advances(tokens: Seq<Token>, pos: int)
    ensures
        parse_conditional(tokens, pos) matches Ok((_, next)) ==> advanced(tokens, pos, next),
    decreases left(tokens, pos), 25nat,
{
    reveal_with_fuel(parse_conditional, 1);
    reveal_with_fuel(parse_expression, 1);
    reveal_with_fuel(parse_body, 1);
    reveal_with_fuel(parse_alternates, 1);
    if kind_at(tokens, pos) == Type::If {
        match parse_expression(tokens, pos + 1) {
            Ok((condition, next)) => {
                if advanced(tokens, pos, next) {
                    match parse_body(tokens, next) {
                        Ok((consequence, end)) => {
                            if advanced(tokens, pos, end) {
                                law_alternates_continue(
                                    tokens,
                                    end,
                                    Some(condition),
                                    consequence,
                                    None,
                                );
                            }
                        },
                        Err(_) => {},
                    }
                }
            },
            Err(_) => {},
        }
    }
}

/// Every statement that parses takes at least one token and ends within the
/// token sequence; so, then, does every part of it.
pub proof fn law_statement_advances(tokens: Seq<Token>, pos: int)
    ensures
        parse_statement(tokens, pos) matches Ok((_, next)) ==> advanced(tokens, pos, next),
    decreases left(tokens, pos), 30nat,
{
    reveal_with_fuel(parse_statement, 1);
    reveal_with_fuel(parse_variable_declaration, 1);
    reveal_with_fuel(parse_function_declaration, 1);
    reveal_with_fuel(parse_conditional, 1);
    reveal_with_fuel(parse_expression, 1);
    let kind = kind_at(tokens, pos);
    if kind == Type::Let || kind == Type::Const {
        law_variable_declaration_advances(tokens, pos);
    } else if kind == Type::For || kind == Type::While {
    } else if kind == Type::Fn {
        law_function_declaration_advances(tokens, pos);
    } else if kind == Type::If {
        law_conditional_advances(tokens, pos);
    } else {
        law_expression_advances(tokens, pos);
    }
}

} // verus!
