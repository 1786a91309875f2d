//! Deep copies of syntax tree nodes: each copy has the model of the node it copies.
use crate::ast::{
    expressions_model, lemma_expressions_model, lemma_names_model, lemma_properties_model,
    lemma_statements_model, names_model, properties_model, statements_model,
    ASTExpression, ASTExpressionBody, ASTStatement, ASTStatementKind, BinaryExpression,
    CallExpression, ConditionalStatement, FunctionDeclaration, LoopStatement, MemberExpression,
    Object, Property, Value, VariableAssignment, VariableDeclaration,
};
use vstd::prelude::*;

verus! {

/// A copy of a list of strings.
pub fn duplicate_names(items: &Vec<String>) -> (r: Vec<String>)
    ensures
        names_model(r@) == names_model(items@),
{
    let mut out: Vec<String> = Vec::new();
    let mut i: usize = 0;
    while i < items.len()
        invariant
            i <= items.len(),
            out@.len() == i,
            forall|j: int| 0 <= j < i ==> out@[j]@ == items@[j]@,
        decreases items.len() - i,
    {
        out.push(items[i].clone());
        i += 1;
    }
    proof {
        lemma_names_model(out@);
        lemma_names_model(items@);
    }
    assert(names_model(out@) =~= names_model(items@));
    out
}

/// A copy of a list of properties.
pub fn duplicate_properties(items: &Vec<Property>) -> (r: Vec<Property>)
    ensures
        properties_model(r@) == properties_model(items@),
    decreases items,
{
    let mut out: Vec<Property> = Vec::new();
    let mut i: usize = 0;
    while i < items.len()
        invariant
            i <= items.len(),
            out@.len() == i,
            forall|j: int| 0 <= j < i ==> out@[j].model() == items@[j].model(),
        decreases items.len() - i,
    {
        out.push(items[i].duplicate());
        i += 1;
    }
    proof {
        lemma_properties_model(out@);
        lemma_properties_model(items@);
    }
    assert(properties_model(out@) =~= properties_model(items@));
    out
}

/// A copy of a list of expressions.
pub fn duplicate_expressions(items: &Vec<ASTExpression>) -> (r: Vec<ASTExpression>)
    ensures
        expressions_model(r@) == expressions_model(items@),
    decreases items,
{
    let mut out: Vec<ASTExpression> = Vec::new();
    let mut i: usize = 0;
    while i < items.len()
        invariant
            i <= items.len(),
            out@.len() == i,
            forall|j: int| 0 <= j < i ==> out@[j].model() == items@[j].model(),
        decreases items.len() - i,
    {
        out.push(items[i].duplicate());
        i += 1;
    }
    proof {
        lemma_expressions_model(out@);
        lemma_expressions_model(items@);
    }
    assert(expressions_model(out@) =~= expressions_model(items@));
    out
}

/// A copy of a list of statements.
pub fn duplicate_statements(items: &Vec<ASTStatement>) -> (r: Vec<ASTStatement>)
    ensures
        statements_model(r@) == statements_model(items@),
    decreases items,
{
    let mut out: Vec<ASTStatement> = Vec::new();
    let mut i: usize = 0;
    while i < items.len()
        invariant
            i <= items.len(),
            out@.len() == i,
            forall|j: int| 0 <= j < i ==> out@[j].model() == items@[j].model(),
        decreases items.len() - i,
    {
        out.push(items[i].duplicate());
        i += 1;
    }
    proof {
        lemma_statements_model(out@);
        lemma_statements_model(items@);
    }
    assert(statements_model(out@) =~= statements_model(items@));
    out
}

impl Property {
    /// A copy with the same model.
    pub fn duplicate(&self) -> (r: Property)
        ensures
            r.model() == self.model(),
        decreases self,
    {
        proof {
            reveal_with_fuel(Value::model, 1);
            reveal_with_fuel(Property::model, 1);
            reveal_with_fuel(ASTExpression::model, 1);
            reveal_with_fuel(VariableDeclaration::model, 1);
            reveal_with_fuel(FunctionDeclaration::model, 1);
            reveal_with_fuel(ConditionalStatement::model, 1);
            reveal_with_fuel(LoopStatement::model, 1);
            reveal_with_fuel(ASTStatement::model, 1);
        }
        Property { key: self.key.clone(), value: match &self.value {
                Some(e) => Some(e.duplicate()),
                None => None,
            } }
    }
}

impl VariableDeclaration {
    /// A copy with the same model.
    pub fn duplicate(&self) -> (r: VariableDeclaration)
        ensures
            r.model() == self.model(),
        decreases self,
    {
        proof {
            reveal_with_fuel(Value::model, 1);
            reveal_with_fuel(Property::model, 1);
            reveal_with_fuel(ASTExpression::model, 1);
            reveal_with_fuel(VariableDeclaration::model, 1);
            reveal_with_fuel(FunctionDeclaration::model, 1);
            reveal_with_fuel(ConditionalStatement::model, 1);
            reveal_with_fuel(LoopStatement::model, 1);
            reveal_with_fuel(ASTStatement::model, 1);
        }
        VariableDeclaration {
            constant: self.constant,
            identifier: self.identifier.duplicate(),
            value: match &self.value {
                Some(e) => Some(e.duplicate()),
                None => None,
            },
        }
    }
}

impl FunctionDeclaration {
    /// A copy with the same model.
    pub fn duplicate(&self) -> (r: FunctionDeclaration)
        ensures
            r.model() == self.model(),
        decreases self,
    {
        proof {
            reveal_with_fuel(Value::model, 1);
            reveal_with_fuel(Property::model, 1);
            reveal_with_fuel(ASTExpression::model, 1);
            reveal_with_fuel(VariableDeclaration::model, 1);
            reveal_with_fuel(FunctionDeclaration::model, 1);
            reveal_with_fuel(ConditionalStatement::model, 1);
            reveal_with_fuel(LoopStatement::model, 1);
            reveal_with_fuel(ASTStatement::model, 1);
        }
        FunctionDeclaration {
            identifier: self.identifier.clone(),
            parameters: duplicate_names(&self.parameters),
            body: duplicate_statements(&self.body),
        }
    }
}

impl ConditionalStatement {
    /// A copy with the same model.
    pub fn duplicate(&self) -> (r: ConditionalStatement)
        ensures
            r.model() == self.model(),
        decreases self,
    {
        proof {
            reveal_with_fuel(Value::model, 1);
            reveal_with_fuel(Property::model, 1);
            reveal_with_fuel(ASTExpression::model, 1);
            reveal_with_fuel(VariableDeclaration::model, 1);
            reveal_with_fuel(FunctionDeclaration::model, 1);
            reveal_with_fuel(ConditionalStatement::model, 1);
            reveal_with_fuel(LoopStatement::model, 1);
            reveal_with_fuel(ASTStatement::model, 1);
        }
        ConditionalStatement {
            condition: match &self.condition {
                Some(e) => Some(e.duplicate()),
                None => None,
            },
            consequence: duplicate_statements(&self.consequence),
            alternate: match &self.alternate {
                Some(a) => Some(Box::new(a.duplicate())),
                None => None,
            },
        }
    }
}

impl LoopStatement {
    /// A copy with the same model.
    pub fn duplicate(&self) -> (r: LoopStatement)
        ensures
            r.model() == self.model(),
        decreases self,
    {
        proof {
            reveal_with_fuel(Value::model, 1);
            reveal_with_fuel(Property::model, 1);
            reveal_with_fuel(ASTExpression::model, 1);
            reveal_with_fuel(VariableDeclaration::model, 1);
            reveal_with_fuel(FunctionDeclaration::model, 1);
            reveal_with_fuel(ConditionalStatement::model, 1);
            reveal_with_fuel(LoopStatement::model, 1);
            reveal_with_fuel(ASTStatement::model, 1);
        }
        LoopStatement {
            body: duplicate_statements(&self.body),
            identifier: self.identifier.clone(),
            start: self.start,
            end: self.end,
            condition: match &self.condition {
                Some(e) => Some(e.duplicate()),
                None => None,
            },
        }
    }
}

impl Value {
    /// A copy with the same model.
    pub fn duplicate(&self) -> (r: Value)
        ensures
            r@ == self@,
        decreases self,
    {
        proof {
            reveal_with_fuel(Value::model, 1);
            reveal_with_fuel(Property::model, 1);
            reveal_with_fuel(ASTExpression::model, 1);
            reveal_with_fuel(VariableDeclaration::model, 1);
            reveal_with_fuel(FunctionDeclaration::model, 1);
            reveal_with_fuel(ConditionalStatement::model, 1);
            reveal_with_fuel(LoopStatement::model, 1);
            reveal_with_fuel(ASTStatement::model, 1);
        }
        match self {
            Value::String(s) => Value::String(s.clone()),
            Value::Number(n) => Value::Number(*n),
            Value::Object(o) => Value::Object(
                Object { properties: duplicate_properties(&o.properties) },
            ),
        }
    }
}

impl ASTExpression {
    /// A copy with the same model.
    pub fn duplicate(&self) -> (r: ASTExpression)
        ensures
            r@ == self@,
        decreases self,
    {
        proof {
            reveal_with_fuel(Value::model, 1);
            reveal_with_fuel(Property::model, 1);
            reveal_with_fuel(ASTExpression::model, 1);
            reveal_with_fuel(VariableDeclaration::model, 1);
            reveal_with_fuel(FunctionDeclaration::model, 1);
            reveal_with_fuel(ConditionalStatement::model, 1);
            reveal_with_fuel(LoopStatement::model, 1);
            reveal_with_fuel(ASTStatement::model, 1);
        }
        let body = match &self.body {
            ASTExpressionBody::Value(v) => ASTExpressionBody::Value(v.duplicate()),
            ASTExpressionBody::BinaryExpressionBody(b) => ASTExpressionBody::BinaryExpressionBody(
                BinaryExpression {
                    left: Box::new(b.left.duplicate()),
                    operator: b.operator.duplicate(),
                    right: Box::new(b.right.duplicate()),
                },
            ),
            ASTExpressionBody::AssignmentExpressionBody(a) => {
                ASTExpressionBody::AssignmentExpressionBody(
                    VariableAssignment {
                        assignee: Box::new(a.assignee.duplicate()),
                        value: Box::new(a.value.duplicate()),
                    },
                )
            },
            ASTExpressionBody::CallExpressionBody(c) => ASTExpressionBody::CallExpressionBody(
                CallExpression {
                    arguments: duplicate_expressions(&c.arguments),
                    caller: Box::new(c.caller.duplicate()),
                },
            ),
            ASTExpressionBody::MemberExpressionBody(m) => ASTExpressionBody::MemberExpressionBody(
                MemberExpression {
                    object: Box::new(m.object.duplicate()),
                    property: Box::new(m.property.duplicate()),
                    computed: m.computed,
                },
            ),
        };
        ASTExpression { kind: self.kind, body }
    }
}

impl ASTStatement {
    /// A copy with the same model.
    pub fn duplicate(&self) -> (r: ASTStatement)
        ensures
            r@ == self@,
        decreases self,
    {
        proof {
            reveal_with_fuel(Value::model, 1);
            reveal_with_fuel(Property::model, 1);
            reveal_with_fuel(ASTExpression::model, 1);
            reveal_with_fuel(VariableDeclaration::model, 1);
            reveal_with_fuel(FunctionDeclaration::model, 1);
            reveal_with_fuel(ConditionalStatement::model, 1);
            reveal_with_fuel(LoopStatement::model, 1);
            reveal_with_fuel(ASTStatement::model, 1);
        }
        let kind = match &self.kind {
            ASTStatementKind::ExpressionStatement(e) => ASTStatementKind::ExpressionStatement(
                e.duplicate(),
            ),
            ASTStatementKind::VariableDeclaration(d) => ASTStatementKind::VariableDeclaration(
                d.duplicate(),
            ),
            ASTStatementKind::FunctionDeclaration(f) => ASTStatementKind::FunctionDeclaration(
                f.duplicate(),
            ),
            ASTStatementKind::ConditionalStatement(c) => ASTStatementKind::ConditionalStatement(
                c.duplicate(),
            ),
            ASTStatementKind::LoopStatement(l) => ASTStatementKind::LoopStatement(l.duplicate()),
        };
        ASTStatement { kind }
    }
}

impl Clone for Value {
    fn clone(&self) -> (r: Value)
        ensures
            r@ == self@,
    {
        self.duplicate()
    }
}

impl Clone for ASTExpression {
    fn clone(&self) -> (r: ASTExpression)
        ensures
            r@ == self@,
    {
        self.duplicate()
    }
}

impl Clone for ASTStatement {
    fn clone(&self) -> (r: ASTStatement)
        ensures
            r@ == self@,
    {
        self.duplicate()
    }
}

} // verus!
