//! The syntax tree: the shapes the parser builds and the evaluator reads.
//!
//! Every node type has a mathematical model (`...View`) in which text is a
//! `Seq<char>` and a list is a `Seq`. Contracts speak of nodes through these
//! models; `model()` (also `@`) maps a node to its model.
use vstd::prelude::*;

verus! {

/// The payload of a token or of a literal node.
#[derive(Debug, PartialEq, Eq)]
pub enum Value {
    /// Text: an identifier, a keyword, an operator, or a string literal with its quotes.
    String(String),
    /// A number, as the bit pattern of a double.
    Number(u64),
    /// An object literal.
    Object(Object),
}

/// An object literal: its properties in source order.
#[derive(Debug, Clone, PartialEq, Eq)]
pub struct Object {
    pub properties: Vec<Property>,
}

/// One property of an object literal. Without a value it is a shorthand: the
/// evaluator looks the key up as a variable.
#[derive(Debug, Clone, PartialEq, Eq)]
pub struct Property {
    pub key: String,
    pub value: Option<ASTExpression>,
}

/// The whole program.
#[derive(Debug, Clone, PartialEq, Eq)]
pub struct AST {
    pub kind: String,
    pub statements: Vec<ASTStatement>,
}

/// A statement, by its kind.
#[derive(Debug, Clone, PartialEq, Eq)]
pub enum ASTStatementKind {
    ExpressionStatement(ASTExpression),
    VariableDeclaration(VariableDeclaration),
    FunctionDeclaration(FunctionDeclaration),
    ConditionalStatement(ConditionalStatement),
    LoopStatement(LoopStatement),
}

/// A loop. The bounds are doubles, held as bit patterns.
#[derive(Debug, Clone, PartialEq, Eq)]
pub struct LoopStatement {
    pub body: Vec<ASTStatement>,
    pub identifier: String,
    pub start: u64,
    pub end: u64,
    pub condition: Option<ASTExpression>,
}

/// `if`, `else if` or `else`. A node without a condition is a bare `else`.
#[derive(Debug, Clone, PartialEq, Eq)]
pub struct ConditionalStatement {
    pub condition: Option<ASTExpression>,
    pub consequence: Vec<ASTStatement>,
    pub alternate: Option<Box<ASTStatement>>,
}

/// `let` or `const`: the name declared, as the payload of its identifier token,
/// and the initializer, if there is one.
#[derive(Debug, Clone, PartialEq, Eq)]
pub struct VariableDeclaration {
    pub constant: bool,
    pub identifier: Value,
    pub value: Option<ASTExpression>,
}

/// `fn`: the function's name, its parameter names in order, and its body.
#[derive(Debug, Clone, PartialEq, Eq)]
pub struct FunctionDeclaration {
    pub identifier: String,
    pub parameters: Vec<String>,
    pub body: Vec<ASTStatement>,
}

/// `assignee = value`.
#[derive(Debug, Clone, PartialEq, Eq)]
pub struct VariableAssignment {
    pub assignee: Box<ASTExpression>,
    pub value: Box<ASTExpression>,
}

/// The kind of an expression node.
#[derive(Debug, Clone, Copy, PartialEq, Eq, Structural)]
pub enum ASTExpressionKind {
    Identifier,
    AssignmentExpression,
    MemberExpression,
    CallExpression,
    BinaryExpression,
    StringLiteral,
    Property,
    ObjectLiteral,
    NumericLiteral,
}

/// An expression: its kind, and the body that holds its parts. The parser
/// builds nodes whose kind and body go together.
#[derive(Debug, PartialEq, Eq)]
pub struct ASTExpression {
    pub kind: ASTExpressionKind,
    pub body: ASTExpressionBody,
}

/// The parts of an expression.
#[derive(Debug, Clone, PartialEq, Eq)]
pub enum ASTExpressionBody {
    Value(Value),
    BinaryExpressionBody(BinaryExpression),
    AssignmentExpressionBody(VariableAssignment),
    CallExpressionBody(CallExpression),
    MemberExpressionBody(MemberExpression),
}

/// `left operator right`; the operator is the payload of its token.
#[derive(Debug, Clone, PartialEq, Eq)]
pub struct BinaryExpression {
    pub left: Box<ASTExpression>,
    pub operator: Value,
    pub right: Box<ASTExpression>,
}

/// `caller(arguments)`.
#[derive(Debug, Clone, PartialEq, Eq)]
pub struct CallExpression {
    pub arguments: Vec<ASTExpression>,
    pub caller: Box<ASTExpression>,
}

/// `object.property`, or `object[property]` where `computed`.
#[derive(Debug, Clone, PartialEq, Eq)]
pub struct MemberExpression {
    pub object: Box<ASTExpression>,
    pub property: Box<ASTExpression>,
    pub computed: bool,
}

/// A statement.
#[derive(Debug, PartialEq, Eq)]
pub struct ASTStatement {
    pub kind: ASTStatementKind,
}

/// Model of a `Value`.
pub enum ValueView {
    String(Seq<char>),
    Number(u64),
    Object(Seq<PropertyView>),
}

/// Model of a `Property`.
pub struct PropertyView {
    pub key: Seq<char>,
    pub value: Option<ExpressionView>,
}

/// Model of an `ASTExpression`.
pub struct ExpressionView {
    pub kind: ASTExpressionKind,
    pub body: ExpressionBodyView,
}

/// Model of an `ASTExpressionBody`.
pub enum ExpressionBodyView {
    Value(ValueView),
    Binary { left: Box<ExpressionView>, operator: ValueView, right: Box<ExpressionView> },
    Assignment { assignee: Box<ExpressionView>, value: Box<ExpressionView> },
    Call { arguments: Seq<ExpressionView>, caller: Box<ExpressionView> },
    Member { object: Box<ExpressionView>, property: Box<ExpressionView>, computed: bool },
}

/// Model of an `ASTStatement`.
pub enum StatementView {
    Expression(ExpressionView),
    Variable { constant: bool, identifier: ValueView, value: Option<ExpressionView> },
    Function { name: Seq<char>, parameters: Seq<Seq<char>>, body: Seq<StatementView> },
    Conditional {
        condition: Option<ExpressionView>,
        consequence: Seq<StatementView>,
        alternate: Option<Box<StatementView>>,
    },
    Loop {
        body: Seq<StatementView>,
        variable: Seq<char>,
        start: u64,
        end: u64,
        condition: Option<ExpressionView>,
    },
}

/// Model of an `AST`.
pub struct ProgramView {
    pub kind: Seq<char>,
    pub statements: Seq<StatementView>,
}

/// The models of a list of strings.
pub open spec fn names_model(names: Seq<String>) -> Seq<Seq<char>> {
    Seq::new(names.len(), |i: int| names[i]@)
}

/// The models of a list of expressions.
pub open spec fn expressions_model(items: Seq<ASTExpression>) -> Seq<ExpressionView>
    decreases items,
{
    Seq::new(
        items.len(),
        |i: int|
            if 0 <= i < items.len() {
                items[i].model()
            } else {
                arbitrary()
            },
    )
}

/// The models of a list of statements.
pub open spec fn statements_model(items: Seq<ASTStatement>) -> Seq<StatementView>
    decreases items,
{
    Seq::new(
        items.len(),
        |i: int|
            if 0 <= i < items.len() {
                items[i].model()
            } else {
                arbitrary()
            },
    )
}

/// The models of a list of properties.
pub open spec fn properties_model(items: Seq<Property>) -> Seq<PropertyView>
    decreases items,
{
    Seq::new(
        items.len(),
        |i: int|
            if 0 <= i < items.len() {
                items[i].model()
            } else {
                arbitrary()
            },
    )
}

impl Value {
    /// The model of the payload.
    #[verifier::opaque]
    pub open spec fn model(&self) -> ValueView
        decreases self,
    {
        match self {
            Value::String(s) => ValueView::String(s@),
            Value::Number(n) => ValueView::Number(*n),
            Value::Object(o) => ValueView::Object(properties_model(o.properties@)),
        }
    }
}

impl Property {
    /// The model of the property.
    #[verifier::opaque]
    pub open spec fn model(&self) -> PropertyView
        decreases self,
    {
        PropertyView { key: self.key@, value: match self.value {
                Some(e) => Some(e.model()),
                None => None,
            } }
    }
}

impl ASTExpression {
    /// The model of the expression.
    #[verifier::opaque]
    pub open spec fn model(&self) -> ExpressionView
        decreases self,
    {
        ExpressionView {
            kind: self.kind,
            body: match self.body {
                ASTExpressionBody::Value(v) => ExpressionBodyView::Value(v.model()),
                ASTExpressionBody::BinaryExpressionBody(b) => ExpressionBodyView::Binary {
                    left: Box::new(b.left.model()),
                    operator: b.operator.model(),
                    right: Box::new(b.right.model()),
                },
                ASTExpressionBody::AssignmentExpressionBody(a) => ExpressionBodyView::Assignment {
                    assignee: Box::new(a.assignee.model()),
                    value: Box::new(a.value.model()),
                },
                ASTExpressionBody::CallExpressionBody(c) => ExpressionBodyView::Call {
                    arguments: expressions_model(c.arguments@),
                    caller: Box::new(c.caller.model()),
                },
                ASTExpressionBody::MemberExpressionBody(m) => ExpressionBodyView::Member {
                    object: Box::new(m.object.model()),
                    property: Box::new(m.property.model()),
                    computed: m.computed,
                },
            },
        }
    }
}

impl VariableDeclaration {
    /// The model of the statement that the declaration is.
    #[verifier::opaque]
    pub open spec fn model(&self) -> StatementView
        decreases self,
    {
        StatementView::Variable {
            constant: self.constant,
            identifier: self.identifier.model(),
            value: match self.value {
                Some(e) => Some(e.model()),
                None => None,
            },
        }
    }
}

impl FunctionDeclaration {
    /// The model of the statement that the declaration is.
    #[verifier::opaque]
    pub open spec fn model(&self) -> StatementView
        decreases self,
    {
        StatementView::Function {
            name: self.identifier@,
            parameters: names_model(self.parameters@),
            body: statements_model(self.body@),
        }
    }
}

impl ConditionalStatement {
    /// The model of the statement that the conditional is.
    #[verifier::opaque]
    pub open spec fn model(&self) -> StatementView
        decreases self,
    {
        StatementView::Conditional {
            condition: match self.condition {
                Some(e) => Some(e.model()),
                None => None,
            },
            consequence: statements_model(self.consequence@),
            alternate: match self.alternate {
                Some(a) => Some(Box::new(a.model())),
                None => None,
            },
        }
    }
}

impl LoopStatement {
    /// The model of the statement that the loop is.
    #[verifier::opaque]
    pub open spec fn model(&self) -> StatementView
        decreases self,
    {
        StatementView::Loop {
            body: statements_model(self.body@),
            variable: self.identifier@,
            start: self.start,
            end: self.end,
            condition: match self.condition {
                Some(e) => Some(e.model()),
                None => None,
            },
        }
    }
}

impl ASTStatement {
    /// The model of the statement.
    #[verifier::opaque]
    pub open spec fn model(&self) -> StatementView
        decreases self,
    {
        match self.kind {
            ASTStatementKind::ExpressionStatement(e) => StatementView::Expression(e.model()),
            ASTStatementKind::VariableDeclaration(d) => d.model(),
            ASTStatementKind::FunctionDeclaration(f) => f.model(),
            ASTStatementKind::ConditionalStatement(c) => c.model(),
            ASTStatementKind::LoopStatement(l) => l.model(),
        }
    }
}

impl View for Value {
    type V = ValueView;

    open spec fn view(&self) -> ValueView {
        self.model()
    }
}

impl View for Property {
    type V = PropertyView;

    open spec fn view(&self) -> PropertyView {
        self.model()
    }
}

impl View for ASTExpression {
    type V = ExpressionView;

    open spec fn view(&self) -> ExpressionView {
        self.model()
    }
}

impl View for ASTStatement {
    type V = StatementView;

    open spec fn view(&self) -> StatementView {
        self.model()
    }
}

impl View for AST {
    type V = ProgramView;

    open spec fn view(&self) -> ProgramView {
        ProgramView { kind: self.kind@, statements: statements_model(self.statements@) }
    }
}

impl ASTStatementKind {
    /// The conditional, if the statement is one.
    pub fn extract_conditional(&self) -> (r: Option<&ConditionalStatement>)
        ensures
            match self {
                ASTStatementKind::ConditionalStatement(conditional) => r == Some(conditional),
                _ => r is None,
            },
    {
        match self {
            ASTStatementKind::ConditionalStatement(conditional) => Some(conditional),
            _ => None,
        }
    }

    /// The conditional, if the statement is one, for changing it in place.
    pub fn extract_conditional_mut(&mut self) -> (r: Option<&mut ConditionalStatement>)
        ensures
            match *old(self) {
                ASTStatementKind::ConditionalStatement(conditional) => r matches Some(c) && *c
                    == conditional && *final(self) == ASTStatementKind::ConditionalStatement(
                    *final(c),
                ),
                _ => r is None && *final(self) == *old(self),
            },
    {
        match self {
            ASTStatementKind::ConditionalStatement(conditional) => Some(conditional),
            _ => None,
        }
    }
}

/// Appending an expression appends its model.
pub proof fn lemma_expressions_push(items: Seq<ASTExpression>, item: ASTExpression)
    ensures
        expressions_model(items.push(item)) == expressions_model(items).push(item@),
{
    reveal_with_fuel(ASTExpression::model, 1);
    assert(expressions_model(items.push(item)) =~= expressions_model(items).push(item@));
}

/// Appending a statement appends its model.
pub proof fn lemma_statements_push(items: Seq<ASTStatement>, item: ASTStatement)
    ensures
        statements_model(items.push(item)) == statements_model(items).push(item@),
{
    reveal_with_fuel(ASTStatement::model, 1);
    assert(statements_model(items.push(item)) =~= statements_model(items).push(item@));
}

/// Appending a property appends its model.
pub proof fn lemma_properties_push(items: Seq<Property>, item: Property)
    ensures
        properties_model(items.push(item)) == properties_model(items).push(item@),
{
    reveal_with_fuel(Property::model, 1);
    assert(properties_model(items.push(item)) =~= properties_model(items).push(item@));
}

/// Appending a name appends its characters.
pub proof fn lemma_names_push(items: Seq<String>, item: String)
    ensures
        names_model(items.push(item)) == names_model(items).push(item@),
{
    assert(names_model(items.push(item)) =~= names_model(items).push(item@));
}

/// The model of a list of expressions, item by item.
pub proof fn lemma_expressions_model(items: Seq<ASTExpression>)
    ensures
        expressions_model(items).len() == items.len(),
        forall|i: int|
            0 <= i < items.len() ==> (#[trigger] expressions_model(items)[i]) == items[i]@,
{
    reveal_with_fuel(ASTExpression::model, 1);
}

/// The model of a list of statements, item by item.
pub proof fn lemma_statements_model(items: Seq<ASTStatement>)
    ensures
        statements_model(items).len() == items.len(),
        forall|i: int|
            0 <= i < items.len() ==> (#[trigger] statements_model(items)[i]) == items[i]@,
{
    reveal_with_fuel(ASTStatement::model, 1);
}

/// The model of a list of properties, item by item.
pub proof fn lemma_properties_model(items: Seq<Property>)
    ensures
        properties_model(items).len() == items.len(),
        forall|i: int|
            0 <= i < items.len() ==> (#[trigger] properties_model(items)[i]) == items[i]@,
{
    reveal_with_fuel(Property::model, 1);
}

/// The model of a list of names, item by item.
pub proof fn lemma_names_model(items: Seq<String>)
    ensures
        names_model(items).len() == items.len(),
        forall|i: int| 0 <= i < items.len() ==> (#[trigger] names_model(items)[i]) == items[i]@,
{
}

} // verus!
