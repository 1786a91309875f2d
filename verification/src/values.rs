//! Runtime values and evaluation errors.
//!
//! A value's model (`RuntimeValueView`) holds text as `Seq<char>`, an object
//! as a `Map` from property names to value models, and a function's body as
//! the models of its statements.
use crate::ast::{names_model, statements_model, ASTExpressionKind, ASTStatement, StatementView};
use crate::duplicate::{duplicate_names, duplicate_statements};
use vstd::prelude::*;

verus! {

/// The type tag of a runtime value.
#[derive(Debug, Clone, Copy, PartialEq, Eq, Structural)]
pub enum ValueTypes {
    Null,
    Number,
    Boolean,
    Object,
    Function,
    String,
}

/// The null value.
#[derive(Debug, Clone, PartialEq, Eq)]
pub struct NullValue {}

/// A number, as the bit pattern of a double.
#[derive(Debug, Clone, PartialEq, Eq)]
pub struct NumberValue {
    pub value: u64,
}

/// A boolean.
#[derive(Debug, Clone, PartialEq, Eq)]
pub struct BooleanValue {
    pub value: bool,
}

/// A string: the text of its literal, quotes included.
#[derive(Debug, Clone, PartialEq, Eq)]
pub struct StringValue {
    pub value: String,
}

/// One property of an object value.
#[derive(Debug, Clone, PartialEq, Eq)]
pub struct PropertyValue {
    pub name: String,
    pub value: RuntimeValue,
}

/// An object: properties in the order they were set. Where a name occurs more
/// than once, the last occurrence is the property. The model is the mapping
/// alone; `==` on the values themselves also compares the order.
#[derive(Debug, Clone, PartialEq, Eq)]
pub struct ObjectValue {
    pub properties: Vec<PropertyValue>,
}

/// A function that the host provides, known by the host's number for it.
#[derive(Debug, Clone, PartialEq, Eq)]
pub struct NativeFunctionValue {
    pub call: usize,
}

/// A function of the program: its name, parameter names, body, and the scope
/// it was declared in, by that scope's index in the environment.
#[derive(Debug, Clone, PartialEq, Eq)]
pub struct FunctionValue {
    pub name: String,
    pub parameters: Vec<String>,
    pub body: Vec<ASTStatement>,
    pub scope: usize,
}

/// A runtime value, by its type.
#[derive(Debug, Clone, PartialEq, Eq)]
pub enum ValueType {
    Null(NullValue),
    Number(NumberValue),
    Boolean(BooleanValue),
    Object(ObjectValue),
    String(StringValue),
    NativeFunction(NativeFunctionValue),
    Function(FunctionValue),
}

/// A value that evaluation produces.
#[derive(Debug, PartialEq, Eq)]
pub struct RuntimeValue {
    pub value_type: ValueType,
}

/// Model of a `RuntimeValue`.
pub enum RuntimeValueView {
    Null,
    Number(u64),
    Boolean(bool),
    String(Seq<char>),
    Object(Map<Seq<char>, RuntimeValueView>),
    NativeFunction(nat),
    Function { name: Seq<char>, parameters: Seq<Seq<char>>, body: Seq<StatementView>, scope: nat },
}

/// What an operation was applied to when it could not be.
#[derive(Debug, Clone, Copy, PartialEq, Eq, Structural)]
pub enum Mismatch {
    /// The left side of an assignment is this kind of node, not an identifier.
    AssignmentTarget(ASTExpressionKind),
    /// The callee is a value of this type, not a function.
    Callee(ValueTypes),
    /// The callee is a function whose scope the environment does not hold.
    CalleeScope,
}

/// Why evaluation stopped.
#[derive(Debug, PartialEq, Eq)]
pub enum EvalError {
    /// The name is already declared in the scope.
    DeclarationError(String),
    /// The name is declared in no scope of the chain.
    NameError(String),
    /// The name is a constant.
    ConstError(String),
    /// An operation met an operand it cannot take.
    TypeError(Mismatch),
    /// The divisor is zero.
    DivisionByZero,
    /// A call gave fewer arguments than the function has parameters.
    ArityError,
    /// Calls are nested deeper than the limit.
    RecursionLimit,
    /// The node has no evaluation: a conditional, a loop, a member access, an
    /// unknown operator, or a node whose kind and body disagree.
    Unsupported,
}

/// Model of an `EvalError`.
pub enum EvalErrorView {
    DeclarationError(Seq<char>),
    NameError(Seq<char>),
    ConstError(Seq<char>),
    TypeError(Mismatch),
    DivisionByZero,
    ArityError,
    RecursionLimit,
    Unsupported,
}

impl View for EvalError {
    type V = EvalErrorView;

    open spec fn view(&self) -> EvalErrorView {
        match self {
            EvalError::DeclarationError(name) => EvalErrorView::DeclarationError(name@),
            EvalError::NameError(name) => EvalErrorView::NameError(name@),
            EvalError::ConstError(name) => EvalErrorView::ConstError(name@),
            EvalError::TypeError(mismatch) => EvalErrorView::TypeError(*mismatch),
            EvalError::DivisionByZero => EvalErrorView::DivisionByZero,
            EvalError::ArityError => EvalErrorView::ArityError,
            EvalError::RecursionLimit => EvalErrorView::RecursionLimit,
            EvalError::Unsupported => EvalErrorView::Unsupported,
        }
    }
}

/// The map that a list of named items stands for: each name maps to the item
/// of its last occurrence.
pub open spec fn assoc_map<V>(names: Seq<Seq<char>>, values: Seq<V>) -> Map<Seq<char>, V>
    decreases names.len(),
{
    if names.len() == 0 || values.len() != names.len() {
        Map::empty()
    } else {
        assoc_map(names.drop_last(), values.drop_last()).insert(names.last(), values.last())
    }
}

/// Whether `at` is the last position of `name` in `names`.
pub open spec fn is_last_of(names: Seq<Seq<char>>, name: Seq<char>, at: int) -> bool {
    &&& 0 <= at < names.len()
    &&& names[at] == name
    &&& forall|j: int| at < j < names.len() ==> names[j] != name
}

/// Whether `name` occurs in `names`.
pub open spec fn occurs(names: Seq<Seq<char>>, name: Seq<char>) -> bool {
    exists|i: int| 0 <= i < names.len() && names[i] == name
}

/// A name is a key of the map exactly if it occurs in the list.
pub proof fn lemma_assoc_map_domain<V>(names: Seq<Seq<char>>, values: Seq<V>, name: Seq<char>)
    requires
        names.len() == values.len(),
    ensures
        assoc_map(names, values).contains_key(name) <==> occurs(names, name),
    decreases names.len(),
{
    if names.len() > 0 {
        lemma_assoc_map_domain(names.drop_last(), values.drop_last(), name);
        if occurs(names, name) {
            let i = choose|i: int| 0 <= i < names.len() && names[i] == name;
            if i < names.len() - 1 {
                assert(names.drop_last()[i] == name);
            }
        }
        if occurs(names.drop_last(), name) {
            let i = choose|i: int| 0 <= i < names.drop_last().len() && names.drop_last()[i] == name;
            assert(names[i] == name);
        }
    }
}

/// The map holds, for a name, the item of its last occurrence.
pub proof fn lemma_assoc_map_last<V>(
    names: Seq<Seq<char>>,
    values: Seq<V>,
    name: Seq<char>,
    at: int,
)
    requires
        names.len() == values.len(),
        is_last_of(names, name, at),
    ensures
        assoc_map(names, values).contains_key(name),
        assoc_map(names, values)[name] == values[at],
    decreases names.len(),
{
    if at < names.len() - 1 {
        assert(names.last() != name);
        lemma_assoc_map_last(names.drop_last(), values.drop_last(), name, at);
    }
}

/// Replacing the item at the last occurrence of a name replaces the name's entry.
pub proof fn lemma_assoc_map_update<V>(
    names: Seq<Seq<char>>,
    values: Seq<V>,
    name: Seq<char>,
    at: int,
    value: V,
)
    requires
        names.len() == values.len(),
        is_last_of(names, name, at),
    ensures
        assoc_map(names, values.update(at, value)) == assoc_map(names, values).insert(name, value),
    decreases names.len(),
{
    if at < names.len() - 1 {
        assert(names.last() != name);
        lemma_assoc_map_update(names.drop_last(), values.drop_last(), name, at, value);
        assert(values.update(at, value).drop_last() =~= values.drop_last().update(at, value));
        assert(assoc_map(names, values.update(at, value)) =~= assoc_map(names, values).insert(
            name,
            value,
        ));
    } else {
        assert(values.update(at, value).drop_last() =~= values.drop_last());
        assert(assoc_map(names, values.update(at, value)) =~= assoc_map(names, values).insert(
            name,
            value,
        ));
    }
}

/// Appending a named item sets the name's entry.
pub proof fn lemma_assoc_map_push<V>(
    names: Seq<Seq<char>>,
    values: Seq<V>,
    name: Seq<char>,
    value: V,
)
    requires
        names.len() == values.len(),
    ensures
        assoc_map(names.push(name), values.push(value)) == assoc_map(names, values).insert(
            name,
            value,
        ),
{
    assert(names.push(name).drop_last() =~= names);
    assert(values.push(value).drop_last() =~= values);
}

/// The names of a list of properties.
pub open spec fn property_names(items: Seq<PropertyValue>) -> Seq<Seq<char>> {
    Seq::new(items.len(), |i: int| items[i].name@)
}

/// The models of the values of a list of properties.
pub open spec fn property_values(items: Seq<PropertyValue>) -> Seq<RuntimeValueView>
    decreases items,
{
    Seq::new(
        items.len(),
        |i: int|
            if 0 <= i < items.len() {
                items[i].value.model()
            } else {
                arbitrary()
            },
    )
}

impl RuntimeValue {
    /// The model of the value.
    #[verifier::opaque]
    pub open spec fn model(&self) -> RuntimeValueView
        decreases self,
    {
        match self.value_type {
            ValueType::Null(_) => RuntimeValueView::Null,
            ValueType::Number(n) => RuntimeValueView::Number(n.value),
            ValueType::Boolean(b) => RuntimeValueView::Boolean(b.value),
            ValueType::String(s) => RuntimeValueView::String(s.value@),
            ValueType::Object(o) => RuntimeValueView::Object(
                assoc_map(property_names(o.properties@), property_values(o.properties@)),
            ),
            ValueType::NativeFunction(f) => RuntimeValueView::NativeFunction(f.call as nat),
            ValueType::Function(f) => RuntimeValueView::Function {
                name: f.name@,
                parameters: names_model(f.parameters@),
                body: statements_model(f.body@),
                scope: f.scope as nat,
            },
        }
    }
}

impl View for RuntimeValue {
    type V = RuntimeValueView;

    open spec fn view(&self) -> RuntimeValueView {
        self.model()
    }
}

/// The models of a list of values.
pub open spec fn values_model(values: Seq<RuntimeValue>) -> Seq<RuntimeValueView> {
    Seq::new(values.len(), |i: int| values[i]@)
}

/// Appending a value appends its model.
pub proof fn lemma_values_push(values: Seq<RuntimeValue>, value: RuntimeValue)
    ensures
        values_model(values.push(value)) == values_model(values).push(value@),
{
    assert(values_model(values.push(value)) =~= values_model(values).push(value@));
}

/// The type tag of a value model.
pub open spec fn type_of(value: RuntimeValueView) -> ValueTypes {
    match value {
        RuntimeValueView::Null => ValueTypes::Null,
        RuntimeValueView::Number(_) => ValueTypes::Number,
        RuntimeValueView::Boolean(_) => ValueTypes::Boolean,
        RuntimeValueView::String(_) => ValueTypes::String,
        RuntimeValueView::Object(_) => ValueTypes::Object,
        RuntimeValueView::NativeFunction(_) => ValueTypes::Function,
        RuntimeValueView::Function { .. } => ValueTypes::Function,
    }
}

/// The models of the values of a property list, item by item.
pub proof fn lemma_property_values(items: Seq<PropertyValue>)
    ensures
        property_values(items).len() == items.len(),
        forall|i: int|
            0 <= i < items.len() ==> (#[trigger] property_values(items)[i])
                == items[i].value@,
{
    reveal_with_fuel(RuntimeValue::model, 1);
}

/// A copy of a list of properties.
pub fn duplicate_property_values(items: &Vec<PropertyValue>) -> (r: Vec<PropertyValue>)
    ensures
        property_names(r@) == property_names(items@),
        property_values(r@) == property_values(items@),
    decreases items,
{
    let mut out: Vec<PropertyValue> = Vec::new();
    let mut i: usize = 0;
    while i < items.len()
        invariant
            i <= items.len(),
            out@.len() == i,
            forall|j: int| 0 <= j < i ==> out@[j].name@ == items@[j].name@,
            forall|j: int| 0 <= j < i ==> out@[j].value@ == items@[j].value@,
        decreases items.len() - i,
    {
        let item = &items[i];
        out.push(PropertyValue { name: item.name.clone(), value: item.value.duplicate() });
        i += 1;
    }
    proof {
        lemma_property_values(out@);
        lemma_property_values(items@);
        assert(property_names(out@) =~= property_names(items@));
        assert(property_values(out@) =~= property_values(items@));
    }
    out
}

impl RuntimeValue {
    /// The type tag of the value.
    pub fn kind(&self) -> (r: ValueTypes)
        ensures
            r == type_of(self@),
    {
        proof {
            reveal_with_fuel(RuntimeValue::model, 1);
        }
        match &self.value_type {
            ValueType::Null(_) => ValueTypes::Null,
            ValueType::Number(_) => ValueTypes::Number,
            ValueType::Boolean(_) => ValueTypes::Boolean,
            ValueType::String(_) => ValueTypes::String,
            ValueType::Object(_) => ValueTypes::Object,
            ValueType::NativeFunction(_) => ValueTypes::Function,
            ValueType::Function(_) => ValueTypes::Function,
        }
    }

    /// A copy with the same model.
    pub fn duplicate(&self) -> (r: RuntimeValue)
        ensures
            r@ == self@,
        decreases self,
    {
        proof {
            reveal_with_fuel(RuntimeValue::model, 1);
        }
        let value_type = match &self.value_type {
            ValueType::Null(_) => ValueType::Null(NullValue {  }),
            ValueType::Number(n) => ValueType::Number(NumberValue { value: n.value }),
            ValueType::Boolean(b) => ValueType::Boolean(BooleanValue { value: b.value }),
            ValueType::String(s) => ValueType::String(StringValue { value: s.value.clone() }),
            ValueType::Object(o) => ValueType::Object(
                ObjectValue { properties: duplicate_property_values(&o.properties) },
            ),
            ValueType::NativeFunction(f) => ValueType::NativeFunction(
                NativeFunctionValue { call: f.call },
            ),
            ValueType::Function(f) => ValueType::Function(
                FunctionValue {
                    name: f.name.clone(),
                    parameters: duplicate_names(&f.parameters),
                    body: duplicate_statements(&f.body),
                    scope: f.scope,
                },
            ),
        };
        RuntimeValue { value_type }
    }
}

impl Clone for RuntimeValue {
    fn clone(&self) -> (r: RuntimeValue)
        ensures
            r@ == self@,
    {
        self.duplicate()
    }
}

impl Clone for EvalError {
    fn clone(&self) -> (r: EvalError)
        ensures
            r@ == self@,
    {
        duplicate_error(self)
    }
}

/// A copy of an error.
pub fn duplicate_error(error: &EvalError) -> (r: EvalError)
    ensures
        r@ == error@,
{
    match error {
        EvalError::DeclarationError(name) => EvalError::DeclarationError(name.clone()),
        EvalError::NameError(name) => EvalError::NameError(name.clone()),
        EvalError::ConstError(name) => EvalError::ConstError(name.clone()),
        EvalError::TypeError(mismatch) => EvalError::TypeError(*mismatch),
        EvalError::DivisionByZero => EvalError::DivisionByZero,
        EvalError::ArityError => EvalError::ArityError,
        EvalError::RecursionLimit => EvalError::RecursionLimit,
        EvalError::Unsupported => EvalError::Unsupported,
    }
}

} // verus!
