//! Text helpers shared by the lexer, the parser and the evaluator, and the
//! builders of the simple runtime values.
use crate::values::{
    BooleanValue, NativeFunctionValue, NullValue, NumberValue, RuntimeValue, RuntimeValueView,
    StringValue, ValueType,
};
use vstd::prelude::*;

verus! {

/// Whether Unicode classes `c` as alphabetic.
pub uninterp spec fn is_alphabetic(c: char) -> bool;

/// Calls `char::is_alphabetic`. Trusted: the answer depends on the character
/// alone, and is named `is_alphabetic`.
#[verifier::external_body]
pub(crate) fn char_is_alphabetic(c: char) -> (r: bool)
    ensures
        r == is_alphabetic(c),
{
    c.is_alphabetic()
}

/// Calls `String::push`. Trusted: the character is appended at the end.
#[verifier::external_body]
pub(crate) fn push_char(text: &mut String, c: char)
    ensures
        final(text)@ == old(text)@.push(c),
{
    text.push(c)
}

/// The characters of `input`, in order.
pub fn characters(input: &str) -> (chars: Vec<char>)
    ensures
        chars@ == input@,
{
    let mut chars: Vec<char> = Vec::new();
    for c in it: input.chars()
        invariant
            chars@ == it.seq().take(it.index() as int),
            it.seq() == input@,
    {
        chars.push(c);
    }
    chars
}

/// The text `chars[start..end]`.
pub(crate) fn text_of(chars: &Vec<char>, start: usize, end: usize) -> (text: String)
    requires
        start <= end <= chars.len(),
    ensures
        text@ == chars@.subrange(start as int, end as int),
{
    let mut text = String::new();
    let mut i: usize = start;
    while i < end
        invariant
            start <= i <= end <= chars.len(),
            text@ == chars@.subrange(start as int, i as int),
        decreases end - i,
    {
        push_char(&mut text, chars[i]);
        i += 1;
    }
    text
}

/// Tells whether `text` spells `literal`.
pub fn spells(text: &String, literal: &str) -> (r: bool)
    ensures
        r == (text@ == literal@),
{
    let other = literal.to_owned();
    *text == other
}

/// Whether `c` is an ASCII character.
pub open spec fn is_ascii_char(c: char) -> bool {
    (c as u32) < 128
}

/// Tells whether `c` is an ASCII character.
pub fn char_is_ascii(c: char) -> (r: bool)
    ensures
        r == is_ascii_char(c),
{
    (c as u32) < 128
}

/// Whether `text` reads as a string literal: ASCII only, first and last
/// character a double quote. A single double quote qualifies.
pub open spec fn is_string_literal(text: Seq<char>) -> bool {
    &&& forall|i: int| 0 <= i < text.len() ==> is_ascii_char(#[trigger] text[i])
    &&& text.len() > 0
    &&& text[0] == '"'
    &&& text[text.len() - 1] == '"'
}

/// Text that can tell whether it is a string literal.
pub trait LiteralHelpers {
    /// The characters of the text.
    spec fn characters(&self) -> Seq<char>;

    /// Tells whether the text is a string literal.
    fn is_string_literal(&self) -> (r: bool)
        ensures
            r == is_string_literal(self.characters()),
    ;
}

impl LiteralHelpers for &str {
    open spec fn characters(&self) -> Seq<char> {
        self@
    }

    fn is_string_literal(&self) -> (r: bool) {
        let chars = characters(self);
        chars_are_string_literal(&chars)
    }
}

impl LiteralHelpers for String {
    open spec fn characters(&self) -> Seq<char> {
        self@
    }

    fn is_string_literal(&self) -> (r: bool) {
        let chars = characters(self.as_str());
        chars_are_string_literal(&chars)
    }
}

/// Tells whether `chars` reads as a string literal.
pub fn chars_are_string_literal(chars: &Vec<char>) -> (r: bool)
    ensures
        r == is_string_literal(chars@),
{
    let n = chars.len();
    if n == 0 || chars[0] != '"' || chars[n - 1] != '"' {
        return false;
    }
    let mut i: usize = 0;
    while i < n
        invariant
            i <= n == chars.len(),
            forall|j: int| 0 <= j < i ==> is_ascii_char(#[trigger] chars@[j]),
        decreases n - i,
    {
        if !char_is_ascii(chars[i]) {
            return false;
        }
        i += 1;
    }
    true
}

/// The boolean value `boolean`.
pub fn build_bool_runtime_value(boolean: bool) -> (r: RuntimeValue)
    ensures
        r@ == RuntimeValueView::Boolean(boolean),
{
    proof {
        reveal_with_fuel(RuntimeValue::model, 1);
    }
    RuntimeValue { value_type: ValueType::Boolean(BooleanValue { value: boolean }) }
}

/// The value of the host's function number `call`.
pub fn build_native_function(call: usize) -> (r: RuntimeValue)
    ensures
        r@ == RuntimeValueView::NativeFunction(call as nat),
{
    proof {
        reveal_with_fuel(RuntimeValue::model, 1);
    }
    RuntimeValue { value_type: ValueType::NativeFunction(NativeFunctionValue { call }) }
}

/// The null value.
pub fn build_null_runtime_value() -> (r: RuntimeValue)
    ensures
        r@ == RuntimeValueView::Null,
{
    proof {
        reveal_with_fuel(RuntimeValue::model, 1);
    }
    RuntimeValue { value_type: ValueType::Null(NullValue {  }) }
}

/// The number whose bit pattern is `number`.
pub fn build_number_runtime_value(number: u64) -> (r: RuntimeValue)
    ensures
        r@ == RuntimeValueView::Number(number),
{
    proof {
        reveal_with_fuel(RuntimeValue::model, 1);
    }
    RuntimeValue { value_type: ValueType::Number(NumberValue { value: number }) }
}

/// The string value `text`.
pub fn build_string_runtime_value(text: String) -> (r: RuntimeValue)
    ensures
        r@ == RuntimeValueView::String(text@),
{
    proof {
        reveal_with_fuel(RuntimeValue::model, 1);
    }
    RuntimeValue { value_type: ValueType::String(StringValue { value: text }) }
}

} // verus!
