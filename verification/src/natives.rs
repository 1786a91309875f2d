//! The host's side of the language: the functions that the host provides,
//! and what the library computes for the two that every host has, output and
//! the clock.
use crate::environment::{Environment, EnvironmentView};
use crate::helpers::build_number_runtime_value;
use crate::number::{integer_bits, integer_to_double};
use crate::values::{values_model, RuntimeValue, RuntimeValueView, ValueType};
use vstd::prelude::*;

verus! {

/// One call of a function of the host: which function was called, with what
/// arguments and in what environment, and what the host answered.
pub struct HostCall {
    pub function: nat,
    pub arguments: Seq<RuntimeValueView>,
    pub environment: EnvironmentView,
    pub answer: RuntimeValueView,
}

/// The answers of a sequence of calls, in order.
pub open spec fn answers_of(calls: Seq<HostCall>) -> Seq<RuntimeValueView> {
    Seq::new(calls.len(), |i: int| calls[i].answer)
}

/// One more call gives one more answer.
pub proof fn lemma_answers_push(calls: Seq<HostCall>, call: HostCall)
    ensures
        answers_of(calls.push(call)) == answers_of(calls).push(call.answer),
{
    assert(answers_of(calls.push(call)) =~= answers_of(calls).push(call.answer));
}

/// The functions that the host provides, each known by a number. A call hands
/// over the arguments and a view of the environment at the call and answers
/// with one value.
///
/// Nothing is assumed of the answer or of what the call does to the host.
/// `may_answer` is the host's own account of itself: which calls it may
/// answer how, and in which state that leaves it. A host that gives no
/// account may answer anything. The one clause of `call` says that the host
/// keeps to its account, whatever that is; so a result can be shown to come
/// from the host only by calling it.
pub trait NativeFunctions: Sized {
    /// Whether the host, in the state `self`, may take `call.function` with
    /// `call.arguments` and `call.environment`, answer `call.answer` and be
    /// in the state `after`.
    open spec fn may_answer(&self, after: Self, call: HostCall) -> bool {
        true
    }

    fn call(
        &mut self,
        function: usize,
        arguments: Vec<RuntimeValue>,
        environment: &Environment,
    ) -> (r: RuntimeValue)
        ensures
            old(self).may_answer(
                *final(self),
                (HostCall {
                    function: function as nat,
                    arguments: values_model(arguments@),
                    environment: environment@,
                    answer: r@,
                }),
            ),
    ;
}

/// The host's functions, together with the record of the calls made of them.
pub struct Natives<H: NativeFunctions> {
    host: H,
    calls: Ghost<Seq<HostCall>>,
}

impl<H: NativeFunctions> Natives<H> {
    /// The calls that the host has received, oldest first.
    pub closed spec fn calls(&self) -> Seq<HostCall> {
        self.calls@
    }

    /// The answers that the host has given, oldest first.
    pub open spec fn answers(&self) -> Seq<RuntimeValueView> {
        answers_of(self.calls())
    }

    /// The host as it is now.
    pub closed spec fn host_now(&self) -> H {
        self.host
    }

    /// The host's functions, with no call made yet.
    pub fn new(host: H) -> (r: Self)
        ensures
            r.calls() == Seq::<HostCall>::empty(),
            r.host_now() == host,
    {
        Natives { host, calls: Ghost(Seq::empty()) }
    }

    /// Calls the host's function number `function` with `arguments` and
    /// `environment`, and records the call with the host's answer.
    pub fn call(
        &mut self,
        function: usize,
        arguments: Vec<RuntimeValue>,
        environment: &Environment,
    ) -> (r: RuntimeValue)
        ensures
            final(self).calls() == old(self).calls().push(
                (HostCall {
                    function: function as nat,
                    arguments: values_model(arguments@),
                    environment: environment@,
                    answer: r@,
                }),
            ),
            old(self).host_now().may_answer(
                final(self).host_now(),
                (HostCall {
                    function: function as nat,
                    arguments: values_model(arguments@),
                    environment: environment@,
                    answer: r@,
                }),
            ),
    {
        let ghost handed = values_model(arguments@);
        let answer = self.host.call(function, arguments, environment);
        proof {
            self.calls@ = self.calls@.push(
                HostCall {
                    function: function as nat,
                    arguments: handed,
                    environment: environment@,
                    answer: answer@,
                },
            );
        }
        answer
    }

    /// The host.
    pub fn host(&self) -> (r: &H)
        ensures
            *r == self.host_now(),
    {
        &self.host
    }

    /// Gives the host back.
    pub fn into_host(self) -> (r: H)
        ensures
            r == self.host_now(),
    {
        self.host
    }
}

/// The text that the output function writes for a value whose text does not
/// depend on the host: `null`, `true` or `false`, and the text of a string.
pub open spec fn display_spec(value: RuntimeValueView) -> Option<Seq<char>> {
    match value {
        RuntimeValueView::Null => Some("null"@),
        RuntimeValueView::Boolean(b) => Some(
            if b {
                "true"@
            } else {
                "false"@
            },
        ),
        RuntimeValueView::String(text) => Some(text),
        _ => None,
    }
}

/// The text that the output function writes for a null, a boolean or a
/// string. How a number, an object or a function is written is the host's
/// choice.
pub fn display_text(value: &RuntimeValue) -> (r: Option<String>)
    ensures
        match r {
            Some(text) => display_spec(value@) == Some(text@),
            None => display_spec(value@) is None,
        },
{
    proof {
        reveal_with_fuel(RuntimeValue::model, 1);
    }
    match &value.value_type {
        ValueType::Null(_) => Some("null".to_owned()),
        ValueType::Boolean(b) => if b.value {
            Some("true".to_owned())
        } else {
            Some("false".to_owned())
        },
        ValueType::String(s) => Some(s.value.clone()),
        _ => None,
    }
}

/// The value that the clock function answers with when the clock reads
/// `millis` milliseconds since the epoch: the nearest double.
pub fn clock_value(millis: u128) -> (r: RuntimeValue)
    ensures
        r@ == RuntimeValueView::Number(integer_bits(millis)),
{
    build_number_runtime_value(integer_to_double(millis))
}

} // verus!
