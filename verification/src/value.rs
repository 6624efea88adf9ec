//! Values: what expressions evaluate to.

use crate::expression::{Literal, LiteralView};
use crate::host::{shown_at, Exchange, Host, Platform};
use crate::number::{equal, integral, Number};
use crate::statement::{duplicate_names, name_views, Statement, StatementView};
use crate::text::same_text;
use vstd::prelude::*;

verus! {

/// The functions that the language provides itself.
#[derive(Clone, Copy, Debug, PartialEq, Eq, Structural)]
pub enum Native {
    /// `clock()`: the time in whole seconds since the start of 1970.
    Clock,
}

/// The number of arguments that a native function takes.
pub open spec fn native_arity(native: Native) -> nat {
    match native {
        Native::Clock => 0,
    }
}

impl Native {
    /// The number of arguments that the function takes.
    pub fn arity(self) -> (arity: usize)
        ensures
            arity == native_arity(self),
    {
        match self {
            Native::Clock => 0,
        }
    }
}

/// Something that can be called.
#[derive(Debug, PartialEq)]
pub enum Callable {
    Native(Native),
    /// A function of a program: its name, the names of its parameters, and
    /// its body.
    Function(String, Vec<String>, Box<Statement>),
}

/// The model of a [`Callable`].
pub enum CallableView {
    Native(Native),
    Function(Seq<char>, Seq<Seq<char>>, StatementView),
}

impl View for Callable {
    type V = CallableView;

    open spec fn view(&self) -> CallableView {
        match self {
            Callable::Native(native) => CallableView::Native(*native),
            Callable::Function(name, parameters, body) => CallableView::Function(
                name@,
                name_views(parameters@),
                body@,
            ),
        }
    }
}

impl Clone for Callable {
    fn clone(&self) -> (copy: Self)
        ensures
            copy@ == self@,
    {
        match self {
            Callable::Native(native) => Callable::Native(*native),
            Callable::Function(name, parameters, body) => Callable::Function(
                name.clone(),
                duplicate_names(parameters),
                Box::new(body.duplicate()),
            ),
        }
    }
}

/// A value of the language.
#[derive(Debug, PartialEq)]
pub enum Value {
    Bool(bool),
    Number(Number),
    String(String),
    Callable(Callable),
    Nil,
}

/// The model of a [`Value`].
pub enum ValueView {
    Bool(bool),
    Number(Number),
    String(Seq<char>),
    Callable(CallableView),
    Nil,
}

impl View for Value {
    type V = ValueView;

    open spec fn view(&self) -> ValueView {
        match self {
            Value::Bool(value) => ValueView::Bool(*value),
            Value::Number(number) => ValueView::Number(*number),
            Value::String(text) => ValueView::String(text@),
            Value::Callable(callable) => ValueView::Callable(callable@),
            Value::Nil => ValueView::Nil,
        }
    }
}

impl Clone for Value {
    fn clone(&self) -> (copy: Self)
        ensures
            copy@ == self@,
    {
        match self {
            Value::Bool(value) => Value::Bool(*value),
            Value::Number(number) => Value::Number(*number),
            Value::String(text) => Value::String(text.clone()),
            Value::Callable(callable) => Value::Callable(callable.clone()),
            Value::Nil => Value::Nil,
        }
    }
}

/// Whether a value counts as true: every value does but `false` and `nil`.
pub open spec fn truthy(value: ValueView) -> bool {
    match value {
        ValueView::Bool(value) => value,
        ValueView::Nil => false,
        _ => true,
    }
}

/// `left == right` in the language. Values of different kinds are never
/// equal, and nothing is equal to something that can be called.
pub open spec fn equal_values(left: ValueView, right: ValueView) -> bool {
    match (left, right) {
        (ValueView::Bool(left), ValueView::Bool(right)) => left == right,
        (ValueView::Number(left), ValueView::Number(right)) => equal(left, right),
        (ValueView::String(left), ValueView::String(right)) => left == right,
        (ValueView::Nil, ValueView::Nil) => true,
        _ => false,
    }
}

impl Value {
    /// Whether the value counts as true.
    pub fn is_truthy(&self) -> (yes: bool)
        ensures
            yes == truthy(self@),
            !yes <==> (self@ == ValueView::Bool(false) || self@ is Nil),
    {
        match self {
            Value::Bool(value) => *value,
            Value::Nil => false,
            _ => true,
        }
    }

    /// `self == other` in the language.
    pub fn is_equal(&self, other: &Value) -> (yes: bool)
        ensures
            yes == equal_values(self@, other@),
    {
        match (self, other) {
            (Value::Bool(left), Value::Bool(right)) => *left == *right,
            (Value::Number(left), Value::Number(right)) => left.equals(*right),
            (Value::String(left), Value::String(right)) => same_text(
                left.as_str(),
                right.as_str(),
            ),
            (Value::Nil, Value::Nil) => true,
            _ => false,
        }
    }
}

/// The number of digits behind the dot with which a number is shown as a
/// value: none where it has no fractional part, and as many as it takes
/// (`None`) where it has one.
pub open spec fn value_decimals(number: Number) -> Option<u8> {
    if integral(number) {
        Some(0u8)
    } else {
        None
    }
}

/// The text of a value that is not a number.
pub open spec fn plain_text(value: ValueView) -> Seq<char> {
    match value {
        ValueView::Bool(value) => if value {
            "true"@
        } else {
            "false"@
        },
        ValueView::String(text) => text,
        ValueView::Callable(CallableView::Native(_)) => "<native fn>"@,
        ValueView::Callable(CallableView::Function(name, _, _)) => "<fn "@ + name + ">"@,
        _ => "nil"@,
    }
}

/// The text of a value and the cursor behind the exchange that showing it
/// took, if any; `None` where the script does not hold that exchange. Only
/// showing a number takes an exchange.
pub open spec fn value_text(value: ValueView, script: Seq<Exchange>, cursor: int) -> Option<
    (Seq<char>, int),
> {
    match value {
        ValueView::Number(number) => match shown_at(
            script,
            cursor,
            number,
            value_decimals(number),
        ) {
            Some(text) => Some((text, cursor + 1)),
            None => None,
        },
        _ => Some((plain_text(value), cursor)),
    }
}

/// The value of a literal that is not a number.
pub open spec fn plain_value(literal: LiteralView) -> ValueView {
    match literal {
        LiteralView::Bool(value) => ValueView::Bool(value),
        LiteralView::String(text) => ValueView::String(text),
        _ => ValueView::Nil,
    }
}

impl Value {
    /// The value of a literal. The host reads a numeral.
    pub fn from_literal<H: Host>(literal: &Literal, platform: &mut Platform<H>) -> (value: Value)
        ensures
            match literal@ {
                LiteralView::Number(numeral) => value@ is Number && final(platform).history()
                    == old(platform).history().push(
                    Exchange::Read { numeral, number: value@->Number_0 },
                ),
                _ => value@ == plain_value(literal@) && final(platform).history() == old(
                    platform,
                ).history(),
            },
    {
        match literal {
            Literal::Bool(value) => Value::Bool(*value),
            Literal::Number(numeral) => Value::Number(platform.read(numeral.as_str())),
            Literal::String(text) => Value::String(text.clone()),
            Literal::Nil => Value::Nil,
        }
    }

    /// The text of the value, as it is printed. The host shows a number:
    /// without digits behind the dot where it has no fractional part, and
    /// with as many as it takes where it has one.
    pub fn to_text<H: Host>(&self, platform: &mut Platform<H>) -> (text: String)
        ensures
            match self@ {
                ValueView::Number(number) => final(platform).history() == old(
                    platform,
                ).history().push(
                    Exchange::Shown { number, decimals: value_decimals(number), text: text@ },
                ),
                _ => text@ == plain_text(self@) && final(platform).history() == old(
                    platform,
                ).history(),
            },
    {
        match self {
            Value::Bool(value) => if *value {
                String::from_str("true")
            } else {
                String::from_str("false")
            },
            Value::Number(number) => {
                let decimals: Option<u8> = if number.is_integral() {
                    Some(0)
                } else {
                    None
                };
                platform.show(*number, decimals)
            },
            Value::String(text) => text.clone(),
            Value::Callable(Callable::Native(_)) => String::from_str("<native fn>"),
            Value::Callable(Callable::Function(name, _, _)) => {
                let mut text = String::from_str("<fn ");
                text.append(name.as_str());
                text.append(">");
                text
            },
            Value::Nil => String::from_str("nil"),
        }
    }
}

/// Why an evaluation ended early.
#[derive(Debug, PartialEq)]
pub enum Error {
    /// A failure, with its message.
    Runtime(String),
    /// A `return` statement on its way to the call that it ends, with the
    /// value that the call gives.
    Return(Value),
}

/// The model of an [`Error`].
pub enum ErrorView {
    Runtime(Seq<char>),
    Return(ValueView),
}

impl View for Error {
    type V = ErrorView;

    open spec fn view(&self) -> ErrorView {
        match self {
            Error::Runtime(message) => ErrorView::Runtime(message@),
            Error::Return(value) => ErrorView::Return(value@),
        }
    }
}

/// A value counts as false exactly when it is `false` or `nil`.
pub proof fn lemma_falsy_values(value: ValueView)
    ensures
        !truthy(value) <==> (value == ValueView::Bool(false) || value is Nil),
{
}

/// Equality of values is symmetric.
pub proof fn lemma_equal_values_is_symmetric(left: ValueView, right: ValueView)
    ensures
        equal_values(left, right) == equal_values(right, left),
{
}

} // verus!
