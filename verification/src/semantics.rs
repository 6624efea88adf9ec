//! The meaning of programs: what evaluating an expression or running a
//! statement gives and does to the memory.
//!
//! A run talks to the host: it reads numerals, computes, shows numbers, asks
//! for the time and prints. The meaning of a program is therefore stated
//! against a script, the sequence of these exchanges. A run starts at a
//! position in the script, the cursor, and moves it over each exchange it
//! makes. Where the script holds another exchange than the one the run makes
//! next, or none, the run is stuck: the script is not one of this run.
//!
//! Every run has a budget. Evaluating or running a part takes one from the
//! budget of the whole, and so does each further round of a loop. A run
//! whose budget is used up fails. The budget bounds how deep a run nests and
//! how long it loops; the statements of a block share one budget, and so do
//! the arguments of a call.

use crate::environment::{
    assigned, declared, lookup, popped, pushed, undefined_variable, Memory,
};
use crate::expression::{BinaryOperation, ExpressionView, LiteralView, UnaryOperation};
use crate::host::{clock_at, computed_at, printed_at, read_at, Arithmetic, Exchange};
use crate::number::{less, less_or_equal, negation, Number};
use crate::statement::StatementView;
use crate::text::decimal_text;
use crate::value::{
    equal_values, native_arity, plain_value, truthy, value_text, CallableView, ErrorView, Native,
    ValueView,
};
use vstd::prelude::*;

pub mod depth;
pub mod frame;
pub mod unwinding;

verus! {

/// How a run ended.
pub enum Run<T> {
    /// The run made the exchanges of the script from where it started up to
    /// `cursor` and ended with `result`, leaving the memory as `memory`.
    Done { result: Result<T, ErrorView>, memory: Memory, cursor: int },
    /// The script does not hold the exchanges of this run.
    Stuck,
}

pub open spec fn operand_must_be_a_number() -> Seq<char> {
    "Operand must be a number."@
}

pub open spec fn operands_must_be_numbers() -> Seq<char> {
    "Operands must be a numbers."@
}

pub open spec fn can_only_call_functions() -> Seq<char> {
    "Can only call functions and classes."@
}

pub open spec fn limit_reached() -> Seq<char> {
    "Evaluation limit reached."@
}

pub open spec fn unexpected_return() -> Seq<char> {
    "Received unexpected return value"@
}

pub open spec fn wrong_number_of_arguments(expected: nat, got: nat) -> Seq<char> {
    "Expected "@ + decimal_text(expected) + " arguments but got "@ + decimal_text(got) + "."@
}

/// The name under which the clock is declared in a new interpreter.
pub open spec fn clock_name() -> Seq<char> {
    "clock"@
}

/// A run that ends well.
pub open spec fn succeeded<T>(value: T, memory: Memory, cursor: int) -> Run<T> {
    Run::Done { result: Ok(value), memory, cursor }
}

/// A run that fails with a message.
pub open spec fn failed<T>(message: Seq<char>, memory: Memory, cursor: int) -> Run<T> {
    Run::Done { result: Err(ErrorView::Runtime(message)), memory, cursor }
}

/// The value of a literal. The host reads a numeral.
pub open spec fn literal_value(
    literal: LiteralView,
    memory: Memory,
    script: Seq<Exchange>,
    cursor: int,
) -> Run<ValueView> {
    match literal {
        LiteralView::Number(numeral) => match read_at(script, cursor, numeral) {
            Some(number) => succeeded(ValueView::Number(number), memory, cursor + 1),
            None => Run::Stuck,
        },
        _ => succeeded(plain_value(literal), memory, cursor),
    }
}

/// The result of a unary operation on a value.
pub open spec fn unary_result(operation: UnaryOperation, operand: ValueView) -> Result<
    ValueView,
    ErrorView,
> {
    match operation {
        UnaryOperation::Minus => match operand {
            ValueView::Number(number) => Ok(ValueView::Number(negation(number))),
            _ => Err(ErrorView::Runtime(operand_must_be_a_number())),
        },
        UnaryOperation::Not => Ok(ValueView::Bool(!truthy(operand))),
    }
}

/// The operation of the host that a binary operation on two numbers takes,
/// if it takes one.
pub open spec fn arithmetic_of(operation: BinaryOperation) -> Option<Arithmetic> {
    match operation {
        BinaryOperation::Plus => Some(Arithmetic::Add),
        BinaryOperation::Minus => Some(Arithmetic::Subtract),
        BinaryOperation::Multiply => Some(Arithmetic::Multiply),
        BinaryOperation::Divide => Some(Arithmetic::Divide),
        _ => None,
    }
}

/// The result of comparing two numbers.
pub open spec fn comparison(operation: BinaryOperation, left: Number, right: Number) -> bool {
    match operation {
        BinaryOperation::Greater => less(right, left),
        BinaryOperation::GreaterEqual => less_or_equal(right, left),
        BinaryOperation::Less => less(left, right),
        _ => less_or_equal(left, right),
    }
}

/// The result of a binary operation on two values. Equality takes any two
/// values. The other operations take two numbers; `+` also takes two
/// strings, which it joins.
pub open spec fn binary_result(
    operation: BinaryOperation,
    left: ValueView,
    right: ValueView,
    memory: Memory,
    script: Seq<Exchange>,
    cursor: int,
) -> Run<ValueView> {
    match operation {
        BinaryOperation::Equal => succeeded(
            ValueView::Bool(equal_values(left, right)),
            memory,
            cursor,
        ),
        BinaryOperation::NotEqual => succeeded(
            ValueView::Bool(!equal_values(left, right)),
            memory,
            cursor,
        ),
        _ => match (left, right) {
            (ValueView::Number(left), ValueView::Number(right)) => match arithmetic_of(
                operation,
            ) {
                Some(arithmetic) => match computed_at(script, cursor, arithmetic, left, right) {
                    Some(result) => succeeded(ValueView::Number(result), memory, cursor + 1),
                    None => Run::Stuck,
                },
                None => succeeded(
                    ValueView::Bool(comparison(operation, left, right)),
                    memory,
                    cursor,
                ),
            },
            (ValueView::String(left), ValueView::String(right)) => if operation
                == BinaryOperation::Plus {
                succeeded(ValueView::String(left + right), memory, cursor)
            } else {
                failed(operands_must_be_numbers(), memory, cursor)
            },
            _ => failed(operands_must_be_numbers(), memory, cursor),
        },
    }
}

/// What a call of a native function gives.
pub open spec fn native_result(
    native: Native,
    arguments: Seq<ValueView>,
    memory: Memory,
    script: Seq<Exchange>,
    cursor: int,
) -> Run<ValueView> {
    match native {
        Native::Clock => match clock_at(script, cursor) {
            Some(now) => succeeded(ValueView::Number(now), memory, cursor + 1),
            None => Run::Stuck,
        },
    }
}

/// What a call gives once the body of the function has run: the value of the
/// `return` statement that ended it, or `nil` where it ran to its end. The
/// scope of the call is closed.
pub open spec fn returned(body: Run<()>) -> Run<ValueView> {
    match body {
        Run::Done { result, memory, cursor } => Run::Done {
            result: match result {
                Ok(_) => Ok(ValueView::Nil),
                Err(ErrorView::Return(value)) => Ok(value),
                Err(ErrorView::Runtime(message)) => Err(ErrorView::Runtime(message)),
            },
            memory: popped(memory),
            cursor,
        },
        Run::Stuck => Run::Stuck,
    }
}

/// A run in a scope of its own, once it has ended: the scope is closed.
pub open spec fn closed<T>(inner: Run<T>) -> Run<T> {
    match inner {
        Run::Done { result, memory, cursor } => Run::Done {
            result,
            memory: popped(memory),
            cursor,
        },
        Run::Stuck => Run::Stuck,
    }
}

/// The value of an expression.
#[verifier::opaque]
pub open spec fn evaluate(
    expression: ExpressionView,
    memory: Memory,
    script: Seq<Exchange>,
    cursor: int,
    budget: nat,
) -> Run<ValueView>
    decreases budget, 0int,
{
    if budget == 0 {
        failed(limit_reached(), memory, cursor)
    } else {
        let rest = (budget - 1) as nat;
        match expression {
            ExpressionView::Literal(literal) => literal_value(literal, memory, script, cursor),
            ExpressionView::Grouping(inner) => evaluate(*inner, memory, script, cursor, rest),
            ExpressionView::Unary(operation, operand) => match evaluate(
                *operand,
                memory,
                script,
                cursor,
                rest,
            ) {
                Run::Done { result: Ok(value), memory, cursor } => Run::Done {
                    result: unary_result(operation, value),
                    memory,
                    cursor,
                },
                other => other,
            },
            ExpressionView::Binary(operation, left, right) => match evaluate(
                *left,
                memory,
                script,
                cursor,
                rest,
            ) {
                Run::Done { result: Ok(first), memory, cursor } => match evaluate(
                    *right,
                    memory,
                    script,
                    cursor,
                    rest,
                ) {
                    Run::Done { result: Ok(second), memory, cursor } => binary_result(
                        operation,
                        first,
                        second,
                        memory,
                        script,
                        cursor,
                    ),
                    other => other,
                },
                other => other,
            },
            ExpressionView::Variable(name) => match lookup(memory, name) {
                Some(value) => succeeded(value, memory, cursor),
                None => failed(undefined_variable(name), memory, cursor),
            },
            ExpressionView::Assign(name, value) => match evaluate(
                *value,
                memory,
                script,
                cursor,
                rest,
            ) {
                Run::Done { result: Ok(value), memory, cursor } => match assigned(
                    memory,
                    name,
                    value,
                ) {
                    Some(changed) => succeeded(value, changed, cursor),
                    None => failed(undefined_variable(name), memory, cursor),
                },
                other => other,
            },
            ExpressionView::And(left, right) => match evaluate(
                *left,
                memory,
                script,
                cursor,
                rest,
            ) {
                Run::Done { result: Ok(first), memory, cursor } => if truthy(first) {
                    evaluate(*right, memory, script, cursor, rest)
                } else {
                    succeeded(first, memory, cursor)
                },
                other => other,
            },
            ExpressionView::Or(left, right) => match evaluate(
                *left,
                memory,
                script,
                cursor,
                rest,
            ) {
                Run::Done { result: Ok(first), memory, cursor } => if truthy(first) {
                    succeeded(first, memory, cursor)
                } else {
                    evaluate(*right, memory, script, cursor, rest)
                },
                other => other,
            },
            ExpressionView::Call(callee, arguments) => match evaluate(
                *callee,
                memory,
                script,
                cursor,
                rest,
            ) {
                Run::Done { result: Ok(called), memory, cursor } => call(
                    called,
                    arguments,
                    memory,
                    script,
                    cursor,
                    rest,
                ),
                other => other,
            },
        }
    }
}

/// A call of a value with arguments that are still to be evaluated.
///
/// A native function gets its arguments evaluated from left to right in the
/// scope of the call expression. A function of the program gets a scope of
/// its own, opened where the call stands, in which each argument is
/// evaluated and declared under its parameter's name before the next one is
/// evaluated; then its body runs in that scope.
#[verifier::opaque]
pub open spec fn call(
    called: ValueView,
    arguments: Seq<ExpressionView>,
    memory: Memory,
    script: Seq<Exchange>,
    cursor: int,
    budget: nat,
) -> Run<ValueView>
    decreases budget, arguments.len() + 2,
{
    match called {
        ValueView::Callable(CallableView::Native(native)) => if arguments.len() != native_arity(
            native,
        ) {
            failed(
                wrong_number_of_arguments(native_arity(native), arguments.len()),
                memory,
                cursor,
            )
        } else {
            match evaluate_all(arguments, 0, Seq::empty(), memory, script, cursor, budget) {
                Run::Done { result: Ok(values), memory, cursor } => native_result(
                    native,
                    values,
                    memory,
                    script,
                    cursor,
                ),
                Run::Done { result: Err(error), memory, cursor } => Run::Done {
                    result: Err(error),
                    memory,
                    cursor,
                },
                Run::Stuck => Run::Stuck,
            }
        },
        ValueView::Callable(CallableView::Function(_, parameters, body)) => if arguments.len()
            != parameters.len() {
            failed(
                wrong_number_of_arguments(parameters.len(), arguments.len()),
                memory,
                cursor,
            )
        } else {
            match bind(parameters, arguments, 0, pushed(memory), script, cursor, budget) {
                Run::Done { result: Ok(_), memory, cursor } => returned(
                    execute(body, memory, script, cursor, budget),
                ),
                Run::Done { result: Err(error), memory, cursor } => Run::Done {
                    result: Err(error),
                    memory: popped(memory),
                    cursor,
                },
                Run::Stuck => Run::Stuck,
            }
        },
        _ => failed(can_only_call_functions(), memory, cursor),
    }
}

/// The values of the expressions from `from` on, behind the values
/// `collected`.
#[verifier::opaque]
pub open spec fn evaluate_all(
    expressions: Seq<ExpressionView>,
    from: int,
    collected: Seq<ValueView>,
    memory: Memory,
    script: Seq<Exchange>,
    cursor: int,
    budget: nat,
) -> Run<Seq<ValueView>>
    decreases budget, expressions.len() - from + 1,
{
    if 0 <= from < expressions.len() {
        match evaluate(expressions[from], memory, script, cursor, budget) {
            Run::Done { result: Ok(value), memory, cursor } => evaluate_all(
                expressions,
                from + 1,
                collected.push(value),
                memory,
                script,
                cursor,
                budget,
            ),
            Run::Done { result: Err(error), memory, cursor } => Run::Done {
                result: Err(error),
                memory,
                cursor,
            },
            Run::Stuck => Run::Stuck,
        }
    } else {
        succeeded(collected, memory, cursor)
    }
}

/// The arguments from `from` on, each evaluated and then declared under the
/// name of its parameter.
#[verifier::opaque]
pub open spec fn bind(
    parameters: Seq<Seq<char>>,
    arguments: Seq<ExpressionView>,
    from: int,
    memory: Memory,
    script: Seq<Exchange>,
    cursor: int,
    budget: nat,
) -> Run<()>
    decreases budget, arguments.len() - from + 1,
{
    if 0 <= from < arguments.len() && from < parameters.len() {
        match evaluate(arguments[from], memory, script, cursor, budget) {
            Run::Done { result: Ok(value), memory, cursor } => bind(
                parameters,
                arguments,
                from + 1,
                declared(memory, parameters[from], value),
                script,
                cursor,
                budget,
            ),
            Run::Done { result: Err(error), memory, cursor } => Run::Done {
                result: Err(error),
                memory,
                cursor,
            },
            Run::Stuck => Run::Stuck,
        }
    } else {
        succeeded((), memory, cursor)
    }
}

/// What printing a value does: the host shows the value, where it is a
/// number, and prints the text.
pub open spec fn print_value(value: ValueView, memory: Memory, script: Seq<Exchange>, cursor: int)
    -> Run<()> {
    match value_text(value, script, cursor) {
        Some((text, cursor)) => if printed_at(script, cursor, text) {
            succeeded((), memory, cursor + 1)
        } else {
            Run::Stuck
        },
        None => Run::Stuck,
    }
}

/// What running a statement does.
#[verifier::opaque]
pub open spec fn execute(
    statement: StatementView,
    memory: Memory,
    script: Seq<Exchange>,
    cursor: int,
    budget: nat,
) -> Run<()>
    decreases budget, 0int,
{
    if budget == 0 {
        failed(limit_reached(), memory, cursor)
    } else {
        let rest = (budget - 1) as nat;
        match statement {
            StatementView::Print(value) => match evaluate(value, memory, script, cursor, rest) {
                Run::Done { result: Ok(value), memory, cursor } => print_value(
                    value,
                    memory,
                    script,
                    cursor,
                ),
                Run::Done { result: Err(error), memory, cursor } => Run::Done {
                    result: Err(error),
                    memory,
                    cursor,
                },
                Run::Stuck => Run::Stuck,
            },
            StatementView::Variable(name, initializer) => match initializer {
                Some(value) => match evaluate(value, memory, script, cursor, rest) {
                    Run::Done { result: Ok(value), memory, cursor } => succeeded(
                        (),
                        declared(memory, name, value),
                        cursor,
                    ),
                    Run::Done { result: Err(error), memory, cursor } => Run::Done {
                        result: Err(error),
                        memory,
                        cursor,
                    },
                    Run::Stuck => Run::Stuck,
                },
                None => succeeded((), declared(memory, name, ValueView::Nil), cursor),
            },
            StatementView::Expression(value) => match evaluate(
                value,
                memory,
                script,
                cursor,
                rest,
            ) {
                Run::Done { result: Ok(_), memory, cursor } => succeeded((), memory, cursor),
                Run::Done { result: Err(error), memory, cursor } => Run::Done {
                    result: Err(error),
                    memory,
                    cursor,
                },
                Run::Stuck => Run::Stuck,
            },
            StatementView::Block(statements) => closed(
                execute_all(statements, 0, pushed(memory), script, cursor, rest),
            ),
            StatementView::If(condition, then_branch, else_branch) => match evaluate(
                condition,
                memory,
                script,
                cursor,
                rest,
            ) {
                Run::Done { result: Ok(test), memory, cursor } => if truthy(test) {
                    closed(execute(*then_branch, pushed(memory), script, cursor, rest))
                } else {
                    match else_branch {
                        Some(else_branch) => closed(
                            execute(*else_branch, pushed(memory), script, cursor, rest),
                        ),
                        None => succeeded((), memory, cursor),
                    }
                },
                Run::Done { result: Err(error), memory, cursor } => Run::Done {
                    result: Err(error),
                    memory,
                    cursor,
                },
                Run::Stuck => Run::Stuck,
            },
            StatementView::While(condition, body) => while_loop(
                condition,
                *body,
                memory,
                script,
                cursor,
                rest,
            ),
            StatementView::For(initializer, condition, increment, body) => match initializer {
                Some(first) => match execute(*first, pushed(memory), script, cursor, rest) {
                    Run::Done { result: Ok(_), memory, cursor } => closed(
                        for_loop(condition, increment, *body, memory, script, cursor, rest),
                    ),
                    Run::Done { result: Err(error), memory, cursor } => Run::Done {
                        result: Err(error),
                        memory: popped(memory),
                        cursor,
                    },
                    Run::Stuck => Run::Stuck,
                },
                None => closed(
                    for_loop(condition, increment, *body, pushed(memory), script, cursor, rest),
                ),
            },
            StatementView::Function(name, parameters, body) => succeeded(
                (),
                declared(
                    memory,
                    name,
                    ValueView::Callable(CallableView::Function(name, parameters, *body)),
                ),
                cursor,
            ),
            StatementView::Return(value) => match value {
                Some(value) => match evaluate(value, memory, script, cursor, rest) {
                    Run::Done { result: Ok(value), memory, cursor } => Run::Done {
                        result: Err(ErrorView::Return(value)),
                        memory,
                        cursor,
                    },
                    Run::Done { result: Err(error), memory, cursor } => Run::Done {
                        result: Err(error),
                        memory,
                        cursor,
                    },
                    Run::Stuck => Run::Stuck,
                },
                None => Run::Done {
                    result: Err(ErrorView::Return(ValueView::Nil)),
                    memory,
                    cursor,
                },
            },
        }
    }
}

/// What running the statements from `from` on does, one after the other, up
/// to the first that fails or returns.
#[verifier::opaque]
pub open spec fn execute_all(
    statements: Seq<StatementView>,
    from: int,
    memory: Memory,
    script: Seq<Exchange>,
    cursor: int,
    budget: nat,
) -> Run<()>
    decreases budget, statements.len() - from + 1,
{
    if 0 <= from < statements.len() {
        match execute(statements[from], memory, script, cursor, budget) {
            Run::Done { result: Ok(_), memory, cursor } => execute_all(
                statements,
                from + 1,
                memory,
                script,
                cursor,
                budget,
            ),
            other => other,
        }
    } else {
        succeeded((), memory, cursor)
    }
}

/// What a `while` loop does: as long as the condition holds, its body runs
/// in a scope of its own.
#[verifier::opaque]
pub open spec fn while_loop(
    condition: ExpressionView,
    body: StatementView,
    memory: Memory,
    script: Seq<Exchange>,
    cursor: int,
    budget: nat,
) -> Run<()>
    decreases budget, 0int,
{
    if budget == 0 {
        failed(limit_reached(), memory, cursor)
    } else {
        let rest = (budget - 1) as nat;
        match evaluate(condition, memory, script, cursor, rest) {
            Run::Done { result: Ok(test), memory, cursor } => if truthy(test) {
                match closed(execute(body, pushed(memory), script, cursor, rest)) {
                    Run::Done { result: Ok(_), memory, cursor } => while_loop(
                        condition,
                        body,
                        memory,
                        script,
                        cursor,
                        rest,
                    ),
                    other => other,
                }
            } else {
                succeeded((), memory, cursor)
            },
            Run::Done { result: Err(error), memory, cursor } => Run::Done {
                result: Err(error),
                memory,
                cursor,
            },
            Run::Stuck => Run::Stuck,
        }
    }
}

/// What the rounds of a `for` loop do, in the scope of the loop: as long as
/// the condition holds, or for ever where there is none, the body runs and
/// then the increment is evaluated.
#[verifier::opaque]
pub open spec fn for_loop(
    condition: Option<ExpressionView>,
    increment: Option<ExpressionView>,
    body: StatementView,
    memory: Memory,
    script: Seq<Exchange>,
    cursor: int,
    budget: nat,
) -> Run<()>
    decreases budget, 0int,
{
    if budget == 0 {
        failed(limit_reached(), memory, cursor)
    } else {
        let rest = (budget - 1) as nat;
        let tested = match condition {
            Some(condition) => evaluate(condition, memory, script, cursor, rest),
            None => succeeded(ValueView::Bool(true), memory, cursor),
        };
        match tested {
            Run::Done { result: Ok(test), memory, cursor } => if truthy(test) {
                match execute(body, memory, script, cursor, rest) {
                    Run::Done { result: Ok(_), memory, cursor } => {
                        let stepped = match increment {
                            Some(increment) => evaluate(increment, memory, script, cursor, rest),
                            None => succeeded(ValueView::Nil, memory, cursor),
                        };
                        match stepped {
                            Run::Done { result: Ok(_), memory, cursor } => for_loop(
                                condition,
                                increment,
                                body,
                                memory,
                                script,
                                cursor,
                                rest,
                            ),
                            Run::Done { result: Err(error), memory, cursor } => Run::Done {
                                result: Err(error),
                                memory,
                                cursor,
                            },
                            Run::Stuck => Run::Stuck,
                        }
                    },
                    other => other,
                }
            } else {
                succeeded((), memory, cursor)
            },
            Run::Done { result: Err(error), memory, cursor } => Run::Done {
                result: Err(error),
                memory,
                cursor,
            },
            Run::Stuck => Run::Stuck,
        }
    }
}

/// The message with which a run that ended early is reported. A `return`
/// that no call took up is reported as such.
pub open spec fn report(error: ErrorView) -> Seq<char> {
    match error {
        ErrorView::Runtime(message) => message,
        ErrorView::Return(_) => unexpected_return(),
    }
}

/// A run as its caller sees it: a failure is reported by its message.
pub enum Reported<T> {
    Done { result: Result<T, Seq<char>>, memory: Memory, cursor: int },
    Stuck,
}

/// The run of a program: its statements, one after the other.
pub open spec fn run_program(
    statements: Seq<StatementView>,
    memory: Memory,
    script: Seq<Exchange>,
    cursor: int,
    budget: nat,
) -> Reported<()> {
    match execute_all(statements, 0, memory, script, cursor, budget) {
        Run::Done { result, memory, cursor } => Reported::Done {
            result: match result {
                Ok(_) => Ok(()),
                Err(error) => Err(report(error)),
            },
            memory,
            cursor,
        },
        Run::Stuck => Reported::Stuck,
    }
}

/// The evaluation of one expression.
pub open spec fn evaluate_program(
    expression: ExpressionView,
    memory: Memory,
    script: Seq<Exchange>,
    cursor: int,
    budget: nat,
) -> Reported<ValueView> {
    match evaluate(expression, memory, script, cursor, budget) {
        Run::Done { result, memory, cursor } => Reported::Done {
            result: match result {
                Ok(value) => Ok(value),
                Err(error) => Err(report(error)),
            },
            memory,
            cursor,
        },
        Run::Stuck => Reported::Stuck,
    }
}

} // verus!
