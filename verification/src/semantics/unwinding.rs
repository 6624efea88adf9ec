//! A `return` ends the call that it stands in and goes no further.

use crate::environment::{declared, pushed, Memory};
use crate::expression::ExpressionView;
use crate::host::Exchange;
use crate::semantics::{bind, call, evaluate, evaluate_all, evaluate_program, Reported, Run};
use crate::value::{CallableView, ValueView};
use vstd::prelude::*;

verus! {

/// Whether a run, where it failed, failed with a message.
pub open spec fn fails_with_a_message<T>(run: Run<T>) -> bool {
    match run {
        Run::Done { result: Err(error), .. } => error is Runtime,
        _ => true,
    }
}

/// Evaluating an expression never ends with a `return` on its way: the
/// call that a `return` stands in takes it up.
pub proof fn lemma_evaluate_takes_up_returns(
    expression: ExpressionView,
    memory: Memory,
    script: Seq<Exchange>,
    cursor: int,
    budget: nat,
)
    ensures
        fails_with_a_message(evaluate(expression, memory, script, cursor, budget)),
    decreases budget, 0int,
{
    reveal(evaluate);
    reveal(call);
    if budget > 0 {
        let rest = (budget - 1) as nat;
        match expression {
            ExpressionView::Literal(_) => {},
            ExpressionView::Grouping(inner) => {
                lemma_evaluate_takes_up_returns(*inner, memory, script, cursor, rest);
            },
            ExpressionView::Unary(_, operand) => {
                lemma_evaluate_takes_up_returns(*operand, memory, script, cursor, rest);
            },
            ExpressionView::Binary(_, left, right) => {
                lemma_evaluate_takes_up_returns(*left, memory, script, cursor, rest);
                match evaluate(*left, memory, script, cursor, rest) {
                    Run::Done { result: Ok(_), memory: then, cursor: next } => {
                        lemma_evaluate_takes_up_returns(*right, then, script, next, rest);
                    },
                    _ => {},
                }
            },
            ExpressionView::Variable(_) => {},
            ExpressionView::Assign(_, value) => {
                lemma_evaluate_takes_up_returns(*value, memory, script, cursor, rest);
            },
            ExpressionView::And(left, right) => {
                lemma_evaluate_takes_up_returns(*left, memory, script, cursor, rest);
                match evaluate(*left, memory, script, cursor, rest) {
                    Run::Done { result: Ok(_), memory: then, cursor: next } => {
                        lemma_evaluate_takes_up_returns(*right, then, script, next, rest);
                    },
                    _ => {},
                }
            },
            ExpressionView::Or(left, right) => {
                lemma_evaluate_takes_up_returns(*left, memory, script, cursor, rest);
                match evaluate(*left, memory, script, cursor, rest) {
                    Run::Done { result: Ok(_), memory: then, cursor: next } => {
                        lemma_evaluate_takes_up_returns(*right, then, script, next, rest);
                    },
                    _ => {},
                }
            },
            ExpressionView::Call(callee, arguments) => {
                lemma_evaluate_takes_up_returns(*callee, memory, script, cursor, rest);
                match evaluate(*callee, memory, script, cursor, rest) {
                    Run::Done { result: Ok(called), memory: then, cursor: next } => {
                        lemma_call_takes_up_returns(called, arguments, then, script, next, rest);
                    },
                    _ => {},
                }
            },
        }
    }
}

/// A call never ends with a `return` on its way.
pub proof fn lemma_call_takes_up_returns(
    called: ValueView,
    arguments: Seq<ExpressionView>,
    memory: Memory,
    script: Seq<Exchange>,
    cursor: int,
    budget: nat,
)
    ensures
        fails_with_a_message(call(called, arguments, memory, script, cursor, budget)),
    decreases budget, arguments.len() + 2,
{
    reveal(call);
    reveal(evaluate_all);
    reveal(bind);
    match called {
        ValueView::Callable(CallableView::Native(_)) => {
            lemma_evaluate_all_takes_up_returns(
                arguments,
                0,
                Seq::empty(),
                memory,
                script,
                cursor,
                budget,
            );
        },
        ValueView::Callable(CallableView::Function(_, parameters, _)) => {
            lemma_bind_takes_up_returns(
                parameters,
                arguments,
                0,
                pushed(memory),
                script,
                cursor,
                budget,
            );
        },
        _ => {},
    }
}

proof fn lemma_evaluate_all_takes_up_returns(
    expressions: Seq<ExpressionView>,
    from: int,
    collected: Seq<ValueView>,
    memory: Memory,
    script: Seq<Exchange>,
    cursor: int,
    budget: nat,
)
    ensures
        fails_with_a_message(
            evaluate_all(expressions, from, collected, memory, script, cursor, budget),
        ),
    decreases budget, expressions.len() - from + 1,
{
    reveal(evaluate_all);
    reveal(evaluate);
    if 0 <= from < expressions.len() {
        lemma_evaluate_takes_up_returns(expressions[from], memory, script, cursor, budget);
        match evaluate(expressions[from], memory, script, cursor, budget) {
            Run::Done { result: Ok(value), memory: then, cursor: next } => {
                lemma_evaluate_all_takes_up_returns(
                    expressions,
                    from + 1,
                    collected.push(value),
                    then,
                    script,
                    next,
                    budget,
                );
            },
            _ => {},
        }
    }
}

proof fn lemma_bind_takes_up_returns(
    parameters: Seq<Seq<char>>,
    arguments: Seq<ExpressionView>,
    from: int,
    memory: Memory,
    script: Seq<Exchange>,
    cursor: int,
    budget: nat,
)
    ensures
        fails_with_a_message(bind(parameters, arguments, from, memory, script, cursor, budget)),
    decreases budget, arguments.len() - from + 1,
{
    reveal(bind);
    reveal(evaluate);
    if 0 <= from < arguments.len() && from < parameters.len() {
        lemma_evaluate_takes_up_returns(arguments[from], memory, script, cursor, budget);
        match evaluate(arguments[from], memory, script, cursor, budget) {
            Run::Done { result: Ok(value), memory: then, cursor: next } => {
                lemma_bind_takes_up_returns(
                    parameters,
                    arguments,
                    from + 1,
                    declared(then, parameters[from], value),
                    script,
                    next,
                    budget,
                );
            },
            _ => {},
        }
    }
}

/// The evaluation of an expression is never reported as a `return` that no
/// call took up: where it fails, the report is the message of the failure.
pub proof fn lemma_evaluation_reports_failures_only(
    expression: ExpressionView,
    memory: Memory,
    script: Seq<Exchange>,
    cursor: int,
    budget: nat,
)
    ensures
        match evaluate(expression, memory, script, cursor, budget) {
            Run::Done { result: Err(error), memory: left, cursor: end } => evaluate_program(
                expression,
                memory,
                script,
                cursor,
                budget,
            ) == (Reported::Done {
                result: Err::<ValueView, Seq<char>>(error->Runtime_0),
                memory: left,
                cursor: end,
            })
                && error is Runtime,
            _ => true,
        },
{
    lemma_evaluate_takes_up_returns(expression, memory, script, cursor, budget);
}

} // verus!
