//! Every run closes the scopes that it opens.

use crate::environment::{declared, lemma_holder_bounds, popped, pushed, Memory};
use crate::expression::ExpressionView;
use crate::host::Exchange;
use crate::semantics::{
    bind, call, evaluate, evaluate_all, execute, execute_all, for_loop, while_loop, Run,
};
use crate::statement::StatementView;
use crate::value::{CallableView, ValueView};
use vstd::prelude::*;

verus! {

/// Whether a run, where it ended, left `depth` scopes.
pub open spec fn leaves<T>(run: Run<T>, depth: nat) -> bool {
    match run {
        Run::Done { memory, .. } => memory.len() == depth,
        Run::Stuck => true,
    }
}

/// However evaluating an expression ends, well or with a failure, it leaves
/// as many scopes as it found.
pub proof fn lemma_evaluate_keeps_the_scopes(
    expression: ExpressionView,
    memory: Memory,
    script: Seq<Exchange>,
    cursor: int,
    budget: nat,
)
    requires
        memory.len() >= 1,
    ensures
        leaves(evaluate(expression, memory, script, cursor, budget), memory.len()),
    decreases budget, 0int,
{
    reveal(evaluate);
    reveal(call);
    if budget > 0 {
        let rest = (budget - 1) as nat;
        match expression {
            ExpressionView::Literal(_) => {},
            ExpressionView::Grouping(inner) => {
                lemma_evaluate_keeps_the_scopes(*inner, memory, script, cursor, rest);
            },
            ExpressionView::Unary(_, operand) => {
                lemma_evaluate_keeps_the_scopes(*operand, memory, script, cursor, rest);
            },
            ExpressionView::Binary(_, left, right) => {
                lemma_evaluate_keeps_the_scopes(*left, memory, script, cursor, rest);
                match evaluate(*left, memory, script, cursor, rest) {
                    Run::Done { result: Ok(_), memory: then, cursor: next } => {
                        lemma_evaluate_keeps_the_scopes(*right, then, script, next, rest);
                    },
                    _ => {},
                }
            },
            ExpressionView::Variable(_) => {},
            ExpressionView::Assign(name, value) => {
                lemma_evaluate_keeps_the_scopes(*value, memory, script, cursor, rest);
                match evaluate(*value, memory, script, cursor, rest) {
                    Run::Done { result: Ok(_), memory: then, cursor: _ } => {
                        lemma_holder_bounds(then, name, then.len() as int);
                    },
                    _ => {},
                }
            },
            ExpressionView::And(left, right) => {
                lemma_evaluate_keeps_the_scopes(*left, memory, script, cursor, rest);
                match evaluate(*left, memory, script, cursor, rest) {
                    Run::Done { result: Ok(_), memory: then, cursor: next } => {
                        lemma_evaluate_keeps_the_scopes(*right, then, script, next, rest);
                    },
                    _ => {},
                }
            },
            ExpressionView::Or(left, right) => {
                lemma_evaluate_keeps_the_scopes(*left, memory, script, cursor, rest);
                match evaluate(*left, memory, script, cursor, rest) {
                    Run::Done { result: Ok(_), memory: then, cursor: next } => {
                        lemma_evaluate_keeps_the_scopes(*right, then, script, next, rest);
                    },
                    _ => {},
                }
            },
            ExpressionView::Call(callee, arguments) => {
                lemma_evaluate_keeps_the_scopes(*callee, memory, script, cursor, rest);
                match evaluate(*callee, memory, script, cursor, rest) {
                    Run::Done { result: Ok(called), memory: then, cursor: next } => {
                        lemma_call_keeps_the_scopes(called, arguments, then, script, next, rest);
                    },
                    _ => {},
                }
            },
        }
    }
}

/// A call leaves as many scopes as it found: the scope of the call is
/// closed however the call ends.
pub proof fn lemma_call_keeps_the_scopes(
    called: ValueView,
    arguments: Seq<ExpressionView>,
    memory: Memory,
    script: Seq<Exchange>,
    cursor: int,
    budget: nat,
)
    requires
        memory.len() >= 1,
    ensures
        leaves(call(called, arguments, memory, script, cursor, budget), memory.len()),
    decreases budget, arguments.len() + 2,
{
    reveal(call);
    reveal(evaluate_all);
    reveal(bind);
    reveal(execute);
    match called {
        ValueView::Callable(CallableView::Native(_)) => {
            lemma_evaluate_all_keeps_the_scopes(
                arguments,
                0,
                Seq::empty(),
                memory,
                script,
                cursor,
                budget,
            );
        },
        ValueView::Callable(CallableView::Function(_, parameters, body)) => {
            if arguments.len() == parameters.len() {
                lemma_bind_keeps_the_scopes(
                    parameters,
                    arguments,
                    0,
                    pushed(memory),
                    script,
                    cursor,
                    budget,
                );
                match bind(parameters, arguments, 0, pushed(memory), script, cursor, budget) {
                    Run::Done { result: Ok(_), memory: bound, cursor: next } => {
                        lemma_execute_keeps_the_scopes(body, bound, script, next, budget);
                    },
                    _ => {},
                }
            }
        },
        _ => {},
    }
}

proof fn lemma_evaluate_all_keeps_the_scopes(
    expressions: Seq<ExpressionView>,
    from: int,
    collected: Seq<ValueView>,
    memory: Memory,
    script: Seq<Exchange>,
    cursor: int,
    budget: nat,
)
    requires
        memory.len() >= 1,
    ensures
        leaves(
            evaluate_all(expressions, from, collected, memory, script, cursor, budget),
            memory.len(),
        ),
    decreases budget, expressions.len() - from + 1,
{
    reveal(evaluate_all);
    reveal(evaluate);
    if 0 <= from < expressions.len() {
        lemma_evaluate_keeps_the_scopes(expressions[from], memory, script, cursor, budget);
        match evaluate(expressions[from], memory, script, cursor, budget) {
            Run::Done { result: Ok(value), memory: then, cursor: next } => {
                lemma_evaluate_all_keeps_the_scopes(
                    expressions,
                    from + 1,
                    collected.push(value),
                    then,
                    script,
                    next,
                    budget,
                );
            },
            _ => {},
        }
    }
}

proof fn lemma_bind_keeps_the_scopes(
    parameters: Seq<Seq<char>>,
    arguments: Seq<ExpressionView>,
    from: int,
    memory: Memory,
    script: Seq<Exchange>,
    cursor: int,
    budget: nat,
)
    requires
        memory.len() >= 1,
    ensures
        leaves(bind(parameters, arguments, from, memory, script, cursor, budget), memory.len()),
    decreases budget, arguments.len() - from + 1,
{
    reveal(bind);
    reveal(evaluate);
    if 0 <= from < arguments.len() && from < parameters.len() {
        lemma_evaluate_keeps_the_scopes(arguments[from], memory, script, cursor, budget);
        match evaluate(arguments[from], memory, script, cursor, budget) {
            Run::Done { result: Ok(value), memory: then, cursor: next } => {
                lemma_bind_keeps_the_scopes(
                    parameters,
                    arguments,
                    from + 1,
                    declared(then, parameters[from], value),
                    script,
                    next,
                    budget,
                );
            },
            _ => {},
        }
    }
}

/// However running a statement ends, well, with a failure or with a
/// `return`, it leaves as many scopes as it found.
pub proof fn lemma_execute_keeps_the_scopes(
    statement: StatementView,
    memory: Memory,
    script: Seq<Exchange>,
    cursor: int,
    budget: nat,
)
    requires
        memory.len() >= 1,
    ensures
        leaves(execute(statement, memory, script, cursor, budget), memory.len()),
    decreases budget, 0int,
{
    reveal(execute);
    reveal(evaluate);
    reveal(execute_all);
    reveal(while_loop);
    reveal(for_loop);
    if budget > 0 {
        let rest = (budget - 1) as nat;
        match statement {
            StatementView::Print(value) => {
                lemma_evaluate_keeps_the_scopes(value, memory, script, cursor, rest);
            },
            StatementView::Variable(_, initializer) => {
                match initializer {
                    Some(value) => {
                        lemma_evaluate_keeps_the_scopes(value, memory, script, cursor, rest);
                    },
                    None => {},
                }
            },
            StatementView::Expression(value) => {
                lemma_evaluate_keeps_the_scopes(value, memory, script, cursor, rest);
            },
            StatementView::Block(statements) => {
                lemma_execute_all_keeps_the_scopes(
                    statements,
                    0,
                    pushed(memory),
                    script,
                    cursor,
                    rest,
                );
            },
            StatementView::If(condition, then_branch, else_branch) => {
                lemma_evaluate_keeps_the_scopes(condition, memory, script, cursor, rest);
                match evaluate(condition, memory, script, cursor, rest) {
                    Run::Done { result: Ok(_), memory: then, cursor: next } => {
                        lemma_execute_keeps_the_scopes(
                            *then_branch,
                            pushed(then),
                            script,
                            next,
                            rest,
                        );
                        match else_branch {
                            Some(else_branch) => {
                                lemma_execute_keeps_the_scopes(
                                    *else_branch,
                                    pushed(then),
                                    script,
                                    next,
                                    rest,
                                );
                            },
                            None => {},
                        }
                    },
                    _ => {},
                }
            },
            StatementView::While(condition, body) => {
                lemma_while_keeps_the_scopes(condition, *body, memory, script, cursor, rest);
            },
            StatementView::For(initializer, condition, increment, body) => {
                match initializer {
                    Some(first) => {
                        lemma_execute_keeps_the_scopes(
                            *first,
                            pushed(memory),
                            script,
                            cursor,
                            rest,
                        );
                        match execute(*first, pushed(memory), script, cursor, rest) {
                            Run::Done { result: Ok(_), memory: then, cursor: next } => {
                                lemma_for_keeps_the_scopes(
                                    condition,
                                    increment,
                                    *body,
                                    then,
                                    script,
                                    next,
                                    rest,
                                );
                            },
                            _ => {},
                        }
                    },
                    None => {
                        lemma_for_keeps_the_scopes(
                            condition,
                            increment,
                            *body,
                            pushed(memory),
                            script,
                            cursor,
                            rest,
                        );
                    },
                }
            },
            StatementView::Function(_, _, _) => {},
            StatementView::Return(value) => {
                match value {
                    Some(value) => {
                        lemma_evaluate_keeps_the_scopes(value, memory, script, cursor, rest);
                    },
                    None => {},
                }
            },
        }
    }
}

/// However running statements one after the other ends, it leaves as many
/// scopes as it found.
pub proof fn lemma_execute_all_keeps_the_scopes(
    statements: Seq<StatementView>,
    from: int,
    memory: Memory,
    script: Seq<Exchange>,
    cursor: int,
    budget: nat,
)
    requires
        memory.len() >= 1,
    ensures
        leaves(execute_all(statements, from, memory, script, cursor, budget), memory.len()),
    decreases budget, statements.len() - from + 1,
{
    reveal(execute_all);
    reveal(execute);
    if 0 <= from < statements.len() {
        lemma_execute_keeps_the_scopes(statements[from], memory, script, cursor, budget);
        match execute(statements[from], memory, script, cursor, budget) {
            Run::Done { result: Ok(_), memory: then, cursor: next } => {
                lemma_execute_all_keeps_the_scopes(
                    statements,
                    from + 1,
                    then,
                    script,
                    next,
                    budget,
                );
            },
            _ => {},
        }
    }
}

proof fn lemma_while_keeps_the_scopes(
    condition: ExpressionView,
    body: StatementView,
    memory: Memory,
    script: Seq<Exchange>,
    cursor: int,
    budget: nat,
)
    requires
        memory.len() >= 1,
    ensures
        leaves(while_loop(condition, body, memory, script, cursor, budget), memory.len()),
    decreases budget, 0int,
{
    reveal(while_loop);
    reveal(evaluate);
    reveal(execute);
    if budget > 0 {
        let rest = (budget - 1) as nat;
        lemma_evaluate_keeps_the_scopes(condition, memory, script, cursor, rest);
        match evaluate(condition, memory, script, cursor, rest) {
            Run::Done { result: Ok(_), memory: then, cursor: next } => {
                lemma_execute_keeps_the_scopes(body, pushed(then), script, next, rest);
                match execute(body, pushed(then), script, next, rest) {
                    Run::Done { result: Ok(_), memory: inner, cursor: last } => {
                        lemma_while_keeps_the_scopes(
                            condition,
                            body,
                            popped(inner),
                            script,
                            last,
                            rest,
                        );
                    },
                    _ => {},
                }
            },
            _ => {},
        }
    }
}

proof fn lemma_for_keeps_the_scopes(
    condition: Option<ExpressionView>,
    increment: Option<ExpressionView>,
    body: StatementView,
    memory: Memory,
    script: Seq<Exchange>,
    cursor: int,
    budget: nat,
)
    requires
        memory.len() >= 1,
    ensures
        leaves(
            for_loop(condition, increment, body, memory, script, cursor, budget),
            memory.len(),
        ),
    decreases budget, 0int,
{
    reveal(for_loop);
    reveal(evaluate);
    reveal(execute);
    if budget > 0 {
        let rest = (budget - 1) as nat;
        let tested = match condition {
            Some(condition) => {
                lemma_evaluate_keeps_the_scopes(condition, memory, script, cursor, rest);
                evaluate(condition, memory, script, cursor, rest)
            },
            None => Run::Done { result: Ok(ValueView::Bool(true)), memory, cursor },
        };
        match tested {
            Run::Done { result: Ok(_), memory: then, cursor: next } => {
                lemma_execute_keeps_the_scopes(body, then, script, next, rest);
                match execute(body, then, script, next, rest) {
                    Run::Done { result: Ok(_), memory: inner, cursor: last } => {
                        let stepped = match increment {
                            Some(increment) => {
                                lemma_evaluate_keeps_the_scopes(
                                    increment,
                                    inner,
                                    script,
                                    last,
                                    rest,
                                );
                                evaluate(increment, inner, script, last, rest)
                            },
                            None => Run::Done { result: Ok(ValueView::Nil), memory: inner, cursor: last },
                        };
                        match stepped {
                            Run::Done { result: Ok(_), memory: after, cursor: end } => {
                                lemma_for_keeps_the_scopes(
                                    condition,
                                    increment,
                                    body,
                                    after,
                                    script,
                                    end,
                                    rest,
                                );
                            },
                            _ => {},
                        }
                    },
                    _ => {},
                }
            },
            _ => {},
        }
    }
}

} // verus!
