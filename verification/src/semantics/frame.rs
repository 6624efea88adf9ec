//! A run reads the script only where it makes its exchanges: from the
//! cursor at which it starts up to the cursor at which it ends. Two scripts
//! that hold the same exchanges there give the same run.

use crate::environment::{declared, popped, pushed, Memory};
use crate::expression::ExpressionView;
use crate::host::{exchange_at, Exchange};
use crate::semantics::{
    bind, call, evaluate, evaluate_all, execute, execute_all, for_loop, while_loop, Run,
};
use crate::statement::StatementView;
use crate::value::{CallableView, ValueView};
use vstd::prelude::*;

verus! {

/// Whether two scripts hold the same exchanges from `from` up to `to`.
pub open spec fn same_between(
    first: Seq<Exchange>,
    second: Seq<Exchange>,
    from: int,
    to: int,
) -> bool {
    forall|i: int| from <= i < to ==> #[trigger] exchange_at(first, i) == exchange_at(second, i)
}

/// Whether a run against `first` that started at `cursor`, where it ended,
/// ended at or behind `cursor`, and is the run against `second` too where
/// the two scripts hold the same exchanges between its start and its end.
pub open spec fn reads_its_exchanges<T>(
    run: Run<T>,
    other: Run<T>,
    first: Seq<Exchange>,
    second: Seq<Exchange>,
    cursor: int,
) -> bool {
    match run {
        Run::Done { cursor: end, .. } => cursor <= end && (same_between(
            first,
            second,
            cursor,
            end,
        ) ==> other == run),
        Run::Stuck => true,
    }
}

/// Evaluating an expression reads the script only between its start and
/// its end.
pub proof fn lemma_evaluate_reads_its_exchanges(
    expression: ExpressionView,
    memory: Memory,
    first: Seq<Exchange>,
    second: Seq<Exchange>,
    cursor: int,
    budget: nat,
)
    ensures
        reads_its_exchanges(
            evaluate(expression, memory, first, cursor, budget),
            evaluate(expression, memory, second, cursor, budget),
            first,
            second,
            cursor,
        ),
    decreases budget, 0int,
{
    reveal(evaluate);
    reveal(call);
    if budget > 0 {
        let rest = (budget - 1) as nat;
        match expression {
            ExpressionView::Literal(_) => {},
            ExpressionView::Grouping(inner) => {
                lemma_evaluate_reads_its_exchanges(*inner, memory, first, second, cursor, rest);
            },
            ExpressionView::Unary(_, operand) => {
                lemma_evaluate_reads_its_exchanges(*operand, memory, first, second, cursor, rest);
            },
            ExpressionView::Binary(_, left, right) => {
                lemma_evaluate_reads_its_exchanges(*left, memory, first, second, cursor, rest);
                match evaluate(*left, memory, first, cursor, rest) {
                    Run::Done { result: Ok(_), memory: then, cursor: next } => {
                        lemma_evaluate_reads_its_exchanges(
                            *right,
                            then,
                            first,
                            second,
                            next,
                            rest,
                        );
                    },
                    _ => {},
                }
            },
            ExpressionView::Variable(_) => {},
            ExpressionView::Assign(_, value) => {
                lemma_evaluate_reads_its_exchanges(*value, memory, first, second, cursor, rest);
            },
            ExpressionView::And(left, right) => {
                lemma_evaluate_reads_its_exchanges(*left, memory, first, second, cursor, rest);
                match evaluate(*left, memory, first, cursor, rest) {
                    Run::Done { result: Ok(_), memory: then, cursor: next } => {
                        lemma_evaluate_reads_its_exchanges(
                            *right,
                            then,
                            first,
                            second,
                            next,
                            rest,
                        );
                    },
                    _ => {},
                }
            },
            ExpressionView::Or(left, right) => {
                lemma_evaluate_reads_its_exchanges(*left, memory, first, second, cursor, rest);
                match evaluate(*left, memory, first, cursor, rest) {
                    Run::Done { result: Ok(_), memory: then, cursor: next } => {
                        lemma_evaluate_reads_its_exchanges(
                            *right,
                            then,
                            first,
                            second,
                            next,
                            rest,
                        );
                    },
                    _ => {},
                }
            },
            ExpressionView::Call(callee, arguments) => {
                lemma_evaluate_reads_its_exchanges(*callee, memory, first, second, cursor, rest);
                match evaluate(*callee, memory, first, cursor, rest) {
                    Run::Done { result: Ok(called), memory: then, cursor: next } => {
                        lemma_call_reads_its_exchanges(
                            called,
                            arguments,
                            then,
                            first,
                            second,
                            next,
                            rest,
                        );
                    },
                    _ => {},
                }
            },
        }
    }
}

/// A call reads the script only between its start and its end.
pub proof fn lemma_call_reads_its_exchanges(
    called: ValueView,
    arguments: Seq<ExpressionView>,
    memory: Memory,
    first: Seq<Exchange>,
    second: Seq<Exchange>,
    cursor: int,
    budget: nat,
)
    ensures
        reads_its_exchanges(
            call(called, arguments, memory, first, cursor, budget),
            call(called, arguments, memory, second, cursor, budget),
            first,
            second,
            cursor,
        ),
    decreases budget, arguments.len() + 2,
{
    reveal(call);
    reveal(evaluate_all);
    reveal(bind);
    reveal(execute);
    match called {
        ValueView::Callable(CallableView::Native(_)) => {
            lemma_evaluate_all_reads_its_exchanges(
                arguments,
                0,
                Seq::empty(),
                memory,
                first,
                second,
                cursor,
                budget,
            );
        },
        ValueView::Callable(CallableView::Function(_, parameters, body)) => {
            if arguments.len() == parameters.len() {
                lemma_bind_reads_its_exchanges(
                    parameters,
                    arguments,
                    0,
                    pushed(memory),
                    first,
                    second,
                    cursor,
                    budget,
                );
                match bind(parameters, arguments, 0, pushed(memory), first, cursor, budget) {
                    Run::Done { result: Ok(_), memory: bound, cursor: next } => {
                        lemma_execute_reads_its_exchanges(
                            body,
                            bound,
                            first,
                            second,
                            next,
                            budget,
                        );
                    },
                    _ => {},
                }
            }
        },
        _ => {},
    }
}

proof fn lemma_evaluate_all_reads_its_exchanges(
    expressions: Seq<ExpressionView>,
    from: int,
    collected: Seq<ValueView>,
    memory: Memory,
    first: Seq<Exchange>,
    second: Seq<Exchange>,
    cursor: int,
    budget: nat,
)
    ensures
        reads_its_exchanges(
            evaluate_all(expressions, from, collected, memory, first, cursor, budget),
            evaluate_all(expressions, from, collected, memory, second, cursor, budget),
            first,
            second,
            cursor,
        ),
    decreases budget, expressions.len() - from + 1,
{
    reveal(evaluate_all);
    reveal(evaluate);
    if 0 <= from < expressions.len() {
        lemma_evaluate_reads_its_exchanges(
            expressions[from],
            memory,
            first,
            second,
            cursor,
            budget,
        );
        match evaluate(expressions[from], memory, first, cursor, budget) {
            Run::Done { result: Ok(value), memory: then, cursor: next } => {
                lemma_evaluate_all_reads_its_exchanges(
                    expressions,
                    from + 1,
                    collected.push(value),
                    then,
                    first,
                    second,
                    next,
                    budget,
                );
            },
            _ => {},
        }
    }
}

proof fn lemma_bind_reads_its_exchanges(
    parameters: Seq<Seq<char>>,
    arguments: Seq<ExpressionView>,
    from: int,
    memory: Memory,
    first: Seq<Exchange>,
    second: Seq<Exchange>,
    cursor: int,
    budget: nat,
)
    ensures
        reads_its_exchanges(
            bind(parameters, arguments, from, memory, first, cursor, budget),
            bind(parameters, arguments, from, memory, second, cursor, budget),
            first,
            second,
            cursor,
        ),
    decreases budget, arguments.len() - from + 1,
{
    reveal(bind);
    reveal(evaluate);
    if 0 <= from < arguments.len() && from < parameters.len() {
        lemma_evaluate_reads_its_exchanges(arguments[from], memory, first, second, cursor, budget);
        match evaluate(arguments[from], memory, first, cursor, budget) {
            Run::Done { result: Ok(value), memory: then, cursor: next } => {
                lemma_bind_reads_its_exchanges(
                    parameters,
                    arguments,
                    from + 1,
                    declared(then, parameters[from], value),
                    first,
                    second,
                    next,
                    budget,
                );
            },
            _ => {},
        }
    }
}

/// Running a statement reads the script only between its start and its end.
pub proof fn lemma_execute_reads_its_exchanges(
    statement: StatementView,
    memory: Memory,
    first: Seq<Exchange>,
    second: Seq<Exchange>,
    cursor: int,
    budget: nat,
)
    ensures
        reads_its_exchanges(
            execute(statement, memory, first, cursor, budget),
            execute(statement, memory, second, cursor, budget),
            first,
            second,
            cursor,
        ),
    decreases budget, 0int,
{
    reveal(execute);
    reveal(evaluate);
    reveal(execute_all);
    reveal(while_loop);
    reveal(for_loop);
    if budget > 0 {
        let rest = (budget - 1) as nat;
        match statement {
            StatementView::Print(value) => {
                lemma_evaluate_reads_its_exchanges(value, memory, first, second, cursor, rest);
            },
            StatementView::Variable(_, initializer) => {
                match initializer {
                    Some(value) => {
                        lemma_evaluate_reads_its_exchanges(
                            value,
                            memory,
                            first,
                            second,
                            cursor,
                            rest,
                        );
                    },
                    None => {},
                }
            },
            StatementView::Expression(value) => {
                lemma_evaluate_reads_its_exchanges(value, memory, first, second, cursor, rest);
            },
            StatementView::Block(statements) => {
                lemma_execute_all_reads_its_exchanges(
                    statements,
                    0,
                    pushed(memory),
                    first,
                    second,
                    cursor,
                    rest,
                );
            },
            StatementView::If(condition, then_branch, else_branch) => {
                lemma_evaluate_reads_its_exchanges(condition, memory, first, second, cursor, rest);
                match evaluate(condition, memory, first, cursor, rest) {
                    Run::Done { result: Ok(_), memory: then, cursor: next } => {
                        lemma_execute_reads_its_exchanges(
                            *then_branch,
                            pushed(then),
                            first,
                            second,
                            next,
                            rest,
                        );
                        match else_branch {
                            Some(else_branch) => {
                                lemma_execute_reads_its_exchanges(
                                    *else_branch,
                                    pushed(then),
                                    first,
                                    second,
                                    next,
                                    rest,
                                );
                            },
                            None => {},
                        }
                    },
                    _ => {},
                }
            },
            StatementView::While(condition, body) => {
                lemma_while_reads_its_exchanges(
                    condition,
                    *body,
                    memory,
                    first,
                    second,
                    cursor,
                    rest,
                );
            },
            StatementView::For(initializer, condition, increment, body) => {
                match initializer {
                    Some(start) => {
                        lemma_execute_reads_its_exchanges(
                            *start,
                            pushed(memory),
                            first,
                            second,
                            cursor,
                            rest,
                        );
                        match execute(*start, pushed(memory), first, cursor, rest) {
                            Run::Done { result: Ok(_), memory: then, cursor: next } => {
                                lemma_for_reads_its_exchanges(
                                    condition,
                                    increment,
                                    *body,
                                    then,
                                    first,
                                    second,
                                    next,
                                    rest,
                                );
                            },
                            _ => {},
                        }
                    },
                    None => {
                        lemma_for_reads_its_exchanges(
                            condition,
                            increment,
                            *body,
                            pushed(memory),
                            first,
                            second,
                            cursor,
                            rest,
                        );
                    },
                }
            },
            StatementView::Function(_, _, _) => {},
            StatementView::Return(value) => {
                match value {
                    Some(value) => {
                        lemma_evaluate_reads_its_exchanges(
                            value,
                            memory,
                            first,
                            second,
                            cursor,
                            rest,
                        );
                    },
                    None => {},
                }
            },
        }
    }
}

/// Running statements one after the other reads the script only between
/// the start and the end of the run.
pub proof fn lemma_execute_all_reads_its_exchanges(
    statements: Seq<StatementView>,
    from: int,
    memory: Memory,
    first: Seq<Exchange>,
    second: Seq<Exchange>,
    cursor: int,
    budget: nat,
)
    ensures
        reads_its_exchanges(
            execute_all(statements, from, memory, first, cursor, budget),
            execute_all(statements, from, memory, second, cursor, budget),
            first,
            second,
            cursor,
        ),
    decreases budget, statements.len() - from + 1,
{
    reveal(execute_all);
    reveal(execute);
    if 0 <= from < statements.len() {
        lemma_execute_reads_its_exchanges(statements[from], memory, first, second, cursor, budget);
        match execute(statements[from], memory, first, cursor, budget) {
            Run::Done { result: Ok(_), memory: then, cursor: next } => {
                lemma_execute_all_reads_its_exchanges(
                    statements,
                    from + 1,
                    then,
                    first,
                    second,
                    next,
                    budget,
                );
            },
            _ => {},
        }
    }
}

proof fn lemma_while_reads_its_exchanges(
    condition: ExpressionView,
    body: StatementView,
    memory: Memory,
    first: Seq<Exchange>,
    second: Seq<Exchange>,
    cursor: int,
    budget: nat,
)
    ensures
        reads_its_exchanges(
            while_loop(condition, body, memory, first, cursor, budget),
            while_loop(condition, body, memory, second, cursor, budget),
            first,
            second,
            cursor,
        ),
    decreases budget, 0int,
{
    reveal(while_loop);
    reveal(evaluate);
    reveal(execute);
    if budget > 0 {
        let rest = (budget - 1) as nat;
        lemma_evaluate_reads_its_exchanges(condition, memory, first, second, cursor, rest);
        match evaluate(condition, memory, first, cursor, rest) {
            Run::Done { result: Ok(_), memory: then, cursor: next } => {
                lemma_execute_reads_its_exchanges(body, pushed(then), first, second, next, rest);
                match execute(body, pushed(then), first, next, rest) {
                    Run::Done { result: Ok(_), memory: inner, cursor: last } => {
                        lemma_while_reads_its_exchanges(
                            condition,
                            body,
                            popped(inner),
                            first,
                            second,
                            last,
                            rest,
                        );
                    },
                    _ => {},
                }
            },
            _ => {},
        }
    }
}

proof fn lemma_for_reads_its_exchanges(
    condition: Option<ExpressionView>,
    increment: Option<ExpressionView>,
    body: StatementView,
    memory: Memory,
    first: Seq<Exchange>,
    second: Seq<Exchange>,
    cursor: int,
    budget: nat,
)
    ensures
        reads_its_exchanges(
            for_loop(condition, increment, body, memory, first, cursor, budget),
            for_loop(condition, increment, body, memory, second, cursor, budget),
            first,
            second,
            cursor,
        ),
    decreases budget, 0int,
{
    reveal(for_loop);
    reveal(evaluate);
    reveal(execute);
    if budget > 0 {
        let rest = (budget - 1) as nat;
        let tested = match condition {
            Some(condition) => {
                lemma_evaluate_reads_its_exchanges(condition, memory, first, second, cursor, rest);
                evaluate(condition, memory, first, cursor, rest)
            },
            None => Run::Done { result: Ok(ValueView::Bool(true)), memory, cursor },
        };
        match tested {
            Run::Done { result: Ok(_), memory: then, cursor: next } => {
                lemma_execute_reads_its_exchanges(body, then, first, second, next, rest);
                match execute(body, then, first, next, rest) {
                    Run::Done { result: Ok(_), memory: inner, cursor: last } => {
                        let stepped = match increment {
                            Some(increment) => {
                                lemma_evaluate_reads_its_exchanges(
                                    increment,
                                    inner,
                                    first,
                                    second,
                                    last,
                                    rest,
                                );
                                evaluate(increment, inner, first, last, rest)
                            },
                            None => Run::Done {
                                result: Ok(ValueView::Nil),
                                memory: inner,
                                cursor: last,
                            },
                        };
                        match stepped {
                            Run::Done { result: Ok(_), memory: after, cursor: end } => {
                                lemma_for_reads_its_exchanges(
                                    condition,
                                    increment,
                                    body,
                                    after,
                                    first,
                                    second,
                                    end,
                                    rest,
                                );
                            },
                            _ => {},
                        }
                    },
                    _ => {},
                }
            },
            _ => {},
        }
    }
}

} // verus!
