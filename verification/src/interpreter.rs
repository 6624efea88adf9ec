//! The interpreter: runs statements and evaluates expressions.
//!
//! [`crate::semantics`] says what a program does against a script of
//! exchanges with the host. The interpreter does exactly that with the
//! exchanges that its host answers: for every function here, the model run
//! against any script that starts with the exchanges made so far ends as the
//! function did.

use crate::environment::{declared, initial, Environment, Memory};
use crate::expression::{Expression, ExpressionView};
use crate::host::{continues, lemma_continues_itself, Exchange, Host, Platform};
use crate::semantics::depth::{lemma_evaluate_keeps_the_scopes, lemma_execute_all_keeps_the_scopes};
use crate::semantics::{
    clock_name, evaluate_program, execute, execute_all, limit_reached, report, run_program,
    Reported, Run,
};
use crate::statement::{statement_views, Statement, StatementView};
use crate::value::{Callable, CallableView, Error, ErrorView, Native, Value, ValueView};
use vstd::prelude::*;

mod calls;
mod expressions;
mod loops;
mod statements;

pub use expressions::apply_unary;

verus! {

/// The state of a run at one moment: the memory, and the exchanges with the
/// host so far.
pub struct Moment {
    pub memory: Memory,
    pub history: Seq<Exchange>,
}

pub open spec fn result_view(result: Result<Value, Error>) -> Result<ValueView, ErrorView> {
    match result {
        Ok(value) => Ok(value@),
        Err(error) => Err(error@),
    }
}

pub open spec fn unit_view(result: Result<(), Error>) -> Result<(), ErrorView> {
    match result {
        Ok(_) => Ok(()),
        Err(error) => Err(error@),
    }
}

/// The models of the values of a vector, in order.
pub open spec fn value_views(values: Seq<Value>) -> Seq<ValueView> {
    Seq::new(values.len(), |i: int| values[i]@)
}

pub open spec fn values_view(result: Result<Vec<Value>, Error>) -> Result<
    Seq<ValueView>,
    ErrorView,
> {
    match result {
        Ok(values) => Ok(value_views(values@)),
        Err(error) => Err(error@),
    }
}

/// Whether a model run ended with `result` at the moment `after`.
pub open spec fn ends<T>(run: Run<T>, result: Result<T, ErrorView>, after: Moment) -> bool {
    run == (Run::Done { result, memory: after.memory, cursor: after.history.len() as int })
}

/// Whether evaluating `expression` at the moment `before` gives `result`
/// and leads to the moment `after`, whatever exchanges follow.
pub open spec fn evaluates(
    expression: ExpressionView,
    before: Moment,
    budget: nat,
    result: Result<ValueView, ErrorView>,
    after: Moment,
) -> bool {
    &&& continues(after.history, before.history)
    &&& forall|script: Seq<Exchange>| #[trigger]
        continues(script, after.history) ==> ends(
            crate::semantics::evaluate(
                expression,
                before.memory,
                script,
                before.history.len() as int,
                budget,
            ),
            result,
            after,
        )
}

/// Whether running `statement` at the moment `before` gives `result` and
/// leads to the moment `after`, whatever exchanges follow.
pub open spec fn executes(
    statement: StatementView,
    before: Moment,
    budget: nat,
    result: Result<(), ErrorView>,
    after: Moment,
) -> bool {
    &&& continues(after.history, before.history)
    &&& forall|script: Seq<Exchange>| #[trigger]
        continues(script, after.history) ==> ends(
            execute(statement, before.memory, script, before.history.len() as int, budget),
            result,
            after,
        )
}

/// Whether running the statements from `from` on at the moment `before`
/// gives `result` and leads to the moment `after`, whatever exchanges follow.
pub open spec fn executes_all(
    statements: Seq<StatementView>,
    from: int,
    before: Moment,
    budget: nat,
    result: Result<(), ErrorView>,
    after: Moment,
) -> bool {
    &&& continues(after.history, before.history)
    &&& forall|script: Seq<Exchange>| #[trigger]
        continues(script, after.history) ==> ends(
            execute_all(
                statements,
                from,
                before.memory,
                script,
                before.history.len() as int,
                budget,
            ),
            result,
            after,
        )
}

fn limit_error() -> (error: Error)
    ensures
        error@ == ErrorView::Runtime(limit_reached()),
{
    Error::Runtime(String::from_str("Evaluation limit reached."))
}

/// The message with which a run that ended early is reported.
fn reported(error: Error) -> (message: String)
    ensures
        message@ == report(error@),
{
    match error {
        Error::Runtime(message) => message,
        Error::Return(_) => String::from_str("Received unexpected return value"),
    }
}

/// An interpreter: the variables of a program and the host that the program
/// runs on.
pub struct Interpreter<H: Host> {
    environment: Environment,
    platform: Platform<H>,
    limit: u64,
}

impl<H: Host> Interpreter<H> {
    /// The scopes and their variables.
    pub closed spec fn memory(&self) -> Memory {
        self.environment@
    }

    /// The exchanges with the host so far.
    pub closed spec fn history(&self) -> Seq<Exchange> {
        self.platform.history()
    }

    /// The budget of each run that is started from outside.
    pub closed spec fn limit(&self) -> nat {
        self.limit as nat
    }

    /// The host as it is now.
    pub closed spec fn machine(&self) -> H {
        self.platform.machine()
    }

    /// The memory and the history.
    pub open spec fn moment(&self) -> Moment {
        Moment { memory: self.memory(), history: self.history() }
    }

    /// An interpreter on a host. The global scope holds the native function
    /// `clock`, and the budget of a run is as large as can be.
    pub fn new(host: H) -> (interpreter: Self)
        ensures
            interpreter.memory() == first_memory(),
            interpreter.history() == Seq::<Exchange>::empty(),
            interpreter.limit() == u64::MAX,
            interpreter.machine() == host,
    {
        let mut environment = Environment::new();
        environment.declare(String::from_str("clock"), Value::Callable(Callable::Native(Native::Clock)));
        Interpreter { environment, platform: Platform::new(host), limit: u64::MAX }
    }

    /// Sets the budget of each run that is started from outside: how deep it
    /// may nest and how many rounds a loop of it may take.
    pub fn set_limit(&mut self, limit: u64)
        ensures
            final(self).limit() == limit,
            final(self).memory() == old(self).memory(),
            final(self).history() == old(self).history(),
            final(self).machine() == old(self).machine(),
    {
        self.limit = limit;
    }

    /// The host.
    pub fn host(&self) -> (host: &H)
        ensures
            *host == self.machine(),
    {
        self.platform.host()
    }

    /// Gives the host back.
    pub fn into_host(self) -> (host: H)
        ensures
            host == self.machine(),
    {
        self.platform.into_host()
    }

    /// Runs the statements of a program, one after the other, up to the
    /// first that fails. A `return` outside of any function is a failure.
    /// However the run ends, every scope that it opened is closed again.
    ///
    /// What the run gives is what the model gives against the exchanges
    /// that the host answered, and against every script that goes on from
    /// them.
    pub fn run(&mut self, statements: &Vec<Statement>) -> (result: Result<(), String>)
        ensures
            final(self).limit() == old(self).limit(),
            final(self).memory().len() == old(self).memory().len(),
            continues(final(self).history(), old(self).history()),
            run_program(
                statement_views(statements@),
                old(self).memory(),
                final(self).history(),
                old(self).history().len() as int,
                old(self).limit(),
            ) == (Reported::Done {
                result: match result {
                    Ok(_) => Ok(()),
                    Err(message) => Err(message@),
                },
                memory: final(self).memory(),
                cursor: final(self).history().len() as int,
            }),
            forall|script: Seq<Exchange>| #[trigger]
                continues(script, final(self).history()) ==> run_program(
                    statement_views(statements@),
                    old(self).memory(),
                    script,
                    old(self).history().len() as int,
                    old(self).limit(),
                ) == (Reported::Done {
                    result: match result {
                        Ok(_) => Ok(()),
                        Err(message) => Err(message@),
                    },
                    memory: final(self).memory(),
                    cursor: final(self).history().len() as int,
                }),
    {
        let budget = self.limit;
        proof {
            self.environment.lemma_depth();
        }
        let result = self.run_statements(statements, budget);
        proof {
            lemma_continues_itself(self.history());
            lemma_execute_all_keeps_the_scopes(
                statement_views(statements@),
                0,
                old(self).memory(),
                self.history(),
                old(self).history().len() as int,
                budget as nat,
            );
        }
        match result {
            Ok(_) => Ok(()),
            Err(error) => Err(reported(error)),
        }
    }

    /// Evaluates one expression. What it gives is what the model gives
    /// against the exchanges that the host answered, and against every
    /// script that goes on from them.
    pub fn evaluate_expression(&mut self, expression: &Expression) -> (result: Result<
        Value,
        String,
    >)
        ensures
            final(self).limit() == old(self).limit(),
            final(self).memory().len() == old(self).memory().len(),
            continues(final(self).history(), old(self).history()),
            evaluate_program(
                expression@,
                old(self).memory(),
                final(self).history(),
                old(self).history().len() as int,
                old(self).limit(),
            ) == (Reported::Done {
                result: match result {
                    Ok(value) => Ok(value@),
                    Err(message) => Err(message@),
                },
                memory: final(self).memory(),
                cursor: final(self).history().len() as int,
            }),
            forall|script: Seq<Exchange>| #[trigger]
                continues(script, final(self).history()) ==> evaluate_program(
                    expression@,
                    old(self).memory(),
                    script,
                    old(self).history().len() as int,
                    old(self).limit(),
                ) == (Reported::Done {
                    result: match result {
                        Ok(value) => Ok(value@),
                        Err(message) => Err(message@),
                    },
                    memory: final(self).memory(),
                    cursor: final(self).history().len() as int,
                }),
    {
        let budget = self.limit;
        proof {
            self.environment.lemma_depth();
        }
        let result = self.evaluate(expression, budget);
        proof {
            lemma_continues_itself(self.history());
            lemma_evaluate_keeps_the_scopes(
                expression@,
                old(self).memory(),
                self.history(),
                old(self).history().len() as int,
                budget as nat,
            );
        }
        match result {
            Ok(value) => Ok(value),
            Err(error) => Err(reported(error)),
        }
    }
}

/// The memory of a new interpreter: the global scope, with the clock in it.
pub open spec fn first_memory() -> Memory {
    declared(initial(), clock_name(), ValueView::Callable(CallableView::Native(Native::Clock)))
}

/// Runs a program on a new interpreter with the given host. Gives the
/// interpreter back with what the run gave.
pub fn run<H: Host>(statements: &Vec<Statement>, host: H) -> (outcome: (
    Result<(), String>,
    Interpreter<H>,
))
    ensures
        run_program(
            statement_views(statements@),
            first_memory(),
            outcome.1.history(),
            0,
            u64::MAX as nat,
        ) == (Reported::Done {
            result: match outcome.0 {
                Ok(_) => Ok(()),
                Err(message) => Err(message@),
            },
            memory: outcome.1.memory(),
            cursor: outcome.1.history().len() as int,
        }),
{
    let mut interpreter = Interpreter::new(host);
    let result = interpreter.run(statements);
    (result, interpreter)
}

/// Evaluates an expression on a new interpreter with the given host. Gives
/// the interpreter back with what the evaluation gave.
pub fn evaluate<H: Host>(expression: &Expression, host: H) -> (outcome: (
    Result<Value, String>,
    Interpreter<H>,
))
    ensures
        evaluate_program(
            expression@,
            first_memory(),
            outcome.1.history(),
            0,
            u64::MAX as nat,
        ) == (Reported::Done {
            result: match outcome.0 {
                Ok(value) => Ok(value@),
                Err(message) => Err(message@),
            },
            memory: outcome.1.memory(),
            cursor: outcome.1.history().len() as int,
        }),
{
    let mut interpreter = Interpreter::new(host);
    let result = interpreter.evaluate_expression(expression);
    (result, interpreter)
}

} // verus!
