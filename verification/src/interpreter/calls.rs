//! Calling functions.

use crate::expression::{expression_views, Expression, ExpressionView};
use crate::host::{
    continues, lemma_continues_is_transitive, lemma_continues_itself, lemma_continues_push,
    Exchange, Host,
};
use crate::interpreter::{
    ends, result_view, unit_view, value_views, values_view, Interpreter, Moment,
};
use crate::semantics::{
    bind, call, evaluate, evaluate_all, execute, native_result, wrong_number_of_arguments,
};
use crate::statement::name_views;
use crate::text::decimal;
use crate::value::{Callable, Error, ErrorView, Native, Value, ValueView};
use vstd::prelude::*;

verus! {

/// Whether calling `called` with `arguments` at the moment `before` gives
/// `result` and leads to the moment `after`, whatever exchanges follow.
pub open spec fn calls(
    called: ValueView,
    arguments: Seq<ExpressionView>,
    before: Moment,
    budget: nat,
    result: Result<ValueView, ErrorView>,
    after: Moment,
) -> bool {
    &&& continues(after.history, before.history)
    &&& forall|script: Seq<Exchange>| #[trigger]
        continues(script, after.history) ==> ends(
            call(called, arguments, before.memory, script, before.history.len() as int, budget),
            result,
            after,
        )
}

/// Whether evaluating the expressions from the first on at the moment
/// `before` gives `result` and leads to the moment `after`, whatever
/// exchanges follow.
pub open spec fn evaluates_all(
    expressions: Seq<ExpressionView>,
    before: Moment,
    budget: nat,
    result: Result<Seq<ValueView>, ErrorView>,
    after: Moment,
) -> bool {
    &&& continues(after.history, before.history)
    &&& forall|script: Seq<Exchange>| #[trigger]
        continues(script, after.history) ==> ends(
            evaluate_all(
                expressions,
                0,
                Seq::empty(),
                before.memory,
                script,
                before.history.len() as int,
                budget,
            ),
            result,
            after,
        )
}

/// Whether evaluating the arguments and declaring each under the name of
/// its parameter, at the moment `before`, gives `result` and leads to the
/// moment `after`, whatever exchanges follow.
pub open spec fn binds(
    parameters: Seq<Seq<char>>,
    arguments: Seq<ExpressionView>,
    before: Moment,
    budget: nat,
    result: Result<(), ErrorView>,
    after: Moment,
) -> bool {
    &&& continues(after.history, before.history)
    &&& forall|script: Seq<Exchange>| #[trigger]
        continues(script, after.history) ==> ends(
            bind(
                parameters,
                arguments,
                0,
                before.memory,
                script,
                before.history.len() as int,
                budget,
            ),
            result,
            after,
        )
}

fn wrong_arity(expected: usize, got: usize) -> (error: Error)
    ensures
        error@ == ErrorView::Runtime(wrong_number_of_arguments(expected as nat, got as nat)),
{
    let mut message = String::from_str("Expected ");
    message.append(decimal(expected).as_str());
    message.append(" arguments but got ");
    message.append(decimal(got).as_str());
    message.append(".");
    Error::Runtime(message)
}

/// What a call gives once the body of the function has run.
fn return_value(body: Result<(), Error>) -> (result: Result<Value, Error>)
    ensures
        result_view(result) == match unit_view(body) {
            Ok(_) => Ok::<ValueView, ErrorView>(ValueView::Nil),
            Err(ErrorView::Return(value)) => Ok(value),
            Err(ErrorView::Runtime(message)) => Err(ErrorView::Runtime(message)),
        },
{
    match body {
        Ok(_) => Ok(Value::Nil),
        Err(Error::Return(value)) => Ok(value),
        Err(Error::Runtime(message)) => Err(Error::Runtime(message)),
    }
}

impl<H: Host> Interpreter<H> {
    /// Calls a native function with the values of its arguments.
    fn call_native(&mut self, native: Native, arguments: Vec<Value>) -> (result: Result<
        Value,
        Error,
    >)
        ensures
            final(self).limit() == old(self).limit(),
            final(self).memory() == old(self).memory(),
            continues(final(self).history(), old(self).history()),
            forall|script: Seq<Exchange>| #[trigger]
                continues(script, final(self).history()) ==> ends(
                    native_result(
                        native,
                        value_views(arguments@),
                        old(self).memory(),
                        script,
                        old(self).history().len() as int,
                    ),
                    result_view(result),
                    final(self).moment(),
                ),
    {
        match native {
            Native::Clock => {
                let ghost before = self.history();
                let now = self.platform.clock();
                proof {
                    let exchange = Exchange::Clock { now };
                    assert forall|script: Seq<Exchange>| #[trigger]
                        continues(script, self.history()) implies ends(
                        native_result(
                            native,
                            value_views(arguments@),
                            old(self).memory(),
                            script,
                            before.len() as int,
                        ),
                        Ok(ValueView::Number(now)),
                        self.moment(),
                    ) by {
                        lemma_continues_push(script, before, exchange);
                    }
                    lemma_continues_itself(self.history());
                    lemma_continues_push(self.history(), before, exchange);
                }
                Ok(Value::Number(now))
            },
        }
    }

    /// Evaluates the arguments of a call of a native function, from left to
    /// right.
    fn evaluate_arguments(&mut self, arguments: &Vec<Expression>, budget: u64) -> (result: Result<
        Vec<Value>,
        Error,
    >)
        ensures
            final(self).limit() == old(self).limit(),
            evaluates_all(
                expression_views(arguments@),
                old(self).moment(),
                budget as nat,
                values_view(result),
                final(self).moment(),
            ),
        decreases budget, 4int,
    {
        let ghost start = self.moment();
        let ghost expressions = expression_views(arguments@);
        let mut values: Vec<Value> = Vec::new();
        let mut index: usize = 0;
        proof {
            lemma_continues_itself(self.history());
            assert(value_views(values@) =~= Seq::<ValueView>::empty());
        }
        while index < arguments.len()
            invariant
                index <= arguments@.len(),
                expressions == expression_views(arguments@),
                start == old(self).moment(),
                self.limit() == old(self).limit(),
                continues(self.history(), start.history),
                forall|script: Seq<Exchange>| #[trigger]
                    continues(script, self.history()) ==> evaluate_all(
                        expressions,
                        0,
                        Seq::empty(),
                        start.memory,
                        script,
                        start.history.len() as int,
                        budget as nat,
                    ) == evaluate_all(
                        expressions,
                        index as int,
                        value_views(values@),
                        self.memory(),
                        script,
                        self.history().len() as int,
                        budget as nat,
                    ),
            decreases arguments@.len() - index,
        {
            let ghost head = self.moment();
            let ghost collected = value_views(values@);
            match self.evaluate(&arguments[index], budget) {
                Ok(value) => {
                    values.push(value);
                    proof {
                        assert(value_views(values@) =~= collected.push(value@));
                        assert forall|script: Seq<Exchange>| #[trigger]
                            continues(script, self.history()) implies evaluate_all(
                            expressions,
                            0,
                            Seq::empty(),
                            start.memory,
                            script,
                            start.history.len() as int,
                            budget as nat,
                        ) == evaluate_all(
                            expressions,
                            index as int + 1,
                            value_views(values@),
                            self.memory(),
                            script,
                            self.history().len() as int,
                            budget as nat,
                        ) by {
                            reveal(evaluate_all);
                            reveal(evaluate);
                            lemma_continues_is_transitive(script, self.history(), head.history);
                        }
                        lemma_continues_is_transitive(self.history(), head.history, start.history);
                    }
                },
                Err(error) => {
                    proof {
                        assert forall|script: Seq<Exchange>| #[trigger]
                            continues(script, self.history()) implies ends(
                            evaluate_all(
                                expressions,
                                0,
                                Seq::empty(),
                                start.memory,
                                script,
                                start.history.len() as int,
                                budget as nat,
                            ),
                            Err(error@),
                            self.moment(),
                        ) by {
                            reveal(evaluate_all);
                            reveal(evaluate);
                            lemma_continues_is_transitive(script, self.history(), head.history);
                        }
                        lemma_continues_is_transitive(self.history(), head.history, start.history);
                    }
                    return Err(error);
                },
            }
            index += 1;
        }
        proof {
            reveal(evaluate_all);
        }
        Ok(values)
    }

    /// Evaluates each argument of a call of a function of the program and
    /// declares it under the name of its parameter, from left to right.
    fn bind_arguments(
        &mut self,
        parameters: &Vec<String>,
        arguments: &Vec<Expression>,
        budget: u64,
    ) -> (result: Result<(), Error>)
        requires
            parameters@.len() == arguments@.len(),
        ensures
            final(self).limit() == old(self).limit(),
            binds(
                name_views(parameters@),
                expression_views(arguments@),
                old(self).moment(),
                budget as nat,
                unit_view(result),
                final(self).moment(),
            ),
        decreases budget, 4int,
    {
        let ghost start = self.moment();
        let ghost names = name_views(parameters@);
        let ghost expressions = expression_views(arguments@);
        let mut index: usize = 0;
        proof {
            lemma_continues_itself(self.history());
        }
        while index < arguments.len()
            invariant
                index <= arguments@.len(),
                parameters@.len() == arguments@.len(),
                names == name_views(parameters@),
                expressions == expression_views(arguments@),
                start == old(self).moment(),
                self.limit() == old(self).limit(),
                continues(self.history(), start.history),
                forall|script: Seq<Exchange>| #[trigger]
                    continues(script, self.history()) ==> bind(
                        names,
                        expressions,
                        0,
                        start.memory,
                        script,
                        start.history.len() as int,
                        budget as nat,
                    ) == bind(
                        names,
                        expressions,
                        index as int,
                        self.memory(),
                        script,
                        self.history().len() as int,
                        budget as nat,
                    ),
            decreases arguments@.len() - index,
        {
            let ghost head = self.moment();
            match self.evaluate(&arguments[index], budget) {
                Ok(value) => {
                    self.environment.declare(parameters[index].clone(), value);
                    proof {
                        assert forall|script: Seq<Exchange>| #[trigger]
                            continues(script, self.history()) implies bind(
                            names,
                            expressions,
                            0,
                            start.memory,
                            script,
                            start.history.len() as int,
                            budget as nat,
                        ) == bind(
                            names,
                            expressions,
                            index as int + 1,
                            self.memory(),
                            script,
                            self.history().len() as int,
                            budget as nat,
                        ) by {
                            reveal(bind);
                            reveal(evaluate);
                            lemma_continues_is_transitive(script, self.history(), head.history);
                        }
                        lemma_continues_is_transitive(self.history(), head.history, start.history);
                    }
                },
                Err(error) => {
                    proof {
                        assert forall|script: Seq<Exchange>| #[trigger]
                            continues(script, self.history()) implies ends(
                            bind(
                                names,
                                expressions,
                                0,
                                start.memory,
                                script,
                                start.history.len() as int,
                                budget as nat,
                            ),
                            Err(error@),
                            self.moment(),
                        ) by {
                            reveal(bind);
                            reveal(evaluate);
                            lemma_continues_is_transitive(script, self.history(), head.history);
                        }
                        lemma_continues_is_transitive(self.history(), head.history, start.history);
                    }
                    return Err(error);
                },
            }
            index += 1;
        }
        proof {
            reveal(bind);
        }
        Ok(())
    }

    /// Calls a value with arguments that are still to be evaluated.
    pub(super) fn call(&mut self, called: Value, arguments: &Vec<Expression>, budget: u64) -> (result:
        Result<Value, Error>)
        ensures
            final(self).limit() == old(self).limit(),
            calls(
                called@,
                expression_views(arguments@),
                old(self).moment(),
                budget as nat,
                result_view(result),
                final(self).moment(),
            ),
        decreases budget, 5int,
    {
        let ghost start = self.moment();
        let ghost expressions = expression_views(arguments@);
        match called {
            Value::Callable(Callable::Native(native)) => {
                if arguments.len() != native.arity() {
                    proof {
                        reveal(call);
                        lemma_continues_itself(self.history());
                    }
                    return Err(wrong_arity(native.arity(), arguments.len()));
                }
                let values = match self.evaluate_arguments(arguments, budget) {
                    Ok(values) => values,
                    Err(error) => {
                        proof {
                            reveal(call);
                            reveal(evaluate_all);
                        }
                        return Err(error);
                    },
                };
                let ghost middle = self.moment();
                let result = self.call_native(native, values);
                proof {
                    assert forall|script: Seq<Exchange>| #[trigger]
                        continues(script, self.history()) implies ends(
                        call(
                            called@,
                            expressions,
                            start.memory,
                            script,
                            start.history.len() as int,
                            budget as nat,
                        ),
                        result_view(result),
                        self.moment(),
                    ) by {
                        reveal(call);
                        reveal(evaluate_all);
                        lemma_continues_is_transitive(script, self.history(), middle.history);
                    }
                    lemma_continues_is_transitive(self.history(), middle.history, start.history);
                }
                result
            },
            Value::Callable(Callable::Function(_, parameters, body)) => {
                if arguments.len() != parameters.len() {
                    proof {
                        reveal(call);
                        lemma_continues_itself(self.history());
                    }
                    return Err(wrong_arity(parameters.len(), arguments.len()));
                }
                self.environment.push_scope();
                let ghost opened = self.moment();
                match self.bind_arguments(&parameters, arguments, budget) {
                    Ok(_) => {},
                    Err(error) => {
                        self.environment.pop_scope();
                        proof {
                            assert forall|script: Seq<Exchange>| #[trigger]
                                continues(script, self.history()) implies ends(
                                call(
                                    called@,
                                    expressions,
                                    start.memory,
                                    script,
                                    start.history.len() as int,
                                    budget as nat,
                                ),
                                Err(error@),
                                self.moment(),
                            ) by {
                                reveal(call);
                                reveal(bind);
                            }
                        }
                        return Err(error);
                    },
                }
                let ghost bound = self.moment();
                let body_result = self.run_statement(&body, budget);
                self.environment.pop_scope();
                let result = return_value(body_result);
                proof {
                    assert forall|script: Seq<Exchange>| #[trigger]
                        continues(script, self.history()) implies ends(
                        call(
                            called@,
                            expressions,
                            start.memory,
                            script,
                            start.history.len() as int,
                            budget as nat,
                        ),
                        result_view(result),
                        self.moment(),
                    ) by {
                        reveal(call);
                        reveal(bind);
                        reveal(execute);
                        lemma_continues_is_transitive(script, self.history(), bound.history);
                    }
                    lemma_continues_is_transitive(self.history(), bound.history, start.history);
                }
                result
            },
            _ => {
                proof {
                    reveal(call);
                    lemma_continues_itself(self.history());
                }
                Err(Error::Runtime(String::from_str("Can only call functions and classes.")))
            },
        }
    }
}

} // verus!
