//! Running loops.

use crate::expression::Expression;
use crate::host::{
    continues, lemma_continues_is_transitive, lemma_continues_itself, Exchange, Host,
};
use crate::interpreter::{
    ends, evaluates, executes, limit_error, result_view, unit_view, Interpreter,
};
use crate::semantics::{evaluate, execute, for_loop, while_loop};
use crate::statement::{optional_expression_view, Statement};
use crate::value::{Error, ErrorView, Value, ValueView};
use vstd::prelude::*;

verus! {

impl<H: Host> Interpreter<H> {
    /// Runs a `while` loop: as long as the condition holds, the body runs
    /// in a scope of its own.
    pub(super) fn run_while(&mut self, condition: &Expression, body: &Statement, budget: u64) -> (result:
        Result<(), Error>)
        ensures
            final(self).limit() == old(self).limit(),
            continues(final(self).history(), old(self).history()),
            forall|script: Seq<Exchange>| #[trigger]
                continues(script, final(self).history()) ==> ends(
                    while_loop(
                        condition@,
                        body@,
                        old(self).memory(),
                        script,
                        old(self).history().len() as int,
                        budget as nat,
                    ),
                    unit_view(result),
                    final(self).moment(),
                ),
        decreases budget, 4int,
    {
        let ghost start = self.moment();
        let mut remaining: u64 = budget;
        proof {
            lemma_continues_itself(self.history());
        }
        loop
            invariant
                remaining <= budget,
                start == old(self).moment(),
                self.limit() == old(self).limit(),
                continues(self.history(), start.history),
                forall|script: Seq<Exchange>| #[trigger]
                    continues(script, self.history()) ==> while_loop(
                        condition@,
                        body@,
                        start.memory,
                        script,
                        start.history.len() as int,
                        budget as nat,
                    ) == while_loop(
                        condition@,
                        body@,
                        self.memory(),
                        script,
                        self.history().len() as int,
                        remaining as nat,
                    ),
            decreases remaining,
        {
            let ghost head = self.moment();
            let ghost round = remaining as nat;
            if remaining == 0 {
                proof {
                    reveal(while_loop);
                }
                return Err(limit_error());
            }
            remaining -= 1;
            let test = match self.evaluate(condition, remaining) {
                Ok(value) => value,
                Err(error) => {
                    proof {
                        assert forall|script: Seq<Exchange>| #[trigger]
                            continues(script, self.history()) implies ends(
                            while_loop(
                                condition@,
                                body@,
                                start.memory,
                                script,
                                start.history.len() as int,
                                budget as nat,
                            ),
                            Err(error@),
                            self.moment(),
                        ) by {
                            reveal(while_loop);
                            reveal(evaluate);
                            lemma_continues_is_transitive(script, self.history(), head.history);
                        }
                        lemma_continues_is_transitive(self.history(), head.history, start.history);
                    }
                    return Err(error);
                },
            };
            if !test.is_truthy() {
                proof {
                    assert forall|script: Seq<Exchange>| #[trigger]
                        continues(script, self.history()) implies ends(
                        while_loop(
                            condition@,
                            body@,
                            start.memory,
                            script,
                            start.history.len() as int,
                            budget as nat,
                        ),
                        Ok(()),
                        self.moment(),
                    ) by {
                        reveal(while_loop);
                        reveal(evaluate);
                        lemma_continues_is_transitive(script, self.history(), head.history);
                    }
                    lemma_continues_is_transitive(self.history(), head.history, start.history);
                }
                return Ok(());
            }
            let ghost middle = self.moment();
            match self.run_scoped(body, remaining) {
                Ok(_) => {
                    proof {
                        assert forall|script: Seq<Exchange>| #[trigger]
                            continues(script, self.history()) implies while_loop(
                            condition@,
                            body@,
                            start.memory,
                            script,
                            start.history.len() as int,
                            budget as nat,
                        ) == while_loop(
                            condition@,
                            body@,
                            self.memory(),
                            script,
                            self.history().len() as int,
                            remaining as nat,
                        ) by {
                            reveal(while_loop);
                            reveal(evaluate);
                            reveal(execute);
                            lemma_continues_is_transitive(script, self.history(), middle.history);
                            lemma_continues_is_transitive(script, middle.history, head.history);
                        }
                        lemma_continues_is_transitive(
                            self.history(),
                            middle.history,
                            head.history,
                        );
                        lemma_continues_is_transitive(self.history(), head.history, start.history);
                    }
                },
                Err(error) => {
                    proof {
                        assert forall|script: Seq<Exchange>| #[trigger]
                            continues(script, self.history()) implies ends(
                            while_loop(
                                condition@,
                                body@,
                                start.memory,
                                script,
                                start.history.len() as int,
                                budget as nat,
                            ),
                            Err(error@),
                            self.moment(),
                        ) by {
                            reveal(while_loop);
                            reveal(evaluate);
                            reveal(execute);
                            lemma_continues_is_transitive(script, self.history(), middle.history);
                            lemma_continues_is_transitive(script, middle.history, head.history);
                        }
                        lemma_continues_is_transitive(
                            self.history(),
                            middle.history,
                            head.history,
                        );
                        lemma_continues_is_transitive(self.history(), head.history, start.history);
                    }
                    return Err(error);
                },
            }
        }
    }

    /// Evaluates an expression that may be absent; without one, gives `value`.
    fn evaluate_optional(&mut self, expression: &Option<Expression>, value: Value, budget: u64) -> (result:
        Result<Value, Error>)
        ensures
            final(self).limit() == old(self).limit(),
            continues(final(self).history(), old(self).history()),
            match expression {
                Some(expression) => evaluates(
                    expression@,
                    old(self).moment(),
                    budget as nat,
                    result_view(result),
                    final(self).moment(),
                ),
                None => {
                    &&& result_view(result) == Ok::<ValueView, ErrorView>(value@)
                    &&& final(self).moment() == old(self).moment()
                },
            },
        decreases budget, 2int,
    {
        match expression {
            Some(expression) => self.evaluate(expression, budget),
            None => {
                proof {
                    lemma_continues_itself(self.history());
                }
                Ok(value)
            },
        }
    }

    /// Runs the rounds of a `for` loop, in the scope of the loop: as long
    /// as the condition holds, or for ever where there is none, the body
    /// runs and then the increment is evaluated.
    fn run_rounds(
        &mut self,
        condition: &Option<Expression>,
        increment: &Option<Expression>,
        body: &Statement,
        budget: u64,
    ) -> (result: Result<(), Error>)
        ensures
            final(self).limit() == old(self).limit(),
            continues(final(self).history(), old(self).history()),
            forall|script: Seq<Exchange>| #[trigger]
                continues(script, final(self).history()) ==> ends(
                    for_loop(
                        optional_expression_view(*condition),
                        optional_expression_view(*increment),
                        body@,
                        old(self).memory(),
                        script,
                        old(self).history().len() as int,
                        budget as nat,
                    ),
                    unit_view(result),
                    final(self).moment(),
                ),
        decreases budget, 4int,
    {
        let ghost start = self.moment();
        let ghost test_view = optional_expression_view(*condition);
        let ghost step_view = optional_expression_view(*increment);
        let mut remaining: u64 = budget;
        proof {
            lemma_continues_itself(self.history());
        }
        loop
            invariant
                remaining <= budget,
                start == old(self).moment(),
                test_view == optional_expression_view(*condition),
                step_view == optional_expression_view(*increment),
                self.limit() == old(self).limit(),
                continues(self.history(), start.history),
                forall|script: Seq<Exchange>| #[trigger]
                    continues(script, self.history()) ==> for_loop(
                        test_view,
                        step_view,
                        body@,
                        start.memory,
                        script,
                        start.history.len() as int,
                        budget as nat,
                    ) == for_loop(
                        test_view,
                        step_view,
                        body@,
                        self.memory(),
                        script,
                        self.history().len() as int,
                        remaining as nat,
                    ),
            decreases remaining,
        {
            let ghost head = self.moment();
            if remaining == 0 {
                proof {
                    reveal(for_loop);
                }
                return Err(limit_error());
            }
            remaining -= 1;
            let test = match self.evaluate_optional(condition, Value::Bool(true), remaining) {
                Ok(value) => value,
                Err(error) => {
                    proof {
                        assert forall|script: Seq<Exchange>| #[trigger]
                            continues(script, self.history()) implies ends(
                            for_loop(
                                test_view,
                                step_view,
                                body@,
                                start.memory,
                                script,
                                start.history.len() as int,
                                budget as nat,
                            ),
                            Err(error@),
                            self.moment(),
                        ) by {
                            reveal(for_loop);
                            reveal(evaluate);
                            lemma_continues_is_transitive(script, self.history(), head.history);
                        }
                        lemma_continues_is_transitive(self.history(), head.history, start.history);
                    }
                    return Err(error);
                },
            };
            if !test.is_truthy() {
                proof {
                    assert forall|script: Seq<Exchange>| #[trigger]
                        continues(script, self.history()) implies ends(
                        for_loop(
                            test_view,
                            step_view,
                            body@,
                            start.memory,
                            script,
                            start.history.len() as int,
                            budget as nat,
                        ),
                        Ok(()),
                        self.moment(),
                    ) by {
                        reveal(for_loop);
                        reveal(evaluate);
                        lemma_continues_is_transitive(script, self.history(), head.history);
                    }
                    lemma_continues_is_transitive(self.history(), head.history, start.history);
                }
                return Ok(());
            }
            let ghost tested = self.moment();
            match self.run_statement(body, remaining) {
                Ok(_) => {},
                Err(error) => {
                    proof {
                        assert forall|script: Seq<Exchange>| #[trigger]
                            continues(script, self.history()) implies ends(
                            for_loop(
                                test_view,
                                step_view,
                                body@,
                                start.memory,
                                script,
                                start.history.len() as int,
                                budget as nat,
                            ),
                            Err(error@),
                            self.moment(),
                        ) by {
                            reveal(for_loop);
                            reveal(evaluate);
                            reveal(execute);
                            lemma_continues_is_transitive(script, self.history(), tested.history);
                            lemma_continues_is_transitive(script, tested.history, head.history);
                        }
                        lemma_continues_is_transitive(
                            self.history(),
                            tested.history,
                            head.history,
                        );
                        lemma_continues_is_transitive(self.history(), head.history, start.history);
                    }
                    return Err(error);
                },
            }
            let ghost ran = self.moment();
            proof {
                lemma_continues_is_transitive(ran.history, tested.history, head.history);
            }
            match self.evaluate_optional(increment, Value::Nil, remaining) {
                Ok(_) => {
                    proof {
                        assert forall|script: Seq<Exchange>| #[trigger]
                            continues(script, self.history()) implies for_loop(
                            test_view,
                            step_view,
                            body@,
                            start.memory,
                            script,
                            start.history.len() as int,
                            budget as nat,
                        ) == for_loop(
                            test_view,
                            step_view,
                            body@,
                            self.memory(),
                            script,
                            self.history().len() as int,
                            remaining as nat,
                        ) by {
                            reveal(for_loop);
                            reveal(evaluate);
                            reveal(execute);
                            lemma_continues_is_transitive(script, self.history(), ran.history);
                            lemma_continues_is_transitive(script, ran.history, tested.history);
                            lemma_continues_is_transitive(script, tested.history, head.history);
                        }
                        lemma_continues_is_transitive(self.history(), ran.history, head.history);
                        lemma_continues_is_transitive(self.history(), head.history, start.history);
                    }
                },
                Err(error) => {
                    proof {
                        assert forall|script: Seq<Exchange>| #[trigger]
                            continues(script, self.history()) implies ends(
                            for_loop(
                                test_view,
                                step_view,
                                body@,
                                start.memory,
                                script,
                                start.history.len() as int,
                                budget as nat,
                            ),
                            Err(error@),
                            self.moment(),
                        ) by {
                            reveal(for_loop);
                            reveal(evaluate);
                            reveal(execute);
                            lemma_continues_is_transitive(script, self.history(), ran.history);
                            lemma_continues_is_transitive(script, ran.history, tested.history);
                            lemma_continues_is_transitive(script, tested.history, head.history);
                        }
                        lemma_continues_is_transitive(self.history(), ran.history, head.history);
                        lemma_continues_is_transitive(self.history(), head.history, start.history);
                    }
                    return Err(error);
                },
            }
        }
    }

    /// Runs a `for` loop: one scope for the whole loop, in which the
    /// initializer runs once and then the rounds of the loop.
    pub(super) fn run_for(
        &mut self,
        initializer: &Option<Box<Statement>>,
        condition: &Option<Expression>,
        increment: &Option<Expression>,
        body: &Statement,
        budget: u64,
    ) -> (result: Result<(), Error>)
        requires
            budget > 0,
        ensures
            final(self).limit() == old(self).limit(),
            executes(
                Statement::For(*initializer, *condition, *increment, Box::new(*body))@,
                old(self).moment(),
                budget as nat,
                unit_view(result),
                final(self).moment(),
            ),
        decreases budget, 0int,
    {
        let ghost start = self.moment();
        let ghost whole = Statement::For(*initializer, *condition, *increment, Box::new(*body))@;
        self.environment.push_scope();
        match initializer {
            Some(first) => {
                match self.run_statement(first, budget - 1) {
                    Ok(_) => {},
                    Err(error) => {
                        self.environment.pop_scope();
                        proof {
                            reveal(execute);
                        }
                        return Err(error);
                    },
                }
            },
            None => {
                proof {
                    lemma_continues_itself(self.history());
                }
            },
        }
        let ghost ready = self.moment();
        let result = self.run_rounds(condition, increment, body, budget - 1);
        self.environment.pop_scope();
        proof {
            assert forall|script: Seq<Exchange>| #[trigger]
                continues(script, self.history()) implies ends(
                execute(whole, start.memory, script, start.history.len() as int, budget as nat),
                unit_view(result),
                self.moment(),
            ) by {
                reveal(execute);
                reveal(for_loop);
                lemma_continues_is_transitive(script, self.history(), ready.history);
            }
            lemma_continues_is_transitive(self.history(), ready.history, start.history);
        }
        result
    }
}

} // verus!
