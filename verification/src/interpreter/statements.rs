//! Running statements.

use crate::environment::pushed;
use crate::expression::Expression;
use crate::host::{
    continues, lemma_continues_is_transitive, lemma_continues_itself, lemma_continues_push,
    Exchange, Host,
};
use crate::interpreter::{ends, executes, executes_all, limit_error, unit_view, Interpreter};
use crate::semantics::{closed, evaluate, execute, execute_all};
use crate::statement::{
    duplicate_names, lemma_block_view, optional_expression_view, statement_views, Statement,
    StatementView,
};
use crate::value::{value_decimals, Callable, Error, Value, ValueView};
use vstd::prelude::*;

verus! {

impl<H: Host> Interpreter<H> {
    /// Runs statements one after the other, up to the first that fails or
    /// returns.
    pub(super) fn run_statements(&mut self, statements: &Vec<Statement>, budget: u64) -> (result:
        Result<(), Error>)
        ensures
            final(self).limit() == old(self).limit(),
            executes_all(
                statement_views(statements@),
                0,
                old(self).moment(),
                budget as nat,
                unit_view(result),
                final(self).moment(),
            ),
        decreases budget, 3int,
    {
        let ghost start = self.moment();
        let ghost views = statement_views(statements@);
        let mut index: usize = 0;
        proof {
            lemma_continues_itself(self.history());
        }
        while index < statements.len()
            invariant
                index <= statements@.len(),
                views == statement_views(statements@),
                start == old(self).moment(),
                self.limit() == old(self).limit(),
                continues(self.history(), start.history),
                forall|script: Seq<Exchange>| #[trigger]
                    continues(script, self.history()) ==> execute_all(
                        views,
                        0,
                        start.memory,
                        script,
                        start.history.len() as int,
                        budget as nat,
                    ) == execute_all(
                        views,
                        index as int,
                        self.memory(),
                        script,
                        self.history().len() as int,
                        budget as nat,
                    ),
            decreases statements@.len() - index,
        {
            let ghost head = self.moment();
            match self.run_statement(&statements[index], budget) {
                Ok(_) => {
                    proof {
                        assert forall|script: Seq<Exchange>| #[trigger]
                            continues(script, self.history()) implies execute_all(
                            views,
                            0,
                            start.memory,
                            script,
                            start.history.len() as int,
                            budget as nat,
                        ) == execute_all(
                            views,
                            index as int + 1,
                            self.memory(),
                            script,
                            self.history().len() as int,
                            budget as nat,
                        ) by {
                            reveal(execute_all);
                            reveal(execute);
                            lemma_continues_is_transitive(script, self.history(), head.history);
                        }
                        lemma_continues_is_transitive(self.history(), head.history, start.history);
                    }
                },
                Err(error) => {
                    proof {
                        assert forall|script: Seq<Exchange>| #[trigger]
                            continues(script, self.history()) implies ends(
                            execute_all(
                                views,
                                0,
                                start.memory,
                                script,
                                start.history.len() as int,
                                budget as nat,
                            ),
                            Err(error@),
                            self.moment(),
                        ) by {
                            reveal(execute_all);
                            reveal(execute);
                            lemma_continues_is_transitive(script, self.history(), head.history);
                        }
                        lemma_continues_is_transitive(self.history(), head.history, start.history);
                    }
                    return Err(error);
                },
            }
            index += 1;
        }
        proof {
            reveal(execute_all);
        }
        Ok(())
    }

    /// Runs one statement.
    pub(super) fn run_statement(&mut self, statement: &Statement, budget: u64) -> (result: Result<
        (),
        Error,
    >)
        ensures
            final(self).limit() == old(self).limit(),
            executes(
                statement@,
                old(self).moment(),
                budget as nat,
                unit_view(result),
                final(self).moment(),
            ),
        decreases budget, 2int,
    {
        if budget == 0 {
            proof {
                reveal(execute);
                lemma_continues_itself(self.history());
            }
            return Err(limit_error());
        }
        match statement {
            Statement::Print(value) => self.run_print(value, budget),
            Statement::Variable(name, initializer) => self.run_variable(name, initializer, budget),
            Statement::Expression(value) => self.run_expression(value, budget),
            Statement::Block(statements) => {
                proof {
                    lemma_block_view(*statements);
                }
                self.run_block(statements, budget)
            },
            Statement::If(condition, then_branch, else_branch) => self.run_if(
                condition,
                then_branch,
                else_branch,
                budget,
            ),
            Statement::While(condition, body) => {
                let result = self.run_while(condition, body, budget - 1);
                proof {
                    reveal(execute);
                }
                result
            },
            Statement::For(initializer, condition, increment, body) => self.run_for(
                initializer,
                condition,
                increment,
                body,
                budget,
            ),
            Statement::Function(name, parameters, body) => {
                let function = Value::Callable(
                    Callable::Function(
                        name.clone(),
                        duplicate_names(parameters),
                        Box::new(body.duplicate()),
                    ),
                );
                self.environment.declare(name.clone(), function);
                proof {
                    reveal(execute);
                    lemma_continues_itself(self.history());
                }
                Ok(())
            },
            Statement::Return(value) => self.run_return(value, budget),
        }
    }

    /// Prints the value of an expression. The host shows the value, where
    /// it is a number, and prints the text.
    fn run_print(&mut self, value: &Expression, budget: u64) -> (result: Result<(), Error>)
        requires
            budget > 0,
        ensures
            final(self).limit() == old(self).limit(),
            executes(
                StatementView::Print(value@),
                old(self).moment(),
                budget as nat,
                unit_view(result),
                final(self).moment(),
            ),
        decreases budget, 0int,
    {
        let ghost start = self.moment();
        let ghost whole = StatementView::Print(value@);
        let printed = match self.evaluate(value, budget - 1) {
            Ok(value) => value,
            Err(error) => {
                proof {
                    reveal(execute);
                }
                return Err(error);
            },
        };
        let ghost middle = self.moment();
        let text = printed.to_text(&mut self.platform);
        let ghost shown = self.moment();
        let ghost line = text@;
        self.platform.print(text);
        proof {
            let print = Exchange::Printed { line };
            assert forall|script: Seq<Exchange>| #[trigger]
                continues(script, self.history()) implies ends(
                execute(whole, start.memory, script, start.history.len() as int, budget as nat),
                Ok(()),
                self.moment(),
            ) by {
                reveal(execute);
                lemma_continues_push(script, shown.history, print);
                match printed@ {
                    ValueView::Number(number) => {
                        let show = Exchange::Shown {
                            number,
                            decimals: value_decimals(number),
                            text: line,
                        };
                        lemma_continues_push(script, middle.history, show);
                    },
                    _ => {},
                }
            }
            lemma_continues_itself(self.history());
            lemma_continues_push(self.history(), shown.history, print);
            match printed@ {
                ValueView::Number(number) => {
                    let show = Exchange::Shown {
                        number,
                        decimals: value_decimals(number),
                        text: line,
                    };
                    lemma_continues_itself(shown.history);
                    lemma_continues_push(shown.history, middle.history, show);
                    lemma_continues_is_transitive(self.history(), shown.history, middle.history);
                },
                _ => {},
            }
            lemma_continues_is_transitive(self.history(), middle.history, start.history);
        }
        Ok(())
    }

    /// Declares a variable, with the value of its initializer or with `nil`.
    fn run_variable(&mut self, name: &String, initializer: &Option<Expression>, budget: u64) -> (result:
        Result<(), Error>)
        requires
            budget > 0,
        ensures
            final(self).limit() == old(self).limit(),
            executes(
                StatementView::Variable(name@, optional_expression_view(*initializer)),
                old(self).moment(),
                budget as nat,
                unit_view(result),
                final(self).moment(),
            ),
        decreases budget, 0int,
    {
        proof {
            reveal(execute);
        }
        match initializer {
            Some(expression) => {
                let value = match self.evaluate(expression, budget - 1) {
                    Ok(value) => value,
                    Err(error) => {
                        return Err(error);
                    },
                };
                self.environment.declare(name.clone(), value);
                Ok(())
            },
            None => {
                self.environment.declare(name.clone(), Value::Nil);
                proof {
                    lemma_continues_itself(self.history());
                }
                Ok(())
            },
        }
    }

    /// Evaluates an expression for what it does.
    fn run_expression(&mut self, value: &Expression, budget: u64) -> (result: Result<(), Error>)
        requires
            budget > 0,
        ensures
            final(self).limit() == old(self).limit(),
            executes(
                StatementView::Expression(value@),
                old(self).moment(),
                budget as nat,
                unit_view(result),
                final(self).moment(),
            ),
        decreases budget, 0int,
    {
        proof {
            reveal(execute);
        }
        match self.evaluate(value, budget - 1) {
            Ok(_) => Ok(()),
            Err(error) => Err(error),
        }
    }

    /// Runs the statements of a block in a scope of their own.
    fn run_block(&mut self, statements: &Vec<Statement>, budget: u64) -> (result: Result<
        (),
        Error,
    >)
        requires
            budget > 0,
        ensures
            final(self).limit() == old(self).limit(),
            executes(
                StatementView::Block(statement_views(statements@)),
                old(self).moment(),
                budget as nat,
                unit_view(result),
                final(self).moment(),
            ),
        decreases budget, 0int,
    {
        let ghost start = self.moment();
        let ghost whole = StatementView::Block(statement_views(statements@));
        self.environment.push_scope();
        let result = self.run_statements(statements, budget - 1);
        self.environment.pop_scope();
        proof {
            assert forall|script: Seq<Exchange>| #[trigger]
                continues(script, self.history()) implies ends(
                execute(whole, start.memory, script, start.history.len() as int, budget as nat),
                unit_view(result),
                self.moment(),
            ) by {
                reveal(execute);
                reveal(execute_all);
            }
        }
        result
    }

    /// Runs a statement in a scope of its own.
    pub(super) fn run_scoped(&mut self, statement: &Statement, budget: u64) -> (result: Result<(), Error>)
        ensures
            final(self).limit() == old(self).limit(),
            continues(final(self).history(), old(self).history()),
            forall|script: Seq<Exchange>| #[trigger]
                continues(script, final(self).history()) ==> ends(
                    closed(
                        execute(
                            statement@,
                            pushed(old(self).memory()),
                            script,
                            old(self).history().len() as int,
                            budget as nat,
                        ),
                    ),
                    unit_view(result),
                    final(self).moment(),
                ),
        decreases budget, 3int,
    {
        self.environment.push_scope();
        let result = self.run_statement(statement, budget);
        self.environment.pop_scope();
        result
    }

    /// Runs one of the two branches of an `if` statement, in a scope of its
    /// own.
    fn run_if(
        &mut self,
        condition: &Expression,
        then_branch: &Statement,
        else_branch: &Option<Box<Statement>>,
        budget: u64,
    ) -> (result: Result<(), Error>)
        requires
            budget > 0,
        ensures
            final(self).limit() == old(self).limit(),
            executes(
                Statement::If(*condition, Box::new(*then_branch), *else_branch)@,
                old(self).moment(),
                budget as nat,
                unit_view(result),
                final(self).moment(),
            ),
        decreases budget, 0int,
    {
        let ghost start = self.moment();
        let ghost whole = Statement::If(*condition, Box::new(*then_branch), *else_branch)@;
        let test = match self.evaluate(condition, budget - 1) {
            Ok(value) => value,
            Err(error) => {
                proof {
                    reveal(execute);
                }
                return Err(error);
            },
        };
        let ghost middle = self.moment();
        let result = if test.is_truthy() {
            self.run_scoped(then_branch, budget - 1)
        } else {
            match else_branch {
                Some(statement) => self.run_scoped(statement, budget - 1),
                None => {
                    proof {
                        lemma_continues_itself(self.history());
                    }
                    Ok(())
                },
            }
        };
        proof {
            assert forall|script: Seq<Exchange>| #[trigger]
                continues(script, self.history()) implies ends(
                execute(whole, start.memory, script, start.history.len() as int, budget as nat),
                unit_view(result),
                self.moment(),
            ) by {
                reveal(execute);
                lemma_continues_is_transitive(script, self.history(), middle.history);
            }
            lemma_continues_is_transitive(self.history(), middle.history, start.history);
        }
        result
    }

    /// Ends the call that the statement stands in with the value of an
    /// expression, or with `nil`.
    fn run_return(&mut self, value: &Option<Expression>, budget: u64) -> (result: Result<
        (),
        Error,
    >)
        requires
            budget > 0,
        ensures
            final(self).limit() == old(self).limit(),
            executes(
                StatementView::Return(optional_expression_view(*value)),
                old(self).moment(),
                budget as nat,
                unit_view(result),
                final(self).moment(),
            ),
        decreases budget, 0int,
    {
        proof {
            reveal(execute);
        }
        match value {
            Some(expression) => match self.evaluate(expression, budget - 1) {
                Ok(value) => Err(Error::Return(value)),
                Err(error) => Err(error),
            },
            None => {
                proof {
                    lemma_continues_itself(self.history());
                }
                Err(Error::Return(Value::Nil))
            },
        }
    }
}

} // verus!
