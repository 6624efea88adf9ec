//! Evaluating expressions.

use crate::environment::assigned;
use crate::expression::{
    BinaryOperation, Expression, ExpressionView, Literal, LiteralView, UnaryOperation,
};
use crate::host::{
    continues, lemma_continues_is_transitive, lemma_continues_itself, lemma_continues_push,
    Arithmetic, Exchange, Host,
};
use crate::interpreter::{ends, evaluates, limit_error, result_view, Interpreter};
use crate::number::Number;
use crate::semantics::{arithmetic_of, binary_result, call, comparison, evaluate, unary_result};
use crate::value::{Error, Value, ValueView};
use vstd::prelude::*;

verus! {

fn arithmetic(operation: BinaryOperation) -> (arithmetic: Option<Arithmetic>)
    ensures
        arithmetic == arithmetic_of(operation),
{
    match operation {
        BinaryOperation::Plus => Some(Arithmetic::Add),
        BinaryOperation::Minus => Some(Arithmetic::Subtract),
        BinaryOperation::Multiply => Some(Arithmetic::Multiply),
        BinaryOperation::Divide => Some(Arithmetic::Divide),
        _ => None,
    }
}

fn compare(operation: BinaryOperation, left: Number, right: Number) -> (holds: bool)
    ensures
        holds == comparison(operation, left, right),
{
    match operation {
        BinaryOperation::Greater => right.less_than(left),
        BinaryOperation::GreaterEqual => right.at_most(left),
        BinaryOperation::Less => left.less_than(right),
        _ => left.at_most(right),
    }
}

/// The result of a unary operation on a value.
pub fn apply_unary(operation: UnaryOperation, operand: Value) -> (result: Result<Value, Error>)
    ensures
        result_view(result) == unary_result(operation, operand@),
{
    match operation {
        UnaryOperation::Minus => match operand {
            Value::Number(number) => Ok(Value::Number(number.negated())),
            _ => Err(Error::Runtime(String::from_str("Operand must be a number."))),
        },
        UnaryOperation::Not => Ok(Value::Bool(!operand.is_truthy())),
    }
}

impl<H: Host> Interpreter<H> {
    /// The result of a binary operation on two values. The host computes
    /// what the four arithmetic operations give.
    pub(super) fn apply_binary(&mut self, operation: BinaryOperation, left: Value, right: Value)
        -> (result: Result<Value, Error>)
        ensures
            final(self).limit() == old(self).limit(),
            final(self).memory() == old(self).memory(),
            continues(final(self).history(), old(self).history()),
            forall|script: Seq<Exchange>| #[trigger]
                continues(script, final(self).history()) ==> ends(
                    binary_result(
                        operation,
                        left@,
                        right@,
                        old(self).memory(),
                        script,
                        old(self).history().len() as int,
                    ),
                    result_view(result),
                    final(self).moment(),
                ),
    {
        match operation {
            BinaryOperation::Equal => Ok(Value::Bool(left.is_equal(&right))),
            BinaryOperation::NotEqual => Ok(Value::Bool(!left.is_equal(&right))),
            _ => match (left, right) {
                (Value::Number(first), Value::Number(second)) => match arithmetic(operation) {
                    Some(asked) => {
                        let ghost before = self.history();
                        let computed = self.platform.compute(asked, first, second);
                        proof {
                            let exchange = Exchange::Computed {
                                operation: asked,
                                left: first,
                                right: second,
                                result: computed,
                            };
                            assert forall|script: Seq<Exchange>| #[trigger]
                                continues(script, self.history()) implies ends(
                                binary_result(
                                    operation,
                                    left@,
                                    right@,
                                    old(self).memory(),
                                    script,
                                    old(self).history().len() as int,
                                ),
                                Ok(ValueView::Number(computed)),
                                self.moment(),
                            ) by {
                                lemma_continues_push(script, before, exchange);
                            }
                            lemma_continues_itself(self.history());
                            lemma_continues_push(self.history(), before, exchange);
                        }
                        Ok(Value::Number(computed))
                    },
                    None => Ok(Value::Bool(compare(operation, first, second))),
                },
                (Value::String(first), Value::String(second)) => {
                    if operation == BinaryOperation::Plus {
                        Ok(Value::String(first.concat(second.as_str())))
                    } else {
                        Err(Error::Runtime(String::from_str("Operands must be a numbers.")))
                    }
                },
                _ => Err(Error::Runtime(String::from_str("Operands must be a numbers."))),
            },
        }
    }

    /// Evaluates an expression.
    pub(super) fn evaluate(&mut self, expression: &Expression, budget: u64) -> (result: Result<
        Value,
        Error,
    >)
        ensures
            final(self).limit() == old(self).limit(),
            evaluates(
                expression@,
                old(self).moment(),
                budget as nat,
                result_view(result),
                final(self).moment(),
            ),
        decreases budget, 1int,
    {
        if budget == 0 {
            proof {
                reveal(evaluate);
                lemma_continues_itself(self.history());
            }
            return Err(limit_error());
        }
        match expression {
            Expression::Literal(literal) => self.evaluate_literal(literal, budget),
            Expression::Grouping(inner) => {
                let result = self.evaluate(inner, budget - 1);
                proof {
                    reveal(evaluate);
                }
                result
            },
            Expression::Unary(operation, operand) => self.evaluate_unary(
                *operation,
                operand,
                budget,
            ),
            Expression::Binary(operation, left, right) => self.evaluate_binary(
                *operation,
                left,
                right,
                budget,
            ),
            Expression::Variable(name) => self.evaluate_variable(name, budget),
            Expression::Assign(name, value) => self.evaluate_assign(name, value, budget),
            Expression::And(left, right) => self.evaluate_logical(true, left, right, budget),
            Expression::Or(left, right) => self.evaluate_logical(false, left, right, budget),
            Expression::Call(callee, arguments) => self.evaluate_call(callee, arguments, budget),
        }
    }

    fn evaluate_literal(&mut self, literal: &Literal, budget: u64) -> (result: Result<
        Value,
        Error,
    >)
        requires
            budget > 0,
        ensures
            final(self).limit() == old(self).limit(),
            evaluates(
                ExpressionView::Literal(literal@),
                old(self).moment(),
                budget as nat,
                result_view(result),
                final(self).moment(),
            ),
    {
        let ghost before = self.history();
        let value = Value::from_literal(literal, &mut self.platform);
        proof {
            reveal(evaluate);
            lemma_continues_itself(self.history());
            match literal@ {
                LiteralView::Number(numeral) => {
                    let exchange = Exchange::Read { numeral, number: value@->Number_0 };
                    lemma_continues_push(self.history(), before, exchange);
                    assert forall|script: Seq<Exchange>| #[trigger]
                        continues(script, self.history()) implies ends(
                        evaluate(
                            ExpressionView::Literal(literal@),
                            old(self).memory(),
                            script,
                            before.len() as int,
                            budget as nat,
                        ),
                        Ok(value@),
                        self.moment(),
                    ) by {
                        lemma_continues_push(script, before, exchange);
                    }
                },
                _ => {},
            }
        }
        Ok(value)
    }

    fn evaluate_variable(&mut self, name: &String, budget: u64) -> (result: Result<Value, Error>)
        requires
            budget > 0,
        ensures
            final(self).limit() == old(self).limit(),
            evaluates(
                ExpressionView::Variable(name@),
                old(self).moment(),
                budget as nat,
                result_view(result),
                final(self).moment(),
            ),
    {
        let result = self.environment.get(name.as_str());
        proof {
            reveal(evaluate);
            lemma_continues_itself(self.history());
        }
        result
    }

    fn evaluate_unary(&mut self, operation: UnaryOperation, operand: &Expression, budget: u64)
        -> (result: Result<Value, Error>)
        requires
            budget > 0,
        ensures
            final(self).limit() == old(self).limit(),
            evaluates(
                ExpressionView::Unary(operation, Box::new(operand@)),
                old(self).moment(),
                budget as nat,
                result_view(result),
                final(self).moment(),
            ),
        decreases budget, 0int,
    {
        proof {
            reveal(evaluate);
        }
        match self.evaluate(operand, budget - 1) {
            Ok(value) => apply_unary(operation, value),
            Err(error) => Err(error),
        }
    }

    fn evaluate_binary(
        &mut self,
        operation: BinaryOperation,
        left: &Expression,
        right: &Expression,
        budget: u64,
    ) -> (result: Result<Value, Error>)
        requires
            budget > 0,
        ensures
            final(self).limit() == old(self).limit(),
            evaluates(
                ExpressionView::Binary(operation, Box::new(left@), Box::new(right@)),
                old(self).moment(),
                budget as nat,
                result_view(result),
                final(self).moment(),
            ),
        decreases budget, 0int,
    {
        let ghost start = self.moment();
        let ghost whole = ExpressionView::Binary(operation, Box::new(left@), Box::new(right@));
        let first = match self.evaluate(left, budget - 1) {
            Ok(value) => value,
            Err(error) => {
                proof {
                    reveal(evaluate);
                }
                return Err(error);
            },
        };
        let ghost middle = self.moment();
        let second = match self.evaluate(right, budget - 1) {
            Ok(value) => value,
            Err(error) => {
                proof {
                    assert forall|script: Seq<Exchange>| #[trigger]
                        continues(script, self.history()) implies ends(
                        evaluate(
                            whole,
                            start.memory,
                            script,
                            start.history.len() as int,
                            budget as nat,
                        ),
                        Err(error@),
                        self.moment(),
                    ) by {
                        reveal(evaluate);
                        lemma_continues_is_transitive(script, self.history(), middle.history);
                    }
                    lemma_continues_is_transitive(self.history(), middle.history, start.history);
                }
                return Err(error);
            },
        };
        let ghost late = self.moment();
        let result = self.apply_binary(operation, first, second);
        proof {
            assert forall|script: Seq<Exchange>| #[trigger]
                continues(script, self.history()) implies ends(
                evaluate(whole, start.memory, script, start.history.len() as int, budget as nat),
                result_view(result),
                self.moment(),
            ) by {
                reveal(evaluate);
                lemma_continues_is_transitive(script, self.history(), late.history);
                lemma_continues_is_transitive(script, late.history, middle.history);
            }
            lemma_continues_is_transitive(self.history(), late.history, middle.history);
            lemma_continues_is_transitive(self.history(), middle.history, start.history);
        }
        result
    }

    fn evaluate_assign(&mut self, name: &String, value: &Expression, budget: u64) -> (result:
        Result<Value, Error>)
        requires
            budget > 0,
        ensures
            final(self).limit() == old(self).limit(),
            evaluates(
                ExpressionView::Assign(name@, Box::new(value@)),
                old(self).moment(),
                budget as nat,
                result_view(result),
                final(self).moment(),
            ),
        decreases budget, 0int,
    {
        proof {
            reveal(evaluate);
        }
        let assigned = match self.evaluate(value, budget - 1) {
            Ok(value) => value,
            Err(error) => {
                return Err(error);
            },
        };
        match self.environment.assign(name.clone(), assigned.clone()) {
            Ok(_) => Ok(assigned),
            Err(error) => Err(error),
        }
    }

    /// Evaluates `left and right` (where `conjunction` holds) or
    /// `left or right`: the right side is evaluated only where the left
    /// side does not decide, and the result is the value of the side that
    /// decided.
    fn evaluate_logical(
        &mut self,
        conjunction: bool,
        left: &Expression,
        right: &Expression,
        budget: u64,
    ) -> (result: Result<Value, Error>)
        requires
            budget > 0,
        ensures
            final(self).limit() == old(self).limit(),
            evaluates(
                if conjunction {
                    ExpressionView::And(Box::new(left@), Box::new(right@))
                } else {
                    ExpressionView::Or(Box::new(left@), Box::new(right@))
                },
                old(self).moment(),
                budget as nat,
                result_view(result),
                final(self).moment(),
            ),
        decreases budget, 0int,
    {
        let ghost start = self.moment();
        let ghost whole = if conjunction {
            ExpressionView::And(Box::new(left@), Box::new(right@))
        } else {
            ExpressionView::Or(Box::new(left@), Box::new(right@))
        };
        let first = match self.evaluate(left, budget - 1) {
            Ok(value) => value,
            Err(error) => {
                proof {
                    reveal(evaluate);
                }
                return Err(error);
            },
        };
        if first.is_truthy() != conjunction {
            proof {
                reveal(evaluate);
            }
            return Ok(first);
        }
        let ghost middle = self.moment();
        let result = self.evaluate(right, budget - 1);
        proof {
            assert forall|script: Seq<Exchange>| #[trigger]
                continues(script, self.history()) implies ends(
                evaluate(whole, start.memory, script, start.history.len() as int, budget as nat),
                result_view(result),
                self.moment(),
            ) by {
                reveal(evaluate);
                lemma_continues_is_transitive(script, self.history(), middle.history);
            }
            lemma_continues_is_transitive(self.history(), middle.history, start.history);
        }
        result
    }

    fn evaluate_call(&mut self, callee: &Expression, arguments: &Vec<Expression>, budget: u64)
        -> (result: Result<Value, Error>)
        requires
            budget > 0,
        ensures
            final(self).limit() == old(self).limit(),
            evaluates(
                Expression::Call(Box::new(*callee), *arguments)@,
                old(self).moment(),
                budget as nat,
                result_view(result),
                final(self).moment(),
            ),
        decreases budget, 0int,
    {
        let ghost start = self.moment();
        let ghost whole = Expression::Call(Box::new(*callee), *arguments)@;
        proof {
            crate::expression::lemma_call_view(Box::new(*callee), *arguments);
        }
        let called = match self.evaluate(callee, budget - 1) {
            Ok(value) => value,
            Err(error) => {
                proof {
                    reveal(evaluate);
                }
                return Err(error);
            },
        };
        let ghost middle = self.moment();
        let result = self.call(called, arguments, budget - 1);
        proof {
            assert forall|script: Seq<Exchange>| #[trigger]
                continues(script, self.history()) implies ends(
                evaluate(whole, start.memory, script, start.history.len() as int, budget as nat),
                result_view(result),
                self.moment(),
            ) by {
                reveal(evaluate);
                lemma_continues_is_transitive(script, self.history(), middle.history);
            }
            lemma_continues_is_transitive(self.history(), middle.history, start.history);
        }
        result
    }
}

} // verus!
