//! Expressions made with operators, from assignment down to unary.

use crate::expression::{Expression, ExpressionView, UnaryOperation};
use crate::grammar::{
    assignment, assignment_rest, binary, binary_rest, call, expression, level_rank, logical_and,
    logical_and_rest, logical_or, logical_or_rest, operand, unary, Level, Parsed,
};
use crate::parser::{expression_outcome, operation_at, Parser};
use crate::token::Kind;
use vstd::prelude::*;

verus! {

impl Parser {
    #[verifier::spinoff_prover]
    pub(super) fn parse_assignment(&mut self) -> (result: Result<Expression, String>)
        ensures
            final(self).tokens() == old(self).tokens(),
            old(self).position() <= final(self).position() <= old(self).tokens().len(),
            result is Ok ==> old(self).position() < final(self).position(),
            expression_outcome(
                result,
                final(self).position(),
                assignment(old(self).tokens(), old(self).position()),
            ),
        decreases old(self).tokens().len() - old(self).position(), 190int,
    {
        proof {
            reveal(assignment);
            reveal(assignment_rest);
            reveal(logical_or);
            reveal(expression);
        }
        let ghost tokens = self.tokens();
        let ghost start = self.position();
        let mut target = self.parse_or()?;
        while self.check(Kind::Equal)
            invariant
                self.tokens() == tokens,
                tokens == old(self).tokens(),
                start == old(self).position(),
                start < self.position() <= tokens.len(),
                assignment(tokens, start) == assignment_rest(tokens, self.position(), target@),
            decreases tokens.len() - self.position(),
        {
            proof {
                reveal(assignment_rest);
                reveal(expression);
            }
            self.advance();
            target = match target {
                Expression::Variable(name) => {
                    let value = self.parse_expression()?;
                    Expression::Assign(name, Box::new(value))
                },
                _ => {
                    return Err(String::from_str("Invalid assignment target."));
                },
            };
        }
        Ok(target)
    }

    #[verifier::spinoff_prover]
    pub(super) fn parse_or(&mut self) -> (result: Result<Expression, String>)
        ensures
            final(self).tokens() == old(self).tokens(),
            old(self).position() <= final(self).position() <= old(self).tokens().len(),
            result is Ok ==> old(self).position() < final(self).position(),
            expression_outcome(
                result,
                final(self).position(),
                logical_or(old(self).tokens(), old(self).position()),
            ),
        decreases old(self).tokens().len() - old(self).position(), 180int,
    {
        proof {
            reveal(logical_or);
            reveal(logical_or_rest);
            reveal(logical_and);
        }
        let ghost tokens = self.tokens();
        let ghost start = self.position();
        let mut left = self.parse_and()?;
        while self.check(Kind::Or)
            invariant
                self.tokens() == tokens,
                tokens == old(self).tokens(),
                start == old(self).position(),
                start < self.position() <= tokens.len(),
                logical_or(tokens, start) == logical_or_rest(tokens, self.position(), left@),
            decreases tokens.len() - self.position(),
        {
            proof {
                reveal(logical_or_rest);
                reveal(logical_and);
            }
            let ghost at = self.position();
            let ghost before = left@;
            self.advance();
            match self.parse_and() {
                Ok(right) => {
                    left = Expression::Or(Box::new(left), Box::new(right));
                    assert(left@ == ExpressionView::Or(Box::new(before), Box::new(right@)));
                    assert(logical_or_rest(tokens, at, before) == logical_or_rest(
                        tokens,
                        self.position(),
                        left@,
                    ));
                },
                Err(message) => {
                    assert(logical_or_rest(tokens, at, before) == Parsed::<
                        ExpressionView,
                    >::Rejected { message: message@ });
                    return Err(message);
                },
            }
        }
        Ok(left)
    }

    #[verifier::spinoff_prover]
    pub(super) fn parse_and(&mut self) -> (result: Result<Expression, String>)
        ensures
            final(self).tokens() == old(self).tokens(),
            old(self).position() <= final(self).position() <= old(self).tokens().len(),
            result is Ok ==> old(self).position() < final(self).position(),
            expression_outcome(
                result,
                final(self).position(),
                logical_and(old(self).tokens(), old(self).position()),
            ),
        decreases old(self).tokens().len() - old(self).position(), 170int,
    {
        proof {
            reveal(logical_and);
            reveal(logical_and_rest);
            reveal(binary);
        }
        let ghost tokens = self.tokens();
        let ghost start = self.position();
        let mut left = self.parse_equality()?;
        while self.check(Kind::And)
            invariant
                self.tokens() == tokens,
                tokens == old(self).tokens(),
                start == old(self).position(),
                start < self.position() <= tokens.len(),
                logical_and(tokens, start) == logical_and_rest(tokens, self.position(), left@),
            decreases tokens.len() - self.position(),
        {
            proof {
                reveal(logical_and_rest);
                reveal(binary);
            }
            self.advance();
            let right = self.parse_equality()?;
            left = Expression::And(Box::new(left), Box::new(right));
        }
        Ok(left)
    }

    pub(super) fn parse_equality(&mut self) -> (result: Result<Expression, String>)
        ensures
            final(self).tokens() == old(self).tokens(),
            old(self).position() <= final(self).position() <= old(self).tokens().len(),
            result is Ok ==> old(self).position() < final(self).position(),
            expression_outcome(
                result,
                final(self).position(),
                binary(old(self).tokens(), old(self).position(), Level::Equality),
            ),
        decreases old(self).tokens().len() - old(self).position(), 160int, 1int,
    {
        self.parse_binary(Level::Equality)
    }

    pub(super) fn parse_comparison(&mut self) -> (result: Result<Expression, String>)
        ensures
            final(self).tokens() == old(self).tokens(),
            old(self).position() <= final(self).position() <= old(self).tokens().len(),
            result is Ok ==> old(self).position() < final(self).position(),
            expression_outcome(
                result,
                final(self).position(),
                binary(old(self).tokens(), old(self).position(), Level::Comparison),
            ),
        decreases old(self).tokens().len() - old(self).position(), 150int, 1int,
    {
        self.parse_binary(Level::Comparison)
    }

    pub(super) fn parse_term(&mut self) -> (result: Result<Expression, String>)
        ensures
            final(self).tokens() == old(self).tokens(),
            old(self).position() <= final(self).position() <= old(self).tokens().len(),
            result is Ok ==> old(self).position() < final(self).position(),
            expression_outcome(
                result,
                final(self).position(),
                binary(old(self).tokens(), old(self).position(), Level::Term),
            ),
        decreases old(self).tokens().len() - old(self).position(), 140int, 1int,
    {
        self.parse_binary(Level::Term)
    }

    pub(super) fn parse_factor(&mut self) -> (result: Result<Expression, String>)
        ensures
            final(self).tokens() == old(self).tokens(),
            old(self).position() <= final(self).position() <= old(self).tokens().len(),
            result is Ok ==> old(self).position() < final(self).position(),
            expression_outcome(
                result,
                final(self).position(),
                binary(old(self).tokens(), old(self).position(), Level::Factor),
            ),
        decreases old(self).tokens().len() - old(self).position(), 130int, 1int,
    {
        self.parse_binary(Level::Factor)
    }

    /// Parses an operand of a level of binary operators.
    pub(super) fn parse_operand(&mut self, level: Level) -> (result: Result<Expression, String>)
        ensures
            final(self).tokens() == old(self).tokens(),
            old(self).position() <= final(self).position() <= old(self).tokens().len(),
            result is Ok ==> old(self).position() < final(self).position(),
            expression_outcome(
                result,
                final(self).position(),
                operand(old(self).tokens(), old(self).position(), level),
            ),
        decreases old(self).tokens().len() - old(self).position(), level_rank(level) - 7, 0int,
    {
        proof {
            reveal(operand);
            reveal(binary);
            reveal(unary);
        }
        match level {
            Level::Equality => self.parse_comparison(),
            Level::Comparison => self.parse_term(),
            Level::Term => self.parse_factor(),
            Level::Factor => self.parse_unary(),
        }
    }

    /// Parses the operands and operators of one level, grouping from the left.
    #[verifier::spinoff_prover]
    pub(super) fn parse_binary(&mut self, level: Level) -> (result: Result<Expression, String>)
        ensures
            final(self).tokens() == old(self).tokens(),
            old(self).position() <= final(self).position() <= old(self).tokens().len(),
            result is Ok ==> old(self).position() < final(self).position(),
            expression_outcome(
                result,
                final(self).position(),
                binary(old(self).tokens(), old(self).position(), level),
            ),
        decreases old(self).tokens().len() - old(self).position(), level_rank(level), 0int,
    {
        proof {
            reveal(binary);
            reveal(binary_rest);
            reveal(operand);
        }
        let ghost tokens = self.tokens();
        let ghost start = self.position();
        let mut left = self.parse_operand(level)?;
        loop
            invariant
                self.tokens() == tokens,
                tokens == old(self).tokens(),
                start == old(self).position(),
                start < self.position() <= tokens.len(),
                binary(tokens, start, level) == binary_rest(tokens, self.position(), level, left@),
            decreases tokens.len() - self.position(),
        {
            proof {
                reveal(binary_rest);
                reveal(operand);
            }
            let operation = match operation_at(level, self.current().token.kind()) {
                Some(operation) => operation,
                None => {
                    return Ok(left);
                },
            };
            self.advance();
            let right = self.parse_operand(level)?;
            left = Expression::Binary(operation, Box::new(left), Box::new(right));
        }
    }

    pub(super) fn parse_unary(&mut self) -> (result: Result<Expression, String>)
        ensures
            final(self).tokens() == old(self).tokens(),
            old(self).position() <= final(self).position() <= old(self).tokens().len(),
            result is Ok ==> old(self).position() < final(self).position(),
            expression_outcome(
                result,
                final(self).position(),
                unary(old(self).tokens(), old(self).position()),
            ),
        decreases old(self).tokens().len() - old(self).position(), 120int,
    {
        proof {
            reveal(unary);
            reveal(call);
        }
        proof {
            use_type_invariant(&*self);
        }
        if self.check(Kind::Minus) {
            self.advance();
            let operand = self.parse_unary()?;
            Ok(Expression::Unary(UnaryOperation::Minus, Box::new(operand)))
        } else if self.check(Kind::Bang) {
            self.advance();
            let operand = self.parse_unary()?;
            Ok(Expression::Unary(UnaryOperation::Not, Box::new(operand)))
        } else {
            self.parse_call()
        }
    }
}

} // verus!
