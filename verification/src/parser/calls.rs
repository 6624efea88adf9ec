//! Calls and primary expressions.

use crate::expression::{expression_views, lemma_call_view, Expression, ExpressionView, Literal};
use crate::grammar::{arguments, call, call_rest, expression, finish_call, primary};
use crate::parser::{
    arguments_outcome, expression_expected, expression_outcome, message_at, Parser,
};
use crate::token::{Kind, TokenType};
use vstd::prelude::*;

verus! {

impl Parser {
    #[verifier::spinoff_prover]
    pub(super) fn parse_call(&mut self) -> (result: Result<Expression, String>)
        ensures
            final(self).tokens() == old(self).tokens(),
            old(self).position() <= final(self).position() <= old(self).tokens().len(),
            result is Ok ==> old(self).position() < final(self).position(),
            expression_outcome(
                result,
                final(self).position(),
                call(old(self).tokens(), old(self).position()),
            ),
        decreases old(self).tokens().len() - old(self).position(), 110int,
    {
        proof {
            reveal(call);
            reveal(call_rest);
            reveal(primary);
            reveal(finish_call);
        }
        let ghost tokens = self.tokens();
        let ghost start = self.position();
        let mut callee = self.parse_primary()?;
        while self.check(Kind::LeftParen)
            invariant
                self.tokens() == tokens,
                tokens == old(self).tokens(),
                start == old(self).position(),
                start < self.position() <= tokens.len(),
                call(tokens, start) == call_rest(tokens, self.position(), callee@),
            decreases tokens.len() - self.position(),
        {
            proof {
                reveal(call_rest);
                reveal(finish_call);
            }
            self.advance();
            let list = self.finish_call()?;
            proof {
                lemma_call_view(Box::new(callee), list);
            }
            callee = Expression::Call(Box::new(callee), list);
        }
        Ok(callee)
    }

    /// Parses the arguments of a call and its closing parenthesis, from
    /// behind the opening one.
    #[verifier::spinoff_prover]
    pub(super) fn finish_call(&mut self) -> (result: Result<Vec<Expression>, String>)
        ensures
            final(self).tokens() == old(self).tokens(),
            old(self).position() <= final(self).position() <= old(self).tokens().len(),
            arguments_outcome(
                result,
                final(self).position(),
                finish_call(old(self).tokens(), old(self).position()),
            ),
        decreases old(self).tokens().len() - old(self).position(), 260int,
    {
        proof {
            reveal(finish_call);
            reveal(arguments);
            reveal(expression);
        }
        let ghost tokens = self.tokens();
        let ghost start = self.position();
        let mut list: Vec<Expression> = Vec::new();
        proof {
            use_type_invariant(&*self);
            assert(expression_views(list@) =~= Seq::<ExpressionView>::empty());
        }
        if self.check(Kind::RightParen) {
            self.advance();
            return Ok(list);
        }
        loop
            invariant
                self.tokens() == tokens,
                tokens == old(self).tokens(),
                start == old(self).position(),
                start <= self.position() <= tokens.len(),
                finish_call(tokens, start) == arguments(
                    tokens,
                    self.position(),
                    expression_views(list@),
                ),
            decreases tokens.len() - self.position(),
        {
            proof {
                reveal(arguments);
                reveal(expression);
            }
            if list.len() >= 255 {
                return Err(
                    message_at(self.current().line, "Can't have more than 255 arguments."),
                );
            }
            let ghost before = list@;
            let argument = self.parse_expression()?;
            list.push(argument);
            proof {
                assert(expression_views(list@) =~= expression_views(before).push(argument@));
            }
            if self.check(Kind::Comma) {
                self.advance();
            } else {
                self.expect(Kind::RightParen, "Expect ')' after arguments.")?;
                return Ok(list);
            }
        }
    }

    #[verifier::spinoff_prover]
    pub(super) fn parse_primary(&mut self) -> (result: Result<Expression, String>)
        ensures
            final(self).tokens() == old(self).tokens(),
            old(self).position() <= final(self).position() <= old(self).tokens().len(),
            result is Ok ==> old(self).position() < final(self).position(),
            expression_outcome(
                result,
                final(self).position(),
                primary(old(self).tokens(), old(self).position()),
            ),
        decreases old(self).tokens().len() - old(self).position(), 100int,
    {
        proof {
            reveal(primary);
            reveal(expression);
        }
        proof {
            use_type_invariant(&*self);
        }
        let token = self.consume();
        match token.token {
            TokenType::True => Ok(Expression::Literal(Literal::Bool(true))),
            TokenType::False => Ok(Expression::Literal(Literal::Bool(false))),
            TokenType::Number(numeral) => Ok(Expression::Literal(Literal::Number(numeral))),
            TokenType::String(text) => Ok(Expression::Literal(Literal::String(text))),
            TokenType::Nil => Ok(Expression::Literal(Literal::Nil)),
            TokenType::Identifier(name) => Ok(Expression::Variable(name)),
            TokenType::LeftParen => {
                let inner = self.parse_expression()?;
                if !self.check(Kind::RightParen) {
                    return Err(expression_expected(self.current()));
                }
                self.advance();
                Ok(Expression::Grouping(Box::new(inner)))
            },
            _ => Err(expression_expected(&token)),
        }
    }
}

} // verus!
