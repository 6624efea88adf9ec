//! Declarations of functions and variables.

use crate::expression::Expression;
use crate::grammar::{
    declaration, expression, function_declaration, parameters, statement, variable_declaration,
};
use crate::parser::{message_at, names_outcome, statement_outcome, Parser};
use crate::statement::{name_views, Statement};
use crate::token::{Kind, TokenType};
use vstd::prelude::*;

verus! {

impl Parser {
    pub(super) fn parse_declaration(&mut self) -> (result: Result<Statement, String>)
        ensures
            final(self).tokens() == old(self).tokens(),
            old(self).position() <= final(self).position() <= old(self).tokens().len(),
            result is Ok ==> old(self).position() < final(self).position(),
            statement_outcome(
                result,
                final(self).position(),
                declaration(old(self).tokens(), old(self).position()),
            ),
        decreases old(self).tokens().len() - old(self).position(), 300int,
    {
        proof {
            reveal(declaration);
            reveal(function_declaration);
            reveal(variable_declaration);
        }
        proof {
            use_type_invariant(&*self);
        }
        if self.check(Kind::Fun) {
            self.advance();
            self.parse_function_declaration()
        } else {
            self.parse_variable_declaration()
        }
    }

    /// Parses a function declaration from behind `fun`.
    #[verifier::spinoff_prover]
    pub(super) fn parse_function_declaration(&mut self) -> (result: Result<Statement, String>)
        ensures
            final(self).tokens() == old(self).tokens(),
            old(self).position() <= final(self).position() <= old(self).tokens().len(),
            result is Ok ==> old(self).position() < final(self).position(),
            statement_outcome(
                result,
                final(self).position(),
                function_declaration(old(self).tokens(), old(self).position()),
            ),
        decreases old(self).tokens().len() - old(self).position(), 295int,
    {
        proof {
            reveal(function_declaration);
            reveal(parameters);
            reveal(statement);
        }
        proof {
            use_type_invariant(&*self);
        }
        let token = self.consume();
        let name = match token.token {
            TokenType::Identifier(name) => name,
            _ => {
                return Err(message_at(self.current().line, "Expect function name."));
            },
        };
        self.expect(Kind::LeftParen, "Expect '(' after function name.")?;
        let names = if !self.check(Kind::RightParen) {
            self.parse_parameters()?
        } else {
            let names: Vec<String> = Vec::new();
            proof {
                assert(name_views(names@) =~= Seq::<Seq<char>>::empty());
            }
            names
        };
        self.expect(Kind::RightParen, "Expect ')' after parameters.")?;
        let body = self.parse_statement()?;
        Ok(Statement::Function(name, names, Box::new(body)))
    }

    /// Parses the parameter names of a function declaration.
    #[verifier::spinoff_prover]
    pub(super) fn parse_parameters(&mut self) -> (result: Result<Vec<String>, String>)
        ensures
            final(self).tokens() == old(self).tokens(),
            old(self).position() <= final(self).position() <= old(self).tokens().len(),
            names_outcome(
                result,
                final(self).position(),
                parameters(old(self).tokens(), old(self).position(), Seq::empty()),
            ),
    {
        proof {
            reveal(parameters);
        }
        let ghost tokens = self.tokens();
        let ghost start = self.position();
        let mut names: Vec<String> = Vec::new();
        proof {
            use_type_invariant(&*self);
            assert(name_views(names@) =~= Seq::<Seq<char>>::empty());
        }
        loop
            invariant
                self.tokens() == tokens,
                tokens == old(self).tokens(),
                start == old(self).position(),
                start <= self.position() <= tokens.len(),
                parameters(tokens, start, Seq::empty()) == parameters(
                    tokens,
                    self.position(),
                    name_views(names@),
                ),
            decreases tokens.len() - self.position(),
        {
            proof {
                reveal(parameters);
            }
            if names.len() >= 255 {
                return Err(
                    message_at(self.current().line, "Can't have more than 255 parameters."),
                );
            }
            let token = self.consume();
            let name = match token.token {
                TokenType::Identifier(name) => name,
                _ => {
                    return Err(message_at(self.current().line, "Expect parameter name."));
                },
            };
            let ghost before = names@;
            names.push(name);
            proof {
                use_type_invariant(&*self);
                assert(name_views(names@) =~= name_views(before).push(name@));
            }
            if self.check(Kind::Comma) {
                self.advance();
            } else {
                return Ok(names);
            }
        }
    }

    #[verifier::spinoff_prover]
    pub(super) fn parse_variable_declaration(&mut self) -> (result: Result<Statement, String>)
        ensures
            final(self).tokens() == old(self).tokens(),
            old(self).position() <= final(self).position() <= old(self).tokens().len(),
            result is Ok ==> old(self).position() < final(self).position(),
            statement_outcome(
                result,
                final(self).position(),
                variable_declaration(old(self).tokens(), old(self).position()),
            ),
        decreases old(self).tokens().len() - old(self).position(), 290int,
    {
        proof {
            reveal(variable_declaration);
            reveal(expression);
            reveal(statement);
        }
        proof {
            use_type_invariant(&*self);
        }
        if self.check(Kind::Var) {
            self.advance();
            let token = self.consume();
            let name = match token.token {
                TokenType::Identifier(name) => name,
                _ => {
                    return Err(message_at(token.line, "Expect variable name."));
                },
            };
            let mut initializer: Option<Expression> = None;
            if self.check(Kind::Equal) {
                self.advance();
                initializer = Some(self.parse_expression()?);
            }
            self.expect(Kind::Semicolon, "Expect ';' after value.")?;
            Ok(Statement::Variable(name, initializer))
        } else {
            self.parse_statement()
        }
    }
}

} // verus!
