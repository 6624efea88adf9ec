//! Statements.

use crate::expression::Expression;
use crate::grammar::{
    block, condition, declaration, expression, expression_statement, for_initializer,
    for_statement, optional_clause, statement, variable_declaration,
};
use crate::parser::{clause_outcome, expression_outcome, statement_outcome, Parser};
use crate::statement::{lemma_block_view, statement_views, Statement, StatementView};
use crate::token::Kind;
use vstd::prelude::*;

verus! {

impl Parser {
    #[verifier::spinoff_prover]
    pub(super) fn parse_statement(&mut self) -> (result: Result<Statement, String>)
        ensures
            final(self).tokens() == old(self).tokens(),
            old(self).position() <= final(self).position() <= old(self).tokens().len(),
            result is Ok ==> old(self).position() < final(self).position(),
            statement_outcome(
                result,
                final(self).position(),
                statement(old(self).tokens(), old(self).position()),
            ),
        decreases old(self).tokens().len() - old(self).position(), 280int,
    {
        proof {
            reveal(statement);
            reveal(expression);
            reveal(optional_clause);
            reveal(block);
            reveal(condition);
            reveal(for_statement);
            reveal(expression_statement);
        }
        proof {
            use_type_invariant(&*self);
        }
        if self.check(Kind::Print) {
            self.advance();
            let value = self.parse_expression()?;
            self.expect(Kind::Semicolon, "Expect ';' after expression.")?;
            Ok(Statement::Print(value))
        } else if self.check(Kind::Return) {
            self.advance();
            let value = self.parse_optional_clause(
                Kind::Semicolon,
                "Expect ';' after return value.",
            )?;
            Ok(Statement::Return(value))
        } else if self.check(Kind::LeftBrace) {
            self.advance();
            self.parse_block()
        } else if self.check(Kind::If) {
            self.advance();
            let test = self.parse_condition(
                "Expect '(' after 'if'.",
                "Expect ')' after if condition.",
            )?;
            let then_branch = self.parse_statement()?;
            let mut else_branch: Option<Box<Statement>> = None;
            if self.check(Kind::Else) {
                self.advance();
                else_branch = Some(Box::new(self.parse_statement()?));
            }
            Ok(Statement::If(test, Box::new(then_branch), else_branch))
        } else if self.check(Kind::While) {
            self.advance();
            let test = self.parse_condition(
                "Expect '(' after 'while'.",
                "Expect ')' after condition.",
            )?;
            let body = self.parse_statement()?;
            Ok(Statement::While(test, Box::new(body)))
        } else if self.check(Kind::For) {
            self.advance();
            self.parse_for()
        } else {
            self.parse_expression_statement()
        }
    }

    /// Parses an expression that ends at a token of the kind `closing`, or
    /// nothing where that token stands right away; then passes that token.
    pub(super) fn parse_optional_clause(&mut self, closing: Kind, text: &str) -> (result: Result<
        Option<Expression>,
        String,
    >)
        ensures
            final(self).tokens() == old(self).tokens(),
            old(self).position() <= final(self).position() <= old(self).tokens().len(),
            clause_outcome(
                result,
                final(self).position(),
                optional_clause(old(self).tokens(), old(self).position(), closing, text@),
            ),
        decreases old(self).tokens().len() - old(self).position(), 270int,
    {
        proof {
            reveal(optional_clause);
            reveal(expression);
        }
        proof {
            use_type_invariant(&*self);
        }
        if self.check(closing) {
            self.advance();
            Ok(None)
        } else {
            let clause = self.parse_expression()?;
            self.expect(closing, text)?;
            Ok(Some(clause))
        }
    }

    /// Parses a condition in parentheses.
    pub(super) fn parse_condition(&mut self, opening: &str, closing: &str) -> (result: Result<
        Expression,
        String,
    >)
        ensures
            final(self).tokens() == old(self).tokens(),
            old(self).position() <= final(self).position() <= old(self).tokens().len(),
            expression_outcome(
                result,
                final(self).position(),
                condition(old(self).tokens(), old(self).position(), opening@, closing@),
            ),
        decreases old(self).tokens().len() - old(self).position(), 270int,
    {
        proof {
            reveal(condition);
            reveal(expression);
        }
        proof {
            use_type_invariant(&*self);
        }
        self.expect(Kind::LeftParen, opening)?;
        let test = self.parse_expression()?;
        self.expect(Kind::RightParen, closing)?;
        Ok(test)
    }

    pub(super) fn parse_expression_statement(&mut self) -> (result: Result<Statement, String>)
        ensures
            final(self).tokens() == old(self).tokens(),
            old(self).position() <= final(self).position() <= old(self).tokens().len(),
            result is Ok ==> old(self).position() < final(self).position(),
            statement_outcome(
                result,
                final(self).position(),
                expression_statement(old(self).tokens(), old(self).position()),
            ),
        decreases old(self).tokens().len() - old(self).position(), 270int,
    {
        proof {
            reveal(expression_statement);
            reveal(expression);
        }
        proof {
            use_type_invariant(&*self);
        }
        let value = self.parse_expression()?;
        self.expect(Kind::Semicolon, "Expect ';' after value.")?;
        Ok(Statement::Expression(value))
    }

    /// Parses the statements of a block from behind its opening brace.
    #[verifier::spinoff_prover]
    pub(super) fn parse_block(&mut self) -> (result: Result<Statement, String>)
        ensures
            final(self).tokens() == old(self).tokens(),
            old(self).position() <= final(self).position() <= old(self).tokens().len(),
            statement_outcome(
                result,
                final(self).position(),
                block(old(self).tokens(), old(self).position(), Seq::empty()),
            ),
        decreases old(self).tokens().len() - old(self).position(), 350int,
    {
        proof {
            reveal(block);
            reveal(declaration);
        }
        let ghost tokens = self.tokens();
        let ghost start = self.position();
        let mut statements: Vec<Statement> = Vec::new();
        proof {
            use_type_invariant(&*self);
            assert(statement_views(statements@) =~= Seq::<StatementView>::empty());
        }
        while !self.check(Kind::RightBrace) && !self.is_at_end()
            invariant
                self.tokens() == tokens,
                tokens == old(self).tokens(),
                start == old(self).position(),
                start <= self.position() <= tokens.len(),
                block(tokens, start, Seq::empty()) == block(
                    tokens,
                    self.position(),
                    statement_views(statements@),
                ),
            decreases tokens.len() - self.position(),
        {
            proof {
                reveal(block);
                reveal(declaration);
            }
            let ghost before = statements@;
            let declaration = self.parse_declaration()?;
            statements.push(declaration);
            proof {
                assert(statement_views(statements@) =~= statement_views(before).push(
                    declaration@,
                ));
            }
        }
        self.expect(Kind::RightBrace, "Expect '}' after block.")?;
        proof {
            lemma_block_view(statements);
        }
        Ok(Statement::Block(statements))
    }

    /// Parses a `for` statement from behind `for`.
    #[verifier::spinoff_prover]
    pub(super) fn parse_for(&mut self) -> (result: Result<Statement, String>)
        ensures
            final(self).tokens() == old(self).tokens(),
            old(self).position() <= final(self).position() <= old(self).tokens().len(),
            statement_outcome(
                result,
                final(self).position(),
                for_statement(old(self).tokens(), old(self).position()),
            ),
        decreases old(self).tokens().len() - old(self).position(), 294int,
    {
        proof {
            reveal(for_statement);
            reveal(for_initializer);
            reveal(optional_clause);
            reveal(statement);
            reveal(variable_declaration);
        }
        proof {
            use_type_invariant(&*self);
        }
        self.expect(Kind::LeftParen, "Expect '(' after 'for'.")?;
        let initializer: Option<Box<Statement>> = if !self.check(Kind::Semicolon) {
            Some(Box::new(self.parse_variable_declaration()?))
        } else {
            self.advance();
            None
        };
        let test = self.parse_optional_clause(Kind::Semicolon, "Expect ';' after for condition.")?;
        let increment = self.parse_optional_clause(
            Kind::RightParen,
            "Expect ')' after for clauses.",
        )?;
        let body = self.parse_statement()?;
        Ok(Statement::For(initializer, test, increment, Box::new(body)))
    }
}

} // verus!
