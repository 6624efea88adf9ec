//! The parser: tokens to an expression or to the statements of a program,
//! by recursive descent with one token of lookahead.
//!
//! [`crate::grammar`] says what every token sequence stands for; the parser
//! computes exactly that. The first error ends the parse.

use crate::expression::{expression_views, BinaryOperation, Expression, ExpressionView};
use crate::grammar::{
    advance, after, assignment, declaration, expect, expect_expression, expression, kind_at,
    last_line, level_operation, located, program, statement, token_at, Level, Parsed,
};
use crate::statement::{
    name_views, optional_expression_view, statement_views, Statement, StatementView,
};
use crate::text::decimal;
use crate::token::{end_of_file, token_views, Kind, Token, TokenType, TokenView};
use vstd::prelude::*;

mod calls;
mod declarations;
mod operators;
mod statements;

verus! {

/// Whether what the parser returned and where it stopped are what the
/// grammar gives.
pub open spec fn expression_outcome(
    result: Result<Expression, String>,
    position: int,
    parsed: Parsed<ExpressionView>,
) -> bool {
    match result {
        Ok(expression) => parsed == (Parsed::Accepted { value: expression@, next: position }),
        Err(message) => parsed == (Parsed::<ExpressionView>::Rejected { message: message@ }),
    }
}

/// Whether what the parser returned and where it stopped are what the
/// grammar gives.
pub open spec fn statement_outcome(
    result: Result<Statement, String>,
    position: int,
    parsed: Parsed<StatementView>,
) -> bool {
    match result {
        Ok(statement) => parsed == (Parsed::Accepted { value: statement@, next: position }),
        Err(message) => parsed == (Parsed::<StatementView>::Rejected { message: message@ }),
    }
}

/// Whether what the parser returned and where it stopped are what the
/// grammar gives.
pub open spec fn program_outcome(
    result: Result<Vec<Statement>, String>,
    position: int,
    parsed: Parsed<Seq<StatementView>>,
) -> bool {
    match result {
        Ok(statements) => parsed == (Parsed::Accepted {
            value: statement_views(statements@),
            next: position,
        }),
        Err(message) => parsed == (Parsed::<Seq<StatementView>>::Rejected { message: message@ }),
    }
}

spec fn arguments_outcome(
    result: Result<Vec<Expression>, String>,
    position: int,
    parsed: Parsed<Seq<ExpressionView>>,
) -> bool {
    match result {
        Ok(list) => parsed == (Parsed::Accepted { value: expression_views(list@), next: position }),
        Err(message) => parsed == (Parsed::<Seq<ExpressionView>>::Rejected { message: message@ }),
    }
}

spec fn names_outcome(
    result: Result<Vec<String>, String>,
    position: int,
    parsed: Parsed<Seq<Seq<char>>>,
) -> bool {
    match result {
        Ok(names) => parsed == (Parsed::Accepted { value: name_views(names@), next: position }),
        Err(message) => parsed == (Parsed::<Seq<Seq<char>>>::Rejected { message: message@ }),
    }
}

spec fn clause_outcome(
    result: Result<Option<Expression>, String>,
    position: int,
    parsed: Parsed<Option<ExpressionView>>,
) -> bool {
    match result {
        Ok(clause) => parsed == (Parsed::Accepted {
            value: optional_expression_view(clause),
            next: position,
        }),
        Err(message) => parsed == (Parsed::<Option<ExpressionView>>::Rejected {
            message: message@,
        }),
    }
}

spec fn initializer_view(initializer: Option<Box<Statement>>) -> Option<Box<StatementView>> {
    match initializer {
        Some(statement) => Some(Box::new(statement@)),
        None => None,
    }
}

spec fn initializer_outcome(
    result: Result<Option<Box<Statement>>, String>,
    position: int,
    parsed: Parsed<Option<Box<StatementView>>>,
) -> bool {
    match result {
        Ok(initializer) => parsed == (Parsed::Accepted {
            value: initializer_view(initializer),
            next: position,
        }),
        Err(message) => parsed == (Parsed::<Option<Box<StatementView>>>::Rejected {
            message: message@,
        }),
    }
}

spec fn unit_outcome(result: Result<(), String>, position: int, parsed: Parsed<()>) -> bool {
    match result {
        Ok(_) => parsed == (Parsed::Accepted { value: (), next: position }),
        Err(message) => parsed == (Parsed::<()>::Rejected { message: message@ }),
    }
}

/// A message that names the line it is about.
fn message_at(line: usize, text: &str) -> (message: String)
    ensures
        message@ == located(line, text@),
{
    let mut message = String::from_str("[line ");
    message.append(decimal(line).as_str());
    message.append("] ");
    message.append(text);
    message
}

/// The message for a token where an expression had to start.
fn expression_expected(token: &Token) -> (message: String)
    ensures
        message@ == expect_expression(token@),
{
    if token.token.kind() == Kind::Eof {
        message_at(token.line, "Error at end: Expect expression.")
    } else {
        let mut text = String::from_str("Error at '");
        text.append(token.lexeme.as_str());
        text.append("': Expect expression.");
        message_at(token.line, text.as_str())
    }
}

fn operation_at(level: Level, kind: Kind) -> (operation: Option<BinaryOperation>)
    ensures
        operation == level_operation(level, kind),
{
    match level {
        Level::Equality => match kind {
            Kind::EqualEqual => Some(BinaryOperation::Equal),
            Kind::BangEqual => Some(BinaryOperation::NotEqual),
            _ => None,
        },
        Level::Comparison => match kind {
            Kind::Greater => Some(BinaryOperation::Greater),
            Kind::GreaterEqual => Some(BinaryOperation::GreaterEqual),
            Kind::Less => Some(BinaryOperation::Less),
            Kind::LessEqual => Some(BinaryOperation::LessEqual),
            _ => None,
        },
        Level::Term => match kind {
            Kind::Plus => Some(BinaryOperation::Plus),
            Kind::Minus => Some(BinaryOperation::Minus),
            _ => None,
        },
        Level::Factor => match kind {
            Kind::Star => Some(BinaryOperation::Multiply),
            Kind::Slash => Some(BinaryOperation::Divide),
            _ => None,
        },
    }
}

/// A parser over one token sequence.
pub struct Parser {
    tokens: Vec<Token>,
    current: usize,
    /// The token that every position behind the last token holds.
    end: Token,
}

impl Parser {
    #[verifier::type_invariant]
    spec fn well_formed(&self) -> bool {
        &&& self.current <= self.tokens@.len()
        &&& self.end@ == end_of_file(last_line(token_views(self.tokens@)))
    }

    /// The tokens that the parser reads.
    pub closed spec fn tokens(&self) -> Seq<TokenView> {
        token_views(self.tokens@)
    }

    /// The position of the token that the parser reads next.
    pub closed spec fn position(&self) -> int {
        self.current as int
    }

    pub fn new(tokens: Vec<Token>) -> (parser: Parser)
        ensures
            parser.tokens() == token_views(tokens@),
            parser.position() == 0,
    {
        let line: usize = if tokens.len() > 0 {
            tokens[tokens.len() - 1].line
        } else {
            1
        };
        let end = Token::new(TokenType::Eof, String::new(), line);
        Parser { tokens, current: 0, end }
    }

    /// The token at the current position.
    fn current(&self) -> (token: &Token)
        ensures
            token@ == token_at(self.tokens(), self.position()),
    {
        proof {
            use_type_invariant(self);
        }
        if self.current < self.tokens.len() {
            &self.tokens[self.current]
        } else {
            &self.end
        }
    }

    /// Whether the token at the current position is of the given kind.
    fn check(&self, kind: Kind) -> (same: bool)
        ensures
            same == (kind_at(self.tokens(), self.position()) == kind),
    {
        self.current().token.kind() == kind
    }

    fn is_at_end(&self) -> (ended: bool)
        ensures
            ended == (kind_at(self.tokens(), self.position()) == Kind::Eof),
    {
        self.check(Kind::Eof)
    }

    /// Moves behind the token at the current position.
    fn advance(&mut self)
        ensures
            final(self).tokens() == old(self).tokens(),
            final(self).position() == after(old(self).tokens(), old(self).position()),
    {
        proof {
            use_type_invariant(&*self);
        }
        if self.current < self.tokens.len() {
            self.current += 1;
        }
    }

    /// The token at the current position, which is passed over.
    fn consume(&mut self) -> (token: Token)
        ensures
            final(self).tokens() == old(self).tokens(),
            final(self).position() == after(old(self).tokens(), old(self).position()),
            token@ == token_at(old(self).tokens(), old(self).position()),
    {
        let token = self.current().clone();
        self.advance();
        token
    }

    /// Passes over the token at the current position where it is of the
    /// given kind, and fails with the given message where it is not.
    fn expect(&mut self, kind: Kind, text: &str) -> (result: Result<(), String>)
        ensures
            final(self).tokens() == old(self).tokens(),
            old(self).position() <= final(self).position() <= old(self).tokens().len(),
            result is Ok && kind != Kind::Eof ==> old(self).position() < final(self).position(),
            unit_outcome(
                result,
                final(self).position(),
                expect(old(self).tokens(), old(self).position(), kind, text@),
            ),
    {
        proof {
            use_type_invariant(&*self);
        }
        if self.check(kind) {
            self.advance();
            Ok(())
        } else {
            Err(message_at(self.current().line, text))
        }
    }

    /// Parses a program: declarations up to the end-of-file token.
    #[verifier::spinoff_prover]
    pub fn parse(&mut self) -> (result: Result<Vec<Statement>, String>)
        ensures
            final(self).tokens() == old(self).tokens(),
            program_outcome(
                result,
                final(self).position(),
                program(old(self).tokens(), old(self).position(), Seq::empty()),
            ),
    {
        proof {
            reveal(program);
            reveal(declaration);
        }
        let ghost tokens = self.tokens();
        let ghost start = self.position();
        let mut statements: Vec<Statement> = Vec::new();
        proof {
            use_type_invariant(&*self);
            assert(statement_views(statements@) =~= Seq::<StatementView>::empty());
        }
        while !self.check(Kind::Eof)
            invariant
                self.tokens() == tokens,
                tokens == old(self).tokens(),
                start == old(self).position(),
                start <= self.position() <= tokens.len(),
                program(tokens, start, Seq::empty()) == program(
                    tokens,
                    self.position(),
                    statement_views(statements@),
                ),
            decreases tokens.len() - self.position(),
        {
            proof {
                reveal(program);
                reveal(declaration);
            }
            let ghost before = statements@;
            let declaration = self.parse_declaration()?;
            statements.push(declaration);
            proof {
                assert(statement_views(statements@) =~= statement_views(before).push(
                    declaration@,
                ));
            }
        }
        Ok(statements)
    }

    /// Parses one expression.
    pub fn parse_expression(&mut self) -> (result: Result<Expression, String>)
        ensures
            final(self).tokens() == old(self).tokens(),
            old(self).position() <= final(self).position() <= old(self).tokens().len(),
            result is Ok ==> old(self).position() < final(self).position(),
            expression_outcome(
                result,
                final(self).position(),
                expression(old(self).tokens(), old(self).position()),
            ),
        decreases old(self).tokens().len() - old(self).position(), 200int,
    {
        proof {
            reveal(expression);
            reveal(assignment);
        }
        self.parse_assignment()
    }
}

/// Parses the one expression that the tokens start with.
pub fn parse_expression(tokens: Vec<Token>) -> (result: Result<Expression, String>)
    ensures
        match result {
            Ok(parsed) => expression(token_views(tokens@), 0) matches Parsed::Accepted {
                value,
                ..
            } && value == parsed@,
            Err(message) => expression(token_views(tokens@), 0) == (Parsed::<
                ExpressionView,
            >::Rejected { message: message@ }),
        },
{
    let mut parser = Parser::new(tokens);
    parser.parse_expression()
}

/// Parses the program that the tokens hold: its statements up to the
/// end-of-file token.
pub fn parse_program(tokens: Vec<Token>) -> (result: Result<Vec<Statement>, String>)
    ensures
        match result {
            Ok(statements) => program(token_views(tokens@), 0, Seq::empty()) matches Parsed::Accepted {
                value,
                ..
            } && value == statement_views(statements@),
            Err(message) => program(token_views(tokens@), 0, Seq::empty()) == (Parsed::<
                Seq<StatementView>,
            >::Rejected { message: message@ }),
        },
{
    let mut parser = Parser::new(tokens);
    parser.parse()
}

} // verus!
