//! The grammar: which expression or which statements a token sequence
//! stands for, or with which message it is rejected.
//!
//! Each function reads the tokens from a position on and either accepts,
//! giving what it read and the position behind it, or rejects with a message.
//! The first rejection ends the whole parse. Behind the last token every
//! position holds an end-of-file token on the last token's line.
//!
//! From the lowest precedence to the highest: assignment, `or`, `and`,
//! equality, comparison, term, factor, unary, call, primary.

use crate::expression::{BinaryOperation, ExpressionView, LiteralView, UnaryOperation};
use crate::statement::StatementView;
use crate::text::decimal_text;
use crate::token::{end_of_file, Kind, TokenView};
use vstd::prelude::*;

pub mod bounds;

verus! {

/// The outcome of reading one construct.
pub enum Parsed<T> {
    /// The construct, and the position of the first token behind it.
    Accepted { value: T, next: int },
    Rejected { message: Seq<char> },
}

/// `parsed`, held to the tokens: a parse that starts at `at` ends between
/// `at` and the end of the tokens. Every parse of this grammar does, so this
/// changes none of them; it is what shows that reading always ends.
pub open spec fn progress<T>(tokens: Seq<TokenView>, at: int, parsed: Parsed<T>) -> Parsed<T> {
    match parsed {
        Parsed::Accepted { value, next } => if at <= next <= tokens.len() {
            parsed
        } else {
            Parsed::Accepted { value, next: at }
        },
        Parsed::Rejected { .. } => parsed,
    }
}

/// `parsed`, held to the tokens behind `at`: a parse that starts at a token
/// other than the end-of-file token and accepts has read at least that token.
/// Every declaration of this grammar has, so this changes none of them.
pub open spec fn advance<T>(tokens: Seq<TokenView>, at: int, parsed: Parsed<T>) -> Parsed<T> {
    match parsed {
        Parsed::Accepted { value, next } => if at < next <= tokens.len() {
            parsed
        } else {
            Parsed::Accepted { value, next: at + 1 }
        },
        Parsed::Rejected { .. } => parsed,
    }
}

/// The largest number of arguments of a call, and of parameters of a function.
pub open spec fn most_arguments() -> nat {
    255
}

/// The line of the last token, or the first line when there is no token.
pub open spec fn last_line(tokens: Seq<TokenView>) -> usize {
    if tokens.len() > 0 {
        tokens.last().line
    } else {
        1
    }
}

/// The token at a position.
pub open spec fn token_at(tokens: Seq<TokenView>, at: int) -> TokenView {
    if 0 <= at < tokens.len() {
        tokens[at]
    } else {
        end_of_file(last_line(tokens))
    }
}

pub open spec fn kind_at(tokens: Seq<TokenView>, at: int) -> Kind {
    token_at(tokens, at).kind
}

pub open spec fn line_at(tokens: Seq<TokenView>, at: int) -> usize {
    token_at(tokens, at).line
}

/// The position behind the token at `at`.
pub open spec fn after(tokens: Seq<TokenView>, at: int) -> int {
    if 0 <= at < tokens.len() {
        at + 1
    } else {
        at
    }
}

/// A message that names the line it is about.
pub open spec fn located(line: usize, text: Seq<char>) -> Seq<char> {
    "[line "@ + decimal_text(line as nat) + "] "@ + text
}

/// The message for a token where an expression had to start.
pub open spec fn expect_expression(token: TokenView) -> Seq<char> {
    if token.kind == Kind::Eof {
        located(token.line, "Error at end: Expect expression."@)
    } else {
        located(token.line, "Error at '"@ + token.lexeme + "': Expect expression."@)
    }
}

pub open spec fn invalid_assignment_target() -> Seq<char> {
    "Invalid assignment target."@
}

/// The four levels of left-associative binary operators, from the one that
/// binds least to the one that binds most.
#[derive(Clone, Copy, Debug, PartialEq, Eq, Structural)]
pub enum Level {
    Equality,
    Comparison,
    Term,
    Factor,
}

/// The operation that a token stands for at a level, if any.
pub open spec fn level_operation(level: Level, kind: Kind) -> Option<BinaryOperation> {
    match level {
        Level::Equality => match kind {
            Kind::EqualEqual => Some(BinaryOperation::Equal),
            Kind::BangEqual => Some(BinaryOperation::NotEqual),
            _ => None,
        },
        Level::Comparison => match kind {
            Kind::Greater => Some(BinaryOperation::Greater),
            Kind::GreaterEqual => Some(BinaryOperation::GreaterEqual),
            Kind::Less => Some(BinaryOperation::Less),
            Kind::LessEqual => Some(BinaryOperation::LessEqual),
            _ => None,
        },
        Level::Term => match kind {
            Kind::Plus => Some(BinaryOperation::Plus),
            Kind::Minus => Some(BinaryOperation::Minus),
            _ => None,
        },
        Level::Factor => match kind {
            Kind::Star => Some(BinaryOperation::Multiply),
            Kind::Slash => Some(BinaryOperation::Divide),
            _ => None,
        },
    }
}

pub open spec fn level_rank(level: Level) -> int {
    match level {
        Level::Equality => 160,
        Level::Comparison => 150,
        Level::Term => 140,
        Level::Factor => 130,
    }
}

/// An expression: `assignment`.
#[verifier::opaque]
pub open spec fn expression(tokens: Seq<TokenView>, at: int) -> Parsed<ExpressionView>
    decreases tokens.len() - at, 200int,
{
    assignment(tokens, at)
}

/// `or ( "=" expression )?`, where the left side of `=` has to be a variable.
#[verifier::opaque]
pub open spec fn assignment(tokens: Seq<TokenView>, at: int) -> Parsed<ExpressionView>
    decreases tokens.len() - at, 190int,
{
    match progress(tokens, at, logical_or(tokens, at)) {
        Parsed::Accepted { value, next } => assignment_rest(tokens, next, value),
        Parsed::Rejected { message } => Parsed::Rejected { message },
    }
}

#[verifier::opaque]
pub open spec fn assignment_rest(tokens: Seq<TokenView>, at: int, target: ExpressionView)
    -> Parsed<ExpressionView>
    decreases tokens.len() - at, 185int,
{
    if kind_at(tokens, at) == Kind::Equal && 0 <= at < tokens.len() {
        match target {
            ExpressionView::Variable(name) => match progress(
                tokens,
                at + 1,
                expression(tokens, at + 1),
            ) {
                Parsed::Accepted { value, next } => assignment_rest(
                    tokens,
                    next,
                    ExpressionView::Assign(name, Box::new(value)),
                ),
                Parsed::Rejected { message } => Parsed::Rejected { message },
            },
            _ => Parsed::Rejected { message: invalid_assignment_target() },
        }
    } else {
        Parsed::Accepted { value: target, next: at }
    }
}

/// `and ( "or" and )*`
#[verifier::opaque]
pub open spec fn logical_or(tokens: Seq<TokenView>, at: int) -> Parsed<ExpressionView>
    decreases tokens.len() - at, 180int,
{
    match progress(tokens, at, logical_and(tokens, at)) {
        Parsed::Accepted { value, next } => logical_or_rest(tokens, next, value),
        Parsed::Rejected { message } => Parsed::Rejected { message },
    }
}

#[verifier::opaque]
pub open spec fn logical_or_rest(tokens: Seq<TokenView>, at: int, left: ExpressionView) -> Parsed<
    ExpressionView,
>
    decreases tokens.len() - at, 175int,
{
    if kind_at(tokens, at) == Kind::Or && 0 <= at < tokens.len() {
        match progress(tokens, at + 1, logical_and(tokens, at + 1)) {
            Parsed::Accepted { value, next } => logical_or_rest(
                tokens,
                next,
                ExpressionView::Or(Box::new(left), Box::new(value)),
            ),
            Parsed::Rejected { message } => Parsed::Rejected { message },
        }
    } else {
        Parsed::Accepted { value: left, next: at }
    }
}

/// `equality ( "and" equality )*`
#[verifier::opaque]
pub open spec fn logical_and(tokens: Seq<TokenView>, at: int) -> Parsed<ExpressionView>
    decreases tokens.len() - at, 170int,
{
    match progress(tokens, at, binary(tokens, at, Level::Equality)) {
        Parsed::Accepted { value, next } => logical_and_rest(tokens, next, value),
        Parsed::Rejected { message } => Parsed::Rejected { message },
    }
}

#[verifier::opaque]
pub open spec fn logical_and_rest(tokens: Seq<TokenView>, at: int, left: ExpressionView)
    -> Parsed<ExpressionView>
    decreases tokens.len() - at, 165int,
{
    if kind_at(tokens, at) == Kind::And && 0 <= at < tokens.len() {
        match progress(tokens, at + 1, binary(tokens, at + 1, Level::Equality)) {
            Parsed::Accepted { value, next } => logical_and_rest(
                tokens,
                next,
                ExpressionView::And(Box::new(left), Box::new(value)),
            ),
            Parsed::Rejected { message } => Parsed::Rejected { message },
        }
    } else {
        Parsed::Accepted { value: left, next: at }
    }
}

/// An operand of a level: the next level, and a unary expression at the last.
#[verifier::opaque]
pub open spec fn operand(tokens: Seq<TokenView>, at: int, level: Level) -> Parsed<ExpressionView>
    decreases tokens.len() - at, level_rank(level) - 7,
{
    match level {
        Level::Equality => binary(tokens, at, Level::Comparison),
        Level::Comparison => binary(tokens, at, Level::Term),
        Level::Term => binary(tokens, at, Level::Factor),
        Level::Factor => unary(tokens, at),
    }
}

/// `operand ( operator operand )*` with the operators of one level, grouped
/// from the left.
#[verifier::opaque]
pub open spec fn binary(tokens: Seq<TokenView>, at: int, level: Level) -> Parsed<ExpressionView>
    decreases tokens.len() - at, level_rank(level),
{
    match progress(tokens, at, operand(tokens, at, level)) {
        Parsed::Accepted { value, next } => binary_rest(tokens, next, level, value),
        Parsed::Rejected { message } => Parsed::Rejected { message },
    }
}

#[verifier::opaque]
pub open spec fn binary_rest(tokens: Seq<TokenView>, at: int, level: Level, left: ExpressionView)
    -> Parsed<ExpressionView>
    decreases tokens.len() - at, level_rank(level) - 5,
{
    match level_operation(level, kind_at(tokens, at)) {
        Some(operation) => if 0 <= at < tokens.len() {
            match progress(tokens, at + 1, operand(tokens, at + 1, level)) {
                Parsed::Accepted { value, next } => binary_rest(
                    tokens,
                    next,
                    level,
                    ExpressionView::Binary(operation, Box::new(left), Box::new(value)),
                ),
                Parsed::Rejected { message } => Parsed::Rejected { message },
            }
        } else {
            Parsed::Accepted { value: left, next: at }
        },
        None => Parsed::Accepted { value: left, next: at },
    }
}

/// `( "-" | "!" ) unary | call`
#[verifier::opaque]
pub open spec fn unary(tokens: Seq<TokenView>, at: int) -> Parsed<ExpressionView>
    decreases tokens.len() - at, 120int,
{
    let kind = kind_at(tokens, at);
    if (kind == Kind::Minus || kind == Kind::Bang) && 0 <= at < tokens.len() {
        let operation = if kind == Kind::Minus {
            UnaryOperation::Minus
        } else {
            UnaryOperation::Not
        };
        match unary(tokens, at + 1) {
            Parsed::Accepted { value, next } => Parsed::Accepted {
                value: ExpressionView::Unary(operation, Box::new(value)),
                next,
            },
            Parsed::Rejected { message } => Parsed::Rejected { message },
        }
    } else {
        call(tokens, at)
    }
}

/// `primary ( "(" arguments? ")" )*`
#[verifier::opaque]
pub open spec fn call(tokens: Seq<TokenView>, at: int) -> Parsed<ExpressionView>
    decreases tokens.len() - at, 110int,
{
    match progress(tokens, at, primary(tokens, at)) {
        Parsed::Accepted { value, next } => call_rest(tokens, next, value),
        Parsed::Rejected { message } => Parsed::Rejected { message },
    }
}

#[verifier::opaque]
pub open spec fn call_rest(tokens: Seq<TokenView>, at: int, callee: ExpressionView) -> Parsed<
    ExpressionView,
>
    decreases tokens.len() - at, 105int,
{
    if kind_at(tokens, at) == Kind::LeftParen && 0 <= at < tokens.len() {
        match progress(tokens, at + 1, finish_call(tokens, at + 1)) {
            Parsed::Accepted { value, next } => call_rest(
                tokens,
                next,
                ExpressionView::Call(Box::new(callee), value),
            ),
            Parsed::Rejected { message } => Parsed::Rejected { message },
        }
    } else {
        Parsed::Accepted { value: callee, next: at }
    }
}

/// The arguments of a call and its closing parenthesis, read from behind
/// the opening one.
#[verifier::opaque]
pub open spec fn finish_call(tokens: Seq<TokenView>, at: int) -> Parsed<Seq<ExpressionView>>
    decreases tokens.len() - at, 260int,
{
    if kind_at(tokens, at) != Kind::RightParen {
        arguments(tokens, at, Seq::empty())
    } else {
        close_arguments(tokens, at, Seq::empty())
    }
}

/// `expression ( "," expression )* ")"`, behind the arguments `collected`.
#[verifier::opaque]
pub open spec fn arguments(tokens: Seq<TokenView>, at: int, collected: Seq<ExpressionView>)
    -> Parsed<Seq<ExpressionView>>
    decreases tokens.len() - at, 250int,
{
    if collected.len() >= most_arguments() {
        Parsed::Rejected {
            message: located(line_at(tokens, at), "Can't have more than 255 arguments."@),
        }
    } else {
        match progress(tokens, at, expression(tokens, at)) {
            Parsed::Accepted { value, next } => if kind_at(tokens, next) == Kind::Comma && 0
                <= next < tokens.len() {
                arguments(tokens, next + 1, collected.push(value))
            } else {
                close_arguments(tokens, next, collected.push(value))
            },
            Parsed::Rejected { message } => Parsed::Rejected { message },
        }
    }
}

pub open spec fn close_arguments(tokens: Seq<TokenView>, at: int, collected: Seq<ExpressionView>)
    -> Parsed<Seq<ExpressionView>> {
    if kind_at(tokens, at) == Kind::RightParen {
        Parsed::Accepted { value: collected, next: after(tokens, at) }
    } else {
        Parsed::Rejected { message: located(line_at(tokens, at), "Expect ')' after arguments."@) }
    }
}

/// A literal, a variable, or an expression in parentheses.
#[verifier::opaque]
pub open spec fn primary(tokens: Seq<TokenView>, at: int) -> Parsed<ExpressionView>
    decreases tokens.len() - at, 100int,
{
    let token = token_at(tokens, at);
    let next = after(tokens, at);
    match token.kind {
        Kind::True => Parsed::Accepted {
            value: ExpressionView::Literal(LiteralView::Bool(true)),
            next,
        },
        Kind::False => Parsed::Accepted {
            value: ExpressionView::Literal(LiteralView::Bool(false)),
            next,
        },
        Kind::Number => Parsed::Accepted {
            value: ExpressionView::Literal(LiteralView::Number(token.text)),
            next,
        },
        Kind::String => Parsed::Accepted {
            value: ExpressionView::Literal(LiteralView::String(token.text)),
            next,
        },
        Kind::Nil => Parsed::Accepted { value: ExpressionView::Literal(LiteralView::Nil), next },
        Kind::Identifier => Parsed::Accepted { value: ExpressionView::Variable(token.text), next },
        Kind::LeftParen => if 0 <= at < tokens.len() {
            match progress(tokens, at + 1, expression(tokens, at + 1)) {
                Parsed::Accepted { value, next } => if kind_at(tokens, next) == Kind::RightParen {
                    Parsed::Accepted {
                        value: ExpressionView::Grouping(Box::new(value)),
                        next: after(tokens, next),
                    }
                } else {
                    Parsed::Rejected { message: expect_expression(token_at(tokens, next)) }
                },
                Parsed::Rejected { message } => Parsed::Rejected { message },
            }
        } else {
            Parsed::Rejected { message: expect_expression(token) }
        },
        _ => Parsed::Rejected { message: expect_expression(token) },
    }
}

/// The token of a kind that has to stand at `at`: the position behind it, or
/// the message `text` on the line of the token that stands there instead.
pub open spec fn expect(tokens: Seq<TokenView>, at: int, kind: Kind, text: Seq<char>) -> Parsed<
    (),
> {
    if kind_at(tokens, at) == kind {
        Parsed::Accepted { value: (), next: after(tokens, at) }
    } else {
        Parsed::Rejected { message: located(line_at(tokens, at), text) }
    }
}

/// A program: declarations up to the end-of-file token, behind the
/// statements `collected`.
#[verifier::opaque]
pub open spec fn program(tokens: Seq<TokenView>, at: int, collected: Seq<StatementView>)
    -> Parsed<Seq<StatementView>>
    decreases tokens.len() - at, 400int,
{
    if kind_at(tokens, at) == Kind::Eof {
        Parsed::Accepted { value: collected, next: at }
    } else {
        match advance(tokens, at, declaration(tokens, at)) {
            Parsed::Accepted { value, next } => program(tokens, next, collected.push(value)),
            Parsed::Rejected { message } => Parsed::Rejected { message },
        }
    }
}

/// A function declaration, a variable declaration, or a statement.
#[verifier::opaque]
pub open spec fn declaration(tokens: Seq<TokenView>, at: int) -> Parsed<StatementView>
    decreases tokens.len() - at, 300int,
{
    if kind_at(tokens, at) == Kind::Fun && 0 <= at < tokens.len() {
        function_declaration(tokens, at + 1)
    } else {
        variable_declaration(tokens, at)
    }
}

/// `name "(" parameters? ")" statement`, read from behind `fun`.
#[verifier::opaque]
pub open spec fn function_declaration(tokens: Seq<TokenView>, at: int) -> Parsed<StatementView>
    decreases tokens.len() - at, 295int,
{
    let name = token_at(tokens, at);
    let behind_name = after(tokens, at);
    if name.kind != Kind::Identifier {
        Parsed::Rejected {
            message: located(line_at(tokens, behind_name), "Expect function name."@),
        }
    } else {
        match expect(tokens, behind_name, Kind::LeftParen, "Expect '(' after function name."@) {
            Parsed::Accepted { value: _, next: first } => {
                let listed = if kind_at(tokens, first) != Kind::RightParen {
                    parameters(tokens, first, Seq::empty())
                } else {
                    Parsed::Accepted { value: Seq::empty(), next: first }
                };
                match progress(tokens, first, listed) {
                    Parsed::Accepted { value: names, next: closing } => match expect(
                        tokens,
                        closing,
                        Kind::RightParen,
                        "Expect ')' after parameters."@,
                    ) {
                        Parsed::Accepted { value: _, next: start } => match statement(
                            tokens,
                            start,
                        ) {
                            Parsed::Accepted { value: body, next } => Parsed::Accepted {
                                value: StatementView::Function(name.text, names, Box::new(body)),
                                next,
                            },
                            Parsed::Rejected { message } => Parsed::Rejected { message },
                        },
                        Parsed::Rejected { message } => Parsed::Rejected { message },
                    },
                    Parsed::Rejected { message } => Parsed::Rejected { message },
                }
            },
            Parsed::Rejected { message } => Parsed::Rejected { message },
        }
    }
}

/// `name ( "," name )*`, behind the names `collected`.
#[verifier::opaque]
pub open spec fn parameters(tokens: Seq<TokenView>, at: int, collected: Seq<Seq<char>>) -> Parsed<
    Seq<Seq<char>>,
>
    decreases tokens.len() - at,
{
    let name = token_at(tokens, at);
    let behind_name = after(tokens, at);
    if collected.len() >= most_arguments() {
        Parsed::Rejected {
            message: located(line_at(tokens, at), "Can't have more than 255 parameters."@),
        }
    } else if name.kind != Kind::Identifier {
        Parsed::Rejected {
            message: located(line_at(tokens, behind_name), "Expect parameter name."@),
        }
    } else if kind_at(tokens, behind_name) == Kind::Comma && 0 <= at && behind_name
        < tokens.len() {
        parameters(tokens, behind_name + 1, collected.push(name.text))
    } else {
        Parsed::Accepted { value: collected.push(name.text), next: behind_name }
    }
}

/// `"var" name ( "=" expression )? ";"`, or a statement.
#[verifier::opaque]
pub open spec fn variable_declaration(tokens: Seq<TokenView>, at: int) -> Parsed<StatementView>
    decreases tokens.len() - at, 290int,
{
    if kind_at(tokens, at) == Kind::Var && 0 <= at < tokens.len() {
        let name = token_at(tokens, at + 1);
        let behind_name = after(tokens, at + 1);
        if name.kind != Kind::Identifier {
            Parsed::Rejected { message: located(name.line, "Expect variable name."@) }
        } else if kind_at(tokens, behind_name) == Kind::Equal && behind_name < tokens.len() {
            match progress(tokens, behind_name + 1, expression(tokens, behind_name + 1)) {
                Parsed::Accepted { value, next } => match expect(
                    tokens,
                    next,
                    Kind::Semicolon,
                    "Expect ';' after value."@,
                ) {
                    Parsed::Accepted { value: _, next } => Parsed::Accepted {
                        value: StatementView::Variable(name.text, Some(value)),
                        next,
                    },
                    Parsed::Rejected { message } => Parsed::Rejected { message },
                },
                Parsed::Rejected { message } => Parsed::Rejected { message },
            }
        } else {
            match expect(tokens, behind_name, Kind::Semicolon, "Expect ';' after value."@) {
                Parsed::Accepted { value: _, next } => Parsed::Accepted {
                    value: StatementView::Variable(name.text, None),
                    next,
                },
                Parsed::Rejected { message } => Parsed::Rejected { message },
            }
        }
    } else {
        statement(tokens, at)
    }
}

/// An expression that ends at a token of the kind `closing`, or nothing
/// where that token stands right away; then that token.
#[verifier::opaque]
pub open spec fn optional_clause(tokens: Seq<TokenView>, at: int, closing: Kind, text: Seq<char>)
    -> Parsed<Option<ExpressionView>>
    decreases tokens.len() - at, 270int,
{
    if kind_at(tokens, at) == closing {
        Parsed::Accepted { value: None, next: after(tokens, at) }
    } else {
        match progress(tokens, at, expression(tokens, at)) {
            Parsed::Accepted { value, next } => match expect(tokens, next, closing, text) {
                Parsed::Accepted { value: _, next } => Parsed::Accepted {
                    value: Some(value),
                    next,
                },
                Parsed::Rejected { message } => Parsed::Rejected { message },
            },
            Parsed::Rejected { message } => Parsed::Rejected { message },
        }
    }
}

/// `"(" expression ")"`, with the messages for a missing parenthesis.
#[verifier::opaque]
pub open spec fn condition(
    tokens: Seq<TokenView>,
    at: int,
    opening: Seq<char>,
    closing: Seq<char>,
) -> Parsed<ExpressionView>
    decreases tokens.len() - at, 270int,
{
    match expect(tokens, at, Kind::LeftParen, opening) {
        Parsed::Accepted { value: _, next: start } => match progress(
            tokens,
            start,
            expression(tokens, start),
        ) {
            Parsed::Accepted { value, next } => match expect(
                tokens,
                next,
                Kind::RightParen,
                closing,
            ) {
                Parsed::Accepted { value: _, next } => Parsed::Accepted { value, next },
                Parsed::Rejected { message } => Parsed::Rejected { message },
            },
            Parsed::Rejected { message } => Parsed::Rejected { message },
        },
        Parsed::Rejected { message } => Parsed::Rejected { message },
    }
}

/// A statement.
#[verifier::opaque]
pub open spec fn statement(tokens: Seq<TokenView>, at: int) -> Parsed<StatementView>
    decreases tokens.len() - at, 280int,
{
    let kind = kind_at(tokens, at);
    if !(0 <= at < tokens.len()) {
        expression_statement(tokens, at)
    } else if kind == Kind::Print {
        match progress(tokens, at + 1, expression(tokens, at + 1)) {
            Parsed::Accepted { value, next } => match expect(
                tokens,
                next,
                Kind::Semicolon,
                "Expect ';' after expression."@,
            ) {
                Parsed::Accepted { value: _, next } => Parsed::Accepted {
                    value: StatementView::Print(value),
                    next,
                },
                Parsed::Rejected { message } => Parsed::Rejected { message },
            },
            Parsed::Rejected { message } => Parsed::Rejected { message },
        }
    } else if kind == Kind::Return {
        match optional_clause(
            tokens,
            at + 1,
            Kind::Semicolon,
            "Expect ';' after return value."@,
        ) {
            Parsed::Accepted { value, next } => Parsed::Accepted {
                value: StatementView::Return(value),
                next,
            },
            Parsed::Rejected { message } => Parsed::Rejected { message },
        }
    } else if kind == Kind::LeftBrace {
        block(tokens, at + 1, Seq::empty())
    } else if kind == Kind::If {
        match progress(
            tokens,
            at + 1,
            condition(
                tokens,
                at + 1,
                "Expect '(' after 'if'."@,
                "Expect ')' after if condition."@,
            ),
        ) {
            Parsed::Accepted { value: test, next: start } => match progress(
                tokens,
                start,
                statement(tokens, start),
            ) {
                Parsed::Accepted { value: then_branch, next } => if kind_at(tokens, next)
                    == Kind::Else && next < tokens.len() {
                    match statement(tokens, next + 1) {
                        Parsed::Accepted { value: else_branch, next } => Parsed::Accepted {
                            value: StatementView::If(
                                test,
                                Box::new(then_branch),
                                Some(Box::new(else_branch)),
                            ),
                            next,
                        },
                        Parsed::Rejected { message } => Parsed::Rejected { message },
                    }
                } else {
                    Parsed::Accepted {
                        value: StatementView::If(test, Box::new(then_branch), None),
                        next,
                    }
                },
                Parsed::Rejected { message } => Parsed::Rejected { message },
            },
            Parsed::Rejected { message } => Parsed::Rejected { message },
        }
    } else if kind == Kind::While {
        match progress(
            tokens,
            at + 1,
            condition(
                tokens,
                at + 1,
                "Expect '(' after 'while'."@,
                "Expect ')' after condition."@,
            ),
        ) {
            Parsed::Accepted { value: test, next: start } => match statement(tokens, start) {
                Parsed::Accepted { value: body, next } => Parsed::Accepted {
                    value: StatementView::While(test, Box::new(body)),
                    next,
                },
                Parsed::Rejected { message } => Parsed::Rejected { message },
            },
            Parsed::Rejected { message } => Parsed::Rejected { message },
        }
    } else if kind == Kind::For {
        for_statement(tokens, at + 1)
    } else {
        expression_statement(tokens, at)
    }
}

/// `expression ";"`
#[verifier::opaque]
pub open spec fn expression_statement(tokens: Seq<TokenView>, at: int) -> Parsed<StatementView>
    decreases tokens.len() - at, 270int,
{
    match progress(tokens, at, expression(tokens, at)) {
        Parsed::Accepted { value, next } => match expect(
            tokens,
            next,
            Kind::Semicolon,
            "Expect ';' after value."@,
        ) {
            Parsed::Accepted { value: _, next } => Parsed::Accepted {
                value: StatementView::Expression(value),
                next,
            },
            Parsed::Rejected { message } => Parsed::Rejected { message },
        },
        Parsed::Rejected { message } => Parsed::Rejected { message },
    }
}

/// The initializer of a `for` statement: nothing where a semicolon stands
/// right away, else a variable declaration or a statement, which ends with
/// its own semicolon.
#[verifier::opaque]
pub open spec fn for_initializer(tokens: Seq<TokenView>, at: int) -> Parsed<
    Option<Box<StatementView>>,
>
    decreases tokens.len() - at, 292int,
{
    if kind_at(tokens, at) == Kind::Semicolon {
        Parsed::Accepted { value: None, next: after(tokens, at) }
    } else {
        match variable_declaration(tokens, at) {
            Parsed::Accepted { value, next } => Parsed::Accepted {
                value: Some(Box::new(value)),
                next,
            },
            Parsed::Rejected { message } => Parsed::Rejected { message },
        }
    }
}

/// `"(" initializer condition? ";" increment? ")" statement`, read from
/// behind `for`.
#[verifier::opaque]
pub open spec fn for_statement(tokens: Seq<TokenView>, at: int) -> Parsed<StatementView>
    decreases tokens.len() - at, 294int,
{
    match expect(tokens, at, Kind::LeftParen, "Expect '(' after 'for'."@) {
        Parsed::Accepted { value: _, next: start } => match progress(
            tokens,
            start,
            for_initializer(tokens, start),
        ) {
            Parsed::Accepted { value: initializer, next } => match progress(
                tokens,
                next,
                optional_clause(tokens, next, Kind::Semicolon, "Expect ';' after for condition."@),
            ) {
                Parsed::Accepted { value: test, next } => match progress(
                    tokens,
                    next,
                    optional_clause(
                        tokens,
                        next,
                        Kind::RightParen,
                        "Expect ')' after for clauses."@,
                    ),
                ) {
                    Parsed::Accepted { value: increment, next } => match statement(
                        tokens,
                        next,
                    ) {
                        Parsed::Accepted { value: body, next } => Parsed::Accepted {
                            value: StatementView::For(initializer, test, increment, Box::new(body)),
                            next,
                        },
                        Parsed::Rejected { message } => Parsed::Rejected { message },
                    },
                    Parsed::Rejected { message } => Parsed::Rejected { message },
                },
                Parsed::Rejected { message } => Parsed::Rejected { message },
            },
            Parsed::Rejected { message } => Parsed::Rejected { message },
        },
        Parsed::Rejected { message } => Parsed::Rejected { message },
    }
}

/// `declaration* "}"`, read from behind the opening brace and the
/// statements `collected`.
#[verifier::opaque]
pub open spec fn block(tokens: Seq<TokenView>, at: int, collected: Seq<StatementView>) -> Parsed<
    StatementView,
>
    decreases tokens.len() - at, 350int,
{
    let kind = kind_at(tokens, at);
    if kind == Kind::RightBrace {
        Parsed::Accepted { value: StatementView::Block(collected), next: after(tokens, at) }
    } else if kind == Kind::Eof {
        Parsed::Rejected { message: located(line_at(tokens, at), "Expect '}' after block."@) }
    } else {
        match advance(tokens, at, declaration(tokens, at)) {
            Parsed::Accepted { value, next } => block(tokens, next, collected.push(value)),
            Parsed::Rejected { message } => Parsed::Rejected { message },
        }
    }
}

} // verus!
