//! The text forms of tokens, expressions and statements.
//!
//! A token is listed as its kind, its lexeme and its literal value. An
//! expression or a statement is written in prefix form, with parentheses
//! around every node. A number is shown by the host, so the text of a tree
//! that holds numerals is stated against a script of exchanges as the
//! meaning of a program is: see [`crate::semantics`].

use crate::expression::{binary_sign, unary_sign, Expression, ExpressionView, Literal, LiteralView};
use crate::host::{read_at, shown_at, Exchange};
use crate::number::{integral, Number};
use crate::statement::StatementView;
use crate::token::{kind_name, Kind, TokenView};
use vstd::prelude::*;

mod statements;
mod writing;

pub use statements::statements_to_text;
pub use writing::{names_to_text, numeral_to_text};

verus! {

/// A text written against a script.
pub enum Written {
    /// The text, and the cursor behind the exchanges that writing it took.
    Done { text: Seq<char>, cursor: int },
    /// The script does not hold the exchanges that writing the text takes.
    Stuck,
}

/// `text`, with `before` in front of it and `after` behind it.
pub open spec fn wrapped(before: Seq<char>, written: Written, after: Seq<char>) -> Written {
    match written {
        Written::Done { text, cursor } => Written::Done { text: before + text + after, cursor },
        Written::Stuck => Written::Stuck,
    }
}

/// The number of digits behind the dot with which a number is shown in a
/// tree or a token listing: one where it has no fractional part, and as
/// many as it takes (`None`) where it has one.
pub open spec fn literal_decimals(number: Number) -> Option<u8> {
    if integral(number) {
        Some(1u8)
    } else {
        None
    }
}

/// The text of a numeral: the host reads it and shows the number.
pub open spec fn numeral_text(numeral: Seq<char>, script: Seq<Exchange>, cursor: int) -> Written {
    match read_at(script, cursor, numeral) {
        Some(number) => match shown_at(script, cursor + 1, number, literal_decimals(number)) {
            Some(text) => Written::Done { text, cursor: cursor + 2 },
            None => Written::Stuck,
        },
        None => Written::Stuck,
    }
}

/// The text of a literal.
pub open spec fn literal_text(literal: LiteralView, script: Seq<Exchange>, cursor: int)
    -> Written {
    match literal {
        LiteralView::Bool(value) => Written::Done {
            text: if value {
                "true"@
            } else {
                "false"@
            },
            cursor,
        },
        LiteralView::Number(numeral) => numeral_text(numeral, script, cursor),
        LiteralView::String(text) => Written::Done { text, cursor },
        LiteralView::Nil => Written::Done { text: "nil"@, cursor },
    }
}

/// The listing of a token: the name of its kind, its lexeme, and its
/// literal value or `null`.
pub open spec fn token_text(token: TokenView, script: Seq<Exchange>, cursor: int) -> Written {
    let head = kind_name(token.kind) + " "@ + token.lexeme + " "@;
    match token.kind {
        Kind::String => Written::Done { text: head + token.text, cursor },
        Kind::Number => wrapped(head, numeral_text(token.text, script, cursor), Seq::empty()),
        _ => Written::Done { text: head + "null"@, cursor },
    }
}

/// The text of an expression.
#[verifier::opaque]
pub open spec fn expression_text(expression: ExpressionView, script: Seq<Exchange>, cursor: int)
    -> Written
    decreases expression, 0int,
{
    match expression {
        ExpressionView::Literal(literal) => literal_text(literal, script, cursor),
        ExpressionView::Grouping(inner) => wrapped(
            "(group "@,
            expression_text(*inner, script, cursor),
            ")"@,
        ),
        ExpressionView::Unary(operation, operand) => wrapped(
            "("@ + unary_sign(operation) + " "@,
            expression_text(*operand, script, cursor),
            ")"@,
        ),
        ExpressionView::Binary(operation, left, right) => match expression_text(
            *left,
            script,
            cursor,
        ) {
            Written::Done { text: first, cursor } => wrapped(
                "("@ + binary_sign(operation) + " "@ + first + " "@,
                expression_text(*right, script, cursor),
                ")"@,
            ),
            Written::Stuck => Written::Stuck,
        },
        ExpressionView::Variable(name) => Written::Done {
            text: "(variable "@ + name + ")"@,
            cursor,
        },
        ExpressionView::Assign(name, value) => wrapped(
            "(assign "@ + name + " "@,
            expression_text(*value, script, cursor),
            ")"@,
        ),
        ExpressionView::And(left, right) => match expression_text(*left, script, cursor) {
            Written::Done { text: first, cursor } => wrapped(
                "("@ + first + " and "@,
                expression_text(*right, script, cursor),
                ")"@,
            ),
            Written::Stuck => Written::Stuck,
        },
        ExpressionView::Or(left, right) => match expression_text(*left, script, cursor) {
            Written::Done { text: first, cursor } => wrapped(
                "("@ + first + " or "@,
                expression_text(*right, script, cursor),
                ")"@,
            ),
            Written::Stuck => Written::Stuck,
        },
        ExpressionView::Call(callee, arguments) => match expression_text(
            *callee,
            script,
            cursor,
        ) {
            Written::Done { text: called, cursor } => if arguments.len() == 0 {
                Written::Done { text: "(call "@ + called + ")"@, cursor }
            } else {
                wrapped(
                    "(call "@ + called + " "@,
                    expressions_text(arguments, 0, script, cursor),
                    ")"@,
                )
            },
            Written::Stuck => Written::Stuck,
        },
    }
}

/// The texts of the expressions from `from` on, with a space between one
/// and the next.
#[verifier::opaque]
pub open spec fn expressions_text(
    expressions: Seq<ExpressionView>,
    from: int,
    script: Seq<Exchange>,
    cursor: int,
) -> Written
    decreases expressions, expressions.len() - from,
{
    if 0 <= from < expressions.len() {
        match expression_text(expressions[from], script, cursor) {
            Written::Done { text, cursor } => if from + 1 < expressions.len() {
                wrapped(
                    text + " "@,
                    expressions_text(expressions, from + 1, script, cursor),
                    Seq::empty(),
                )
            } else {
                Written::Done { text, cursor }
            },
            Written::Stuck => Written::Stuck,
        }
    } else {
        Written::Done { text: Seq::empty(), cursor }
    }
}

/// The names from `from` on, with a comma and a space between one and the
/// next.
pub open spec fn names_text(names: Seq<Seq<char>>, from: int) -> Seq<char>
    decreases names.len() - from,
{
    if 0 <= from < names.len() {
        if from + 1 < names.len() {
            names[from] + ", "@ + names_text(names, from + 1)
        } else {
            names[from]
        }
    } else {
        Seq::empty()
    }
}

/// The text of an expression that may be absent: nothing where it is.
pub open spec fn optional_text(expression: Option<ExpressionView>, script: Seq<Exchange>, cursor: int)
    -> Written {
    match expression {
        Some(expression) => expression_text(expression, script, cursor),
        None => Written::Done { text: Seq::empty(), cursor },
    }
}

/// The text of a statement.
#[verifier::opaque]
pub open spec fn statement_text(statement: StatementView, script: Seq<Exchange>, cursor: int)
    -> Written
    decreases statement, 0int,
{
    match statement {
        StatementView::Print(value) => wrapped(
            "(print (; "@,
            expression_text(value, script, cursor),
            "))"@,
        ),
        StatementView::Variable(name, initializer) => match initializer {
            Some(value) => wrapped(
                "(var "@ + name + " = (; "@,
                expression_text(value, script, cursor),
                "))"@,
            ),
            None => Written::Done { text: "(var "@ + name + ")"@, cursor },
        },
        StatementView::Expression(value) => wrapped(
            "(; "@,
            expression_text(value, script, cursor),
            ")"@,
        ),
        StatementView::Block(statements) => wrapped(
            "(block ("@,
            statements_text(statements, 0, script, cursor),
            "))"@,
        ),
        StatementView::If(condition, then_branch, else_branch) => match expression_text(
            condition,
            script,
            cursor,
        ) {
            Written::Done { text: test, cursor } => match statement_text(
                *then_branch,
                script,
                cursor,
            ) {
                Written::Done { text: first, cursor } => match else_branch {
                    Some(else_branch) => wrapped(
                        "(if "@ + test + ", "@ + first + " "@,
                        statement_text(*else_branch, script, cursor),
                        ")"@,
                    ),
                    None => Written::Done { text: "(if "@ + test + ", "@ + first + ")"@, cursor },
                },
                Written::Stuck => Written::Stuck,
            },
            Written::Stuck => Written::Stuck,
        },
        StatementView::While(condition, body) => match expression_text(
            condition,
            script,
            cursor,
        ) {
            Written::Done { text: test, cursor } => wrapped(
                "(while ("@ + test + ") "@,
                statement_text(*body, script, cursor),
                ")"@,
            ),
            Written::Stuck => Written::Stuck,
        },
        StatementView::For(initializer, condition, increment, body) => {
            let first = match initializer {
                Some(initializer) => statement_text(*initializer, script, cursor),
                None => Written::Done { text: Seq::empty(), cursor },
            };
            match first {
                Written::Done { text: first, cursor } => match optional_text(
                    condition,
                    script,
                    cursor,
                ) {
                    Written::Done { text: test, cursor } => match optional_text(
                        increment,
                        script,
                        cursor,
                    ) {
                        Written::Done { text: step, cursor } => wrapped(
                            "(for ("@ + first + ";"@ + test + ";"@ + step + ") "@,
                            statement_text(*body, script, cursor),
                            ")"@,
                        ),
                        Written::Stuck => Written::Stuck,
                    },
                    Written::Stuck => Written::Stuck,
                },
                Written::Stuck => Written::Stuck,
            }
        },
        StatementView::Function(name, parameters, body) => wrapped(
            "(function "@ + name + "("@ + names_text(parameters, 0) + ") "@,
            statement_text(*body, script, cursor),
            ")"@,
        ),
        StatementView::Return(value) => match value {
            Some(value) => wrapped(
                "(return (; "@,
                expression_text(value, script, cursor),
                "))"@,
            ),
            None => Written::Done { text: "(return)"@, cursor },
        },
    }
}

/// The texts of the statements from `from` on, with a space between one and
/// the next.
#[verifier::opaque]
pub open spec fn statements_text(
    statements: Seq<StatementView>,
    from: int,
    script: Seq<Exchange>,
    cursor: int,
) -> Written
    decreases statements, statements.len() - from,
{
    if 0 <= from < statements.len() {
        match statement_text(statements[from], script, cursor) {
            Written::Done { text, cursor } => if from + 1 < statements.len() {
                wrapped(
                    text + " "@,
                    statements_text(statements, from + 1, script, cursor),
                    Seq::empty(),
                )
            } else {
                Written::Done { text, cursor }
            },
            Written::Stuck => Written::Stuck,
        }
    } else {
        Written::Done { text: Seq::empty(), cursor }
    }
}

/// Whether a model text is `text`, written up to the end of `history`.
pub open spec fn written(model: Written, text: Seq<char>, history: Seq<Exchange>) -> bool {
    model == (Written::Done { text, cursor: history.len() as int })
}

} // verus!
