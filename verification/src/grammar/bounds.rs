//! Every parse that accepts ends within the tokens, at or behind the
//! position where it started. So holding a parse to the tokens, as
//! [`progress`] and [`advance`] do, changes nothing.

use crate::expression::ExpressionView;
use crate::grammar::{
    advance, after, arguments, assignment, assignment_rest, binary, binary_rest, block, call,
    call_rest, condition, declaration, expect, expression, expression_statement, finish_call,
    for_initializer, for_statement, function_declaration, kind_at, level_operation, level_rank,
    logical_and, logical_and_rest, logical_or, logical_or_rest, operand, optional_clause,
    parameters, primary, program, progress, statement, token_at, unary, variable_declaration,
    Level, Parsed,
};
use crate::statement::StatementView;
use crate::token::{Kind, TokenView};
use vstd::prelude::*;

verus! {

/// Whether a parse that started at `at`, where it accepted, ended within the
/// tokens and not before `at`.
pub open spec fn stays<T>(tokens: Seq<TokenView>, at: int, parsed: Parsed<T>) -> bool {
    match parsed {
        Parsed::Accepted { next, .. } => at <= next <= tokens.len(),
        Parsed::Rejected { .. } => true,
    }
}

/// Whether a parse that started at `at`, where it accepted, ended within the
/// tokens and behind `at`: it read at least one token.
pub open spec fn moves<T>(tokens: Seq<TokenView>, at: int, parsed: Parsed<T>) -> bool {
    match parsed {
        Parsed::Accepted { next, .. } => at < next <= tokens.len(),
        Parsed::Rejected { .. } => true,
    }
}

/// A parse that stays within the tokens is as it is when it is held to them.
pub proof fn lemma_progress_changes_nothing<T>(tokens: Seq<TokenView>, at: int, parsed: Parsed<T>)
    requires
        stays(tokens, at, parsed),
    ensures
        progress(tokens, at, parsed) == parsed,
{
}

/// A parse that moves within the tokens is as it is when it is held to the
/// tokens behind its start.
pub proof fn lemma_advance_changes_nothing<T>(tokens: Seq<TokenView>, at: int, parsed: Parsed<T>)
    requires
        moves(tokens, at, parsed),
    ensures
        advance(tokens, at, parsed) == parsed,
{
}

pub proof fn lemma_expression_moves(tokens: Seq<TokenView>, at: int)
    requires
        0 <= at <= tokens.len(),
    ensures
        moves(tokens, at, expression(tokens, at)),
    decreases tokens.len() - at, 200int,
{
    reveal(expression);
    reveal(assignment);
    lemma_assignment_moves(tokens, at);
}

pub proof fn lemma_assignment_moves(tokens: Seq<TokenView>, at: int)
    requires
        0 <= at <= tokens.len(),
    ensures
        moves(tokens, at, assignment(tokens, at)),
    decreases tokens.len() - at, 190int,
{
    reveal(assignment);
    reveal(assignment_rest);
    reveal(logical_or);
    lemma_logical_or_moves(tokens, at);
    match logical_or(tokens, at) {
        Parsed::Accepted { value, next } => {
            lemma_assignment_rest_stays(tokens, next, value);
        },
        Parsed::Rejected { .. } => {},
    }
}

pub proof fn lemma_assignment_rest_stays(tokens: Seq<TokenView>, at: int, target: ExpressionView)
    requires
        0 <= at <= tokens.len(),
    ensures
        stays(tokens, at, assignment_rest(tokens, at, target)),
    decreases tokens.len() - at, 185int,
{
    reveal(assignment_rest);
    reveal(expression);
    if kind_at(tokens, at) == Kind::Equal && 0 <= at < tokens.len() {
        match target {
            ExpressionView::Variable(name) => {
                lemma_expression_moves(tokens, at + 1);
                match expression(tokens, at + 1) {
                    Parsed::Accepted { value, next } => {
                        lemma_assignment_rest_stays(
                            tokens,
                            next,
                            ExpressionView::Assign(name, Box::new(value)),
                        );
                    },
                    Parsed::Rejected { .. } => {},
                }
            },
            _ => {},
        }
    }
}

pub proof fn lemma_logical_or_moves(tokens: Seq<TokenView>, at: int)
    requires
        0 <= at <= tokens.len(),
    ensures
        moves(tokens, at, logical_or(tokens, at)),
    decreases tokens.len() - at, 180int,
{
    reveal(logical_or);
    reveal(logical_or_rest);
    reveal(logical_and);
    lemma_logical_and_moves(tokens, at);
    match logical_and(tokens, at) {
        Parsed::Accepted { value, next } => {
            lemma_logical_or_rest_stays(tokens, next, value);
        },
        Parsed::Rejected { .. } => {},
    }
}

pub proof fn lemma_logical_or_rest_stays(tokens: Seq<TokenView>, at: int, left: ExpressionView)
    requires
        0 <= at <= tokens.len(),
    ensures
        stays(tokens, at, logical_or_rest(tokens, at, left)),
    decreases tokens.len() - at, 175int,
{
    reveal(logical_or_rest);
    reveal(logical_and);
    if kind_at(tokens, at) == Kind::Or && 0 <= at < tokens.len() {
        lemma_logical_and_moves(tokens, at + 1);
        match logical_and(tokens, at + 1) {
            Parsed::Accepted { value, next } => {
                lemma_logical_or_rest_stays(
                    tokens,
                    next,
                    ExpressionView::Or(Box::new(left), Box::new(value)),
                );
            },
            Parsed::Rejected { .. } => {},
        }
    }
}

pub proof fn lemma_logical_and_moves(tokens: Seq<TokenView>, at: int)
    requires
        0 <= at <= tokens.len(),
    ensures
        moves(tokens, at, logical_and(tokens, at)),
    decreases tokens.len() - at, 170int,
{
    reveal(logical_and);
    reveal(logical_and_rest);
    reveal(binary);
    lemma_binary_moves(tokens, at, Level::Equality);
    match binary(tokens, at, Level::Equality) {
        Parsed::Accepted { value, next } => {
            lemma_logical_and_rest_stays(tokens, next, value);
        },
        Parsed::Rejected { .. } => {},
    }
}

pub proof fn lemma_logical_and_rest_stays(tokens: Seq<TokenView>, at: int, left: ExpressionView)
    requires
        0 <= at <= tokens.len(),
    ensures
        stays(tokens, at, logical_and_rest(tokens, at, left)),
    decreases tokens.len() - at, 165int,
{
    reveal(logical_and_rest);
    reveal(binary);
    if kind_at(tokens, at) == Kind::And && 0 <= at < tokens.len() {
        lemma_binary_moves(tokens, at + 1, Level::Equality);
        match binary(tokens, at + 1, Level::Equality) {
            Parsed::Accepted { value, next } => {
                lemma_logical_and_rest_stays(
                    tokens,
                    next,
                    ExpressionView::And(Box::new(left), Box::new(value)),
                );
            },
            Parsed::Rejected { .. } => {},
        }
    }
}

pub proof fn lemma_operand_moves(tokens: Seq<TokenView>, at: int, level: Level)
    requires
        0 <= at <= tokens.len(),
    ensures
        moves(tokens, at, operand(tokens, at, level)),
    decreases tokens.len() - at, level_rank(level) - 7,
{
    reveal(operand);
    reveal(binary);
    reveal(unary);
    match level {
        Level::Equality => lemma_binary_moves(tokens, at, Level::Comparison),
        Level::Comparison => lemma_binary_moves(tokens, at, Level::Term),
        Level::Term => lemma_binary_moves(tokens, at, Level::Factor),
        Level::Factor => lemma_unary_moves(tokens, at),
    }
}

pub proof fn lemma_binary_moves(tokens: Seq<TokenView>, at: int, level: Level)
    requires
        0 <= at <= tokens.len(),
    ensures
        moves(tokens, at, binary(tokens, at, level)),
    decreases tokens.len() - at, level_rank(level),
{
    reveal(binary);
    reveal(binary_rest);
    reveal(operand);
    lemma_operand_moves(tokens, at, level);
    match operand(tokens, at, level) {
        Parsed::Accepted { value, next } => {
            lemma_binary_rest_stays(tokens, next, level, value);
        },
        Parsed::Rejected { .. } => {},
    }
}

pub proof fn lemma_binary_rest_stays(
    tokens: Seq<TokenView>,
    at: int,
    level: Level,
    left: ExpressionView,
)
    requires
        0 <= at <= tokens.len(),
    ensures
        stays(tokens, at, binary_rest(tokens, at, level, left)),
    decreases tokens.len() - at, level_rank(level) - 5,
{
    reveal(binary_rest);
    reveal(operand);
    match level_operation(level, kind_at(tokens, at)) {
        Some(operation) => {
            if 0 <= at < tokens.len() {
                lemma_operand_moves(tokens, at + 1, level);
                match operand(tokens, at + 1, level) {
                    Parsed::Accepted { value, next } => {
                        lemma_binary_rest_stays(
                            tokens,
                            next,
                            level,
                            ExpressionView::Binary(operation, Box::new(left), Box::new(value)),
                        );
                    },
                    Parsed::Rejected { .. } => {},
                }
            }
        },
        None => {},
    }
}

pub proof fn lemma_unary_moves(tokens: Seq<TokenView>, at: int)
    requires
        0 <= at <= tokens.len(),
    ensures
        moves(tokens, at, unary(tokens, at)),
    decreases tokens.len() - at, 120int,
{
    reveal(unary);
    reveal(call);
    let kind = kind_at(tokens, at);
    if (kind == Kind::Minus || kind == Kind::Bang) && 0 <= at < tokens.len() {
        lemma_unary_moves(tokens, at + 1);
    } else {
        lemma_call_moves(tokens, at);
    }
}

pub proof fn lemma_call_moves(tokens: Seq<TokenView>, at: int)
    requires
        0 <= at <= tokens.len(),
    ensures
        moves(tokens, at, call(tokens, at)),
    decreases tokens.len() - at, 110int,
{
    reveal(call);
    reveal(call_rest);
    reveal(primary);
    lemma_primary_moves(tokens, at);
    match primary(tokens, at) {
        Parsed::Accepted { value, next } => {
            lemma_call_rest_stays(tokens, next, value);
        },
        Parsed::Rejected { .. } => {},
    }
}

pub proof fn lemma_call_rest_stays(tokens: Seq<TokenView>, at: int, callee: ExpressionView)
    requires
        0 <= at <= tokens.len(),
    ensures
        stays(tokens, at, call_rest(tokens, at, callee)),
    decreases tokens.len() - at, 105int,
{
    reveal(call_rest);
    reveal(finish_call);
    if kind_at(tokens, at) == Kind::LeftParen && 0 <= at < tokens.len() {
        lemma_finish_call_moves(tokens, at + 1);
        match finish_call(tokens, at + 1) {
            Parsed::Accepted { value, next } => {
                lemma_call_rest_stays(
                    tokens,
                    next,
                    ExpressionView::Call(Box::new(callee), value),
                );
            },
            Parsed::Rejected { .. } => {},
        }
    }
}

pub proof fn lemma_finish_call_moves(tokens: Seq<TokenView>, at: int)
    requires
        0 <= at <= tokens.len(),
    ensures
        moves(tokens, at, finish_call(tokens, at)),
    decreases tokens.len() - at, 260int,
{
    reveal(finish_call);
    reveal(arguments);
    if kind_at(tokens, at) != Kind::RightParen {
        lemma_arguments_move(tokens, at, Seq::empty());
    }
}

pub proof fn lemma_arguments_move(
    tokens: Seq<TokenView>,
    at: int,
    collected: Seq<ExpressionView>,
)
    requires
        0 <= at <= tokens.len(),
    ensures
        moves(tokens, at, arguments(tokens, at, collected)),
    decreases tokens.len() - at, 250int,
{
    reveal(arguments);
    reveal(expression);
    lemma_expression_moves(tokens, at);
    match expression(tokens, at) {
        Parsed::Accepted { value, next } => {
            if kind_at(tokens, next) == Kind::Comma && 0 <= next < tokens.len() {
                lemma_arguments_move(tokens, next + 1, collected.push(value));
            }
        },
        Parsed::Rejected { .. } => {},
    }
}

pub proof fn lemma_primary_moves(tokens: Seq<TokenView>, at: int)
    requires
        0 <= at <= tokens.len(),
    ensures
        moves(tokens, at, primary(tokens, at)),
    decreases tokens.len() - at, 100int,
{
    reveal(primary);
    reveal(expression);
    if token_at(tokens, at).kind == Kind::LeftParen && 0 <= at < tokens.len() {
        lemma_expression_moves(tokens, at + 1);
    }
}

pub proof fn lemma_program_stays(tokens: Seq<TokenView>, at: int, collected: Seq<StatementView>)
    requires
        0 <= at <= tokens.len(),
    ensures
        stays(tokens, at, program(tokens, at, collected)),
    decreases tokens.len() - at, 400int,
{
    reveal(program);
    reveal(declaration);
    if kind_at(tokens, at) != Kind::Eof {
        lemma_declaration_moves(tokens, at);
        match declaration(tokens, at) {
            Parsed::Accepted { value, next } => {
                lemma_program_stays(tokens, next, collected.push(value));
            },
            Parsed::Rejected { .. } => {},
        }
    }
}

pub proof fn lemma_declaration_moves(tokens: Seq<TokenView>, at: int)
    requires
        0 <= at <= tokens.len(),
    ensures
        moves(tokens, at, declaration(tokens, at)),
    decreases tokens.len() - at, 300int,
{
    reveal(declaration);
    reveal(function_declaration);
    reveal(variable_declaration);
    if kind_at(tokens, at) == Kind::Fun && 0 <= at < tokens.len() {
        lemma_function_declaration_stays(tokens, at + 1);
    } else {
        lemma_variable_declaration_moves(tokens, at);
    }
}

pub proof fn lemma_function_declaration_stays(tokens: Seq<TokenView>, at: int)
    requires
        0 <= at <= tokens.len(),
    ensures
        stays(tokens, at, function_declaration(tokens, at)),
    decreases tokens.len() - at, 295int,
{
    reveal(function_declaration);
    reveal(parameters);
    reveal(statement);
    let name = token_at(tokens, at);
    let behind_name = after(tokens, at);
    if name.kind == Kind::Identifier {
        match expect(tokens, behind_name, Kind::LeftParen, "Expect '(' after function name."@) {
            Parsed::Accepted { value: _, next: first } => {
                if kind_at(tokens, first) != Kind::RightParen {
                    lemma_parameters_stay(tokens, first, Seq::empty());
                }
                let listed = if kind_at(tokens, first) != Kind::RightParen {
                    parameters(tokens, first, Seq::empty())
                } else {
                    Parsed::Accepted { value: Seq::empty(), next: first }
                };
                match listed {
                    Parsed::Accepted { value: _, next: closing } => {
                        match expect(
                            tokens,
                            closing,
                            Kind::RightParen,
                            "Expect ')' after parameters."@,
                        ) {
                            Parsed::Accepted { value: _, next: start } => {
                                lemma_statement_moves(tokens, start);
                            },
                            Parsed::Rejected { .. } => {},
                        }
                    },
                    Parsed::Rejected { .. } => {},
                }
            },
            Parsed::Rejected { .. } => {},
        }
    }
}

pub proof fn lemma_parameters_stay(tokens: Seq<TokenView>, at: int, collected: Seq<Seq<char>>)
    requires
        0 <= at <= tokens.len(),
    ensures
        stays(tokens, at, parameters(tokens, at, collected)),
    decreases tokens.len() - at,
{
    reveal(parameters);
    let name = token_at(tokens, at);
    let behind_name = after(tokens, at);
    if collected.len() < 255 && name.kind == Kind::Identifier && kind_at(tokens, behind_name)
        == Kind::Comma && behind_name < tokens.len() {
        lemma_parameters_stay(tokens, behind_name + 1, collected.push(name.text));
    }
}

pub proof fn lemma_variable_declaration_moves(tokens: Seq<TokenView>, at: int)
    requires
        0 <= at <= tokens.len(),
    ensures
        moves(tokens, at, variable_declaration(tokens, at)),
    decreases tokens.len() - at, 290int,
{
    reveal(variable_declaration);
    reveal(expression);
    reveal(statement);
    if kind_at(tokens, at) == Kind::Var && 0 <= at < tokens.len() {
        let name = token_at(tokens, at + 1);
        let behind_name = after(tokens, at + 1);
        if name.kind == Kind::Identifier && kind_at(tokens, behind_name) == Kind::Equal
            && behind_name < tokens.len() {
            lemma_expression_moves(tokens, behind_name + 1);
        }
    } else {
        lemma_statement_moves(tokens, at);
    }
}

pub proof fn lemma_optional_clause_moves(
    tokens: Seq<TokenView>,
    at: int,
    closing: Kind,
    text: Seq<char>,
)
    requires
        0 <= at <= tokens.len(),
        closing != Kind::Eof,
    ensures
        moves(tokens, at, optional_clause(tokens, at, closing, text)),
    decreases tokens.len() - at, 270int,
{
    reveal(optional_clause);
    reveal(expression);
    if kind_at(tokens, at) != closing {
        lemma_expression_moves(tokens, at);
    }
}

pub proof fn lemma_condition_moves(
    tokens: Seq<TokenView>,
    at: int,
    opening: Seq<char>,
    closing: Seq<char>,
)
    requires
        0 <= at <= tokens.len(),
    ensures
        moves(tokens, at, condition(tokens, at, opening, closing)),
    decreases tokens.len() - at, 270int,
{
    reveal(condition);
    reveal(expression);
    match expect(tokens, at, Kind::LeftParen, opening) {
        Parsed::Accepted { value: _, next: start } => {
            lemma_expression_moves(tokens, start);
        },
        Parsed::Rejected { .. } => {},
    }
}

pub proof fn lemma_statement_moves(tokens: Seq<TokenView>, at: int)
    requires
        0 <= at <= tokens.len(),
    ensures
        moves(tokens, at, statement(tokens, at)),
    decreases tokens.len() - at, 280int,
{
    reveal(statement);
    reveal(expression);
    reveal(expression_statement);
    reveal(optional_clause);
    reveal(block);
    reveal(condition);
    reveal(for_statement);
    let kind = kind_at(tokens, at);
    if !(0 <= at < tokens.len()) {
        lemma_expression_statement_moves(tokens, at);
    } else if kind == Kind::Print {
        lemma_expression_moves(tokens, at + 1);
    } else if kind == Kind::Return {
        lemma_optional_clause_moves(
            tokens,
            at + 1,
            Kind::Semicolon,
            "Expect ';' after return value."@,
        );
    } else if kind == Kind::LeftBrace {
        lemma_block_moves(tokens, at + 1, Seq::empty());
    } else if kind == Kind::If {
        lemma_condition_moves(
            tokens,
            at + 1,
            "Expect '(' after 'if'."@,
            "Expect ')' after if condition."@,
        );
        match condition(
            tokens,
            at + 1,
            "Expect '(' after 'if'."@,
            "Expect ')' after if condition."@,
        ) {
            Parsed::Accepted { value: _, next: start } => {
                lemma_statement_moves(tokens, start);
                match statement(tokens, start) {
                    Parsed::Accepted { value: _, next } => {
                        if kind_at(tokens, next) == Kind::Else && next < tokens.len() {
                            lemma_statement_moves(tokens, next + 1);
                        }
                    },
                    Parsed::Rejected { .. } => {},
                }
            },
            Parsed::Rejected { .. } => {},
        }
    } else if kind == Kind::While {
        lemma_condition_moves(
            tokens,
            at + 1,
            "Expect '(' after 'while'."@,
            "Expect ')' after condition."@,
        );
        match condition(
            tokens,
            at + 1,
            "Expect '(' after 'while'."@,
            "Expect ')' after condition."@,
        ) {
            Parsed::Accepted { value: _, next: start } => {
                lemma_statement_moves(tokens, start);
            },
            Parsed::Rejected { .. } => {},
        }
    } else if kind == Kind::For {
        lemma_for_statement_moves(tokens, at + 1);
    } else {
        lemma_expression_statement_moves(tokens, at);
    }
}

pub proof fn lemma_expression_statement_moves(tokens: Seq<TokenView>, at: int)
    requires
        0 <= at <= tokens.len(),
    ensures
        moves(tokens, at, expression_statement(tokens, at)),
    decreases tokens.len() - at, 270int,
{
    reveal(expression_statement);
    reveal(expression);
    lemma_expression_moves(tokens, at);
}

pub proof fn lemma_for_initializer_moves(tokens: Seq<TokenView>, at: int)
    requires
        0 <= at <= tokens.len(),
    ensures
        moves(tokens, at, for_initializer(tokens, at)),
    decreases tokens.len() - at, 292int,
{
    reveal(for_initializer);
    reveal(variable_declaration);
    if kind_at(tokens, at) != Kind::Semicolon {
        lemma_variable_declaration_moves(tokens, at);
    }
}

pub proof fn lemma_for_statement_moves(tokens: Seq<TokenView>, at: int)
    requires
        0 <= at <= tokens.len(),
    ensures
        moves(tokens, at, for_statement(tokens, at)),
    decreases tokens.len() - at, 294int,
{
    reveal(for_statement);
    reveal(for_initializer);
    reveal(optional_clause);
    reveal(statement);
    match expect(tokens, at, Kind::LeftParen, "Expect '(' after 'for'."@) {
        Parsed::Accepted { value: _, next: start } => {
            lemma_for_initializer_moves(tokens, start);
            match for_initializer(tokens, start) {
                Parsed::Accepted { value: _, next } => {
                    lemma_optional_clause_moves(
                        tokens,
                        next,
                        Kind::Semicolon,
                        "Expect ';' after for condition."@,
                    );
                    match optional_clause(
                        tokens,
                        next,
                        Kind::Semicolon,
                        "Expect ';' after for condition."@,
                    ) {
                        Parsed::Accepted { value: _, next } => {
                            lemma_optional_clause_moves(
                                tokens,
                                next,
                                Kind::RightParen,
                                "Expect ')' after for clauses."@,
                            );
                            match optional_clause(
                                tokens,
                                next,
                                Kind::RightParen,
                                "Expect ')' after for clauses."@,
                            ) {
                                Parsed::Accepted { value: _, next } => {
                                    lemma_statement_moves(tokens, next);
                                },
                                Parsed::Rejected { .. } => {},
                            }
                        },
                        Parsed::Rejected { .. } => {},
                    }
                },
                Parsed::Rejected { .. } => {},
            }
        },
        Parsed::Rejected { .. } => {},
    }
}

pub proof fn lemma_block_moves(tokens: Seq<TokenView>, at: int, collected: Seq<StatementView>)
    requires
        0 <= at <= tokens.len(),
    ensures
        moves(tokens, at, block(tokens, at, collected)),
    decreases tokens.len() - at, 350int,
{
    reveal(block);
    reveal(declaration);
    let kind = kind_at(tokens, at);
    if kind != Kind::RightBrace && kind != Kind::Eof {
        lemma_declaration_moves(tokens, at);
        match declaration(tokens, at) {
            Parsed::Accepted { value, next } => {
                lemma_block_moves(tokens, next, collected.push(value));
            },
            Parsed::Rejected { .. } => {},
        }
    }
}

} // verus!
