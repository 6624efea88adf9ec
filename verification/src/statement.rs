//! Statements: what a program does, as trees.

use crate::expression::{Expression, ExpressionView};
use vstd::prelude::*;

verus! {

/// A statement. Each node owns the statements and expressions inside it.
#[derive(Debug, PartialEq)]
pub enum Statement {
    /// `print value;`
    Print(Expression),
    /// `var name;` or `var name = value;`
    Variable(String, Option<Expression>),
    /// `value;`
    Expression(Expression),
    /// `{ statements }`
    Block(Vec<Statement>),
    /// `if (condition) then-branch`, with or without `else else-branch`
    If(Expression, Box<Statement>, Option<Box<Statement>>),
    /// `while (condition) body`
    While(Expression, Box<Statement>),
    /// `for (initializer; condition; increment) body`, each of the three optional
    For(Option<Box<Statement>>, Option<Expression>, Option<Expression>, Box<Statement>),
    /// `fun name(parameters) body`
    Function(String, Vec<String>, Box<Statement>),
    /// `return;` or `return value;`
    Return(Option<Expression>),
}

/// The model of a [`Statement`].
pub enum StatementView {
    Print(ExpressionView),
    Variable(Seq<char>, Option<ExpressionView>),
    Expression(ExpressionView),
    Block(Seq<StatementView>),
    If(ExpressionView, Box<StatementView>, Option<Box<StatementView>>),
    While(ExpressionView, Box<StatementView>),
    For(
        Option<Box<StatementView>>,
        Option<ExpressionView>,
        Option<ExpressionView>,
        Box<StatementView>,
    ),
    Function(Seq<char>, Seq<Seq<char>>, Box<StatementView>),
    Return(Option<ExpressionView>),
}

/// The model of an expression that may be absent.
pub open spec fn optional_expression_view(expression: Option<Expression>) -> Option<
    ExpressionView,
> {
    match expression {
        Some(expression) => Some(expression@),
        None => None,
    }
}

/// The texts of a vector of names, in order.
pub open spec fn name_views(names: Seq<String>) -> Seq<Seq<char>> {
    Seq::new(names.len(), |i: int| names[i]@)
}

/// A copy of an expression that may be absent.
pub fn duplicate_optional_expression(expression: &Option<Expression>) -> (copy: Option<
    Expression,
>)
    ensures
        optional_expression_view(copy) == optional_expression_view(*expression),
{
    match expression {
        Some(expression) => Some(expression.duplicate()),
        None => None,
    }
}

/// A copy of a vector of names.
pub fn duplicate_names(names: &Vec<String>) -> (copy: Vec<String>)
    ensures
        name_views(copy@) == name_views(names@),
{
    let mut copies: Vec<String> = Vec::new();
    let mut index: usize = 0;
    while index < names.len()
        invariant
            index <= names@.len(),
            copies@.len() == index,
            forall|i: int| 0 <= i < index ==> copies@[i]@ == names@[i]@,
        decreases names@.len() - index,
    {
        copies.push(names[index].clone());
        index += 1;
    }
    assert(name_views(copies@) =~= name_views(names@));
    copies
}

impl Statement {
    /// The model of the statement.
    pub open spec fn model(&self) -> StatementView
        decreases self,
    {
        match self {
            Statement::Print(value) => StatementView::Print(value@),
            Statement::Variable(name, initializer) => StatementView::Variable(
                name@,
                optional_expression_view(*initializer),
            ),
            Statement::Expression(value) => StatementView::Expression(value@),
            Statement::Block(statements) => StatementView::Block(
                Seq::new(
                    statements@.len(),
                    |i: int|
                        if 0 <= i < statements@.len() {
                            statements@[i].model()
                        } else {
                            StatementView::Return(None)
                        },
                ),
            ),
            Statement::If(condition, then_branch, else_branch) => StatementView::If(
                condition@,
                Box::new(then_branch.model()),
                match else_branch {
                    Some(else_branch) => Some(Box::new(else_branch.model())),
                    None => None,
                },
            ),
            Statement::While(condition, body) => StatementView::While(
                condition@,
                Box::new(body.model()),
            ),
            Statement::For(initializer, condition, increment, body) => StatementView::For(
                match initializer {
                    Some(initializer) => Some(Box::new(initializer.model())),
                    None => None,
                },
                optional_expression_view(*condition),
                optional_expression_view(*increment),
                Box::new(body.model()),
            ),
            Statement::Function(name, parameters, body) => StatementView::Function(
                name@,
                name_views(parameters@),
                Box::new(body.model()),
            ),
            Statement::Return(value) => StatementView::Return(optional_expression_view(*value)),
        }
    }

    /// A copy of the statement.
    #[verifier::loop_isolation(false)]
    pub fn duplicate(&self) -> (copy: Statement)
        ensures
            copy@ == self@,
        decreases self,
    {
        match self {
            Statement::Print(value) => Statement::Print(value.duplicate()),
            Statement::Variable(name, initializer) => Statement::Variable(
                name.clone(),
                duplicate_optional_expression(initializer),
            ),
            Statement::Expression(value) => Statement::Expression(value.duplicate()),
            Statement::Block(statements) => {
                let mut copies: Vec<Statement> = Vec::new();
                let mut index: usize = 0;
                while index < statements.len()
                    invariant
                        index <= statements@.len(),
                        copies@.len() == index,
                        forall|i: int| 0 <= i < index ==> copies@[i]@ == statements@[i]@,
                    decreases statements@.len() - index,
                {
                    copies.push(statements[index].duplicate());
                    index += 1;
                }
                let copy = Statement::Block(copies);
                proof {
                    assert(copy@->Block_0 =~= self@->Block_0);
                }
                copy
            },
            Statement::If(condition, then_branch, else_branch) => Statement::If(
                condition.duplicate(),
                Box::new(then_branch.duplicate()),
                match else_branch {
                    Some(else_branch) => Some(Box::new(else_branch.duplicate())),
                    None => None,
                },
            ),
            Statement::While(condition, body) => Statement::While(
                condition.duplicate(),
                Box::new(body.duplicate()),
            ),
            Statement::For(initializer, condition, increment, body) => Statement::For(
                match initializer {
                    Some(initializer) => Some(Box::new(initializer.duplicate())),
                    None => None,
                },
                duplicate_optional_expression(condition),
                duplicate_optional_expression(increment),
                Box::new(body.duplicate()),
            ),
            Statement::Function(name, parameters, body) => Statement::Function(
                name.clone(),
                duplicate_names(parameters),
                Box::new(body.duplicate()),
            ),
            Statement::Return(value) => Statement::Return(duplicate_optional_expression(value)),
        }
    }
}

impl View for Statement {
    type V = StatementView;

    open spec fn view(&self) -> StatementView {
        self.model()
    }
}

impl Clone for Statement {
    fn clone(&self) -> (copy: Self)
        ensures
            copy@ == self@,
    {
        self.duplicate()
    }
}

/// The models of the statements of a vector, in order.
pub open spec fn statement_views(statements: Seq<Statement>) -> Seq<StatementView> {
    Seq::new(statements.len(), |i: int| statements[i]@)
}

/// The model of a block holds the models of its statements.
pub proof fn lemma_block_view(statements: Vec<Statement>)
    ensures
        Statement::Block(statements)@ == StatementView::Block(statement_views(statements@)),
{
    assert(Statement::Block(statements)@->Block_0 =~= statement_views(statements@));
}

} // verus!
