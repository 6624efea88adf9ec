//! Expressions: the values that a program computes, as trees.

use vstd::prelude::*;

verus! {

/// A value written in the source. A number is kept as the numeral that was
/// written; it becomes a number when it is evaluated or shown.
#[derive(Debug, PartialEq)]
pub enum Literal {
    Bool(bool),
    Number(String),
    String(String),
    Nil,
}

/// The model of a [`Literal`].
pub enum LiteralView {
    Bool(bool),
    Number(Seq<char>),
    String(Seq<char>),
    Nil,
}

impl View for Literal {
    type V = LiteralView;

    open spec fn view(&self) -> LiteralView {
        match self {
            Literal::Bool(value) => LiteralView::Bool(*value),
            Literal::Number(numeral) => LiteralView::Number(numeral@),
            Literal::String(text) => LiteralView::String(text@),
            Literal::Nil => LiteralView::Nil,
        }
    }
}

impl Clone for Literal {
    fn clone(&self) -> (copy: Self)
        ensures
            copy@ == self@,
    {
        match self {
            Literal::Bool(value) => Literal::Bool(*value),
            Literal::Number(numeral) => Literal::Number(numeral.clone()),
            Literal::String(text) => Literal::String(text.clone()),
            Literal::Nil => Literal::Nil,
        }
    }
}

#[derive(Clone, Copy, Debug, PartialEq, Eq, Structural)]
pub enum UnaryOperation {
    Minus,
    Not,
}

#[derive(Clone, Copy, Debug, PartialEq, Eq, Structural)]
pub enum BinaryOperation {
    Multiply,
    Divide,
    Plus,
    Minus,
    Greater,
    GreaterEqual,
    Less,
    LessEqual,
    Equal,
    NotEqual,
}

/// The sign that stands for a unary operation in the source.
pub open spec fn unary_sign(operation: UnaryOperation) -> Seq<char> {
    match operation {
        UnaryOperation::Minus => "-"@,
        UnaryOperation::Not => "!"@,
    }
}

/// The sign that stands for a binary operation in the source.
pub open spec fn binary_sign(operation: BinaryOperation) -> Seq<char> {
    match operation {
        BinaryOperation::Multiply => "*"@,
        BinaryOperation::Divide => "/"@,
        BinaryOperation::Plus => "+"@,
        BinaryOperation::Minus => "-"@,
        BinaryOperation::Greater => ">"@,
        BinaryOperation::GreaterEqual => ">="@,
        BinaryOperation::Less => "<"@,
        BinaryOperation::LessEqual => "<="@,
        BinaryOperation::Equal => "=="@,
        BinaryOperation::NotEqual => "!="@,
    }
}

impl UnaryOperation {
    /// The sign that stands for the operation in the source.
    pub fn sign(self) -> (sign: &'static str)
        ensures
            sign@ == unary_sign(self),
    {
        match self {
            UnaryOperation::Minus => "-",
            UnaryOperation::Not => "!",
        }
    }
}

impl BinaryOperation {
    /// The sign that stands for the operation in the source.
    pub fn sign(self) -> (sign: &'static str)
        ensures
            sign@ == binary_sign(self),
    {
        match self {
            BinaryOperation::Multiply => "*",
            BinaryOperation::Divide => "/",
            BinaryOperation::Plus => "+",
            BinaryOperation::Minus => "-",
            BinaryOperation::Greater => ">",
            BinaryOperation::GreaterEqual => ">=",
            BinaryOperation::Less => "<",
            BinaryOperation::LessEqual => "<=",
            BinaryOperation::Equal => "==",
            BinaryOperation::NotEqual => "!=",
        }
    }
}

/// An expression. Each node owns its children.
#[derive(Debug, PartialEq)]
pub enum Expression {
    Literal(Literal),
    Grouping(Box<Expression>),
    Unary(UnaryOperation, Box<Expression>),
    Binary(BinaryOperation, Box<Expression>, Box<Expression>),
    Variable(String),
    Assign(String, Box<Expression>),
    And(Box<Expression>, Box<Expression>),
    Or(Box<Expression>, Box<Expression>),
    Call(Box<Expression>, Vec<Expression>),
}

/// The model of an [`Expression`].
pub enum ExpressionView {
    Literal(LiteralView),
    Grouping(Box<ExpressionView>),
    Unary(UnaryOperation, Box<ExpressionView>),
    Binary(BinaryOperation, Box<ExpressionView>, Box<ExpressionView>),
    Variable(Seq<char>),
    Assign(Seq<char>, Box<ExpressionView>),
    And(Box<ExpressionView>, Box<ExpressionView>),
    Or(Box<ExpressionView>, Box<ExpressionView>),
    Call(Box<ExpressionView>, Seq<ExpressionView>),
}

impl Expression {
    /// The model of the expression.
    pub open spec fn model(&self) -> ExpressionView
        decreases self,
    {
        match self {
            Expression::Literal(literal) => ExpressionView::Literal(literal@),
            Expression::Grouping(inner) => ExpressionView::Grouping(Box::new(inner.model())),
            Expression::Unary(operation, operand) => ExpressionView::Unary(
                *operation,
                Box::new(operand.model()),
            ),
            Expression::Binary(operation, left, right) => ExpressionView::Binary(
                *operation,
                Box::new(left.model()),
                Box::new(right.model()),
            ),
            Expression::Variable(name) => ExpressionView::Variable(name@),
            Expression::Assign(name, value) => ExpressionView::Assign(
                name@,
                Box::new(value.model()),
            ),
            Expression::And(left, right) => ExpressionView::And(
                Box::new(left.model()),
                Box::new(right.model()),
            ),
            Expression::Or(left, right) => ExpressionView::Or(
                Box::new(left.model()),
                Box::new(right.model()),
            ),
            Expression::Call(callee, arguments) => ExpressionView::Call(
                Box::new(callee.model()),
                Seq::new(
                    arguments@.len(),
                    |i: int|
                        if 0 <= i < arguments@.len() {
                            arguments@[i].model()
                        } else {
                            ExpressionView::Literal(LiteralView::Nil)
                        },
                ),
            ),
        }
    }

    /// A copy of the expression.
    #[verifier::loop_isolation(false)]
    pub fn duplicate(&self) -> (copy: Expression)
        ensures
            copy@ == self@,
        decreases self,
    {
        match self {
            Expression::Literal(literal) => Expression::Literal(literal.clone()),
            Expression::Grouping(inner) => Expression::Grouping(Box::new(inner.duplicate())),
            Expression::Unary(operation, operand) => Expression::Unary(
                *operation,
                Box::new(operand.duplicate()),
            ),
            Expression::Binary(operation, left, right) => Expression::Binary(
                *operation,
                Box::new(left.duplicate()),
                Box::new(right.duplicate()),
            ),
            Expression::Variable(name) => Expression::Variable(name.clone()),
            Expression::Assign(name, value) => Expression::Assign(
                name.clone(),
                Box::new(value.duplicate()),
            ),
            Expression::And(left, right) => Expression::And(
                Box::new(left.duplicate()),
                Box::new(right.duplicate()),
            ),
            Expression::Or(left, right) => Expression::Or(
                Box::new(left.duplicate()),
                Box::new(right.duplicate()),
            ),
            Expression::Call(callee, arguments) => {
                let mut copies: Vec<Expression> = Vec::new();
                let mut index: usize = 0;
                while index < arguments.len()
                    invariant
                        index <= arguments@.len(),
                        copies@.len() == index,
                        forall|i: int| 0 <= i < index ==> copies@[i]@ == arguments@[i]@,
                    decreases arguments@.len() - index,
                {
                    copies.push(arguments[index].duplicate());
                    index += 1;
                }
                let copy = Expression::Call(Box::new(callee.duplicate()), copies);
                proof {
                    assert(copy@->Call_1 =~= self@->Call_1);
                }
                copy
            },
        }
    }
}

impl View for Expression {
    type V = ExpressionView;

    open spec fn view(&self) -> ExpressionView {
        self.model()
    }
}

impl Clone for Expression {
    fn clone(&self) -> (copy: Self)
        ensures
            copy@ == self@,
    {
        self.duplicate()
    }
}

/// The models of the expressions of a vector, in order.
pub open spec fn expression_views(expressions: Seq<Expression>) -> Seq<ExpressionView> {
    Seq::new(expressions.len(), |i: int| expressions[i]@)
}

/// The model of a call holds the models of its arguments.
pub proof fn lemma_call_view(callee: Box<Expression>, arguments: Vec<Expression>)
    ensures
        Expression::Call(callee, arguments)@ == ExpressionView::Call(
            Box::new(callee@),
            expression_views(arguments@),
        ),
{
    assert(Expression::Call(callee, arguments)@->Call_1 =~= expression_views(arguments@));
}

} // verus!
