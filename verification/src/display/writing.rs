//! Writing tokens, expressions and statements.

use crate::display::{
    expression_text, expressions_text, literal_text, names_text, numeral_text, optional_text,
    token_text, wrapped, written, Written,
};
use crate::expression::{expression_views, lemma_call_view, Expression, Literal};
use crate::host::{
    continues, lemma_continues_is_transitive, lemma_continues_itself, lemma_continues_push,
    Exchange, Host, Platform,
};
use crate::statement::{name_views, optional_expression_view};
use crate::token::{Token, TokenType};
use vstd::prelude::*;

verus! {

/// The text of a numeral: the host reads it and shows the number, with one
/// digit behind the dot where it has no fractional part.
pub fn numeral_to_text<H: Host>(numeral: &str, platform: &mut Platform<H>) -> (text: String)
    ensures
        continues(final(platform).history(), old(platform).history()),
        forall|script: Seq<Exchange>| #[trigger]
            continues(script, final(platform).history()) ==> written(
                numeral_text(numeral@, script, old(platform).history().len() as int),
                text@,
                final(platform).history(),
            ),
{
    let ghost start = platform.history();
    let number = platform.read(numeral);
    let ghost middle = platform.history();
    let decimals: Option<u8> = if number.is_integral() {
        Some(1)
    } else {
        None
    };
    let text = platform.show(number, decimals);
    proof {
        let read = Exchange::Read { numeral: numeral@, number };
        let show = Exchange::Shown { number, decimals, text: text@ };
        assert forall|script: Seq<Exchange>| #[trigger]
            continues(script, platform.history()) implies written(
            numeral_text(numeral@, script, start.len() as int),
            text@,
            platform.history(),
        ) by {
            lemma_continues_push(script, middle, show);
            lemma_continues_push(script, start, read);
        }
        lemma_continues_itself(platform.history());
        lemma_continues_push(platform.history(), middle, show);
        lemma_continues_push(platform.history(), start, read);
    }
    text
}

/// The names, with a comma and a space between one and the next.
pub fn names_to_text(names: &Vec<String>) -> (text: String)
    ensures
        text@ == names_text(name_views(names@), 0),
{
    let ghost views = name_views(names@);
    let mut text = String::new();
    let mut index: usize = 0;
    while index < names.len()
        invariant
            index <= names@.len(),
            views == name_views(names@),
            names_text(views, 0) == text@ + names_text(views, index as int),
        decreases names@.len() - index,
    {
        let ghost before = text@;
        text.append(names[index].as_str());
        if index + 1 < names.len() {
            text.append(", ");
        }
        proof {
            assert(names_text(views, 0) =~= text@ + names_text(views, index as int + 1));
        }
        index += 1;
    }
    text
}

impl Literal {
    /// The text of the literal as it stands in the text of a tree.
    pub fn to_text<H: Host>(&self, platform: &mut Platform<H>) -> (text: String)
        ensures
            continues(final(platform).history(), old(platform).history()),
            forall|script: Seq<Exchange>| #[trigger]
                continues(script, final(platform).history()) ==> written(
                    literal_text(self@, script, old(platform).history().len() as int),
                    text@,
                    final(platform).history(),
                ),
    {
        proof {
            lemma_continues_itself(platform.history());
        }
        match self {
            Literal::Bool(value) => if *value {
                String::from_str("true")
            } else {
                String::from_str("false")
            },
            Literal::Number(numeral) => numeral_to_text(numeral.as_str(), platform),
            Literal::String(text) => text.clone(),
            Literal::Nil => String::from_str("nil"),
        }
    }
}

impl Token {
    /// The listing of the token: the name of its kind, its lexeme, and its
    /// literal value or `null`.
    pub fn to_text<H: Host>(&self, platform: &mut Platform<H>) -> (text: String)
        ensures
            continues(final(platform).history(), old(platform).history()),
            forall|script: Seq<Exchange>| #[trigger]
                continues(script, final(platform).history()) ==> written(
                    token_text(self@, script, old(platform).history().len() as int),
                    text@,
                    final(platform).history(),
                ),
    {
        let mut text = self.token.name();
        text.append(" ");
        text.append(self.lexeme.as_str());
        text.append(" ");
        let ghost head = text@;
        match &self.token {
            TokenType::String(contents) => {
                text.append(contents.as_str());
                proof {
                    lemma_continues_itself(platform.history());
                }
            },
            TokenType::Number(numeral) => {
                let shown = numeral_to_text(numeral.as_str(), platform);
                text.append(shown.as_str());
                proof {
                    assert(text@ =~= head + shown@ + Seq::<char>::empty());
                }
            },
            _ => {
                text.append("null");
                proof {
                    lemma_continues_itself(platform.history());
                }
            },
        }
        text
    }
}

/// `before`, `text` and `after`, joined.
pub(super) fn wrap(before: &str, text: String, after: &str) -> (whole: String)
    ensures
        whole@ == before@ + text@ + after@,
{
    let mut whole = String::from_str(before);
    whole.append(text.as_str());
    whole.append(after);
    whole
}

/// The text of an expression that may be absent: nothing where it is.
pub(super) fn optional_to_text<H: Host>(expression: &Option<Expression>, platform: &mut Platform<H>) -> (text:
    String)
    ensures
        continues(final(platform).history(), old(platform).history()),
        forall|script: Seq<Exchange>| #[trigger]
            continues(script, final(platform).history()) ==> written(
                optional_text(
                    optional_expression_view(*expression),
                    script,
                    old(platform).history().len() as int,
                ),
                text@,
                final(platform).history(),
            ),
{
    match expression {
        Some(expression) => expression.to_text(platform),
        None => {
            proof {
                lemma_continues_itself(platform.history());
            }
            String::new()
        },
    }
}

/// The texts of expressions, with a space between one and the next.
fn expressions_to_text<H: Host>(expressions: &Vec<Expression>, platform: &mut Platform<H>) -> (text:
    String)
    ensures
        continues(final(platform).history(), old(platform).history()),
        forall|script: Seq<Exchange>| #[trigger]
            continues(script, final(platform).history()) ==> written(
                expressions_text(
                    expression_views(expressions@),
                    0,
                    script,
                    old(platform).history().len() as int,
                ),
                text@,
                final(platform).history(),
            ),
    decreases expressions, 0int,
{
    let ghost start = platform.history();
    let ghost views = expression_views(expressions@);
    let mut text = String::new();
    let mut index: usize = 0;
    proof {
        lemma_continues_itself(platform.history());
        assert forall|script: Seq<Exchange>| #[trigger]
            continues(script, platform.history()) implies expressions_text(
            views,
            0,
            script,
            start.len() as int,
        ) == wrapped(
            text@,
            expressions_text(views, 0, script, platform.history().len() as int),
            Seq::empty(),
        ) by {
            let rest = expressions_text(views, 0, script, start.len() as int);
            match rest {
                Written::Done { text: words, cursor } => {
                    assert(text@ + words + Seq::<char>::empty() =~= words);
                },
                Written::Stuck => {},
            }
        }
    }
    while index < expressions.len()
        invariant
            index <= expressions@.len(),
            views == expression_views(expressions@),
            start == old(platform).history(),
            continues(platform.history(), start),
            forall|script: Seq<Exchange>| #[trigger]
                continues(script, platform.history()) ==> expressions_text(
                    views,
                    0,
                    script,
                    start.len() as int,
                ) == wrapped(
                    text@,
                    expressions_text(views, index as int, script, platform.history().len() as int),
                    Seq::empty(),
                ),
        decreases expressions@.len() - index,
    {
        let ghost head = platform.history();
        let ghost before = text@;
        let one = expressions[index].to_text(platform);
        text.append(one.as_str());
        if index + 1 < expressions.len() {
            text.append(" ");
        }
        proof {
            assert forall|script: Seq<Exchange>| #[trigger]
                continues(script, platform.history()) implies expressions_text(
                views,
                0,
                script,
                start.len() as int,
            ) == wrapped(
                text@,
                expressions_text(
                    views,
                    index as int + 1,
                    script,
                    platform.history().len() as int,
                ),
                Seq::empty(),
            ) by {
                reveal(expressions_text);
                reveal(expression_text);
                lemma_continues_is_transitive(script, platform.history(), head);
                let rest = expressions_text(
                    views,
                    index as int + 1,
                    script,
                    platform.history().len() as int,
                );
                match rest {
                    Written::Done { text: words, cursor } => {
                        if index + 1 < expressions.len() {
                            assert(before + (one@ + " "@ + words + Seq::<char>::empty())
                                + Seq::<char>::empty() =~= text@ + words + Seq::<char>::empty());
                        } else {
                            assert(words =~= Seq::<char>::empty());
                            assert(before + one@ + Seq::<char>::empty() =~= text@ + words
                                + Seq::<char>::empty());
                        }
                    },
                    Written::Stuck => {},
                }
            }
            lemma_continues_is_transitive(platform.history(), head, start);
        }
        index += 1;
    }
    proof {
        reveal(expressions_text);
        assert(text@ + Seq::<char>::empty() + Seq::<char>::empty() =~= text@);
    }
    text
}

impl Expression {
    /// The text of the expression: prefix form, with parentheses around
    /// every node.
    pub fn to_text<H: Host>(&self, platform: &mut Platform<H>) -> (text: String)
        ensures
            continues(final(platform).history(), old(platform).history()),
            forall|script: Seq<Exchange>| #[trigger]
                continues(script, final(platform).history()) ==> written(
                    expression_text(self@, script, old(platform).history().len() as int),
                    text@,
                    final(platform).history(),
                ),
        decreases self, 1int,
    {
        let ghost start = platform.history();
        match self {
            Expression::Literal(literal) => {
                proof {
                    reveal(expression_text);
                }
                literal.to_text(platform)
            },
            Expression::Grouping(inner) => {
                proof {
                    reveal(expression_text);
                }
                wrap("(group ", inner.to_text(platform), ")")
            },
            Expression::Unary(operation, operand) => {
                proof {
                    reveal(expression_text);
                }
                let mut head = String::from_str("(");
                head.append(operation.sign());
                head.append(" ");
                wrap(head.as_str(), operand.to_text(platform), ")")
            },
            Expression::Binary(operation, left, right) => {
                let mut head = String::from_str("(");
                head.append(operation.sign());
                head.append(" ");
                let first = left.to_text(platform);
                let ghost middle = platform.history();
                head.append(first.as_str());
                head.append(" ");
                let text = wrap(head.as_str(), right.to_text(platform), ")");
                proof {
                    assert forall|script: Seq<Exchange>| #[trigger]
                        continues(script, platform.history()) implies written(
                        expression_text(self@, script, start.len() as int),
                        text@,
                        platform.history(),
                    ) by {
                        reveal(expression_text);
                        lemma_continues_is_transitive(script, platform.history(), middle);
                    }
                    lemma_continues_is_transitive(platform.history(), middle, start);
                }
                text
            },
            Expression::Variable(name) => {
                proof {
                    reveal(expression_text);
                    lemma_continues_itself(platform.history());
                }
                wrap("(variable ", name.clone(), ")")
            },
            Expression::Assign(name, value) => {
                proof {
                    reveal(expression_text);
                }
                let mut head = String::from_str("(assign ");
                head.append(name.as_str());
                head.append(" ");
                wrap(head.as_str(), value.to_text(platform), ")")
            },
            Expression::And(left, right) => {
                let first = left.to_text(platform);
                let ghost middle = platform.history();
                let mut head = String::from_str("(");
                head.append(first.as_str());
                head.append(" and ");
                let text = wrap(head.as_str(), right.to_text(platform), ")");
                proof {
                    assert forall|script: Seq<Exchange>| #[trigger]
                        continues(script, platform.history()) implies written(
                        expression_text(self@, script, start.len() as int),
                        text@,
                        platform.history(),
                    ) by {
                        reveal(expression_text);
                        lemma_continues_is_transitive(script, platform.history(), middle);
                    }
                    lemma_continues_is_transitive(platform.history(), middle, start);
                }
                text
            },
            Expression::Or(left, right) => {
                let first = left.to_text(platform);
                let ghost middle = platform.history();
                let mut head = String::from_str("(");
                head.append(first.as_str());
                head.append(" or ");
                let text = wrap(head.as_str(), right.to_text(platform), ")");
                proof {
                    assert forall|script: Seq<Exchange>| #[trigger]
                        continues(script, platform.history()) implies written(
                        expression_text(self@, script, start.len() as int),
                        text@,
                        platform.history(),
                    ) by {
                        reveal(expression_text);
                        lemma_continues_is_transitive(script, platform.history(), middle);
                    }
                    lemma_continues_is_transitive(platform.history(), middle, start);
                }
                text
            },
            Expression::Call(callee, arguments) => {
                proof {
                    lemma_call_view(*callee, *arguments);
                }
                let called = callee.to_text(platform);
                let ghost middle = platform.history();
                let mut head = String::from_str("(call ");
                head.append(called.as_str());
                if arguments.len() == 0 {
                    head.append(")");
                    proof {
                        reveal(expression_text);
                    }
                    head
                } else {
                    head.append(" ");
                    let text = wrap(head.as_str(), expressions_to_text(arguments, platform), ")");
                    proof {
                        assert forall|script: Seq<Exchange>| #[trigger]
                            continues(script, platform.history()) implies written(
                            expression_text(self@, script, start.len() as int),
                            text@,
                            platform.history(),
                        ) by {
                            reveal(expression_text);
                            reveal(expressions_text);
                            lemma_continues_is_transitive(script, platform.history(), middle);
                        }
                        lemma_continues_is_transitive(platform.history(), middle, start);
                    }
                    text
                }
            },
        }
    }
}

} // verus!
