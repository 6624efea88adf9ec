//! Writing statements.

use crate::display::writing::{names_to_text, optional_to_text, wrap};
use crate::display::{expression_text, statement_text, statements_text, wrapped, written, Written};
use crate::expression::Expression;
use crate::host::{
    continues, lemma_continues_is_transitive, lemma_continues_itself, Exchange, Host, Platform,
};
use crate::statement::{lemma_block_view, statement_views, Statement};
use vstd::prelude::*;

verus! {

/// The texts of statements, with a space between one and the next.
pub fn statements_to_text<H: Host>(statements: &Vec<Statement>, platform: &mut Platform<H>) -> (text:
    String)
    ensures
        continues(final(platform).history(), old(platform).history()),
        forall|script: Seq<Exchange>| #[trigger]
            continues(script, final(platform).history()) ==> written(
                statements_text(
                    statement_views(statements@),
                    0,
                    script,
                    old(platform).history().len() as int,
                ),
                text@,
                final(platform).history(),
            ),
    decreases statements, 0int,
{
    let ghost start = platform.history();
    let ghost views = statement_views(statements@);
    let mut text = String::new();
    let mut index: usize = 0;
    proof {
        lemma_continues_itself(platform.history());
        assert forall|script: Seq<Exchange>| #[trigger]
            continues(script, platform.history()) implies statements_text(
            views,
            0,
            script,
            start.len() as int,
        ) == wrapped(
            text@,
            statements_text(views, 0, script, platform.history().len() as int),
            Seq::empty(),
        ) by {
            let rest = statements_text(views, 0, script, start.len() as int);
            match rest {
                Written::Done { text: words, cursor } => {
                    assert(text@ + words + Seq::<char>::empty() =~= words);
                },
                Written::Stuck => {},
            }
        }
    }
    while index < statements.len()
        invariant
            index <= statements@.len(),
            views == statement_views(statements@),
            start == old(platform).history(),
            continues(platform.history(), start),
            forall|script: Seq<Exchange>| #[trigger]
                continues(script, platform.history()) ==> statements_text(
                    views,
                    0,
                    script,
                    start.len() as int,
                ) == wrapped(
                    text@,
                    statements_text(views, index as int, script, platform.history().len() as int),
                    Seq::empty(),
                ),
        decreases statements@.len() - index,
    {
        let ghost head = platform.history();
        let ghost before = text@;
        let one = statements[index].to_text(platform);
        text.append(one.as_str());
        if index + 1 < statements.len() {
            text.append(" ");
        }
        proof {
            assert forall|script: Seq<Exchange>| #[trigger]
                continues(script, platform.history()) implies statements_text(
                views,
                0,
                script,
                start.len() as int,
            ) == wrapped(
                text@,
                statements_text(views, index as int + 1, script, platform.history().len() as int),
                Seq::empty(),
            ) by {
                reveal(statements_text);
                reveal(statement_text);
                lemma_continues_is_transitive(script, platform.history(), head);
                let rest = statements_text(
                    views,
                    index as int + 1,
                    script,
                    platform.history().len() as int,
                );
                match rest {
                    Written::Done { text: words, cursor } => {
                        if index + 1 < statements.len() {
                            assert(before + (one@ + " "@ + words + Seq::<char>::empty())
                                + Seq::<char>::empty() =~= text@ + words + Seq::<char>::empty());
                        } else {
                            assert(words =~= Seq::<char>::empty());
                            assert(before + one@ + Seq::<char>::empty() =~= text@ + words
                                + Seq::<char>::empty());
                        }
                    },
                    Written::Stuck => {},
                }
            }
            lemma_continues_is_transitive(platform.history(), head, start);
        }
        index += 1;
    }
    proof {
        reveal(statements_text);
        assert(text@ + Seq::<char>::empty() + Seq::<char>::empty() =~= text@);
    }
    text
}

impl Statement {
    /// The text of the statement: prefix form, with parentheses around
    /// every node.
    pub fn to_text<H: Host>(&self, platform: &mut Platform<H>) -> (text: String)
        ensures
            continues(final(platform).history(), old(platform).history()),
            forall|script: Seq<Exchange>| #[trigger]
                continues(script, final(platform).history()) ==> written(
                    statement_text(self@, script, old(platform).history().len() as int),
                    text@,
                    final(platform).history(),
                ),
        decreases self, 1int,
    {
        let ghost start = platform.history();
        match self {
            Statement::Print(value) => {
                proof {
                    reveal(statement_text);
                }
                wrap("(print (; ", value.to_text(platform), "))")
            },
            Statement::Variable(name, initializer) => {
                proof {
                    reveal(statement_text);
                }
                match initializer {
                    Some(value) => {
                        let mut head = String::from_str("(var ");
                        head.append(name.as_str());
                        head.append(" = (; ");
                        wrap(head.as_str(), value.to_text(platform), "))")
                    },
                    None => {
                        proof {
                            lemma_continues_itself(platform.history());
                        }
                        wrap("(var ", name.clone(), ")")
                    },
                }
            },
            Statement::Expression(value) => {
                proof {
                    reveal(statement_text);
                }
                wrap("(; ", value.to_text(platform), ")")
            },
            Statement::Block(statements) => {
                proof {
                    reveal(statement_text);
                    reveal(statements_text);
                    lemma_block_view(*statements);
                }
                wrap("(block (", statements_to_text(statements, platform), "))")
            },
            Statement::If(condition, then_branch, else_branch) => {
                let test = condition.to_text(platform);
                let ghost tested = platform.history();
                let first = then_branch.to_text(platform);
                let ghost middle = platform.history();
                let mut head = String::from_str("(if ");
                head.append(test.as_str());
                head.append(", ");
                head.append(first.as_str());
                let text = match else_branch {
                    Some(statement) => {
                        head.append(" ");
                        wrap(head.as_str(), statement.to_text(platform), ")")
                    },
                    None => {
                        head.append(")");
                        proof {
                            lemma_continues_itself(platform.history());
                        }
                        head
                    },
                };
                proof {
                    assert forall|script: Seq<Exchange>| #[trigger]
                        continues(script, platform.history()) implies written(
                        statement_text(self@, script, start.len() as int),
                        text@,
                        platform.history(),
                    ) by {
                        reveal(statement_text);
                        lemma_continues_is_transitive(script, platform.history(), middle);
                        lemma_continues_is_transitive(script, middle, tested);
                    }
                    lemma_continues_is_transitive(platform.history(), middle, tested);
                    lemma_continues_is_transitive(platform.history(), tested, start);
                }
                text
            },
            Statement::While(condition, body) => {
                let test = condition.to_text(platform);
                let ghost middle = platform.history();
                let mut head = String::from_str("(while (");
                head.append(test.as_str());
                head.append(") ");
                let text = wrap(head.as_str(), body.to_text(platform), ")");
                proof {
                    assert forall|script: Seq<Exchange>| #[trigger]
                        continues(script, platform.history()) implies written(
                        statement_text(self@, script, start.len() as int),
                        text@,
                        platform.history(),
                    ) by {
                        reveal(statement_text);
                        lemma_continues_is_transitive(script, platform.history(), middle);
                    }
                    lemma_continues_is_transitive(platform.history(), middle, start);
                }
                text
            },
            Statement::For(initializer, condition, increment, body) => {
                let first = match initializer {
                    Some(statement) => statement.to_text(platform),
                    None => {
                        proof {
                            lemma_continues_itself(platform.history());
                        }
                        String::new()
                    },
                };
                let ghost begun = platform.history();
                let test = optional_to_text(condition, platform);
                let ghost tested = platform.history();
                let step = optional_to_text(increment, platform);
                let ghost stepped = platform.history();
                let mut head = String::from_str("(for (");
                head.append(first.as_str());
                head.append(";");
                head.append(test.as_str());
                head.append(";");
                head.append(step.as_str());
                head.append(") ");
                let text = wrap(head.as_str(), body.to_text(platform), ")");
                proof {
                    assert forall|script: Seq<Exchange>| #[trigger]
                        continues(script, platform.history()) implies written(
                        statement_text(self@, script, start.len() as int),
                        text@,
                        platform.history(),
                    ) by {
                        reveal(statement_text);
                        reveal(expression_text);
                        lemma_continues_is_transitive(script, platform.history(), stepped);
                        lemma_continues_is_transitive(script, stepped, tested);
                        lemma_continues_is_transitive(script, tested, begun);
                    }
                    lemma_continues_is_transitive(platform.history(), stepped, tested);
                    lemma_continues_is_transitive(platform.history(), tested, begun);
                    lemma_continues_is_transitive(platform.history(), begun, start);
                }
                text
            },
            Statement::Function(name, parameters, body) => {
                proof {
                    reveal(statement_text);
                }
                let mut head = String::from_str("(function ");
                head.append(name.as_str());
                head.append("(");
                head.append(names_to_text(parameters).as_str());
                head.append(") ");
                wrap(head.as_str(), body.to_text(platform), ")")
            },
            Statement::Return(value) => {
                proof {
                    reveal(statement_text);
                }
                match value {
                    Some(value) => wrap("(return (; ", value.to_text(platform), "))"),
                    None => {
                        proof {
                            lemma_continues_itself(platform.history());
                        }
                        String::from_str("(return)")
                    },
                }
            },
        }
    }
}

} // verus!
