//! The host: what the library asks of the machine it runs on.
//!
//! The library holds numbers as bits and cannot compute with them, read the
//! clock or print. It asks a [`Host`] to do so. Nothing is assumed of what a
//! host answers: a [`Platform`] keeps the history of the exchanges with its
//! host, and the contracts of this library say what a function returns for
//! the answers that its host gave.

use crate::number::Number;
use vstd::prelude::*;

verus! {

/// The four operations on numbers that give a number.
#[derive(Clone, Copy, Debug, PartialEq, Eq, Structural)]
pub enum Arithmetic {
    Add,
    Subtract,
    Multiply,
    Divide,
}

/// What the library asks of the machine.
pub trait Host {
    /// The number that a numeral stands for: digits, with or without a dot
    /// and more digits behind it. The numerals of a scanned source are of
    /// this form; a tree built by hand may hold any text.
    fn read(&mut self, numeral: &str) -> Number;

    /// The text of a number: with exactly `decimals` digits behind the dot,
    /// or, where `decimals` is `None`, the shortest text that reads back as
    /// the same number.
    fn show(&mut self, number: Number, decimals: Option<u8>) -> String;

    /// The result of an operation on two numbers.
    fn compute(&mut self, operation: Arithmetic, left: Number, right: Number) -> Number;

    /// The time in whole seconds since the start of 1970.
    fn clock(&mut self) -> Number;

    /// Prints one line.
    fn print(&mut self, line: String);
}

/// One exchange with the host: what was asked and what was answered.
pub enum Exchange {
    Read { numeral: Seq<char>, number: Number },
    Shown { number: Number, decimals: Option<u8>, text: Seq<char> },
    Computed { operation: Arithmetic, left: Number, right: Number, result: Number },
    Clock { now: Number },
    Printed { line: Seq<char> },
}

/// Whether `script` starts with the exchanges of `history`.
pub open spec fn continues(script: Seq<Exchange>, history: Seq<Exchange>) -> bool {
    &&& history.len() <= script.len()
    &&& forall|i: int| 0 <= i < history.len() ==> script[i] == history[i]
}

pub proof fn lemma_continues_itself(history: Seq<Exchange>)
    ensures
        continues(history, history),
{
}

pub proof fn lemma_continues_is_transitive(
    script: Seq<Exchange>,
    later: Seq<Exchange>,
    earlier: Seq<Exchange>,
)
    requires
        continues(script, later),
        continues(later, earlier),
    ensures
        continues(script, earlier),
{
}

/// A script that continues a history to which one exchange was added holds
/// that exchange behind the history.
pub proof fn lemma_continues_push(
    script: Seq<Exchange>,
    history: Seq<Exchange>,
    exchange: Exchange,
)
    requires
        continues(script, history.push(exchange)),
    ensures
        continues(script, history),
        history.len() < script.len(),
        script[history.len() as int] == exchange,
{
    assert(history.push(exchange)[history.len() as int] == exchange);
    assert forall|i: int| 0 <= i < history.len() implies script[i] == history[i] by {
        assert(history.push(exchange)[i] == history[i]);
    }
}

/// The exchange at the cursor, if the script holds one there.
pub open spec fn exchange_at(script: Seq<Exchange>, cursor: int) -> Option<Exchange> {
    if 0 <= cursor < script.len() {
        Some(script[cursor])
    } else {
        None
    }
}

/// The number that the host read from `numeral` in the exchange at the cursor.
pub open spec fn read_at(script: Seq<Exchange>, cursor: int, numeral: Seq<char>) -> Option<
    Number,
> {
    match exchange_at(script, cursor) {
        Some(Exchange::Read { numeral: asked, number }) => if asked == numeral {
            Some(number)
        } else {
            None
        },
        _ => None,
    }
}

/// The text that the host gave for `number` in the exchange at the cursor.
pub open spec fn shown_at(
    script: Seq<Exchange>,
    cursor: int,
    number: Number,
    decimals: Option<u8>,
) -> Option<Seq<char>> {
    match exchange_at(script, cursor) {
        Some(Exchange::Shown { number: asked, decimals: wanted, text }) => if asked == number
            && wanted == decimals {
            Some(text)
        } else {
            None
        },
        _ => None,
    }
}

/// The number that the host computed in the exchange at the cursor.
pub open spec fn computed_at(
    script: Seq<Exchange>,
    cursor: int,
    operation: Arithmetic,
    left: Number,
    right: Number,
) -> Option<Number> {
    match exchange_at(script, cursor) {
        Some(
            Exchange::Computed { operation: asked, left: first, right: second, result },
        ) => if asked == operation && first == left && second == right {
            Some(result)
        } else {
            None
        },
        _ => None,
    }
}

/// The time that the host gave in the exchange at the cursor.
pub open spec fn clock_at(script: Seq<Exchange>, cursor: int) -> Option<Number> {
    match exchange_at(script, cursor) {
        Some(Exchange::Clock { now }) => Some(now),
        _ => None,
    }
}

/// Whether the exchange at the cursor is the printing of `line`.
pub open spec fn printed_at(script: Seq<Exchange>, cursor: int, line: Seq<char>) -> bool {
    exchange_at(script, cursor) == Some(Exchange::Printed { line })
}

/// A host together with the history of the exchanges with it.
pub struct Platform<H: Host> {
    host: H,
    history: Ghost<Seq<Exchange>>,
}

impl<H: Host> Platform<H> {
    /// The exchanges with the host so far, oldest first.
    pub closed spec fn history(&self) -> Seq<Exchange> {
        self.history@
    }

    /// The host as it is now.
    pub closed spec fn machine(&self) -> H {
        self.host
    }

    pub fn new(host: H) -> (platform: Self)
        ensures
            platform.history() == Seq::<Exchange>::empty(),
            platform.machine() == host,
    {
        Platform { host, history: Ghost(Seq::empty()) }
    }

    /// The host.
    pub fn host(&self) -> (host: &H)
        ensures
            *host == self.machine(),
    {
        &self.host
    }

    /// Gives the host back.
    pub fn into_host(self) -> (host: H)
        ensures
            host == self.machine(),
    {
        self.host
    }

    /// Asks the host for the number that a numeral stands for.
    pub fn read(&mut self, numeral: &str) -> (number: Number)
        ensures
            final(self).history() == old(self).history().push(
                Exchange::Read { numeral: numeral@, number },
            ),
    {
        let number = self.host.read(numeral);
        proof {
            self.history@ = self.history@.push(Exchange::Read { numeral: numeral@, number });
        }
        number
    }

    /// Asks the host for the text of a number.
    pub fn show(&mut self, number: Number, decimals: Option<u8>) -> (text: String)
        ensures
            final(self).history() == old(self).history().push(
                Exchange::Shown { number, decimals, text: text@ },
            ),
    {
        let text = self.host.show(number, decimals);
        proof {
            self.history@ = self.history@.push(Exchange::Shown { number, decimals, text: text@ });
        }
        text
    }

    /// Asks the host for the result of an operation on two numbers.
    pub fn compute(&mut self, operation: Arithmetic, left: Number, right: Number) -> (result:
        Number)
        ensures
            final(self).history() == old(self).history().push(
                Exchange::Computed { operation, left, right, result },
            ),
    {
        let result = self.host.compute(operation, left, right);
        proof {
            self.history@ = self.history@.push(
                Exchange::Computed { operation, left, right, result },
            );
        }
        result
    }

    /// Asks the host for the time.
    pub fn clock(&mut self) -> (now: Number)
        ensures
            final(self).history() == old(self).history().push(Exchange::Clock { now }),
    {
        let now = self.host.clock();
        proof {
            self.history@ = self.history@.push(Exchange::Clock { now });
        }
        now
    }

    /// Has the host print one line.
    pub fn print(&mut self, line: String)
        ensures
            final(self).history() == old(self).history().push(Exchange::Printed { line: line@ }),
    {
        proof {
            self.history@ = self.history@.push(Exchange::Printed { line: line@ });
        }
        self.host.print(line);
    }
}

} // verus!
