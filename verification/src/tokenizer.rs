//! The scanner: source text to tokens and lexical errors.
//!
//! [`scan`] defines, as a function of the source text alone, which tokens and
//! which errors a text has. [`Scanner::scan_tokens`] computes exactly that.

use crate::text::{chars_of, decimal, decimal_text, same_text, text_of};
use crate::token::{end_of_file, token_views, Kind, Token, TokenType, TokenView};
use vstd::prelude::*;

verus! {

pub open spec fn is_digit(c: char) -> bool {
    '0' <= c <= '9'
}

/// A character that may start an identifier.
pub open spec fn is_letter(c: char) -> bool {
    'a' <= c <= 'z' || 'A' <= c <= 'Z' || c == '_'
}

/// The line that follows `line`. Line numbers stop growing at the largest
/// number the machine can hold.
pub open spec fn next_line(line: usize) -> usize {
    if line < usize::MAX {
        (line + 1) as usize
    } else {
        line
    }
}

/// The line reached from `line` after passing over `source[from..to]`.
pub open spec fn line_after(source: Seq<char>, from: int, to: int, line: usize) -> usize
    decreases to - from,
{
    if to <= from {
        line
    } else {
        let before = line_after(source, from, to - 1, line);
        if source[to - 1] == '\n' {
            next_line(before)
        } else {
            before
        }
    }
}

/// The first index at or after `from` that holds `wanted`, or the length of
/// the source when there is none.
pub open spec fn find(source: Seq<char>, from: int, wanted: char) -> int
    decreases source.len() - from,
{
    if from >= source.len() {
        source.len() as int
    } else if source[from] == wanted {
        from
    } else {
        find(source, from + 1, wanted)
    }
}

/// The end of the run of digits that starts at `from`.
pub open spec fn digits_end(source: Seq<char>, from: int) -> int
    decreases source.len() - from,
{
    if 0 <= from < source.len() && is_digit(source[from]) {
        digits_end(source, from + 1)
    } else {
        from
    }
}

/// The end of the numeral whose first digit is just before `from`: the rest
/// of its digits, then, where a dot and a digit follow, the dot and the
/// digits behind it. A dot that no digit follows is no part of the numeral.
pub open spec fn number_end(source: Seq<char>, from: int) -> int {
    let whole = digits_end(source, from);
    if 0 <= whole && whole + 1 < source.len() && source[whole] == '.' && is_digit(
        source[whole + 1],
    ) {
        digits_end(source, whole + 1)
    } else {
        whole
    }
}

/// The end of the run of letters and digits that starts at `from`.
pub open spec fn word_end(source: Seq<char>, from: int) -> int
    decreases source.len() - from,
{
    if 0 <= from < source.len() && (is_letter(source[from]) || is_digit(source[from])) {
        word_end(source, from + 1)
    } else {
        from
    }
}

/// The kind of the token that a single character always makes.
pub open spec fn single_character(c: char) -> Option<Kind> {
    if c == '(' {
        Some(Kind::LeftParen)
    } else if c == ')' {
        Some(Kind::RightParen)
    } else if c == '{' {
        Some(Kind::LeftBrace)
    } else if c == '}' {
        Some(Kind::RightBrace)
    } else if c == ',' {
        Some(Kind::Comma)
    } else if c == '.' {
        Some(Kind::Dot)
    } else if c == ';' {
        Some(Kind::Semicolon)
    } else if c == '-' {
        Some(Kind::Minus)
    } else if c == '+' {
        Some(Kind::Plus)
    } else if c == '*' {
        Some(Kind::Star)
    } else {
        None
    }
}

/// The kind of the token that a character makes together with a following `=`.
pub open spec fn with_equal(c: char) -> Option<Kind> {
    if c == '=' {
        Some(Kind::EqualEqual)
    } else if c == '!' {
        Some(Kind::BangEqual)
    } else if c == '<' {
        Some(Kind::LessEqual)
    } else if c == '>' {
        Some(Kind::GreaterEqual)
    } else {
        None
    }
}

/// The kind of the token that an operator character makes on its own.
pub open spec fn operator(c: char) -> Option<Kind> {
    if c == '/' {
        Some(Kind::Slash)
    } else if c == '=' {
        Some(Kind::Equal)
    } else if c == '!' {
        Some(Kind::Bang)
    } else if c == '<' {
        Some(Kind::Less)
    } else if c == '>' {
        Some(Kind::Greater)
    } else {
        None
    }
}

/// The keyword that a word is, if it is one.
pub open spec fn keyword(word: Seq<char>) -> Option<Kind> {
    if word == "and"@ {
        Some(Kind::And)
    } else if word == "class"@ {
        Some(Kind::Class)
    } else if word == "else"@ {
        Some(Kind::Else)
    } else if word == "false"@ {
        Some(Kind::False)
    } else if word == "for"@ {
        Some(Kind::For)
    } else if word == "fun"@ {
        Some(Kind::Fun)
    } else if word == "if"@ {
        Some(Kind::If)
    } else if word == "nil"@ {
        Some(Kind::Nil)
    } else if word == "or"@ {
        Some(Kind::Or)
    } else if word == "print"@ {
        Some(Kind::Print)
    } else if word == "return"@ {
        Some(Kind::Return)
    } else if word == "super"@ {
        Some(Kind::Super)
    } else if word == "this"@ {
        Some(Kind::This)
    } else if word == "true"@ {
        Some(Kind::True)
    } else if word == "var"@ {
        Some(Kind::Var)
    } else if word == "while"@ {
        Some(Kind::While)
    } else {
        None
    }
}

/// The message for a character that starts no token.
pub open spec fn unexpected_character(line: usize, c: char) -> Seq<char> {
    "[line "@ + decimal_text(line as nat) + "] Error: Unexpected character: "@ + seq![c]
}

/// The message for a string whose closing quote is missing.
pub open spec fn unterminated_string(line: usize) -> Seq<char> {
    "[line "@ + decimal_text(line as nat) + "] Error: Unterminated string."@
}

/// What the scanner makes of the text at one position: where it goes on and
/// on which line, and the token or the error that it found there, if any.
pub struct Lexed {
    pub next: int,
    pub line: usize,
    pub token: Option<TokenView>,
    pub error: Option<Seq<char>>,
}

/// Nothing found: the text up to `next` is skipped.
pub open spec fn skipped(next: int, line: usize) -> Lexed {
    Lexed { next, line, token: None, error: None }
}

/// A token of a kind that carries no text, made of `source[start..next]`.
pub open spec fn plain_token(source: Seq<char>, kind: Kind, start: int, next: int, line: usize)
    -> Lexed {
    Lexed {
        next,
        line,
        token: Some(
            TokenView { kind, text: Seq::empty(), lexeme: source.subrange(start, next), line },
        ),
        error: None,
    }
}

/// What the scanner makes of the text at `start`, where `line` is the line
/// that `start` is on.
pub open spec fn lex(source: Seq<char>, start: int, line: usize) -> Lexed
    recommends
        0 <= start < source.len(),
{
    let c = source[start];
    let followed_by_equal = start + 1 < source.len() && source[start + 1] == '=';
    let followed_by_slash = start + 1 < source.len() && source[start + 1] == '/';
    if c == ' ' || c == '\r' || c == '\t' {
        skipped(start + 1, line)
    } else if c == '\n' {
        skipped(start + 1, next_line(line))
    } else if single_character(c) is Some {
        plain_token(source, single_character(c).unwrap(), start, start + 1, line)
    } else if with_equal(c) is Some && followed_by_equal {
        plain_token(source, with_equal(c).unwrap(), start, start + 2, line)
    } else if c == '/' && followed_by_slash {
        // A comment runs to the end of its line.
        let newline = find(source, start + 2, '\n');
        if newline < source.len() {
            skipped(newline + 1, next_line(line))
        } else {
            skipped(newline, line)
        }
    } else if operator(c) is Some {
        plain_token(source, operator(c).unwrap(), start, start + 1, line)
    } else if c == '"' {
        let quote = find(source, start + 1, '"');
        if quote < source.len() {
            Lexed {
                next: quote + 1,
                line: line_after(source, start + 1, quote, line),
                token: Some(
                    TokenView {
                        kind: Kind::String,
                        text: source.subrange(start + 1, quote),
                        lexeme: source.subrange(start, quote + 1),
                        line,
                    },
                ),
                error: None,
            }
        } else {
            let last_line = line_after(source, start + 1, quote, line);
            Lexed {
                next: quote,
                line: last_line,
                token: None,
                error: Some(unterminated_string(last_line)),
            }
        }
    } else if is_digit(c) {
        let end = number_end(source, start + 1);
        let numeral = source.subrange(start, end);
        Lexed {
            next: end,
            line,
            token: Some(TokenView { kind: Kind::Number, text: numeral, lexeme: numeral, line }),
            error: None,
        }
    } else if is_letter(c) {
        let end = word_end(source, start + 1);
        let word = source.subrange(start, end);
        match keyword(word) {
            Some(kind) => plain_token(source, kind, start, end, line),
            None => Lexed {
                next: end,
                line,
                token: Some(TokenView { kind: Kind::Identifier, text: word, lexeme: word, line }),
                error: None,
            },
        }
    } else {
        Lexed { next: start + 1, line, token: None, error: Some(unexpected_character(line, c)) }
    }
}

/// What a source text scans to: its tokens, for each token the place of its
/// lexeme in the source, and the lexical errors, each in source order.
pub struct Scanned {
    pub tokens: Seq<TokenView>,
    pub spans: Seq<(int, int)>,
    pub errors: Seq<Seq<char>>,
}

/// One element, or none.
pub open spec fn optional<T>(item: Option<T>) -> Seq<T> {
    match item {
        Some(item) => seq![item],
        None => Seq::empty(),
    }
}

/// What the part of the source from `start` on scans to, where `line` is the
/// line that `start` is on.
pub open spec fn scan_from(source: Seq<char>, start: int, line: usize) -> Scanned
    decreases source.len() - start,
{
    if 0 <= start < source.len() {
        let found = lex(source, start, line);
        if found.next <= start || found.next > source.len() {
            // Never taken: see `lemma_lex_advances`.
            Scanned { tokens: seq![end_of_file(line)], spans: seq![(start, start)], errors: seq![] }
        } else {
            let rest = scan_from(source, found.next, found.line);
            Scanned {
                tokens: optional(found.token) + rest.tokens,
                spans: if found.token is Some {
                    seq![(start, found.next)] + rest.spans
                } else {
                    rest.spans
                },
                errors: optional(found.error) + rest.errors,
            }
        }
    } else {
        Scanned { tokens: seq![end_of_file(line)], spans: seq![(start, start)], errors: seq![] }
    }
}

/// What a source text scans to. Lines are counted from one.
pub open spec fn scan(source: Seq<char>) -> Scanned {
    scan_from(source, 0, 1)
}

pub proof fn lemma_find_bounds(source: Seq<char>, from: int, wanted: char)
    requires
        0 <= from <= source.len(),
    ensures
        from <= find(source, from, wanted) <= source.len(),
        find(source, from, wanted) < source.len() ==> source[find(source, from, wanted)] == wanted,
        forall|i: int| from <= i < find(source, from, wanted) ==> source[i] != wanted,
    decreases source.len() - from,
{
    if from < source.len() && source[from] != wanted {
        lemma_find_bounds(source, from + 1, wanted);
    }
}

pub proof fn lemma_digits_end_bounds(source: Seq<char>, from: int)
    requires
        0 <= from <= source.len(),
    ensures
        from <= digits_end(source, from) <= source.len(),
        forall|i: int| from <= i < digits_end(source, from) ==> is_digit(source[i]),
        digits_end(source, from) < source.len() ==> !is_digit(
            source[digits_end(source, from)],
        ),
    decreases source.len() - from,
{
    if from < source.len() && is_digit(source[from]) {
        lemma_digits_end_bounds(source, from + 1);
    }
}

pub proof fn lemma_number_end_bounds(source: Seq<char>, from: int)
    requires
        0 <= from <= source.len(),
    ensures
        from <= number_end(source, from) <= source.len(),
{
    lemma_digits_end_bounds(source, from);
    let whole = digits_end(source, from);
    if whole < source.len() {
        lemma_digits_end_bounds(source, whole + 1);
    }
}

pub proof fn lemma_word_end_bounds(source: Seq<char>, from: int)
    requires
        0 <= from <= source.len(),
    ensures
        from <= word_end(source, from) <= source.len(),
    decreases source.len() - from,
{
    if from < source.len() && (is_letter(source[from]) || is_digit(source[from])) {
        lemma_word_end_bounds(source, from + 1);
    }
}

/// The scanner always moves forward, and never past the end of the source.
pub proof fn lemma_lex_advances(source: Seq<char>, start: int, line: usize)
    requires
        0 <= start < source.len(),
    ensures
        start < lex(source, start, line).next <= source.len(),
{
    lemma_find_bounds(source, start + 1, '"');
    lemma_number_end_bounds(source, start + 1);
    lemma_word_end_bounds(source, start + 1);
    if start + 2 <= source.len() {
        lemma_find_bounds(source, start + 2, '\n');
    }
}

/// Scanning from a position inside the source is scanning one lexeme, then
/// the rest.
pub proof fn lemma_scan_from_unfolds(source: Seq<char>, start: int, line: usize)
    requires
        0 <= start < source.len(),
    ensures
        ({
            let found = lex(source, start, line);
            let rest = scan_from(source, found.next, found.line);
            &&& scan_from(source, start, line).tokens == optional(found.token) + rest.tokens
            &&& scan_from(source, start, line).errors == optional(found.error) + rest.errors
            &&& scan_from(source, start, line).spans == if found.token is Some {
                seq![(start, found.next)] + rest.spans
            } else {
                rest.spans
            }
        }),
{
    lemma_lex_advances(source, start, line);
}

/// Every token sequence ends with the end-of-file token, which occurs nowhere
/// else in it, and there is one span for each token.
pub proof fn lemma_scan_ends_with_eof(source: Seq<char>, start: int, line: usize)
    requires
        0 <= start <= source.len(),
    ensures
        ({
            let scanned = scan_from(source, start, line);
            &&& scanned.tokens.len() >= 1
            &&& scanned.spans.len() == scanned.tokens.len()
            &&& scanned.tokens.last().kind == Kind::Eof
            &&& forall|i: int|
                0 <= i < scanned.tokens.len() - 1 ==> (#[trigger] scanned.tokens[i]).kind
                    != Kind::Eof
        }),
    decreases source.len() - start,
{
    if start < source.len() {
        let found = lex(source, start, line);
        lemma_lex_advances(source, start, line);
        lemma_scan_ends_with_eof(source, found.next, found.line);
        lemma_lex_token_kind(source, start, line);
    }
}

/// A token found in the source is never the end-of-file token.
pub proof fn lemma_lex_token_kind(source: Seq<char>, start: int, line: usize)
    requires
        0 <= start < source.len(),
    ensures
        lex(source, start, line).token is Some ==> lex(source, start, line).token.unwrap().kind
            != Kind::Eof,
{
}

/// The lexeme of the token found at a position is the part of the source
/// that was passed over.
pub proof fn lemma_lex_lexeme(source: Seq<char>, start: int, line: usize)
    requires
        0 <= start < source.len(),
    ensures
        lex(source, start, line).token is Some ==> lex(source, start, line).token.unwrap().lexeme
            == source.subrange(start, lex(source, start, line).next),
{
}

/// The lexeme of every token is the slice of the source that its span
/// records, and the spans follow one another in the source.
pub proof fn lemma_lexemes_are_source_slices(source: Seq<char>, start: int, line: usize)
    requires
        0 <= start <= source.len(),
    ensures
        ({
            let scanned = scan_from(source, start, line);
            &&& scanned.spans.len() == scanned.tokens.len()
            &&& forall|i: int|
                0 <= i < scanned.tokens.len() ==> {
                    let span = #[trigger] scanned.spans[i];
                    &&& start <= span.0 <= span.1 <= source.len()
                    &&& scanned.tokens[i].lexeme == source.subrange(span.0, span.1)
                }
            &&& forall|i: int, j: int|
                0 <= i < j < scanned.spans.len() ==> (#[trigger] scanned.spans[i]).1 <= (
                #[trigger] scanned.spans[j]).0
        }),
    decreases source.len() - start,
{
    let scanned = scan_from(source, start, line);
    if start < source.len() {
        let found = lex(source, start, line);
        lemma_lex_advances(source, start, line);
        lemma_lex_lexeme(source, start, line);
        lemma_lexemes_are_source_slices(source, found.next, found.line);
        let rest = scan_from(source, found.next, found.line);
        if found.token is Some {
            assert forall|i: int| 0 <= i < scanned.tokens.len() implies {
                let span = #[trigger] scanned.spans[i];
                &&& start <= span.0 <= span.1 <= source.len()
                &&& scanned.tokens[i].lexeme == source.subrange(span.0, span.1)
            } by {
                if i > 0 {
                    assert(scanned.spans[i] == rest.spans[i - 1]);
                    assert(scanned.tokens[i] == rest.tokens[i - 1]);
                }
            }
            assert forall|i: int, j: int| 0 <= i < j < scanned.spans.len() implies (
            #[trigger] scanned.spans[i]).1 <= (#[trigger] scanned.spans[j]).0 by {
                assert(scanned.spans[j] == rest.spans[j - 1]);
                if i > 0 {
                    assert(scanned.spans[i] == rest.spans[i - 1]);
                }
            }
        }
    } else {
        assert(source.subrange(start, start) =~= Seq::<char>::empty());
    }
}

/// The place of a lexeme in the source: the characters from `start` up to,
/// and not including, `end`.
#[derive(Clone, Copy, Debug, PartialEq, Eq, Structural)]
pub struct Span {
    pub start: usize,
    pub end: usize,
}

/// The spans of a vector as pairs of positions.
pub open spec fn span_pairs(spans: Seq<Span>) -> Seq<(int, int)> {
    Seq::new(spans.len(), |i: int| (spans[i].start as int, spans[i].end as int))
}

/// The texts of a vector of strings, in order.
pub open spec fn texts(strings: Seq<String>) -> Seq<Seq<char>> {
    Seq::new(strings.len(), |i: int| strings[i]@)
}

/// A scanner over one source text.
pub struct Scanner {
    source: Vec<char>,
    line: usize,
    current: usize,
    start: usize,
    spans: Vec<Span>,
}

fn digit(c: char) -> (yes: bool)
    ensures
        yes == is_digit(c),
{
    '0' <= c && c <= '9'
}

fn letter(c: char) -> (yes: bool)
    ensures
        yes == is_letter(c),
{
    ('a' <= c && c <= 'z') || ('A' <= c && c <= 'Z') || c == '_'
}

fn single_character_kind(c: char) -> (kind: Option<Kind>)
    ensures
        kind == single_character(c),
{
    if c == '(' {
        Some(Kind::LeftParen)
    } else if c == ')' {
        Some(Kind::RightParen)
    } else if c == '{' {
        Some(Kind::LeftBrace)
    } else if c == '}' {
        Some(Kind::RightBrace)
    } else if c == ',' {
        Some(Kind::Comma)
    } else if c == '.' {
        Some(Kind::Dot)
    } else if c == ';' {
        Some(Kind::Semicolon)
    } else if c == '-' {
        Some(Kind::Minus)
    } else if c == '+' {
        Some(Kind::Plus)
    } else if c == '*' {
        Some(Kind::Star)
    } else {
        None
    }
}

fn with_equal_kind(c: char) -> (kind: Option<Kind>)
    ensures
        kind == with_equal(c),
{
    if c == '=' {
        Some(Kind::EqualEqual)
    } else if c == '!' {
        Some(Kind::BangEqual)
    } else if c == '<' {
        Some(Kind::LessEqual)
    } else if c == '>' {
        Some(Kind::GreaterEqual)
    } else {
        None
    }
}

fn operator_kind(c: char) -> (kind: Option<Kind>)
    ensures
        kind == operator(c),
{
    if c == '/' {
        Some(Kind::Slash)
    } else if c == '=' {
        Some(Kind::Equal)
    } else if c == '!' {
        Some(Kind::Bang)
    } else if c == '<' {
        Some(Kind::Less)
    } else if c == '>' {
        Some(Kind::Greater)
    } else {
        None
    }
}

/// The keyword that `word` is, if it is one.
pub fn keyword_kind(word: &str) -> (kind: Option<Kind>)
    ensures
        kind == keyword(word@),
{
    if same_text(word, "and") {
        Some(Kind::And)
    } else if same_text(word, "class") {
        Some(Kind::Class)
    } else if same_text(word, "else") {
        Some(Kind::Else)
    } else if same_text(word, "false") {
        Some(Kind::False)
    } else if same_text(word, "for") {
        Some(Kind::For)
    } else if same_text(word, "fun") {
        Some(Kind::Fun)
    } else if same_text(word, "if") {
        Some(Kind::If)
    } else if same_text(word, "nil") {
        Some(Kind::Nil)
    } else if same_text(word, "or") {
        Some(Kind::Or)
    } else if same_text(word, "print") {
        Some(Kind::Print)
    } else if same_text(word, "return") {
        Some(Kind::Return)
    } else if same_text(word, "super") {
        Some(Kind::Super)
    } else if same_text(word, "this") {
        Some(Kind::This)
    } else if same_text(word, "true") {
        Some(Kind::True)
    } else if same_text(word, "var") {
        Some(Kind::Var)
    } else if same_text(word, "while") {
        Some(Kind::While)
    } else {
        None
    }
}

fn following_line(line: usize) -> (next: usize)
    ensures
        next == next_line(line),
{
    if line < usize::MAX {
        line + 1
    } else {
        line
    }
}

/// What one step of the scanner found.
struct Found {
    token: Option<Token>,
    error: Option<String>,
}

impl Found {
    spec fn token_view(&self) -> Option<TokenView> {
        match self.token {
            Some(token) => Some(token@),
            None => None,
        }
    }

    spec fn error_view(&self) -> Option<Seq<char>> {
        match self.error {
            Some(error) => Some(error@),
            None => None,
        }
    }
}

impl Scanner {
    /// The source text that the scanner reads.
    pub closed spec fn text(&self) -> Seq<char> {
        self.source@
    }

    /// For each token of the last scan, the place of its lexeme in the source.
    pub closed spec fn recorded(&self) -> Seq<Span> {
        self.spans@
    }

    pub fn new(source: &str) -> (scanner: Scanner)
        ensures
            scanner.text() == source@,
            scanner.recorded().len() == 0,
    {
        Scanner { source: chars_of(source), line: 0, current: 0, start: 0, spans: Vec::new() }
    }

    /// For each token of the last scan, the place of its lexeme in the
    /// source, counted in characters.
    pub fn spans(&self) -> (spans: &Vec<Span>)
        ensures
            spans@ == self.recorded(),
    {
        &self.spans
    }

    /// The part of the source between two positions.
    pub fn slice(&self, span: Span) -> (text: String)
        requires
            span.start <= span.end <= self.text().len(),
        ensures
            text@ == self.text().subrange(span.start as int, span.end as int),
    {
        text_of(&self.source, span.start, span.end)
    }

    fn lexeme(&self) -> (text: String)
        requires
            self.start <= self.current <= self.source@.len(),
        ensures
            text@ == self.source@.subrange(self.start as int, self.current as int),
    {
        text_of(&self.source, self.start, self.current)
    }

    fn plain(&self, kind: Kind) -> (found: Found)
        requires
            self.start <= self.current <= self.source@.len(),
        ensures
            found.token_view() == plain_token(
                self.source@,
                kind,
                self.start as int,
                self.current as int,
                self.line,
            ).token,
            found.error is None,
    {
        Found {
            token: Some(Token::new(TokenType::of_kind(kind), self.lexeme(), self.line)),
            error: None,
        }
    }

    /// Moves to the first `wanted` character at or after the current
    /// position, or to the end of the source, counting the lines passed.
    fn seek(&mut self, wanted: char)
        requires
            old(self).current <= old(self).source@.len(),
        ensures
            final(self).source == old(self).source,
            final(self).start == old(self).start,
            final(self).spans == old(self).spans,
            final(self).current == find(old(self).source@, old(self).current as int, wanted),
            old(self).current <= final(self).current <= old(self).source@.len(),
            final(self).line == line_after(
                old(self).source@,
                old(self).current as int,
                final(self).current as int,
                old(self).line,
            ),
    {
        let ghost from = self.current as int;
        let ghost line = self.line;
        while self.current < self.source.len() && self.source[self.current] != wanted
            invariant
                self.source == old(self).source,
                self.start == old(self).start,
                self.spans == old(self).spans,
                from == old(self).current,
                line == old(self).line,
                from <= self.current <= self.source@.len(),
                find(self.source@, from, wanted) == find(self.source@, self.current as int, wanted),
                self.line == line_after(self.source@, from, self.current as int, line),
            decreases self.source@.len() - self.current,
        {
            if self.source[self.current] == '\n' {
                self.line = following_line(self.line);
            }
            self.current += 1;
        }
    }

    /// Moves over the digits at the current position.
    fn skip_digits(&mut self)
        requires
            old(self).current <= old(self).source@.len(),
        ensures
            final(self).source == old(self).source,
            final(self).start == old(self).start,
            final(self).line == old(self).line,
            final(self).spans == old(self).spans,
            final(self).current == digits_end(old(self).source@, old(self).current as int),
            old(self).current <= final(self).current <= old(self).source@.len(),
    {
        let ghost from = self.current as int;
        while self.current < self.source.len() && digit(self.source[self.current])
            invariant
                self.source == old(self).source,
                self.start == old(self).start,
                self.line == old(self).line,
                self.spans == old(self).spans,
                from == old(self).current,
                from <= self.current <= self.source@.len(),
                digits_end(self.source@, from) == digits_end(self.source@, self.current as int),
            decreases self.source@.len() - self.current,
        {
            self.current += 1;
        }
    }

    /// Moves over the letters and digits at the current position.
    fn skip_word(&mut self)
        requires
            old(self).current <= old(self).source@.len(),
        ensures
            final(self).source == old(self).source,
            final(self).start == old(self).start,
            final(self).line == old(self).line,
            final(self).spans == old(self).spans,
            final(self).current == word_end(old(self).source@, old(self).current as int),
            old(self).current <= final(self).current <= old(self).source@.len(),
    {
        let ghost from = self.current as int;
        while self.current < self.source.len() && (letter(self.source[self.current]) || digit(
            self.source[self.current],
        ))
            invariant
                self.source == old(self).source,
                self.start == old(self).start,
                self.line == old(self).line,
                self.spans == old(self).spans,
                from == old(self).current,
                from <= self.current <= self.source@.len(),
                word_end(self.source@, from) == word_end(self.source@, self.current as int),
            decreases self.source@.len() - self.current,
        {
            self.current += 1;
        }
    }

    /// Scans the string whose opening quote was just passed.
    fn scan_string(&mut self) -> (found: Found)
        requires
            old(self).start + 1 == old(self).current <= old(self).source@.len(),
            old(self).source@[old(self).start as int] == '"',
        ensures
            final(self).source == old(self).source,
            final(self).start == old(self).start,
            final(self).spans == old(self).spans,
            final(self).current == lex(
                old(self).source@,
                old(self).start as int,
                old(self).line,
            ).next,
            final(self).line == lex(old(self).source@, old(self).start as int, old(self).line).line,
            found.token_view() == lex(
                old(self).source@,
                old(self).start as int,
                old(self).line,
            ).token,
            found.error_view() == lex(
                old(self).source@,
                old(self).start as int,
                old(self).line,
            ).error,
    {
        let first_line = self.line;
        self.seek('"');
        if self.current < self.source.len() {
            let contents = text_of(&self.source, self.start + 1, self.current);
            self.current += 1;
            Found {
                token: Some(Token::new(TokenType::String(contents), self.lexeme(), first_line)),
                error: None,
            }
        } else {
            let mut message = String::from_str("[line ");
            message.append(decimal(self.line).as_str());
            message.append("] Error: Unterminated string.");
            Found { token: None, error: Some(message) }
        }
    }

    /// Scans the numeral whose first digit was just passed.
    fn scan_number(&mut self) -> (found: Found)
        requires
            old(self).start + 1 == old(self).current <= old(self).source@.len(),
            is_digit(old(self).source@[old(self).start as int]),
        ensures
            final(self).source == old(self).source,
            final(self).start == old(self).start,
            final(self).spans == old(self).spans,
            final(self).current == lex(
                old(self).source@,
                old(self).start as int,
                old(self).line,
            ).next,
            final(self).line == lex(old(self).source@, old(self).start as int, old(self).line).line,
            found.token_view() == lex(
                old(self).source@,
                old(self).start as int,
                old(self).line,
            ).token,
            found.error_view() == lex(
                old(self).source@,
                old(self).start as int,
                old(self).line,
            ).error,
    {
        self.skip_digits();
        let length = self.source.len();
        if self.current < length && self.source[self.current] == '.' && self.current + 1 < length
            && digit(self.source[self.current + 1]) {
            self.current += 1;
            self.skip_digits();
        }
        let numeral = self.lexeme();
        Found {
            token: Some(Token::new(TokenType::Number(numeral), self.lexeme(), self.line)),
            error: None,
        }
    }

    /// Scans the keyword or identifier whose first letter was just passed.
    fn scan_word(&mut self) -> (found: Found)
        requires
            old(self).start + 1 == old(self).current <= old(self).source@.len(),
            is_letter(old(self).source@[old(self).start as int]),
        ensures
            final(self).source == old(self).source,
            final(self).start == old(self).start,
            final(self).spans == old(self).spans,
            final(self).current == lex(
                old(self).source@,
                old(self).start as int,
                old(self).line,
            ).next,
            final(self).line == lex(old(self).source@, old(self).start as int, old(self).line).line,
            found.token_view() == lex(
                old(self).source@,
                old(self).start as int,
                old(self).line,
            ).token,
            found.error_view() == lex(
                old(self).source@,
                old(self).start as int,
                old(self).line,
            ).error,
    {
        self.skip_word();
        let word = self.lexeme();
        match keyword_kind(word.as_str()) {
            Some(kind) => self.plain(kind),
            None => Found {
                token: Some(Token::new(TokenType::Identifier(word), self.lexeme(), self.line)),
                error: None,
            },
        }
    }

    /// Scans the text at the current position: one token, one error, or
    /// something to skip.
    fn scan_token(&mut self) -> (found: Found)
        requires
            old(self).current < old(self).source@.len(),
        ensures
            final(self).source == old(self).source,
            final(self).spans == old(self).spans,
            final(self).start == old(self).current,
            final(self).current == lex(
                old(self).source@,
                old(self).current as int,
                old(self).line,
            ).next,
            final(self).line == lex(
                old(self).source@,
                old(self).current as int,
                old(self).line,
            ).line,
            found.token_view() == lex(
                old(self).source@,
                old(self).current as int,
                old(self).line,
            ).token,
            found.error_view() == lex(
                old(self).source@,
                old(self).current as int,
                old(self).line,
            ).error,
    {
        let length = self.source.len();
        let c = self.source[self.current];
        self.start = self.current;
        self.current += 1;
        let followed_by_equal = self.current < length && self.source[self.current] == '=';
        let followed_by_slash = self.current < length && self.source[self.current] == '/';
        if c == ' ' || c == '\r' || c == '\t' {
            return Found { token: None, error: None };
        }
        if c == '\n' {
            self.line = following_line(self.line);
            return Found { token: None, error: None };
        }
        if let Some(kind) = single_character_kind(c) {
            return self.plain(kind);
        }
        if let Some(kind) = with_equal_kind(c) {
            if followed_by_equal {
                self.current += 1;
                return self.plain(kind);
            }
        }
        if c == '/' && followed_by_slash {
            self.current += 1;
            let line = self.line;
            self.seek('\n');
            proof {
                lemma_find_bounds(self.source@, self.start + 2, '\n');
            }
            if self.current < self.source.len() {
                self.current += 1;
                self.line = following_line(line);
            } else {
                self.line = line;
            }
            return Found { token: None, error: None };
        }
        if let Some(kind) = operator_kind(c) {
            return self.plain(kind);
        }
        if c == '"' {
            return self.scan_string();
        }
        if digit(c) {
            return self.scan_number();
        }
        if letter(c) {
            return self.scan_word();
        }
        let mut message = String::from_str("[line ");
        message.append(decimal(self.line).as_str());
        message.append("] Error: Unexpected character: ");
        message.push(c);
        Found { token: None, error: Some(message) }
    }

    /// Scans the whole source: its tokens, ending with the end-of-file
    /// token, and its lexical errors. An error does not stop the scan. The
    /// place of each token's lexeme is kept for [`Scanner::spans`].
    pub fn scan_tokens(&mut self) -> (scanned: (Vec<Token>, Vec<String>))
        ensures
            final(self).text() == old(self).text(),
            token_views(scanned.0@) == scan(old(self).text()).tokens,
            texts(scanned.1@) == scan(old(self).text()).errors,
            span_pairs(final(self).recorded()) == scan(old(self).text()).spans,
            final(self).recorded().len() == scanned.0@.len(),
            forall|i: int|
                0 <= i < scanned.0@.len() ==> {
                    let span = #[trigger] final(self).recorded()[i];
                    &&& span.start <= span.end <= old(self).text().len()
                    &&& scanned.0@[i].lexeme@ == old(self).text().subrange(
                        span.start as int,
                        span.end as int,
                    )
                },
    {
        let mut tokens: Vec<Token> = Vec::new();
        let mut errors: Vec<String> = Vec::new();
        self.current = 0;
        self.line = 1;
        self.spans = Vec::new();
        let ghost source = self.source@;
        let ghost whole = scan(source);
        proof {
            assert(token_views(tokens@) + whole.tokens =~= whole.tokens);
            assert(texts(errors@) + whole.errors =~= whole.errors);
            assert(span_pairs(self.spans@) + whole.spans =~= whole.spans);
        }
        while self.current < self.source.len()
            invariant
                self.source@ == source,
                whole == scan(source),
                self.current <= source.len(),
                whole.tokens == token_views(tokens@) + scan_from(
                    source,
                    self.current as int,
                    self.line,
                ).tokens,
                whole.errors == texts(errors@) + scan_from(
                    source,
                    self.current as int,
                    self.line,
                ).errors,
                whole.spans == span_pairs(self.spans@) + scan_from(
                    source,
                    self.current as int,
                    self.line,
                ).spans,
            decreases source.len() - self.current,
        {
            let ghost start = self.current as int;
            let ghost line = self.line;
            let ghost tokens_before = tokens@;
            let ghost errors_before = errors@;
            let ghost spans_before = self.spans@;
            proof {
                lemma_lex_advances(source, start, line);
                lemma_scan_from_unfolds(source, start, line);
            }
            let found = self.scan_token();
            let ghost rest = scan_from(source, self.current as int, self.line);
            match found.token {
                Some(token) => {
                    tokens.push(token);
                    self.spans.push(Span { start: self.start, end: self.current });
                    proof {
                        assert(token_views(tokens@) =~= token_views(tokens_before) + seq![token@]);
                        assert(whole.tokens =~= token_views(tokens@) + rest.tokens);
                        assert(span_pairs(self.spans@) =~= span_pairs(spans_before) + seq![
                            (start, self.current as int),
                        ]);
                        assert(whole.spans =~= span_pairs(self.spans@) + rest.spans);
                    }
                },
                None => {
                    proof {
                        assert(whole.tokens =~= token_views(tokens@) + rest.tokens);
                    }
                },
            }
            match found.error {
                Some(error) => {
                    errors.push(error);
                    proof {
                        assert(texts(errors@) =~= texts(errors_before) + seq![error@]);
                        assert(whole.errors =~= texts(errors@) + rest.errors);
                    }
                },
                None => {
                    proof {
                        assert(whole.errors =~= texts(errors@) + rest.errors);
                    }
                },
            }
        }
        let ghost tokens_before = tokens@;
        let ghost spans_before = self.spans@;
        self.start = self.current;
        tokens.push(Token::new(TokenType::Eof, String::new(), self.line));
        self.spans.push(Span { start: self.current, end: self.current });
        proof {
            assert(token_views(tokens@) =~= token_views(tokens_before) + seq![
                end_of_file(self.line),
            ]);
            assert(span_pairs(self.spans@) =~= span_pairs(spans_before) + seq![
                (self.current as int, self.current as int),
            ]);
            assert(texts(errors@) + Seq::<Seq<char>>::empty() =~= texts(errors@));
            lemma_lexemes_are_source_slices(source, 0, 1);
            assert(span_pairs(self.spans@).len() == token_views(tokens@).len());
            assert forall|i: int| 0 <= i < tokens@.len() implies {
                let span = #[trigger] self.spans@[i];
                &&& span.start <= span.end <= source.len()
                &&& tokens@[i].lexeme@ == source.subrange(span.start as int, span.end as int)
            } by {
                assert(whole.spans[i] == span_pairs(self.spans@)[i]);
                assert(whole.tokens[i] == token_views(tokens@)[i]);
            }
        }
        (tokens, errors)
    }
}

/// Scans a source text: its tokens, ending with the end-of-file token, and
/// its lexical errors.
pub fn tokenize(source: &str) -> (scanned: (Vec<Token>, Vec<String>))
    ensures
        token_views(scanned.0@) == scan(source@).tokens,
        texts(scanned.1@) == scan(source@).errors,
{
    let mut scanner = Scanner::new(source);
    scanner.scan_tokens()
}

/// Whether a text is a numeral: at least one digit, then, where there is a
/// dot, the dot and at least one digit behind it.
pub open spec fn is_numeral(text: Seq<char>) -> bool {
    exists|whole: int| is_numeral_with(text, whole)
}

/// Whether a text is a numeral whose first `whole` characters are the
/// digits in front of the dot, or all of its digits where it has no dot.
pub open spec fn is_numeral_with(text: Seq<char>, whole: int) -> bool {
    &&& 0 < whole <= text.len()
    &&& forall|i: int| 0 <= i < whole ==> is_digit(#[trigger] text[i])
    &&& whole == text.len() || (text[whole] == '.' && whole + 1 < text.len())
    &&& forall|i: int| whole < i < text.len() ==> is_digit(#[trigger] text[i])
}

/// What a token carries goes with its lexeme: a number and an identifier
/// carry the lexeme itself, a number's being a numeral; a string carries
/// the lexeme without its two quotes; any other token carries nothing.
pub open spec fn carries_its_text(token: TokenView) -> bool {
    match token.kind {
        Kind::Number => token.text == token.lexeme && is_numeral(token.text),
        Kind::Identifier => token.text == token.lexeme && token.text.len() > 0,
        Kind::String => token.lexeme == "\""@ + token.text + "\""@,
        _ => token.text == Seq::<char>::empty(),
    }
}

/// The token found at a position carries the text that goes with its lexeme.
pub proof fn lemma_lex_token_text(source: Seq<char>, start: int, line: usize)
    requires
        0 <= start < source.len(),
    ensures
        lex(source, start, line).token is Some ==> carries_its_text(
            lex(source, start, line).token.unwrap(),
        ),
{
    let c = source[start];
    let followed_by_equal = start + 1 < source.len() && source[start + 1] == '=';
    let followed_by_slash = start + 1 < source.len() && source[start + 1] == '/';
    if c == ' ' || c == '\r' || c == '\t' || c == '\n' {
    } else if single_character(c) is Some {
    } else if with_equal(c) is Some && followed_by_equal {
    } else if c == '/' && followed_by_slash {
    } else if operator(c) is Some {
    } else if c == '"' {
        lemma_find_bounds(source, start + 1, '"');
        let quote = find(source, start + 1, '"');
        if quote < source.len() {
            reveal_strlit("\"");
            assert(source.subrange(start, quote + 1) =~= "\""@ + source.subrange(
                start + 1,
                quote,
            ) + "\""@);
        }
    } else if is_digit(c) {
        lemma_digits_end_bounds(source, start + 1);
        let whole = digits_end(source, start + 1);
        let end = number_end(source, start + 1);
        if whole < source.len() {
            lemma_digits_end_bounds(source, whole + 1);
        }
        let numeral = source.subrange(start, end);
        let dot = whole - start;
        assert(0 < dot <= numeral.len());
        assert forall|i: int| 0 <= i < dot implies is_digit(#[trigger] numeral[i]) by {
            assert(numeral[i] == source[start + i]);
        }
        assert forall|i: int| dot < i < numeral.len() implies is_digit(#[trigger] numeral[i]) by {
            assert(numeral[i] == source[start + i]);
        }
        assert(dot == numeral.len() || (numeral[dot] == '.' && dot + 1 < numeral.len()));
        assert(is_numeral_with(numeral, dot));
    } else if is_letter(c) {
        lemma_word_end_bounds(source, start + 1);
        let word = source.subrange(start, word_end(source, start + 1));
        match keyword(word) {
            Some(_) => {},
            None => {},
        }
    }
}

/// Every scanned token carries the text that goes with its lexeme.
pub proof fn lemma_scanned_tokens_carry_their_text(source: Seq<char>, start: int, line: usize)
    requires
        0 <= start <= source.len(),
    ensures
        forall|i: int|
            0 <= i < scan_from(source, start, line).tokens.len() ==> carries_its_text(
                #[trigger] scan_from(source, start, line).tokens[i],
            ),
    decreases source.len() - start,
{
    let scanned = scan_from(source, start, line);
    if start < source.len() {
        let found = lex(source, start, line);
        lemma_lex_advances(source, start, line);
        lemma_lex_token_text(source, start, line);
        lemma_scanned_tokens_carry_their_text(source, found.next, found.line);
        let rest = scan_from(source, found.next, found.line);
        assert forall|i: int| 0 <= i < scanned.tokens.len() implies carries_its_text(
            #[trigger] scanned.tokens[i],
        ) by {
            if found.token is Some {
                if i > 0 {
                    assert(scanned.tokens[i] == rest.tokens[i - 1]);
                }
            } else {
                assert(scanned.tokens[i] == rest.tokens[i]);
            }
        }
    }
}

/// Every token of a scan carries the text that goes with its lexeme; what a
/// number token carries is a numeral.
pub proof fn lemma_scan_token_texts(source: Seq<char>)
    ensures
        forall|i: int|
            0 <= i < scan(source).tokens.len() ==> carries_its_text(
                #[trigger] scan(source).tokens[i],
            ),
{
    lemma_scanned_tokens_carry_their_text(source, 0, 1);
}

/// The lexeme of every scanned token is the slice of the source between the
/// two offsets recorded for it, and the recorded slices lie one after the
/// other in the source.
pub proof fn lemma_scan_round_trip(source: Seq<char>)
    ensures
        ({
            let scanned = scan(source);
            &&& scanned.spans.len() == scanned.tokens.len()
            &&& forall|i: int|
                0 <= i < scanned.tokens.len() ==> {
                    let span = #[trigger] scanned.spans[i];
                    &&& 0 <= span.0 <= span.1 <= source.len()
                    &&& scanned.tokens[i].lexeme == source.subrange(span.0, span.1)
                }
            &&& forall|i: int, j: int|
                0 <= i < j < scanned.spans.len() ==> (#[trigger] scanned.spans[i]).1 <= (
                #[trigger] scanned.spans[j]).0
        }),
{
    lemma_lexemes_are_source_slices(source, 0, 1);
}

/// The end-of-file token is the last token of every scan and occurs nowhere
/// else in it, whatever errors were found.
pub proof fn lemma_scan_ends_at_eof(source: Seq<char>)
    ensures
        scan(source).tokens.len() >= 1,
        scan(source).tokens.last().kind == Kind::Eof,
        forall|i: int|
            0 <= i < scan(source).tokens.len() - 1 ==> (#[trigger] scan(source).tokens[i]).kind
                != Kind::Eof,
{
    lemma_scan_ends_with_eof(source, 0, 1);
}

} // verus!
