//! Tokens: the classified lexemes that the scanner produces.

use vstd::prelude::*;

verus! {

/// What a token is, without the text it may carry.
#[derive(Clone, Copy, Debug, PartialEq, Eq, Structural)]
pub enum Kind {
    // Single-character tokens.
    LeftParen,
    RightParen,
    LeftBrace,
    RightBrace,
    Comma,
    Dot,
    Semicolon,
    Minus,
    Plus,
    Star,
    // One or two character tokens.
    Slash,
    Equal,
    EqualEqual,
    Bang,
    BangEqual,
    Less,
    LessEqual,
    Greater,
    GreaterEqual,
    // Literals.
    String,
    Number,
    Identifier,
    // Keywords.
    And,
    Class,
    Else,
    False,
    For,
    Fun,
    If,
    Nil,
    Or,
    Print,
    Return,
    Super,
    This,
    True,
    Var,
    While,
    Eof,
}

/// What a token is. A string carries its contents without the quotes, a
/// number the numeral as it was written, an identifier its name.
#[derive(Debug, PartialEq)]
pub enum TokenType {
    // Single-character tokens.
    LeftParen,
    RightParen,
    LeftBrace,
    RightBrace,
    Comma,
    Dot,
    Semicolon,
    Minus,
    Plus,
    Star,
    // One or two character tokens.
    Slash,
    Equal,
    EqualEqual,
    Bang,
    BangEqual,
    Less,
    LessEqual,
    Greater,
    GreaterEqual,
    // Literals.
    String(String),
    Number(String),
    Identifier(String),
    // Keywords.
    And,
    Class,
    Else,
    False,
    For,
    Fun,
    If,
    Nil,
    Or,
    Print,
    Return,
    Super,
    This,
    True,
    Var,
    While,
    Eof,
}

/// The model of a [`TokenType`]: its kind and the text it carries, which is
/// empty for every kind but the three literals.
pub struct TokenTypeView {
    pub kind: Kind,
    pub text: Seq<char>,
}

impl View for TokenType {
    type V = TokenTypeView;

    open spec fn view(&self) -> TokenTypeView {
        match self {
            TokenType::LeftParen => TokenTypeView { kind: Kind::LeftParen, text: Seq::empty() },
            TokenType::RightParen => TokenTypeView { kind: Kind::RightParen, text: Seq::empty() },
            TokenType::LeftBrace => TokenTypeView { kind: Kind::LeftBrace, text: Seq::empty() },
            TokenType::RightBrace => TokenTypeView { kind: Kind::RightBrace, text: Seq::empty() },
            TokenType::Comma => TokenTypeView { kind: Kind::Comma, text: Seq::empty() },
            TokenType::Dot => TokenTypeView { kind: Kind::Dot, text: Seq::empty() },
            TokenType::Semicolon => TokenTypeView { kind: Kind::Semicolon, text: Seq::empty() },
            TokenType::Minus => TokenTypeView { kind: Kind::Minus, text: Seq::empty() },
            TokenType::Plus => TokenTypeView { kind: Kind::Plus, text: Seq::empty() },
            TokenType::Star => TokenTypeView { kind: Kind::Star, text: Seq::empty() },
            TokenType::Slash => TokenTypeView { kind: Kind::Slash, text: Seq::empty() },
            TokenType::Equal => TokenTypeView { kind: Kind::Equal, text: Seq::empty() },
            TokenType::EqualEqual => TokenTypeView { kind: Kind::EqualEqual, text: Seq::empty() },
            TokenType::Bang => TokenTypeView { kind: Kind::Bang, text: Seq::empty() },
            TokenType::BangEqual => TokenTypeView { kind: Kind::BangEqual, text: Seq::empty() },
            TokenType::Less => TokenTypeView { kind: Kind::Less, text: Seq::empty() },
            TokenType::LessEqual => TokenTypeView { kind: Kind::LessEqual, text: Seq::empty() },
            TokenType::Greater => TokenTypeView { kind: Kind::Greater, text: Seq::empty() },
            TokenType::GreaterEqual => TokenTypeView { kind: Kind::GreaterEqual, text: Seq::empty() },
            TokenType::String(text) => TokenTypeView { kind: Kind::String, text: text@ },
            TokenType::Number(text) => TokenTypeView { kind: Kind::Number, text: text@ },
            TokenType::Identifier(text) => TokenTypeView { kind: Kind::Identifier, text: text@ },
            TokenType::And => TokenTypeView { kind: Kind::And, text: Seq::empty() },
            TokenType::Class => TokenTypeView { kind: Kind::Class, text: Seq::empty() },
            TokenType::Else => TokenTypeView { kind: Kind::Else, text: Seq::empty() },
            TokenType::False => TokenTypeView { kind: Kind::False, text: Seq::empty() },
            TokenType::For => TokenTypeView { kind: Kind::For, text: Seq::empty() },
            TokenType::Fun => TokenTypeView { kind: Kind::Fun, text: Seq::empty() },
            TokenType::If => TokenTypeView { kind: Kind::If, text: Seq::empty() },
            TokenType::Nil => TokenTypeView { kind: Kind::Nil, text: Seq::empty() },
            TokenType::Or => TokenTypeView { kind: Kind::Or, text: Seq::empty() },
            TokenType::Print => TokenTypeView { kind: Kind::Print, text: Seq::empty() },
            TokenType::Return => TokenTypeView { kind: Kind::Return, text: Seq::empty() },
            TokenType::Super => TokenTypeView { kind: Kind::Super, text: Seq::empty() },
            TokenType::This => TokenTypeView { kind: Kind::This, text: Seq::empty() },
            TokenType::True => TokenTypeView { kind: Kind::True, text: Seq::empty() },
            TokenType::Var => TokenTypeView { kind: Kind::Var, text: Seq::empty() },
            TokenType::While => TokenTypeView { kind: Kind::While, text: Seq::empty() },
            TokenType::Eof => TokenTypeView { kind: Kind::Eof, text: Seq::empty() },
        }
    }
}

/// The name under which a kind appears in a token listing: the variant's name
/// in upper case, its words joined by underscores.
pub open spec fn kind_name(kind: Kind) -> Seq<char> {
    match kind {
        Kind::LeftParen => "LEFT_PAREN"@,
        Kind::RightParen => "RIGHT_PAREN"@,
        Kind::LeftBrace => "LEFT_BRACE"@,
        Kind::RightBrace => "RIGHT_BRACE"@,
        Kind::Comma => "COMMA"@,
        Kind::Dot => "DOT"@,
        Kind::Semicolon => "SEMICOLON"@,
        Kind::Minus => "MINUS"@,
        Kind::Plus => "PLUS"@,
        Kind::Star => "STAR"@,
        Kind::Slash => "SLASH"@,
        Kind::Equal => "EQUAL"@,
        Kind::EqualEqual => "EQUAL_EQUAL"@,
        Kind::Bang => "BANG"@,
        Kind::BangEqual => "BANG_EQUAL"@,
        Kind::Less => "LESS"@,
        Kind::LessEqual => "LESS_EQUAL"@,
        Kind::Greater => "GREATER"@,
        Kind::GreaterEqual => "GREATER_EQUAL"@,
        Kind::String => "STRING"@,
        Kind::Number => "NUMBER"@,
        Kind::Identifier => "IDENTIFIER"@,
        Kind::And => "AND"@,
        Kind::Class => "CLASS"@,
        Kind::Else => "ELSE"@,
        Kind::False => "FALSE"@,
        Kind::For => "FOR"@,
        Kind::Fun => "FUN"@,
        Kind::If => "IF"@,
        Kind::Nil => "NIL"@,
        Kind::Or => "OR"@,
        Kind::Print => "PRINT"@,
        Kind::Return => "RETURN"@,
        Kind::Super => "SUPER"@,
        Kind::This => "THIS"@,
        Kind::True => "TRUE"@,
        Kind::Var => "VAR"@,
        Kind::While => "WHILE"@,
        Kind::Eof => "EOF"@,
    }
}

impl Kind {
    /// The kind's name in a token listing.
    pub fn name(self) -> (name: &'static str)
        ensures
            name@ == kind_name(self),
    {
        match self {
            Kind::LeftParen => "LEFT_PAREN",
            Kind::RightParen => "RIGHT_PAREN",
            Kind::LeftBrace => "LEFT_BRACE",
            Kind::RightBrace => "RIGHT_BRACE",
            Kind::Comma => "COMMA",
            Kind::Dot => "DOT",
            Kind::Semicolon => "SEMICOLON",
            Kind::Minus => "MINUS",
            Kind::Plus => "PLUS",
            Kind::Star => "STAR",
            Kind::Slash => "SLASH",
            Kind::Equal => "EQUAL",
            Kind::EqualEqual => "EQUAL_EQUAL",
            Kind::Bang => "BANG",
            Kind::BangEqual => "BANG_EQUAL",
            Kind::Less => "LESS",
            Kind::LessEqual => "LESS_EQUAL",
            Kind::Greater => "GREATER",
            Kind::GreaterEqual => "GREATER_EQUAL",
            Kind::String => "STRING",
            Kind::Number => "NUMBER",
            Kind::Identifier => "IDENTIFIER",
            Kind::And => "AND",
            Kind::Class => "CLASS",
            Kind::Else => "ELSE",
            Kind::False => "FALSE",
            Kind::For => "FOR",
            Kind::Fun => "FUN",
            Kind::If => "IF",
            Kind::Nil => "NIL",
            Kind::Or => "OR",
            Kind::Print => "PRINT",
            Kind::Return => "RETURN",
            Kind::Super => "SUPER",
            Kind::This => "THIS",
            Kind::True => "TRUE",
            Kind::Var => "VAR",
            Kind::While => "WHILE",
            Kind::Eof => "EOF",
        }
    }
}

impl TokenType {
    /// A token type of the given kind that carries no text.
    pub open spec fn bare(kind: Kind) -> TokenTypeView {
        TokenTypeView { kind, text: Seq::empty() }
    }

    pub fn kind(&self) -> (kind: Kind)
        ensures
            kind == self@.kind,
    {
        match self {
            TokenType::LeftParen => Kind::LeftParen,
            TokenType::RightParen => Kind::RightParen,
            TokenType::LeftBrace => Kind::LeftBrace,
            TokenType::RightBrace => Kind::RightBrace,
            TokenType::Comma => Kind::Comma,
            TokenType::Dot => Kind::Dot,
            TokenType::Semicolon => Kind::Semicolon,
            TokenType::Minus => Kind::Minus,
            TokenType::Plus => Kind::Plus,
            TokenType::Star => Kind::Star,
            TokenType::Slash => Kind::Slash,
            TokenType::Equal => Kind::Equal,
            TokenType::EqualEqual => Kind::EqualEqual,
            TokenType::Bang => Kind::Bang,
            TokenType::BangEqual => Kind::BangEqual,
            TokenType::Less => Kind::Less,
            TokenType::LessEqual => Kind::LessEqual,
            TokenType::Greater => Kind::Greater,
            TokenType::GreaterEqual => Kind::GreaterEqual,
            TokenType::String(_) => Kind::String,
            TokenType::Number(_) => Kind::Number,
            TokenType::Identifier(_) => Kind::Identifier,
            TokenType::And => Kind::And,
            TokenType::Class => Kind::Class,
            TokenType::Else => Kind::Else,
            TokenType::False => Kind::False,
            TokenType::For => Kind::For,
            TokenType::Fun => Kind::Fun,
            TokenType::If => Kind::If,
            TokenType::Nil => Kind::Nil,
            TokenType::Or => Kind::Or,
            TokenType::Print => Kind::Print,
            TokenType::Return => Kind::Return,
            TokenType::Super => Kind::Super,
            TokenType::This => Kind::This,
            TokenType::True => Kind::True,
            TokenType::Var => Kind::Var,
            TokenType::While => Kind::While,
            TokenType::Eof => Kind::Eof,
        }
    }

    /// The token type of a kind that carries no text; a literal kind gets
    /// the empty text.
    pub(crate) fn of_kind(kind: Kind) -> (token: TokenType)
        ensures
            token@ == Self::bare(kind),
    {
        match kind {
            Kind::LeftParen => TokenType::LeftParen,
            Kind::RightParen => TokenType::RightParen,
            Kind::LeftBrace => TokenType::LeftBrace,
            Kind::RightBrace => TokenType::RightBrace,
            Kind::Comma => TokenType::Comma,
            Kind::Dot => TokenType::Dot,
            Kind::Semicolon => TokenType::Semicolon,
            Kind::Minus => TokenType::Minus,
            Kind::Plus => TokenType::Plus,
            Kind::Star => TokenType::Star,
            Kind::Slash => TokenType::Slash,
            Kind::Equal => TokenType::Equal,
            Kind::EqualEqual => TokenType::EqualEqual,
            Kind::Bang => TokenType::Bang,
            Kind::BangEqual => TokenType::BangEqual,
            Kind::Less => TokenType::Less,
            Kind::LessEqual => TokenType::LessEqual,
            Kind::Greater => TokenType::Greater,
            Kind::GreaterEqual => TokenType::GreaterEqual,
            Kind::String => TokenType::String(String::new()),
            Kind::Number => TokenType::Number(String::new()),
            Kind::Identifier => TokenType::Identifier(String::new()),
            Kind::And => TokenType::And,
            Kind::Class => TokenType::Class,
            Kind::Else => TokenType::Else,
            Kind::False => TokenType::False,
            Kind::For => TokenType::For,
            Kind::Fun => TokenType::Fun,
            Kind::If => TokenType::If,
            Kind::Nil => TokenType::Nil,
            Kind::Or => TokenType::Or,
            Kind::Print => TokenType::Print,
            Kind::Return => TokenType::Return,
            Kind::Super => TokenType::Super,
            Kind::This => TokenType::This,
            Kind::True => TokenType::True,
            Kind::Var => TokenType::Var,
            Kind::While => TokenType::While,
            Kind::Eof => TokenType::Eof,
        }
    }

    /// The name of the token's kind in a token listing.
    pub fn name(&self) -> (name: String)
        ensures
            name@ == kind_name(self@.kind),
    {
        self.kind().name().to_owned()
    }
}

impl Clone for TokenType {
    fn clone(&self) -> (copy: Self)
        ensures
            copy@ == self@,
    {
        match self {
            TokenType::LeftParen => TokenType::LeftParen,
            TokenType::RightParen => TokenType::RightParen,
            TokenType::LeftBrace => TokenType::LeftBrace,
            TokenType::RightBrace => TokenType::RightBrace,
            TokenType::Comma => TokenType::Comma,
            TokenType::Dot => TokenType::Dot,
            TokenType::Semicolon => TokenType::Semicolon,
            TokenType::Minus => TokenType::Minus,
            TokenType::Plus => TokenType::Plus,
            TokenType::Star => TokenType::Star,
            TokenType::Slash => TokenType::Slash,
            TokenType::Equal => TokenType::Equal,
            TokenType::EqualEqual => TokenType::EqualEqual,
            TokenType::Bang => TokenType::Bang,
            TokenType::BangEqual => TokenType::BangEqual,
            TokenType::Less => TokenType::Less,
            TokenType::LessEqual => TokenType::LessEqual,
            TokenType::Greater => TokenType::Greater,
            TokenType::GreaterEqual => TokenType::GreaterEqual,
            TokenType::String(text) => TokenType::String(text.clone()),
            TokenType::Number(text) => TokenType::Number(text.clone()),
            TokenType::Identifier(text) => TokenType::Identifier(text.clone()),
            TokenType::And => TokenType::And,
            TokenType::Class => TokenType::Class,
            TokenType::Else => TokenType::Else,
            TokenType::False => TokenType::False,
            TokenType::For => TokenType::For,
            TokenType::Fun => TokenType::Fun,
            TokenType::If => TokenType::If,
            TokenType::Nil => TokenType::Nil,
            TokenType::Or => TokenType::Or,
            TokenType::Print => TokenType::Print,
            TokenType::Return => TokenType::Return,
            TokenType::Super => TokenType::Super,
            TokenType::This => TokenType::This,
            TokenType::True => TokenType::True,
            TokenType::Var => TokenType::Var,
            TokenType::While => TokenType::While,
            TokenType::Eof => TokenType::Eof,
        }
    }
}

/// A classified lexeme with the line it was found on.
#[derive(Debug, PartialEq)]
pub struct Token {
    pub token: TokenType,
    pub lexeme: String,
    pub line: usize,
}

/// The model of a [`Token`].
pub struct TokenView {
    pub kind: Kind,
    pub text: Seq<char>,
    pub lexeme: Seq<char>,
    pub line: usize,
}

impl View for Token {
    type V = TokenView;

    open spec fn view(&self) -> TokenView {
        TokenView {
            kind: self.token@.kind,
            text: self.token@.text,
            lexeme: self.lexeme@,
            line: self.line,
        }
    }
}

impl Token {
    pub fn new(token: TokenType, lexeme: String, line: usize) -> (made: Token)
        ensures
            made.token == token,
            made.lexeme == lexeme,
            made.line == line,
    {
        Token { token, lexeme, line }
    }
}

impl Clone for Token {
    fn clone(&self) -> (copy: Self)
        ensures
            copy@ == self@,
    {
        Token { token: self.token.clone(), lexeme: self.lexeme.clone(), line: self.line }
    }
}

/// The token that ends every token sequence.
pub open spec fn end_of_file(line: usize) -> TokenView {
    TokenView { kind: Kind::Eof, text: Seq::empty(), lexeme: Seq::empty(), line }
}

/// The models of the tokens of a vector, in order.
pub open spec fn token_views(tokens: Seq<Token>) -> Seq<TokenView> {
    Seq::new(tokens.len(), |i: int| tokens[i]@)
}

} // verus!
