use lox::host::{Arithmetic, Host, Platform};
use lox::number::Number;
use lox::token::{Kind, Token, TokenType};
use lox::tokenizer::Scanner;

struct Machine;

impl Host for Machine {
    fn read(&mut self, numeral: &str) -> Number {
        Number { bits: numeral.parse::<f64>().unwrap().to_bits() }
    }

    fn show(&mut self, number: Number, decimals: Option<u8>) -> String {
        let value = f64::from_bits(number.bits);
        match decimals {
            Some(decimals) => format!("{:.*}", decimals as usize, value),
            None => format!("{}", value),
        }
    }

    fn compute(&mut self, _operation: Arithmetic, left: Number, _right: Number) -> Number {
        left
    }

    fn clock(&mut self) -> Number {
        Number { bits: 0 }
    }

    fn print(&mut self, _line: String) {}
}

#[test]
fn test_lexer_and_token_to_string() {
    let source = "\"test\" 123 123.123 asdf ==";
    let mut scanner = Scanner::new(source);
    let (tokens, errors) = scanner.scan_tokens();

    assert!(errors.is_empty());
    assert_eq!(tokens, vec![
        Token { token: TokenType::String("test".to_string()), lexeme: "\"test\"".to_string(), line: 1 },
        Token { token: TokenType::Number("123".to_string()), lexeme: "123".to_string(), line: 1 },
        Token { token: TokenType::Number("123.123".to_string()), lexeme: "123.123".to_string(), line: 1 },
        Token { token: TokenType::Identifier("asdf".to_string()), lexeme: "asdf".to_string(), line: 1 },
        Token { token: TokenType::EqualEqual, lexeme: "==".to_string(), line: 1 },
        Token { token: TokenType::Eof, lexeme: "".to_string(), line: 1 },
    ]);
    let mut platform = Platform::new(Machine);
    assert_eq!(
        tokens.iter().map(|token| token.to_text(&mut platform)).collect::<Vec<String>>(),
        vec![
            "STRING \"test\" test",
            "NUMBER 123 123.0",
            "NUMBER 123.123 123.123",
            "IDENTIFIER asdf null",
            "EQUAL_EQUAL == null",
            "EOF  null",
        ]
    );
}

#[test]
fn test_token_listing_of_every_kind() {
    let source = "(){},.;-+*/ = == ! != < <= > >= and class else false for fun if nil or print return super this true var while";
    let mut scanner = Scanner::new(source);
    let (tokens, errors) = scanner.scan_tokens();
    assert!(errors.is_empty());
    let mut platform = Platform::new(Machine);
    let listing = tokens.iter().map(|token| token.to_text(&mut platform)).collect::<Vec<String>>();
    assert_eq!(listing, vec![
        "LEFT_PAREN ( null",
        "RIGHT_PAREN ) null",
        "LEFT_BRACE { null",
        "RIGHT_BRACE } null",
        "COMMA , null",
        "DOT . null",
        "SEMICOLON ; null",
        "MINUS - null",
        "PLUS + null",
        "STAR * null",
        "SLASH / null",
        "EQUAL = null",
        "EQUAL_EQUAL == null",
        "BANG ! null",
        "BANG_EQUAL != null",
        "LESS < null",
        "LESS_EQUAL <= null",
        "GREATER > null",
        "GREATER_EQUAL >= null",
        "AND and null",
        "CLASS class null",
        "ELSE else null",
        "FALSE false null",
        "FOR for null",
        "FUN fun null",
        "IF if null",
        "NIL nil null",
        "OR or null",
        "PRINT print null",
        "RETURN return null",
        "SUPER super null",
        "THIS this null",
        "TRUE true null",
        "VAR var null",
        "WHILE while null",
        "EOF  null",
    ]);
}

#[test]
fn test_token_new_and_clone() {
    let token = Token::new(TokenType::Identifier("x".to_string()), "x".to_string(), 7);
    assert_eq!(token, Token { token: TokenType::Identifier("x".to_string()), lexeme: "x".to_string(), line: 7 });
    assert_eq!(token.clone(), token);
}

#[test]
fn test_token_kinds() {
    assert_eq!(TokenType::Number("1".to_string()).kind(), Kind::Number);
    assert_eq!(TokenType::String("s".to_string()).kind(), Kind::String);
    assert_eq!(TokenType::Identifier("i".to_string()).kind(), Kind::Identifier);
    assert_eq!(TokenType::LeftBrace.kind(), Kind::LeftBrace);
    assert_eq!(TokenType::Eof.kind(), Kind::Eof);
    assert_eq!(TokenType::BangEqual.clone(), TokenType::BangEqual);
}
