use lox::token::{Token, TokenType};
use lox::tokenizer::{Scanner, Span};

fn token(token: TokenType, lexeme: &str, line: usize) -> Token {
    Token { token, lexeme: lexeme.to_string(), line }
}

fn string(text: &str) -> TokenType {
    TokenType::String(text.to_string())
}

fn number(numeral: &str) -> TokenType {
    TokenType::Number(numeral.to_string())
}

fn identifier(name: &str) -> TokenType {
    TokenType::Identifier(name.to_string())
}

fn single_character_tokens() {
    let source = "{(,.;-+*)}";
    let mut scanner = Scanner::new(source);
    let (tokens, errors) = scanner.scan_tokens();

    assert!(errors.is_empty());
    assert_eq!(tokens, vec![
        token(TokenType::LeftBrace, "{", 1),
        token(TokenType::LeftParen, "(", 1),
        token(TokenType::Comma, ",", 1),
        token(TokenType::Dot, ".", 1),
        token(TokenType::Semicolon, ";", 1),
        token(TokenType::Minus, "-", 1),
        token(TokenType::Plus, "+", 1),
        token(TokenType::Star, "*", 1),
        token(TokenType::RightParen, ")", 1),
        token(TokenType::RightBrace, "}", 1),
        token(TokenType::Eof, "", 1),
    ]);
}

#[test]
fn test_lexer_single_character_tokens() {
    single_character_tokens();
}

#[test]
fn tokenizer_test_lexer_single_character_tokens() {
    single_character_tokens();
}

fn one_or_two_character_tokens() {
    let source = "({=}){==}(!){!=}<(>(>=(<=/(//()";
    let mut scanner = Scanner::new(source);
    let (tokens, errors) = scanner.scan_tokens();

    assert!(errors.is_empty());
    assert_eq!(tokens, vec![
        token(TokenType::LeftParen, "(", 1),
        token(TokenType::LeftBrace, "{", 1),
        token(TokenType::Equal, "=", 1),
        token(TokenType::RightBrace, "}", 1),
        token(TokenType::RightParen, ")", 1),
        token(TokenType::LeftBrace, "{", 1),
        token(TokenType::EqualEqual, "==", 1),
        token(TokenType::RightBrace, "}", 1),
        token(TokenType::LeftParen, "(", 1),
        token(TokenType::Bang, "!", 1),
        token(TokenType::RightParen, ")", 1),
        token(TokenType::LeftBrace, "{", 1),
        token(TokenType::BangEqual, "!=", 1),
        token(TokenType::RightBrace, "}", 1),
        token(TokenType::Less, "<", 1),
        token(TokenType::LeftParen, "(", 1),
        token(TokenType::Greater, ">", 1),
        token(TokenType::LeftParen, "(", 1),
        token(TokenType::GreaterEqual, ">=", 1),
        token(TokenType::LeftParen, "(", 1),
        token(TokenType::LessEqual, "<=", 1),
        token(TokenType::Slash, "/", 1),
        token(TokenType::LeftParen, "(", 1),
        token(TokenType::Eof, "", 1),
    ]);
}

#[test]
fn test_lexer_one_or_two_character_tokens() {
    one_or_two_character_tokens();
}

#[test]
fn tokenizer_test_lexer_one_or_two_character_tokens() {
    one_or_two_character_tokens();
}

fn lexical_errors() {
    let source = ",.$(#";
    let mut scanner = Scanner::new(source);
    let (tokens, errors) = scanner.scan_tokens();

    assert_eq!(errors, vec![
        "[line 1] Error: Unexpected character: $",
        "[line 1] Error: Unexpected character: #",
    ]);
    assert_eq!(tokens, vec![
        token(TokenType::Comma, ",", 1),
        token(TokenType::Dot, ".", 1),
        token(TokenType::LeftParen, "(", 1),
        token(TokenType::Eof, "", 1),
    ]);
}

#[test]
fn test_lexer_lexical_errors() {
    lexical_errors();
}

#[test]
fn tokenizer_test_lexer_lexical_errors() {
    lexical_errors();
}

fn whitespaces() {
    let source = " \t\r\n";
    let mut scanner = Scanner::new(source);
    let (tokens, errors) = scanner.scan_tokens();

    assert!(errors.is_empty());
    assert_eq!(tokens, vec![token(TokenType::Eof, "", 2)]);
}

#[test]
fn test_lexer_whitespaces() {
    whitespaces();
}

#[test]
fn tokenizer_test_lexer_whitespaces() {
    whitespaces();
}

fn literal_string() {
    let source = " \"Hello World\"\n\"\"";
    let mut scanner = Scanner::new(source);
    let (tokens, errors) = scanner.scan_tokens();

    assert!(errors.is_empty());
    assert_eq!(tokens, vec![
        token(string("Hello World"), "\"Hello World\"", 1),
        token(string(""), "\"\"", 2),
        token(TokenType::Eof, "", 2),
    ]);
}

#[test]
fn test_lexer_literal_string() {
    literal_string();
}

#[test]
fn tokenizer_test_lexer_literal_string() {
    literal_string();
}

fn literal_string_with_newline() {
    let source = " \"Hello\nWorld\"";
    let mut scanner = Scanner::new(source);
    let (tokens, errors) = scanner.scan_tokens();

    assert!(errors.is_empty());
    assert_eq!(tokens, vec![
        token(string("Hello\nWorld"), "\"Hello\nWorld\"", 1),
        token(TokenType::Eof, "", 2),
    ]);
}

#[test]
fn test_lexer_literal_string_with_newline() {
    literal_string_with_newline();
}

#[test]
fn tokenizer_test_lexer_literal_string_with_newline() {
    literal_string_with_newline();
}

fn literal_string_unterminated() {
    let source = " \"Hello World";
    let mut scanner = Scanner::new(source);
    let (tokens, errors) = scanner.scan_tokens();

    assert_eq!(errors, vec!["[line 1] Error: Unterminated string.".to_string()]);
    assert_eq!(tokens, vec![token(TokenType::Eof, "", 1)]);
}

#[test]
fn test_lexer_literal_string_unterminated() {
    literal_string_unterminated();
}

#[test]
fn tokenizer_test_lexer_literal_string_unterminated() {
    literal_string_unterminated();
}

#[test]
fn test_lexer_literal_number() {
    let source = "123 123.123 .1 1";
    let mut scanner = Scanner::new(source);
    let (tokens, errors) = scanner.scan_tokens();

    assert!(errors.is_empty());
    assert_eq!(tokens, vec![
        token(number("123"), "123", 1),
        token(number("123.123"), "123.123", 1),
        token(TokenType::Dot, ".", 1),
        token(number("1"), "1", 1),
        token(number("1"), "1", 1),
        token(TokenType::Eof, "", 1),
    ]);
}

#[test]
fn test_lexer_literal_identifier() {
    let source = "tomato apple nuts1 deez_nuts _test";
    let mut scanner = Scanner::new(source);
    let (tokens, errors) = scanner.scan_tokens();

    assert!(errors.is_empty());
    assert_eq!(tokens, vec![
        token(identifier("tomato"), "tomato", 1),
        token(identifier("apple"), "apple", 1),
        token(identifier("nuts1"), "nuts1", 1),
        token(identifier("deez_nuts"), "deez_nuts", 1),
        token(identifier("_test"), "_test", 1),
        token(TokenType::Eof, "", 1),
    ]);
}

#[test]
fn test_lexer_literal_keywords() {
    let source = "and class else false for fun if nil or print return super this true var while";
    let mut scanner = Scanner::new(source);
    let (tokens, errors) = scanner.scan_tokens();

    assert!(errors.is_empty());
    assert_eq!(tokens, vec![
        token(TokenType::And, "and", 1),
        token(TokenType::Class, "class", 1),
        token(TokenType::Else, "else", 1),
        token(TokenType::False, "false", 1),
        token(TokenType::For, "for", 1),
        token(TokenType::Fun, "fun", 1),
        token(TokenType::If, "if", 1),
        token(TokenType::Nil, "nil", 1),
        token(TokenType::Or, "or", 1),
        token(TokenType::Print, "print", 1),
        token(TokenType::Return, "return", 1),
        token(TokenType::Super, "super", 1),
        token(TokenType::This, "this", 1),
        token(TokenType::True, "true", 1),
        token(TokenType::Var, "var", 1),
        token(TokenType::While, "while", 1),
        token(TokenType::Eof, "", 1),
    ]);
}

#[test]
fn test_lexer_comment() {
    let source = "123// Hello World\n123.123";
    let mut scanner = Scanner::new(source);
    let (tokens, errors) = scanner.scan_tokens();

    assert!(errors.is_empty());
    assert_eq!(tokens, vec![
        token(number("123"), "123", 1),
        token(number("123.123"), "123.123", 2),
        token(TokenType::Eof, "", 2),
    ]);
}

#[test]
fn test_lexer_number_with_trailing_dot() {
    let mut scanner = Scanner::new("1.2.3 7.");
    let (tokens, errors) = scanner.scan_tokens();

    assert!(errors.is_empty());
    assert_eq!(tokens, vec![
        token(number("1.2"), "1.2", 1),
        token(TokenType::Dot, ".", 1),
        token(number("3"), "3", 1),
        token(number("7"), "7", 1),
        token(TokenType::Dot, ".", 1),
        token(TokenType::Eof, "", 1),
    ]);
    let mut scanner = Scanner::new("8.x 9.");
    let (tokens, errors) = scanner.scan_tokens();

    assert!(errors.is_empty());
    assert_eq!(tokens, vec![
        token(number("8"), "8", 1),
        token(TokenType::Dot, ".", 1),
        token(identifier("x"), "x", 1),
        token(number("9"), "9", 1),
        token(TokenType::Dot, ".", 1),
        token(TokenType::Eof, "", 1),
    ]);
}

#[test]
fn test_lexer_comment_without_newline() {
    let mut scanner = Scanner::new("a // to the end");
    let (tokens, errors) = scanner.scan_tokens();

    assert!(errors.is_empty());
    assert_eq!(tokens, vec![token(identifier("a"), "a", 1), token(TokenType::Eof, "", 1)]);
}

#[test]
fn test_lexer_unterminated_string_counts_lines() {
    let mut scanner = Scanner::new("x\n\"one\ntwo\n");
    let (tokens, errors) = scanner.scan_tokens();

    assert_eq!(errors, vec!["[line 4] Error: Unterminated string.".to_string()]);
    assert_eq!(tokens, vec![token(identifier("x"), "x", 1), token(TokenType::Eof, "", 4)]);
}

#[test]
fn test_lexer_errors_do_not_stop_the_scan() {
    let mut scanner = Scanner::new("@\n1 ~ \"open");
    let (tokens, errors) = scanner.scan_tokens();

    assert_eq!(errors, vec![
        "[line 1] Error: Unexpected character: @".to_string(),
        "[line 2] Error: Unexpected character: ~".to_string(),
        "[line 2] Error: Unterminated string.".to_string(),
    ]);
    assert_eq!(tokens, vec![token(number("1"), "1", 2), token(TokenType::Eof, "", 2)]);
}

#[test]
fn test_lexer_keyword_prefix_is_identifier() {
    let mut scanner = Scanner::new("orchid android fun_ _");
    let (tokens, _) = scanner.scan_tokens();

    assert_eq!(tokens, vec![
        token(identifier("orchid"), "orchid", 1),
        token(identifier("android"), "android", 1),
        token(identifier("fun_"), "fun_", 1),
        token(identifier("_"), "_", 1),
        token(TokenType::Eof, "", 1),
    ]);
}

#[test]
fn test_lexer_spans_give_back_the_lexemes() {
    let source = "var é = \"ü\n\"; // done\nprint é >= 10.5;";
    let mut scanner = Scanner::new(source);
    let (tokens, errors) = scanner.scan_tokens();

    assert_eq!(errors, vec!["[line 1] Error: Unexpected character: é".to_string(),
        "[line 3] Error: Unexpected character: é".to_string()]);
    let spans: Vec<Span> = scanner.spans().clone();
    assert_eq!(spans.len(), tokens.len());
    let characters: Vec<char> = source.chars().collect();
    let mut end = 0;
    for (token, span) in tokens.iter().zip(spans.iter()) {
        assert!(end <= span.start && span.start <= span.end && span.end <= characters.len());
        let slice: String = characters[span.start..span.end].iter().collect();
        assert_eq!(token.lexeme, slice);
        assert_eq!(token.lexeme, scanner.slice(*span));
        end = span.end;
    }
    assert_eq!(spans[0], Span { start: 0, end: 3 });
    assert_eq!(spans[spans.len() - 1], Span { start: characters.len(), end: characters.len() });
}

#[test]
fn test_lexer_empty_source() {
    let mut scanner = Scanner::new("");
    let (tokens, errors) = scanner.scan_tokens();

    assert!(errors.is_empty());
    assert_eq!(tokens, vec![token(TokenType::Eof, "", 1)]);
    assert_eq!(scanner.spans().clone(), vec![Span { start: 0, end: 0 }]);
}

#[test]
fn test_token_type_names() {
    assert_eq!(TokenType::LeftParen.name(), "LEFT_PAREN");
    assert_eq!(TokenType::EqualEqual.name(), "EQUAL_EQUAL");
    assert_eq!(TokenType::GreaterEqual.name(), "GREATER_EQUAL");
    assert_eq!(string("x").name(), "STRING");
    assert_eq!(number("1").name(), "NUMBER");
    assert_eq!(identifier("x").name(), "IDENTIFIER");
    assert_eq!(TokenType::While.name(), "WHILE");
    assert_eq!(TokenType::Eof.name(), "EOF");
}
