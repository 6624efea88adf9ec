use lox::expression::{BinaryOperation, Expression, Literal, UnaryOperation};
use lox::host::{Arithmetic, Host, Platform};
use lox::number::Number;
use lox::parser::Parser;
use lox::statement::Statement;
use lox::token::{Token, TokenType};
use lox::tokenizer::Scanner;

struct Machine;

impl Host for Machine {
    fn read(&mut self, numeral: &str) -> Number {
        Number { bits: numeral.parse::<f64>().unwrap().to_bits() }
    }

    fn show(&mut self, number: Number, decimals: Option<u8>) -> String {
        let value = f64::from_bits(number.bits);
        match decimals {
            Some(decimals) => format!("{:.*}", decimals as usize, value),
            None => format!("{}", value),
        }
    }

    fn compute(&mut self, operation: Arithmetic, left: Number, right: Number) -> Number {
        let (left, right) = (f64::from_bits(left.bits), f64::from_bits(right.bits));
        let result = match operation {
            Arithmetic::Add => left + right,
            Arithmetic::Subtract => left - right,
            Arithmetic::Multiply => left * right,
            Arithmetic::Divide => left / right,
        };
        Number { bits: result.to_bits() }
    }

    fn clock(&mut self) -> Number {
        Number { bits: 0f64.to_bits() }
    }

    fn print(&mut self, _line: String) {}
}

fn parse_expression(source: &str) -> Result<Expression, String> {
    let mut scanner = Scanner::new(source);
    let (tokens, _) = scanner.scan_tokens();
    let mut parser = Parser::new(tokens);
    parser.parse_expression()
}

fn run_expression(source: &str) -> Result<String, String> {
    let mut platform = Platform::new(Machine);
    Ok(parse_expression(source)?.to_text(&mut platform))
}

fn run_statement(source: &str) -> Result<String, String> {
    let mut scanner = Scanner::new(source);
    let (tokens, _) = scanner.scan_tokens();
    let mut parser = Parser::new(tokens);
    let statements = parser.parse()?;
    let mut platform = Platform::new(Machine);
    Ok(statements
        .iter()
        .map(|statement| statement.to_text(&mut platform))
        .collect::<Vec<String>>()
        .join(" "))
}

fn check_expressions(cases: &[(&str, &str)]) {
    for (input, expected) in cases {
        assert_eq!(*expected, run_expression(input).unwrap(), "for {}", input);
    }
}

fn check_statements(cases: &[(&str, &str)]) {
    for (input, expected) in cases {
        assert_eq!(*expected, run_statement(input).unwrap(), "for {}", input);
    }
}

#[test]
fn test_parser_booleans_and_nil() {
    check_expressions(&[("true", "true"), ("false", "false"), ("nil", "nil")]);
}

#[test]
fn test_parser_numbers() {
    check_expressions(&[
        ("123", "123.0"),
        ("123.123", "123.123"),
        ("32453454", "32453454.0"),
        ("32453454.32453454000", "32453454.32453454"),
    ]);
}

#[test]
fn test_parser_string() {
    check_expressions(&[
        ("\"test\"", "test"),
        ("(\"foo\")", "(group foo)"),
        ("((\"foo\"))", "(group (group foo))"),
    ]);
}

#[test]
fn test_parser_unary_not() {
    check_expressions(&[
        ("!false", "(! false)"),
        ("!\"foo\")", "(! foo)"),
        ("!123", "(! 123.0)"),
    ]);
}

#[test]
fn test_parser_unary_minus() {
    check_expressions(&[("-4", "(- 4.0)")]);
}

#[test]
fn test_parser_arithmetic() {
    check_expressions(&[
        ("16 * 38 / 58", "(/ (* 16.0 38.0) 58.0)"),
        ("(15 * -78 / (15 * 40))", "(group (/ (* 15.0 (- 78.0)) (group (* 15.0 40.0))))"),
        ("(1 / 2) * (-3 / -2)", "(* (group (/ 1.0 2.0)) (group (/ (- 3.0) (- 2.0))))"),
        ("52 + 80 - 94", "(- (+ 52.0 80.0) 94.0)"),
        ("(1 + 2) * (-3 - -2)", "(* (group (+ 1.0 2.0)) (group (- (- 3.0) (- 2.0))))"),
    ]);
}

#[test]
fn test_parser_comparison() {
    check_expressions(&[
        ("83 < 99 < 115", "(< (< 83.0 99.0) 115.0)"),
        ("83 > 99 > 115", "(> (> 83.0 99.0) 115.0)"),
        ("83 >= 99 <= 115", "(<= (>= 83.0 99.0) 115.0)"),
    ]);
}

#[test]
fn test_parser_equal() {
    check_expressions(&[
        ("\"baz\" == \"baz\"", "(== baz baz)"),
        ("\"baz\" != \"baz\"", "(!= baz baz)"),
    ]);
}

#[test]
fn test_parser_and_or() {
    check_expressions(&[
        ("1 or 1", "(1.0 or 1.0)"),
        ("1 and 1", "(1.0 and 1.0)"),
        ("(1 and 1) or 1", "((group (1.0 and 1.0)) or 1.0)"),
    ]);
}

#[test]
fn test_parser_precedence() {
    check_expressions(&[
        ("1 + 2 * 3", "(+ 1.0 (* 2.0 3.0))"),
        ("1 * 2 + 3", "(+ (* 1.0 2.0) 3.0)"),
        ("1 < 2 == 3 > 4", "(== (< 1.0 2.0) (> 3.0 4.0))"),
        ("a or b and c", "((variable a) or ((variable b) and (variable c)))"),
        ("a = b = c", "(assign a (assign b (variable c)))"),
        ("a = b or c", "(assign a ((variable b) or (variable c)))"),
        ("!-x", "(! (- (variable x)))"),
        ("-f(1)(2)", "(- (call (call (variable f) 1.0) 2.0))"),
        ("1 - 2 - 3", "(- (- 1.0 2.0) 3.0)"),
    ]);
}

#[test]
fn test_parser_call() {
    check_expressions(&[
        ("test()", "(call (variable test))"),
        ("test(1)", "(call (variable test) 1.0)"),
        ("test(\"test\", a, 2)", "(call (variable test) test (variable a) 2.0)"),
    ]);
    assert_eq!(
        format!("(call (variable test) 1.0{})", " 1.0".repeat(254)),
        run_expression(&format!("test(1{})", ", 1".repeat(254))).unwrap()
    );
}

#[test]
fn test_parser_call_error() {
    let cases = [
        ("test({".to_string(), "[line 1] Error at '{': Expect expression."),
        ("test(1".to_string(), "[line 1] Expect ')' after arguments."),
        (
            format!("test(1{})", ", 1".repeat(255)),
            "[line 1] Can't have more than 255 arguments.",
        ),
    ];
    for (input, expected) in cases {
        assert_eq!(expected, run_expression(&input).err().unwrap());
    }
}

#[test]
fn test_parser_syntax_error() {
    let cases = [
        ("(72 +)", "[line 1] Error at ')': Expect expression."),
        ("(72 +", "[line 1] Error at end: Expect expression."),
        ("(72 + 42", "[line 1] Error at end: Expect expression."),
        ("(72 }", "[line 1] Error at '}': Expect expression."),
    ];
    for (input, expected) in cases {
        assert_eq!(expected, run_expression(input).err().unwrap(), "for {}", input);
    }
}

#[test]
fn test_parser_statement_print() {
    check_statements(&[
        ("print \"hello world\";", "(print (; hello world))"),
        ("print 123.1;", "(print (; 123.1))"),
        ("print nil;", "(print (; nil))"),
        ("print true;", "(print (; true))"),
        ("print test;", "(print (; (variable test)))"),
    ]);
}

#[test]
fn test_parser_statement_variable() {
    check_statements(&[
        ("var test = \"hello world\";", "(var test = (; hello world))"),
        ("var test = 123.1;", "(var test = (; 123.1))"),
        ("var test = nil;", "(var test = (; nil))"),
        ("var test = true;", "(var test = (; true))"),
        ("var test = test;", "(var test = (; (variable test)))"),
        ("test = test;", "(; (assign test (variable test)))"),
        ("var test;", "(var test)"),
    ]);
}

#[test]
fn test_parser_statement_expression() {
    check_statements(&[
        ("\"hello world\";", "(; hello world)"),
        ("123.1;", "(; 123.1)"),
        ("nil;", "(; nil)"),
        ("true;", "(; true)"),
        ("test;", "(; (variable test))"),
    ]);
}

#[test]
fn test_parser_statement_block() {
    check_statements(&[
        ("{\"hello world\";}", "(block ((; hello world)))"),
        ("{123.1;}", "(block ((; 123.1)))"),
        ("{nil;}", "(block ((; nil)))"),
        ("{true;}", "(block ((; true)))"),
        ("{test;}", "(block ((; (variable test))))"),
        ("{}", "(block ())"),
        ("{1; 2; {3;}}", "(block ((; 1.0) (; 2.0) (block ((; 3.0)))))"),
    ]);
}

#[test]
fn test_parser_statement_control_flow() {
    check_statements(&[
        ("if (1==1) print 1;", "(if (== 1.0 1.0), (print (; 1.0)))"),
        ("if (1==1) print 1; else print 2;", "(if (== 1.0 1.0), (print (; 1.0)) (print (; 2.0)))"),
        ("while (1==1) print 1;", "(while ((== 1.0 1.0)) (print (; 1.0)))"),
        ("for (;;) print 1;", "(for (;;) (print (; 1.0)))"),
        ("for (var a = 1;;) print 1;", "(for ((var a = (; 1.0));;) (print (; 1.0)))"),
        (
            "for (var a = 1; a < 10;) print 1;",
            "(for ((var a = (; 1.0));(< (variable a) 10.0);) (print (; 1.0)))",
        ),
        (
            "for (var a = 1;; a = 1) print 1;",
            "(for ((var a = (; 1.0));;(assign a 1.0)) (print (; 1.0)))",
        ),
        (
            "for (var a = 1; a < 10; a = 1) print 1;",
            "(for ((var a = (; 1.0));(< (variable a) 10.0);(assign a 1.0)) (print (; 1.0)))",
        ),
        ("for (; a < 10;) print 1;", "(for (;(< (variable a) 10.0);) (print (; 1.0)))"),
        (
            "for (; a < 10; a = 1) print 1;",
            "(for (;(< (variable a) 10.0);(assign a 1.0)) (print (; 1.0)))",
        ),
        ("for (;; a = 1) print 1;", "(for (;;(assign a 1.0)) (print (; 1.0)))"),
    ]);
}

#[test]
fn test_parser_statement_function() {
    check_statements(&[
        ("fun bar() { print 10; }", "(function bar() (block ((print (; 10.0)))))"),
        (
            "fun bar(a, b, c) { print a + b + c; }",
            "(function bar(a, b, c) (block ((print (; (+ (+ (variable a) (variable b)) (variable c)))))))",
        ),
        ("fun one() { return 1; }", "(function one() (block ((return (; 1.0)))))"),
        ("fun none() { return; }", "(function none() (block ((return))))"),
    ]);
}

#[test]
fn test_parser_statement_error() {
    let cases = [
        ("print \"hello world\"", "[line 1] Expect ';' after expression."),
        ("var test = 1", "[line 1] Expect ';' after value."),
        ("var test = (", "[line 1] Error at end: Expect expression."),
        ("var", "[line 1] Expect variable name."),
        ("{", "[line 1] Expect '}' after block."),
        ("1 + 1", "[line 1] Expect ';' after value."),
        ("2 = 1", "Invalid assignment target."),
        ("if", "[line 1] Expect '(' after 'if'."),
        ("if(1==1", "[line 1] Expect ')' after if condition."),
        ("while", "[line 1] Expect '(' after 'while'."),
        ("while(1==1", "[line 1] Expect ')' after condition."),
        ("for", "[line 1] Expect '(' after 'for'."),
        ("for(var a = 1;a < 10", "[line 1] Expect ';' after for condition."),
        ("for(var a = 1;a < 10; a = a + 1", "[line 1] Expect ')' after for clauses."),
        ("for(;;) var a;", "[line 1] Error at 'var': Expect expression."),
        ("return 1", "[line 1] Expect ';' after return value."),
        ("fun", "[line 1] Expect function name."),
        ("fun 1", "[line 1] Expect function name."),
        ("fun f", "[line 1] Expect '(' after function name."),
        ("fun f(", "[line 1] Expect parameter name."),
        ("fun f(a", "[line 1] Expect ')' after parameters."),
        ("fun f(a,", "[line 1] Expect parameter name."),
        ("fun f()", "[line 1] Error at end: Expect expression."),
        ("a + b = 1;", "Invalid assignment target."),
        ("(a) = 1;", "Invalid assignment target."),
    ];
    for (input, expected) in cases {
        assert_eq!(expected, run_statement(input).err().unwrap(), "for {}", input);
    }
}

#[test]
fn test_parser_error_lines() {
    assert_eq!(
        "[line 3] Expect ';' after value.",
        run_statement("var a = 1;\nvar b = 2;\nvar c = 3").err().unwrap()
    );
    assert_eq!(
        "[line 2] Error at '}': Expect expression.",
        run_statement("print\n}").err().unwrap()
    );
    assert_eq!(
        "[line 2] Expect variable name.",
        run_statement("var\n2").err().unwrap()
    );
}

#[test]
fn test_parser_parameter_limit() {
    let names = (0..255).map(|i| format!("p{}", i)).collect::<Vec<String>>();
    let accepted = format!("fun f({}) {{}}", names.join(", "));
    assert!(run_statement(&accepted).is_ok());
    let rejected = format!("fun f({}, q) {{}}", names.join(", "));
    assert_eq!(
        "[line 1] Can't have more than 255 parameters.",
        run_statement(&rejected).err().unwrap()
    );
}

#[test]
fn test_parser_builds_the_tree() {
    assert_eq!(
        parse_expression("-a + 2 * \"x\""),
        Ok(Expression::Binary(
            BinaryOperation::Plus,
            Box::new(Expression::Unary(
                UnaryOperation::Minus,
                Box::new(Expression::Variable("a".to_string()))
            )),
            Box::new(Expression::Binary(
                BinaryOperation::Multiply,
                Box::new(Expression::Literal(Literal::Number("2".to_string()))),
                Box::new(Expression::Literal(Literal::String("x".to_string()))),
            )),
        ))
    );
}

#[test]
fn test_parser_without_end_of_file_token() {
    let tokens = vec![Token {
        token: TokenType::Number("7".to_string()),
        lexeme: "7".to_string(),
        line: 4,
    }];
    let mut parser = Parser::new(tokens);
    assert_eq!(
        parser.parse(),
        Err("[line 4] Expect ';' after value.".to_string())
    );
    let mut parser = Parser::new(Vec::new());
    assert_eq!(parser.parse(), Ok(Vec::<Statement>::new()));
    let mut parser = Parser::new(Vec::new());
    assert_eq!(
        parser.parse_expression(),
        Err("[line 1] Error at end: Expect expression.".to_string())
    );
}

#[test]
fn test_parser_stops_at_the_first_error() {
    assert_eq!(
        "[line 1] Expect ';' after value.",
        run_statement("var a = 1 var b = ; var").err().unwrap()
    );
}

#[test]
fn test_number_literals_in_tree_text() {
    check_expressions(&[
        ("0", "0.0"),
        ("007", "7.0"),
        ("7.0", "7.0"),
        ("7.000", "7.0"),
        ("0.50", "0.5"),
        ("10.40", "10.4"),
        ("0.1", "0.1"),
        ("1000000", "1000000.0"),
    ]);
}

#[test]
fn test_clone_keeps_the_tree() {
    let expression = parse_expression("f(1, a or b, -(2))").unwrap();
    assert_eq!(expression.clone(), expression);
    let mut scanner = Scanner::new("for (var i = 0; i < 3; i = i + 1) { if (i) print i; else return; } fun f(a) { while (a) a = nil; }");
    let (tokens, _) = scanner.scan_tokens();
    let statements = Parser::new(tokens).parse().unwrap();
    for statement in statements.iter() {
        assert_eq!(&statement.clone(), statement);
    }
}
