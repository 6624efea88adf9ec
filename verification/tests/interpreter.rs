use lox::expression::Expression;
use lox::host::{Arithmetic, Host};
use lox::interpreter::Interpreter;
use lox::number::Number;
use lox::parser::Parser;
use lox::tokenizer::Scanner;
use lox::value::{Callable, Native, Value};

struct Machine {
    printed: Vec<String>,
    computed: usize,
    now: f64,
}

impl Machine {
    fn new() -> Machine {
        Machine { printed: Vec::new(), computed: 0, now: 1700000000.0 }
    }
}

impl Host for Machine {
    fn read(&mut self, numeral: &str) -> Number {
        Number { bits: numeral.parse::<f64>().unwrap().to_bits() }
    }

    fn show(&mut self, number: Number, decimals: Option<u8>) -> String {
        let value = f64::from_bits(number.bits);
        match decimals {
            Some(decimals) => format!("{:.*}", decimals as usize, value),
            None => format!("{}", value),
        }
    }

    fn compute(&mut self, operation: Arithmetic, left: Number, right: Number) -> Number {
        self.computed += 1;
        let (left, right) = (f64::from_bits(left.bits), f64::from_bits(right.bits));
        let result = match operation {
            Arithmetic::Add => left + right,
            Arithmetic::Subtract => left - right,
            Arithmetic::Multiply => left * right,
            Arithmetic::Divide => left / right,
        };
        Number { bits: result.to_bits() }
    }

    fn clock(&mut self) -> Number {
        self.now += 1.0;
        Number { bits: self.now.to_bits() }
    }

    fn print(&mut self, line: String) {
        self.printed.push(line);
    }
}

fn parse_expression(source: &str) -> Result<Expression, String> {
    let mut scanner = Scanner::new(source);
    let (tokens, _) = scanner.scan_tokens();
    let mut parser = Parser::new(tokens);
    parser.parse_expression()
}

fn show(value: &Value) -> String {
    let mut platform = lox::host::Platform::new(Machine::new());
    value.to_text(&mut platform)
}

fn run_evaluate(source: &str) -> Result<String, String> {
    let mut interpreter = Interpreter::new(Machine::new());
    let value = interpreter.evaluate_expression(&parse_expression(source)?)?;
    Ok(show(&value))
}

fn run_statement(source: &str) -> Result<Vec<String>, String> {
    run_with_limit(source, u64::MAX).0
}

fn run_with_limit(source: &str, limit: u64) -> (Result<Vec<String>, String>, Vec<String>) {
    let mut scanner = Scanner::new(source);
    let (tokens, _) = scanner.scan_tokens();
    let mut parser = Parser::new(tokens);
    let statements = match parser.parse() {
        Ok(statements) => statements,
        Err(message) => return (Err(message), Vec::new()),
    };
    let mut interpreter = Interpreter::new(Machine::new());
    interpreter.set_limit(limit);
    let result = interpreter.run(&statements);
    let printed = interpreter.into_host().printed;
    (result.map(|_| printed.clone()), printed)
}

fn check_values(cases: &[(&str, &str)]) {
    for (input, expected) in cases {
        assert_eq!(*expected, run_evaluate(input).unwrap(), "for {}", input);
    }
}

fn check_failures(cases: &[(&str, &str)]) {
    for (input, expected) in cases {
        assert_eq!(*expected, run_evaluate(input).err().unwrap(), "for {}", input);
    }
}

fn check_runs(cases: &[(&str, &[&str])]) {
    for (input, expected) in cases {
        assert_eq!(expected.to_vec(), run_statement(input).unwrap(), "for {}", input);
    }
}

fn check_run_failures(cases: &[(&str, &str)]) {
    for (input, expected) in cases {
        assert_eq!(*expected, run_statement(input).err().unwrap(), "for {}", input);
    }
}

#[test]
fn test_evaluate_booleans_and_nil() {
    check_values(&[("true", "true"), ("false", "false"), ("nil", "nil")]);
}

#[test]
fn test_evaluate_string() {
    check_values(&[
        ("\"hello world!\"", "hello world!"),
        ("\"foo!\"", "foo!"),
        ("\"hello\non\nthe\nother\nside\"", "hello\non\nthe\nother\nside"),
    ]);
}

#[test]
fn test_evaluate_float() {
    check_values(&[("10.40", "10.4"), ("10.41", "10.41"), ("54.12300", "54.123")]);
}

#[test]
fn test_evaluate_integer() {
    check_values(&[("10", "10"), ("123", "123"), ("54", "54")]);
}

#[test]
fn test_evaluate_group() {
    check_values(&[
        ("(\"hello world!\")", "hello world!"),
        ("((\"hello world!\"))", "hello world!"),
        ("(true)", "true"),
        ("(10.40)", "10.4"),
        ("((false))", "false"),
    ]);
}

#[test]
fn test_evaluate_unary() {
    check_values(&[
        ("-73", "-73"),
        ("--73", "73"),
        ("!true", "false"),
        ("!false", "true"),
        ("!nil", "true"),
        ("!10.40", "false"),
        ("!\"hello\"", "false"),
        ("!!false", "false"),
        ("!(!false)", "false"),
        ("-0", "-0"),
        ("!0", "false"),
        ("!\"\"", "false"),
    ]);
}

#[test]
fn test_evaluate_arithmetic() {
    check_values(&[
        ("42 / 5", "8.4"),
        ("18 * 3 / (3 * 6)", "3"),
        ("(10.40 * 2) / 2", "10.4"),
        ("70 - 65", "5"),
        ("69 - 93", "-24"),
        ("10.40 - 2", "8.4"),
        ("23 + 28 - (-(61 - 99))", "13"),
        ("0.1 + 0.2", "0.30000000000000004"),
        ("1 / 0", "inf"),
        ("-1 / 0", "-inf"),
        ("0 / 0", "NaN"),
        ("1 / 3", "0.3333333333333333"),
    ]);
}

#[test]
fn test_evaluate_string_concatenation() {
    check_values(&[
        ("\"hello\" + \" world!\"", "hello world!"),
        ("\"foo\" + \"bar\"", "foobar"),
        ("\"42\" + \"24\"", "4224"),
        ("\"a\" + \"b\"", "ab"),
        ("\"b\" + \"a\"", "ba"),
        ("(\"a\" + \"b\") + \"c\"", "abc"),
        ("\"a\" + (\"b\" + \"c\")", "abc"),
        ("\"\" + \"\"", ""),
    ]);
}

#[test]
fn test_evaluate_relational() {
    check_values(&[
        ("57 > -65", "true"),
        ("57 > 65", "false"),
        ("11 >= 11", "true"),
        ("12 >= 11", "true"),
        ("10 >= 11", "false"),
        ("(54 - 67) >= -(114 / 57 + 11)", "true"),
        ("57 < 65", "true"),
        ("57 < -65", "false"),
        ("11 <= 11", "true"),
        ("12 <= 11", "false"),
        ("10 <= 11", "true"),
        ("-1 < -2", "false"),
        ("-2 < -1", "true"),
        ("0 < -0", "false"),
        ("-0 >= 0", "true"),
        ("0.5 < 0.25", "false"),
        ("(0 / 0) < 1", "false"),
        ("(0 / 0) >= 1", "false"),
        ("(1 / 0) > 1000000", "true"),
    ]);
}

#[test]
fn test_evaluate_equality_equals() {
    check_values(&[
        ("\"hello\" == \"world\"", "false"),
        ("\"foo\" == \"foo\"", "true"),
        ("true == true", "true"),
        ("false == false", "true"),
        ("true == false", "false"),
        ("5 == 5", "true"),
        ("5 == 6", "false"),
        ("5.5 == 5.5", "true"),
        ("5.5 == 6.5", "false"),
        ("nil == nil", "true"),
        ("true == nil", "false"),
        ("1 == nil", "false"),
        ("1 == false", "false"),
        ("1 == \"foo\"", "false"),
        ("0 == -0", "true"),
        ("(0 / 0) == (0 / 0)", "false"),
        ("\"1\" == 1", "false"),
        ("clock == clock", "false"),
    ]);
}

#[test]
fn test_evaluate_equality_not_equals() {
    check_values(&[
        ("\"hello\" != \"world\"", "true"),
        ("\"foo\" != \"foo\"", "false"),
        ("true != true", "false"),
        ("false != false", "false"),
        ("true != false", "true"),
        ("5 != 5", "false"),
        ("5 != 6", "true"),
        ("5.5 != 5.5", "false"),
        ("5.5 != 6.5", "true"),
        ("nil != nil", "false"),
        ("(0 / 0) != (0 / 0)", "true"),
    ]);
}

#[test]
fn test_evaluate_runtime_error() {
    check_failures(&[
        ("-\"foo\"", "Operand must be a number."),
        ("-false", "Operand must be a number."),
        ("-nil", "Operand must be a number."),
        ("\"foo\" * 42", "Operands must be a numbers."),
        ("(\"foo\" * \"bar\")", "Operands must be a numbers."),
        ("true / 2", "Operands must be a numbers."),
        ("true / false", "Operands must be a numbers."),
        ("\"foo\" + true", "Operands must be a numbers."),
        ("42 - true", "Operands must be a numbers."),
        ("true + false", "Operands must be a numbers."),
        ("\"foo\" - \"bar\"", "Operands must be a numbers."),
        ("\"foo\" < false", "Operands must be a numbers."),
        ("true < 2", "Operands must be a numbers."),
        ("(\"foo\" + \"bar\") < 42", "Operands must be a numbers."),
        ("false > true", "Operands must be a numbers."),
        ("\"foo\" <= false", "Operands must be a numbers."),
        ("\"foo\" >= false", "Operands must be a numbers."),
        ("1 + \"1\"", "Operands must be a numbers."),
        ("nil + nil", "Operands must be a numbers."),
        ("missing", "Undefined variable 'missing'."),
        ("missing = 1", "Undefined variable 'missing'."),
        ("\"text\"()", "Can only call functions and classes."),
        ("nil()", "Can only call functions and classes."),
        ("1(2)", "Can only call functions and classes."),
        ("clock(1)", "Expected 0 arguments but got 1."),
        ("clock(1, 2, 3)", "Expected 0 arguments but got 3."),
    ]);
}

#[test]
fn test_negating_text_fails() {
    assert_eq!(run_evaluate("-\"foo\""), Err("Operand must be a number.".to_string()));
}

#[test]
fn test_evaluate_clock() {
    assert_eq!(run_evaluate("clock()"), Ok("1700000001".to_string()));
    assert_eq!(run_evaluate("clock"), Ok("<native fn>".to_string()));
    assert_eq!(run_evaluate("clock() - clock()"), Ok("-1".to_string()));
}

#[test]
fn test_left_operand_error_comes_first() {
    check_failures(&[
        ("(-\"a\") + missing", "Operand must be a number."),
        ("missing + (-\"a\")", "Undefined variable 'missing'."),
        ("missing(-\"a\")", "Undefined variable 'missing'."),
    ]);
}

#[test]
fn test_statements() {
    check_runs(&[
        ("print \"hello\";", &["hello"]),
        ("var a = 1;print a;{var a = 2; print a;}print a;", &["1", "2", "1"]),
        ("var a = 1;print a;{a = 2; print a;}print a;", &["1", "2", "2"]),
        ("var a;print a;{a = 2; print a;}print a;", &["nil", "2", "2"]),
        (
            "var a = \"a\";print a;{var a = true; print a;}a = nil; print a;",
            &["a", "true", "nil"],
        ),
        ("if (true) print \"a\";", &["a"]),
        ("if (true) { print \"a\"; }", &["a"]),
        ("if (true) { print \"a\"; } else { print \"b\"; }", &["a"]),
        ("if (false) { print \"a\"; } else { print \"b\"; }", &["b"]),
        ("if (true) { print \"a\"; } else if (true) { print \"b\"; }", &["a"]),
        ("if (false) { print \"a\"; } else if (true) { print \"b\"; }", &["b"]),
    ]);
}

#[test]
fn test_block_scopes() {
    assert_eq!(
        run_statement("var a = 1; print a; { var a = 2; print a; } print a;"),
        Ok(vec!["1".to_string(), "2".to_string(), "1".to_string()])
    );
    check_runs(&[
        ("var a = 1; { var a = 2; a = 3; print a; } print a;", &["3", "1"]),
        ("var a = 1; { var a = 2; { var a = 3; print a; } print a; } print a;", &["3", "2", "1"]),
        ("var a = 1; if (true) { var a = 2; } print a;", &["1"]),
        ("var a = 1; while (a < 2) { var b = a; a = a + 1; }  print a;", &["2"]),
        ("var a = 1; var a = 2; print a;", &["2"]),
    ]);
    check_run_failures(&[
        ("{ var inner = 1; } print inner;", "Undefined variable 'inner'."),
        ("if (true) { var inner = 1; } print inner;", "Undefined variable 'inner'."),
        ("for (var i = 0; i < 1; i = i + 1) {} print i;", "Undefined variable 'i'."),
        ("while (true) { var inner = 1; missing; } ", "Undefined variable 'missing'."),
    ]);
}

#[test]
fn test_statements_logical() {
    check_runs(&[
        ("print \"hi\" or 2;", &["hi"]),
        ("print nil or \"yes\";", &["yes"]),
        ("print false or \"ok\";", &["ok"]),
        ("print nil or \"ok\";", &["ok"]),
        ("print nil or false;", &["false"]),
        ("print true or \"bar\";", &["true"]),
        ("print 22 or \"quz\";", &["22"]),
        ("print 22 and \"quz\";", &["quz"]),
        ("print true and false;", &["false"]),
        ("print false and true;", &["false"]),
        ("print \"quz\" or \"quz\";", &["quz"]),
        ("if (\"hi\" or 2) { print \"yes\"; }", &["yes"]),
        ("if (false) {  } else { print \"yes\"; }", &["yes"]),
        ("if (false) {  }", &[]),
        ("print nil and missing;", &["nil"]),
        ("print 1 or missing;", &["1"]),
    ]);
}

#[test]
fn test_short_circuit_gives_the_left_value() {
    assert_eq!(run_statement("print \"hi\" or 2;"), Ok(vec!["hi".to_string()]));
}

#[test]
fn test_statements_logical_error() {
    check_run_failures(&[
        ("if (a) { print \"yes\"; }", "Undefined variable 'a'."),
        ("if (1) { print a; }", "Undefined variable 'a'."),
        ("if (false) { } else { print a; }", "Undefined variable 'a'."),
    ]);
}

#[test]
fn test_statements_while() {
    check_runs(&[(
        "var i = 0; while(i < 5) {i = i + 1; print \"hi\"; }",
        &["hi", "hi", "hi", "hi", "hi"],
    )]);
}

#[test]
fn test_statements_while_error() {
    check_run_failures(&[
        ("while(i < 5) {i = i + 1; print \"hi\"; }", "Undefined variable 'i'."),
        ("var i = 0; while(i < 5) {i = a + 1; print \"hi\"; }", "Undefined variable 'a'."),
    ]);
}

#[test]
fn test_statements_for() {
    check_runs(&[
        ("for (var baz = 0; baz < 3;) print baz = baz + 1;", &["1", "2", "3"]),
        ("for (var world = 0; world < 3; world = world + 1) { print world; }", &["0", "1", "2"]),
        ("var i = 10; for (i = 0; i < 2; i = i + 1) print i; print i;", &["0", "1", "2"]),
        ("for (var i = 0; i < 2; i = i + 1) { var i = 5; }", &[]),
    ]);
}

#[test]
fn test_statements_for_error() {
    check_run_failures(&[
        ("for (;i < 5;) {i = i + 1; print \"hi\"; }", "Undefined variable 'i'."),
        ("for (;;) { print a; }", "Undefined variable 'a'."),
        ("for (i = 0;;) { print a; }", "Undefined variable 'i'."),
        ("for (var i = 0;; i = missing) { }", "Undefined variable 'missing'."),
    ]);
}

#[test]
fn test_scopes_are_closed_after_an_error() {
    let mut interpreter = Interpreter::new(Machine::new());
    for source in [
        "var a = 1; { var a = 2; { var a = 3; missing; } }",
        "for (var a = 5; missing; ) {}",
        "for (var a = 5; a; a = missing) {}",
        "for (var a = 5; a; ) { var a = 6; missing; }",
        "while (a) { var a = 7; missing; }",
        "if (a) { var a = 8; missing; }",
        "fun f(a) { missing; } f(9);",
        "fun g(a, b) { } g(10, missing);",
        "fun h(a) { return missing; } h(11);",
    ] {
        let mut scanner = Scanner::new(source);
        let (tokens, _) = scanner.scan_tokens();
        let statements = Parser::new(tokens).parse().unwrap();
        assert_eq!(
            interpreter.run(&statements),
            Err("Undefined variable 'missing'.".to_string()),
            "for {}",
            source
        );
        let a = interpreter.evaluate_expression(&parse_expression("a").unwrap()).unwrap();
        assert_eq!(show(&a), "1", "after {}", source);
    }
}

#[test]
fn test_statements_call() {
    check_runs(&[("clock();", &[])]);
}

#[test]
fn test_statements_function() {
    check_runs(&[
        ("fun test() { print 10; } test();", &["10"]),
        ("fun test(a, b, c) { print a + b + c; } test(10, 10, 10);", &["30"]),
        ("fun test() { return 10; } print test();", &["10"]),
        ("fun test(a,b,c){ return a+b+c; } print test(10,10,10);", &["30"]),
        ("fun test() { } print test();", &["nil"]),
        ("fun test() { return; } print test();", &["nil"]),
        ("fun test() { } print test;", &["<fn test>"]),
        ("fun test(n) { if (n > 1) return n * test(n - 1); return 1; } print test(10);", &["3628800"]),
        ("fun test(n) { while (true) { if (n > 3) return n; n = n + 1; } } print test(0);", &["4"]),
        ("fun test(n) { for (;;) { { return n; } } } print test(\"out\");", &["out"]),
        ("fun a() { return b; } fun b() { return \"b\"; } print a()();", &["b"]),
        ("var f = clock; print f() > 0;", &["true"]),
    ]);
}

#[test]
fn test_function_of_three_arguments() {
    assert_eq!(
        run_statement("fun test(a,b,c){ return a+b+c; } print test(10,10,10);"),
        Ok(vec!["30".to_string()])
    );
}

#[test]
fn test_functions_see_the_scopes_of_the_call() {
    check_runs(&[
        ("var x = \"global\"; fun show() { print x; } { var x = \"local\"; show(); }", &["local"]),
        ("fun show() { print y; } fun outer() { var y = \"outer\"; show(); } outer();", &["outer"]),
        ("var a = \"outside\"; fun second(a, b) { print b; } second(\"first\", a);", &["first"]),
        ("fun set() { x = 2; } var x = 1; set(); print x;", &["2"]),
    ]);
}

#[test]
fn test_statements_function_error() {
    check_run_failures(&[
        ("fun test(a) { } test();", "Expected 1 arguments but got 0."),
        ("fun test() { } test(1, 2);", "Expected 0 arguments but got 2."),
        ("fun test(a, b) { } test(1, missing);", "Undefined variable 'missing'."),
        ("fun test() { return -\"x\"; } test();", "Operand must be a number."),
        ("var f = 1; f();", "Can only call functions and classes."),
    ]);
}

#[test]
fn test_statements_error() {
    check_run_failures(&[
        ("print a;", "Undefined variable 'a'."),
        ("for(;;) var a;", "[line 1] Error at 'var': Expect expression."),
        ("return 1;", "Received unexpected return value"),
        ("{ return; }", "Received unexpected return value"),
        ("if (true) return nil;", "Received unexpected return value"),
        ("while (true) return 1;", "Received unexpected return value"),
    ]);
}

#[test]
fn test_output_before_a_failure_is_printed() {
    let (result, printed) = run_with_limit("print 1; print 2; print missing; print 3;", u64::MAX);
    assert_eq!(result, Err("Undefined variable 'missing'.".to_string()));
    assert_eq!(printed, vec!["1", "2"]);
}

#[test]
fn test_evaluation_limit() {
    let (result, printed) = run_with_limit("var i = 0; while (true) { i = i + 1; print i; }", 9);
    assert_eq!(result, Err("Evaluation limit reached.".to_string()));
    assert_eq!(printed, vec!["1", "2", "3"]);
    let (result, printed) = run_with_limit("for (;;) print \"again\";", 5);
    assert_eq!(result, Err("Evaluation limit reached.".to_string()));
    assert_eq!(printed, vec!["again", "again"]);
    let (result, _) = run_with_limit("fun f(n) { return f(n + 1); } f(0);", 2000);
    assert_eq!(result, Err("Evaluation limit reached.".to_string()));
    let (result, _) = run_with_limit("print 1;", 0);
    assert_eq!(result, Err("Evaluation limit reached.".to_string()));
    let (result, _) = run_with_limit("print 1;", 1);
    assert_eq!(result, Err("Evaluation limit reached.".to_string()));
    let (result, printed) = run_with_limit("print \"a\";", 2);
    assert_eq!(result, Ok(vec!["a".to_string()]));
    assert_eq!(printed, vec!["a"]);
    let (result, _) = run_with_limit("print 1 + 2;", 2);
    assert_eq!(result, Err("Evaluation limit reached.".to_string()));
    let (result, printed) = run_with_limit("print 1 + 2; print 3 * 4; print 5 - 6;", 3);
    assert_eq!(result, Ok(vec!["3".to_string(), "12".to_string(), "-1".to_string()]));
    assert_eq!(printed.len(), 3);
    let mut interpreter = Interpreter::new(Machine::new());
    interpreter.set_limit(0);
    assert_eq!(
        interpreter.evaluate_expression(&parse_expression("1").unwrap()),
        Err("Evaluation limit reached.".to_string())
    );
}

#[test]
fn test_the_host_computes() {
    let mut interpreter = Interpreter::new(Machine::new());
    let value = interpreter.evaluate_expression(&parse_expression("1 + 2 * 3 < 4 - 5").unwrap());
    assert_eq!(value, Ok(Value::Bool(false)));
    assert_eq!(interpreter.host().computed, 3);
    let value = interpreter.evaluate_expression(&parse_expression("2 * 3").unwrap());
    assert_eq!(value, Ok(Value::Number(Number { bits: 6f64.to_bits() })));
}

#[test]
fn test_new_interpreter_declares_the_clock() {
    let mut interpreter = Interpreter::new(Machine::new());
    assert_eq!(
        interpreter.evaluate_expression(&parse_expression("clock").unwrap()),
        Ok(Value::Callable(Callable::Native(Native::Clock)))
    );
    assert_eq!(Native::Clock.arity(), 0);
}

#[test]
fn test_variables_stay_between_runs() {
    let mut interpreter = Interpreter::new(Machine::new());
    for (source, expected) in [("var a = 1;", "1"), ("a = a + 1;", "2"), ("fun a() {}", "<fn a>")] {
        let mut scanner = Scanner::new(source);
        let (tokens, _) = scanner.scan_tokens();
        let statements = Parser::new(tokens).parse().unwrap();
        assert_eq!(interpreter.run(&statements), Ok(()));
        let a = interpreter.evaluate_expression(&parse_expression("a").unwrap()).unwrap();
        assert_eq!(show(&a), expected);
    }
}

#[test]
fn test_programs() {
    check_runs(&[
        (
            "fun fib(n) { if (n < 2) return n; return fib(n - 1) + fib(n - 2); } \
             for (var i = 0; i < 10; i = i + 1) print fib(i);",
            &["0", "1", "1", "2", "3", "5", "8", "13", "21", "34"],
        ),
        (
            "var text = \"\"; var i = 0; while (i < 3) { text = text + \"ab\"; i = i + 1; } print text;",
            &["ababab"],
        ),
        (
            "fun twice(f, x) { return f(f(x)); } fun inc(x) { return x + 1; } print twice(inc, 5);",
            &["7"],
        ),
        (
            "var a = 1; var b = 2; if (a < b and b < 3 or false) print \"yes\"; else print \"no\";",
            &["yes"],
        ),
        ("print 7 / 2; print 7 / 2 * 2; print 1 - 0.9;", &["3.5", "7", "0.09999999999999998"]),
        ("print !(1 == 1) == false;", &["true"]),
        ("var n; print n == nil; n = 0; print n == nil;", &["true", "false"]),
    ]);
}
