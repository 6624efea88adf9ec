use lox::host::{Arithmetic, Host};
use lox::interpreter::{evaluate, run};
use lox::number::Number;
use lox::parser::{parse_expression, parse_program};
use lox::tokenizer::tokenize;
use lox::value::Value;

struct Machine {
    printed: Vec<String>,
}

impl Host for Machine {
    fn read(&mut self, numeral: &str) -> Number {
        Number { bits: numeral.parse::<f64>().unwrap().to_bits() }
    }

    fn show(&mut self, number: Number, decimals: Option<u8>) -> String {
        let value = f64::from_bits(number.bits);
        match decimals {
            Some(decimals) => format!("{:.*}", decimals as usize, value),
            None => format!("{}", value),
        }
    }

    fn compute(&mut self, operation: Arithmetic, left: Number, right: Number) -> Number {
        let (left, right) = (f64::from_bits(left.bits), f64::from_bits(right.bits));
        let result = match operation {
            Arithmetic::Add => left + right,
            Arithmetic::Subtract => left - right,
            Arithmetic::Multiply => left * right,
            Arithmetic::Divide => left / right,
        };
        Number { bits: result.to_bits() }
    }

    fn clock(&mut self) -> Number {
        Number { bits: 12f64.to_bits() }
    }

    fn print(&mut self, line: String) {
        self.printed.push(line);
    }
}

#[test]
fn test_tokenize_parse_run() {
    let (tokens, errors) = tokenize("var a = 2; print a * 21; print clock();");
    assert!(errors.is_empty());
    assert_eq!(tokens.len(), 16);
    let statements = parse_program(tokens).unwrap();
    assert_eq!(statements.len(), 3);
    let (result, interpreter) = run(&statements, Machine { printed: Vec::new() });
    assert_eq!(result, Ok(()));
    assert_eq!(interpreter.into_host().printed, vec!["42", "12"]);
}

#[test]
fn test_tokenize_parse_evaluate() {
    let (tokens, errors) = tokenize("(1 + 2) * 3 == 9");
    assert!(errors.is_empty());
    let expression = parse_expression(tokens).unwrap();
    let (result, interpreter) = evaluate(&expression, Machine { printed: Vec::new() });
    assert_eq!(result, Ok(Value::Bool(true)));
    assert!(interpreter.host().printed.is_empty());
}

#[test]
fn test_entry_points_report_errors() {
    let (tokens, errors) = tokenize("print 1 ?");
    assert_eq!(errors, vec!["[line 1] Error: Unexpected character: ?"]);
    assert_eq!(
        parse_program(tokens),
        Err("[line 1] Expect ';' after expression.".to_string())
    );
    let (tokens, _) = tokenize("+");
    assert_eq!(
        parse_expression(tokens),
        Err("[line 1] Error at '+': Expect expression.".to_string())
    );
    let (tokens, _) = tokenize("print missing;");
    let (result, _) = run(&parse_program(tokens).unwrap(), Machine { printed: Vec::new() });
    assert_eq!(result, Err("Undefined variable 'missing'.".to_string()));
    let (tokens, _) = tokenize("-nil");
    let (result, _) = evaluate(&parse_expression(tokens).unwrap(), Machine { printed: Vec::new() });
    assert_eq!(result, Err("Operand must be a number.".to_string()));
}
