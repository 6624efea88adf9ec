use lox::environment::Environment;
use lox::expression::Literal;
use lox::host::{Arithmetic, Host, Platform};
use lox::interpreter::apply_unary;
use lox::expression::UnaryOperation;
use lox::number::Number;
use lox::statement::Statement;
use lox::value::{Callable, Error, Native, Value};

struct Machine;

impl Host for Machine {
    fn read(&mut self, numeral: &str) -> Number {
        Number { bits: numeral.parse::<f64>().unwrap().to_bits() }
    }

    fn show(&mut self, number: Number, decimals: Option<u8>) -> String {
        let value = f64::from_bits(number.bits);
        match decimals {
            Some(decimals) => format!("{:.*}", decimals as usize, value),
            None => format!("{}", value),
        }
    }

    fn compute(&mut self, _operation: Arithmetic, left: Number, _right: Number) -> Number {
        left
    }

    fn clock(&mut self) -> Number {
        Number { bits: 0 }
    }

    fn print(&mut self, _line: String) {}
}

fn number(value: f64) -> Number {
    Number::from_bits(value.to_bits())
}

fn samples() -> Vec<f64> {
    vec![
        0.0,
        -0.0,
        1.0,
        -1.0,
        0.5,
        -0.5,
        1.5,
        2.0,
        3.0,
        -3.25,
        432.1,
        42.0,
        1e15,
        1e16,
        1e22,
        1e23,
        -1e300,
        4503599627370495.5,
        4503599627370496.0,
        9007199254740992.0,
        9007199254740993.0,
        0.1 + 0.2,
        f64::MIN_POSITIVE,
        f64::MIN_POSITIVE / 2.0,
        5e-324,
        -5e-324,
        f64::MAX,
        f64::MIN,
        f64::EPSILON,
        1.0 + f64::EPSILON,
        f64::INFINITY,
        f64::NEG_INFINITY,
        f64::NAN,
        -f64::NAN,
        f64::from_bits(0x7ff0_0000_0000_0001),
        f64::from_bits(0xffff_ffff_ffff_ffff),
    ]
}

#[test]
fn test_number_order_is_the_order_of_doubles() {
    for left in samples() {
        for right in samples() {
            let (a, b) = (number(left), number(right));
            assert_eq!(a.equals(b), left == right, "{} == {}", left, right);
            assert_eq!(a.less_than(b), left < right, "{} < {}", left, right);
            assert_eq!(a.at_most(b), left <= right, "{} <= {}", left, right);
        }
    }
}

#[test]
fn test_number_negation_and_parts() {
    for value in samples() {
        let negated = number(value).negated();
        assert_eq!(negated.bits, (-value).to_bits(), "-{}", value);
        assert_eq!(number(value).is_nan(), value.is_nan(), "{}", value);
        assert_eq!(number(value).is_integral(), value.fract() == 0.0, "{}", value);
    }
    assert!(number(7.0).is_integral());
    assert!(!number(7.5).is_integral());
    assert!(!number(f64::INFINITY).is_integral());
    assert!(number(-0.0).is_integral());
    assert_eq!(number(2.5).negated(), number(-2.5));
}

#[test]
fn test_is_truthy() {
    assert!(!Value::Bool(false).is_truthy());
    assert!(!Value::Nil.is_truthy());
    assert!(Value::Bool(true).is_truthy());
    assert!(Value::Number(number(0.0)).is_truthy());
    assert!(Value::Number(number(f64::NAN)).is_truthy());
    assert!(Value::String(String::new()).is_truthy());
    assert!(Value::String("false".to_string()).is_truthy());
    assert!(Value::Callable(Callable::Native(Native::Clock)).is_truthy());
    assert!(Value::Callable(Callable::Function(
        "f".to_string(),
        Vec::new(),
        Box::new(Statement::Block(Vec::new()))
    ))
    .is_truthy());
}

#[test]
fn test_is_equal() {
    let function = || {
        Value::Callable(Callable::Function(
            "f".to_string(),
            vec!["a".to_string()],
            Box::new(Statement::Return(None)),
        ))
    };
    let values = || {
        vec![
            Value::Bool(true),
            Value::Bool(false),
            Value::Number(number(1.0)),
            Value::Number(number(2.0)),
            Value::String("1".to_string()),
            Value::String("".to_string()),
            Value::Nil,
            Value::Callable(Callable::Native(Native::Clock)),
            function(),
        ]
    };
    for (i, left) in values().iter().enumerate() {
        for (j, right) in values().iter().enumerate() {
            assert_eq!(left.is_equal(right), i == j && i < 7, "{:?} == {:?}", left, right);
        }
    }
    assert!(Value::Number(number(0.0)).is_equal(&Value::Number(number(-0.0))));
    assert!(!Value::Number(number(f64::NAN)).is_equal(&Value::Number(number(f64::NAN))));
}

#[test]
fn test_from_literal() {
    let mut platform = Platform::new(Machine);
    assert_eq!(Value::from_literal(&Literal::Bool(true), &mut platform), Value::Bool(true));
    assert_eq!(
        Value::from_literal(&Literal::Number("2.50".to_string()), &mut platform),
        Value::Number(number(2.5))
    );
    assert_eq!(
        Value::from_literal(&Literal::String("text".to_string()), &mut platform),
        Value::String("text".to_string())
    );
    assert_eq!(Value::from_literal(&Literal::Nil, &mut platform), Value::Nil);
}

#[test]
fn test_value_text() {
    let mut platform = Platform::new(Machine);
    let cases = vec![
        (Value::Bool(true), "true"),
        (Value::Bool(false), "false"),
        (Value::Nil, "nil"),
        (Value::String("raw \"text\"".to_string()), "raw \"text\""),
        (Value::Number(number(3.0)), "3"),
        (Value::Number(number(-3.0)), "-3"),
        (Value::Number(number(3.25)), "3.25"),
        (Value::Number(number(1e23)), "99999999999999991611392"),
        (Value::Number(number(1e22)), "10000000000000000000000"),
        (Value::Number(number(f64::INFINITY)), "inf"),
        (Value::Number(number(f64::NAN)), "NaN"),
        (Value::Callable(Callable::Native(Native::Clock)), "<native fn>"),
        (
            Value::Callable(Callable::Function(
                "name".to_string(),
                Vec::new(),
                Box::new(Statement::Block(Vec::new())),
            )),
            "<fn name>",
        ),
    ];
    for (value, expected) in cases {
        assert_eq!(value.to_text(&mut platform), expected);
    }
    assert_eq!(Literal::Number("100000000000000000000000".to_string()).to_text(&mut platform), "99999999999999991611392.0");
    assert_eq!(Literal::Number("2".to_string()).to_text(&mut platform), "2.0");
    assert_eq!(Literal::Bool(false).to_text(&mut platform), "false");
}

#[test]
fn test_value_clone() {
    let function = Value::Callable(Callable::Function(
        "f".to_string(),
        vec!["a".to_string(), "b".to_string()],
        Box::new(Statement::Block(vec![Statement::Return(None)])),
    ));
    assert_eq!(function.clone(), function);
    assert_eq!(Value::String("s".to_string()).clone(), Value::String("s".to_string()));
}

#[test]
fn test_apply_unary() {
    assert_eq!(
        apply_unary(UnaryOperation::Minus, Value::Number(number(2.0))),
        Ok(Value::Number(number(-2.0)))
    );
    assert_eq!(
        apply_unary(UnaryOperation::Minus, Value::Nil),
        Err(Error::Runtime("Operand must be a number.".to_string()))
    );
    assert_eq!(apply_unary(UnaryOperation::Not, Value::Nil), Ok(Value::Bool(true)));
    assert_eq!(
        apply_unary(UnaryOperation::Not, Value::Number(number(0.0))),
        Ok(Value::Bool(false))
    );
}

fn environment_values() -> Vec<Value> {
    vec![
        Value::String("string".into()),
        Value::Number(number(432.1)),
        Value::Bool(true),
        Value::Nil,
    ]
}

fn environment_pairs() -> Vec<(Value, Value)> {
    vec![
        (Value::String("hello".into()), Value::String("world".into())),
        (Value::Number(number(432.1)), Value::Number(number(42.0))),
        (Value::Bool(true), Value::Bool(false)),
        (Value::Nil, Value::Number(number(432.1))),
    ]
}

#[test]
fn test_environment_declare() {
    for value in environment_values() {
        let mut env = Environment::default();
        env.declare("name".to_string(), value.clone());
        assert_eq!(value, env.get("name").unwrap());
    }
}

#[test]
fn test_environment_declare_shadow() {
    for (value1, value2) in environment_pairs() {
        let mut env = Environment::default();
        env.declare("name".to_string(), value1.clone());
        let mut env2 = Environment::new_with_enclosing(env);
        env2.declare("name".to_string(), value2.clone());
        assert_eq!(value2, env2.get("name").unwrap());
        env2.pop_scope();
        assert_eq!(value1, env2.get("name").unwrap());
    }
}

#[test]
fn test_environment_declare_and_assign() {
    for (value1, value2) in environment_pairs() {
        let mut env = Environment::default();
        env.declare("name".to_string(), value1.clone());
        assert_eq!(value1, env.get("name").unwrap());
        assert!(env.assign("name".to_string(), value2.clone()).is_ok());
        assert_eq!(value2, env.get("name").unwrap());
    }
}

#[test]
fn test_environment_assign_without_declare() {
    for value in environment_values() {
        let mut env = Environment::default();
        assert!(env.assign("name".to_string(), value.clone()).is_err());
    }
}

#[test]
fn test_environment_get_without_declare() {
    let env = Environment::default();
    assert!(env.get("name").is_err());
}

#[test]
fn test_environment_messages() {
    let mut env = Environment::new();
    assert_eq!(env.get("x"), Err(Error::Runtime("Undefined variable 'x'.".to_string())));
    assert_eq!(
        env.assign("x".to_string(), Value::Nil),
        Err(Error::Runtime("Undefined variable 'x'.".to_string()))
    );
}

#[test]
fn test_environment_shadowing_restores_the_outer_value() {
    let mut env = Environment::new();
    env.declare("x".to_string(), Value::Number(number(1.0)));
    env.declare("y".to_string(), Value::Bool(true));
    env.push_scope();
    env.declare("x".to_string(), Value::String("inner".to_string()));
    assert_eq!(env.get("x"), Ok(Value::String("inner".to_string())));
    assert_eq!(env.assign("x".to_string(), Value::Nil), Ok(()));
    assert_eq!(env.get("x"), Ok(Value::Nil));
    assert_eq!(env.get("y"), Ok(Value::Bool(true)));
    env.pop_scope();
    assert_eq!(env.get("x"), Ok(Value::Number(number(1.0))));
    assert_eq!(env.get("y"), Ok(Value::Bool(true)));
}

#[test]
fn test_environment_assign_reaches_the_nearest_scope() {
    let mut env = Environment::new();
    env.declare("x".to_string(), Value::Number(number(1.0)));
    env.push_scope();
    env.declare("x".to_string(), Value::Number(number(2.0)));
    env.push_scope();
    env.push_scope();
    assert_eq!(env.assign("x".to_string(), Value::Number(number(3.0))), Ok(()));
    assert_eq!(env.get("x"), Ok(Value::Number(number(3.0))));
    env.pop_scope();
    env.pop_scope();
    assert_eq!(env.get("x"), Ok(Value::Number(number(3.0))));
    env.pop_scope();
    assert_eq!(env.get("x"), Ok(Value::Number(number(1.0))));
    env.pop_scope();
    env.pop_scope();
    assert_eq!(env.get("x"), Ok(Value::Number(number(1.0))));
    env.declare("z".to_string(), Value::Nil);
    assert_eq!(env.get("z"), Ok(Value::Nil));
}
