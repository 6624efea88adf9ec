use lox::display::{names_to_text, numeral_to_text};
use lox::host::{Arithmetic, Host, Platform};
use lox::number::Number;
use lox::text::{chars_of, decimal, text_of};
use lox::tokenizer::keyword_kind;
use lox::token::Kind;

struct Machine {
    asked: Vec<String>,
}

impl Host for Machine {
    fn read(&mut self, numeral: &str) -> Number {
        self.asked.push(format!("read {}", numeral));
        Number { bits: numeral.parse::<f64>().unwrap().to_bits() }
    }

    fn show(&mut self, number: Number, decimals: Option<u8>) -> String {
        self.asked.push(format!("show {:?}", decimals));
        let value = f64::from_bits(number.bits);
        match decimals {
            Some(decimals) => format!("{:.*}", decimals as usize, value),
            None => format!("{}", value),
        }
    }

    fn compute(&mut self, operation: Arithmetic, left: Number, _right: Number) -> Number {
        self.asked.push(format!("compute {:?}", operation));
        left
    }

    fn clock(&mut self) -> Number {
        self.asked.push("clock".to_string());
        Number { bits: 0 }
    }

    fn print(&mut self, line: String) {
        self.asked.push(format!("print {}", line));
    }
}

#[test]
fn test_decimal() {
    assert_eq!(decimal(0), "0");
    assert_eq!(decimal(7), "7");
    assert_eq!(decimal(9), "9");
    assert_eq!(decimal(10), "10");
    assert_eq!(decimal(99), "99");
    assert_eq!(decimal(100), "100");
    assert_eq!(decimal(255), "255");
    assert_eq!(decimal(1234567890), "1234567890");
    assert_eq!(decimal(usize::MAX), usize::MAX.to_string());
}

#[test]
fn test_chars_and_text() {
    assert_eq!(chars_of(""), Vec::<char>::new());
    assert_eq!(chars_of("añ→z"), vec!['a', 'ñ', '→', 'z']);
    let characters = chars_of("hello, world");
    assert_eq!(text_of(&characters, 0, 5), "hello");
    assert_eq!(text_of(&characters, 7, 12), "world");
    assert_eq!(text_of(&characters, 3, 3), "");
    assert_eq!(text_of(&characters, 0, 12), "hello, world");
}

#[test]
fn test_keywords() {
    assert_eq!(keyword_kind("and"), Some(Kind::And));
    assert_eq!(keyword_kind("while"), Some(Kind::While));
    assert_eq!(keyword_kind("nil"), Some(Kind::Nil));
    assert_eq!(keyword_kind("And"), None);
    assert_eq!(keyword_kind("an"), None);
    assert_eq!(keyword_kind("andy"), None);
    assert_eq!(keyword_kind(""), None);
    assert_eq!(Kind::Semicolon.name(), "SEMICOLON");
}

#[test]
fn test_names_to_text() {
    assert_eq!(names_to_text(&Vec::new()), "");
    assert_eq!(names_to_text(&vec!["a".to_string()]), "a");
    assert_eq!(
        names_to_text(&vec!["a".to_string(), "b".to_string(), "c".to_string()]),
        "a, b, c"
    );
}

#[test]
fn test_platform_hands_on_to_the_host() {
    let mut platform = Platform::new(Machine { asked: Vec::new() });
    assert_eq!(numeral_to_text("12", &mut platform), "12.0");
    assert_eq!(numeral_to_text("12.5", &mut platform), "12.5");
    let two = platform.read("2");
    assert_eq!(two, Number::from_bits(2f64.to_bits()));
    assert_eq!(platform.show(two, Some(3)), "2.000");
    assert_eq!(platform.compute(Arithmetic::Divide, two, two), two);
    assert_eq!(platform.clock(), Number::from_bits(0));
    platform.print("line".to_string());
    assert_eq!(platform.host().asked.len(), 9);
    assert_eq!(
        platform.into_host().asked,
        vec![
            "read 12",
            "show Some(1)",
            "read 12.5",
            "show None",
            "read 2",
            "show Some(3)",
            "compute Divide",
            "clock",
            "print line",
        ]
    );
}
