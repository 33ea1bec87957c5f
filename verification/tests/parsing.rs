//! The scanner, the lexer and the parser.

use std::rc::Rc;

use tinylisp::lexer::{tokenize, Scanner, Token};
use tinylisp::parser::parse;
use tinylisp::value::Value;

fn chars(s: &str) -> Vec<char> {
    s.chars().collect()
}

#[test]
fn tokenize_simple_program() {
    let toks = tokenize("[+ 1 2]");
    assert_eq!(
        toks,
        vec![
            Token::Open,
            Token::Symbol(chars("+")),
            Token::Number(1),
            Token::Number(2),
            Token::Close,
        ]
    );
}

#[test]
fn tokenize_skips_whitespace() {
    let toks = tokenize("  [\n\tx\r] ");
    assert_eq!(toks, vec![Token::Open, Token::Symbol(chars("x")), Token::Close]);
}

#[test]
fn tokenize_strings() {
    assert_eq!(tokenize("\"hi\""), vec![Token::Str(chars("hi"))]);
    assert_eq!(tokenize("\"\""), vec![Token::Str(chars(""))]);
    assert_eq!(tokenize("\"abc"), vec![Token::UnterminatedString]);
}

#[test]
fn tokenize_symbols_and_numbers() {
    assert_eq!(tokenize("read_line"), vec![Token::Symbol(chars("read_line"))]);
    assert_eq!(tokenize("a1"), vec![Token::Symbol(chars("a1"))]);
    assert_eq!(tokenize("$x-y*"), vec![Token::Symbol(chars("$x-y*"))]);
    assert_eq!(tokenize("007"), vec![Token::Number(7)]);
    assert_eq!(tokenize("9223372036854775807"), vec![Token::Number(i64::MAX)]);
}

#[test]
fn tokenize_rejects_oversized_numerals() {
    assert_eq!(tokenize("9223372036854775808"), vec![Token::BadNumber]);
    assert_eq!(tokenize("99999999999999999999"), vec![Token::BadNumber]);
    assert!(parse("99999999999999999999").is_none());
}

#[test]
fn tokenize_unknown_characters() {
    assert_eq!(tokenize("#"), vec![Token::Unknown('#')]);
    assert!(parse("#").is_none());
}

#[test]
fn parse_atom() {
    assert_eq!(parse("42"), Some(Value::Number(42)));
    assert_eq!(parse("\"hi\""), Some(Value::Str(Rc::new(chars("hi")))));
    assert_eq!(parse("abc"), Some(Value::Symbol(Rc::new(chars("abc")))));
}

#[test]
fn parse_nested_lists() {
    let v = parse("[a [1 2] \"s\"]").expect("should parse");
    match v {
        Value::List(items) => {
            assert_eq!(items.len(), 3);
            assert_eq!(items[0], Value::Symbol(Rc::new(chars("a"))));
            match &items[1] {
                Value::List(inner) => {
                    assert_eq!(inner.len(), 2);
                    assert_eq!(inner[0], Value::Number(1));
                    assert_eq!(inner[1], Value::Number(2));
                },
                other => panic!("expected a list, got {:?}", other),
            }
            assert_eq!(items[2], Value::Str(Rc::new(chars("s"))));
        },
        other => panic!("expected a list, got {:?}", other),
    }
}

#[test]
fn parse_empty_list() {
    let v = parse("[]").expect("should parse");
    match v {
        Value::List(items) => assert_eq!(items.len(), 0),
        other => panic!("expected a list, got {:?}", other),
    }
}

#[test]
fn parse_rejects_bad_input() {
    assert!(parse("").is_none());
    assert!(parse("[1 2").is_none());
    assert!(parse("1 2").is_none());
    assert!(parse("]").is_none());
    assert!(parse("[+ 1 2] 3").is_none());
    assert!(parse("\"open").is_none());
}

#[test]
fn scanner_next_and_peek() {
    let mut s = Scanner::new("ab");
    assert_eq!(s.peek(), Some('a'));
    assert_eq!(s.next(), Some('a'));
    assert_eq!(s.peek(), Some('b'));
    assert_eq!(s.next(), Some('b'));
    assert_eq!(s.peek(), None);
    assert_eq!(s.next(), None);
}

#[test]
fn scanner_consume_while_takes_the_run() {
    let mut s = Scanner::new("123ab");
    let digits = s.consume_while(|c| c.is_ascii_digit());
    assert_eq!(digits, chars("123"));
    assert_eq!(s.next(), Some('a'));
}

#[test]
fn scanner_consume_while_can_take_nothing() {
    let mut s = Scanner::new("abc");
    let digits = s.consume_while(|c| c.is_ascii_digit());
    assert_eq!(digits, chars(""));
    assert_eq!(s.next(), Some('a'));
}

#[test]
fn scanner_consume_if_next_looks_one_ahead() {
    // "5.3": standing before '.', the character after it is a digit, so the
    // '.' is consumed.
    let mut s = Scanner::new(".3");
    assert!(s.consume_if_next(|c| c.is_ascii_digit()));
    assert_eq!(s.next(), Some('3'));

    // ".x": the character after '.' is not a digit; nothing is consumed.
    let mut s = Scanner::new(".x");
    assert!(!s.consume_if_next(|c| c.is_ascii_digit()));
    assert_eq!(s.next(), Some('.'));

    // ".": there is no character after '.'; nothing is consumed.
    let mut s = Scanner::new(".");
    assert!(!s.consume_if_next(|c| c.is_ascii_digit()));
    assert_eq!(s.next(), Some('.'));
}

#[test]
fn division_symbol_parses() {
    assert_eq!(parse("/"), Some(Value::Symbol(Rc::new(chars("/")))));
}
