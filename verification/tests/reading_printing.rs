//! The reader and the printer, exercised from outside: atoms, escapes,
//! collections, reader macros, comments, and the faults.

use mal::{pr_str, read_str, Lexer, Mal, MalError, TokenKind};

fn round(text: &str) -> String {
    pr_str(&read_str(text).unwrap(), true)
}

#[test]
fn numbers_round_trip() {
    assert_eq!(round("42"), "42");
    assert_eq!(round("-7"), "-7");
    assert_eq!(round("+7"), "7");
    assert_eq!(round("0"), "0");
    assert_eq!(round("9223372036854775807"), "9223372036854775807");
    assert_eq!(round("-9223372036854775808"), "-9223372036854775808");
    assert_eq!(round("00012"), "12");
}

#[test]
fn numbers_out_of_range_are_faults() {
    assert!(matches!(read_str("9223372036854775808"), Err(MalError::Reader { .. })));
    assert!(matches!(read_str("1x"), Err(MalError::Reader { .. })));
}

#[test]
fn atoms_classify() {
    assert!(matches!(read_str("true"), Ok(Mal::Bool(true))));
    assert!(matches!(read_str("false"), Ok(Mal::Bool(false))));
    assert!(matches!(read_str("nil"), Ok(Mal::Nil)));
    assert!(matches!(read_str("abc"), Ok(Mal::Sym(_))));
    assert!(matches!(read_str(":abc"), Ok(Mal::Kw(_))));
    assert!(matches!(read_str("+"), Ok(Mal::Sym(_))));
    assert!(matches!(read_str("-x"), Ok(Mal::Sym(_))));
}

#[test]
fn strings_unescape_and_reescape() {
    assert_eq!(round("\"hello\""), "\"hello\"");
    assert_eq!(round("\"a\\nb\""), "\"a\\nb\"");
    assert_eq!(round("\"a\\\\b\""), "\"a\\\\b\"");
    assert_eq!(round("\"say \\\"hi\\\"\""), "\"say \\\"hi\\\"\"");
    match read_str("\"a\\nb\"") {
        Ok(Mal::Str(s)) => assert_eq!(s, "a\nb"),
        other => panic!("expected a string, got {:?}", other),
    }
}

#[test]
fn string_display_mode_is_raw() {
    let v = read_str("\"a\\nb\"").unwrap();
    assert_eq!(pr_str(&v, false), "a\nb");
}

#[test]
fn string_faults() {
    assert!(matches!(read_str("\"abc"), Err(MalError::Lex { .. })));
    assert!(matches!(read_str("\"a\\qb\""), Err(MalError::Lex { pos: 3 })));
    assert!(matches!(read_str(""), Err(MalError::Lex { pos: 0 })));
}

#[test]
fn collections_round_trip() {
    assert_eq!(round("(1 2 3)"), "(1 2 3)");
    assert_eq!(round("( 1, 2,,3 )"), "(1 2 3)");
    assert_eq!(round("[1 [2] ()]"), "[1 [2] ()]");
    assert_eq!(round("{\"a\" 1}"), "{\"a\" 1}");
    assert_eq!(round("{:k (1 2)}"), "{:k (1 2)}");
}

#[test]
fn map_keys_replace_in_place() {
    assert_eq!(round("{:k 1 :k 2}"), "{:k 2}");
}

#[test]
fn map_key_of_wrong_shape_is_a_fault() {
    assert!(matches!(read_str("{1 2}"), Err(MalError::Reader { .. })));
}

#[test]
fn unclosed_collections_are_faults() {
    assert!(matches!(read_str("(1 2"), Err(MalError::Reader { .. })));
    assert!(matches!(read_str("[1"), Err(MalError::Reader { .. })));
    assert!(matches!(read_str("{"), Err(MalError::Reader { .. })));
    // end of input in the middle of a pair surfaces the lexer's fault
    assert!(matches!(read_str("{:k"), Err(MalError::Lex { .. })));
}

#[test]
fn stray_closer_is_a_fault() {
    assert!(matches!(read_str(")"), Err(MalError::Reader { .. })));
}

#[test]
fn reader_macros_desugar() {
    assert_eq!(round("'x"), "(quote x)");
    assert_eq!(round("`x"), "(quasiquote x)");
    assert_eq!(round("~x"), "(unquote x)");
    assert_eq!(round("~@x"), "(splice-unquote x)");
    assert_eq!(round("@x"), "(deref x)");
    assert_eq!(round("^{\"m\" 1} [2]"), "(with-meta [2] {\"m\" 1})");
}

#[test]
fn comments_are_dropped_before_parsing() {
    assert_eq!(round("; a comment\n42"), "42");
    assert_eq!(round("(1 ; inner\n 2)"), "(1 2)");
}

#[test]
fn lexer_walks_tokens() {
    let mut lexer = Lexer::new("(+ 12)");
    assert!(lexer.has_next());
    let t1 = lexer.next().unwrap();
    assert!(matches!(t1.kind, TokenKind::ParOpen));
    assert_eq!((t1.start, t1.end), (0, 1));
    let t2 = lexer.peek().unwrap();
    assert!(matches!(&t2.kind, TokenKind::Ident(s) if s == "+"));
    let t2 = lexer.next().unwrap();
    assert!(matches!(&t2.kind, TokenKind::Ident(s) if s == "+"));
    let t3 = lexer.next().unwrap();
    assert!(matches!(&t3.kind, TokenKind::Ident(s) if s == "12"));
    let t4 = lexer.next().unwrap();
    assert!(matches!(t4.kind, TokenKind::ParClose));
    assert!(!lexer.has_next());
}

#[test]
fn positions_for_errors() {
    assert_eq!(mal::linepos("ab\ncd", 4), (2, 2));
    assert_eq!(mal::linepos("ab", 0), (1, 1));
    assert_eq!(mal::linepos_str("ab\ncd", 4), "2:2");
}

#[test]
fn closures_print_as_forms() {
    let mut env = mal::core_env();
    let mut out = Vec::new();
    let f = mal::rep("(fn* (a b) (+ a b))", &mut env, &mut out, 64).unwrap();
    assert_eq!(f, "(fn* (a b) (+ a b))");
    let shown = mal::read_str("(fn* (a b) (+ a b))").unwrap();
    let mut env2 = mal::core_env();
    let mut out2 = Vec::new();
    let v = mal::eval(&shown, &mut env2, &mut out2, 64).unwrap();
    assert_eq!(mal::pr_str(&v, false), "#<function>");
}
