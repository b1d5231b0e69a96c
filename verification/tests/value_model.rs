//! The value model's public surface: constructors, accessors, shape
//! conversions, structural equality, and the reader's entry points.

use mal::{
    mal_equal, read_atom, read_form, read_hash_map, read_str, Keyword, Lexer, Mal, MalArr,
    MalError, MalList, MalMap, MapKey, Symbol,
};

#[test]
fn symbols_and_keywords() {
    let s = Symbol::new("abc");
    assert_eq!(s.text(), "abc");
    assert_eq!(s.into_string(), "abc");
    let k = Keyword::new("kw");
    assert_eq!(k.symbol(), "kw");
}

#[test]
fn lists_vectors_maps() {
    let l = MalList::new();
    assert_eq!(l.inner().len(), 0);
    let a = MalArr::new();
    assert_eq!(a.inner().len(), 0);
    let mut m = MalMap::new();
    assert!(m.insert(MapKey::Kw(Keyword::new("k")), Mal::Num(1)).is_none());
    let old = m.insert(MapKey::Kw(Keyword::new("k")), Mal::Num(2));
    assert!(matches!(old, Some(Mal::Num(1))));
}

#[test]
fn shape_accessors() {
    let v = Mal::Num(3);
    assert_eq!(v.number().unwrap(), 3);
    assert_eq!(v.kind_name(), "number");
    assert!(matches!(Mal::Nil.number(), Err(MalError::Type { .. })));
    assert!(Mal::Bool(true).is_truesy());
    assert!(!Mal::Bool(false).is_truesy());
    assert!(!Mal::Nil.is_truesy());
    assert!(Mal::Num(0).is_truesy());

    let list = read_str("(1 2)").unwrap();
    assert_eq!(list.as_list_or_array().unwrap().len(), 2);
    let arr = read_str("[1]").unwrap();
    assert_eq!(arr.as_list_or_array().unwrap().len(), 1);
    assert!(Mal::Nil.as_list_or_array().is_err());

    assert!(list.list().is_ok());
    assert!(matches!(Mal::Nil.list(), Err(MalError::Type { .. })));
    assert!(read_str("abc").unwrap().symbol().is_ok());
    assert!(Mal::Num(1).symbol().is_err());
    assert!(Mal::Num(1).as_function().is_err());
}

#[test]
fn structural_equality() {
    let a = read_str("(1 (2 3))").unwrap();
    let b = read_str("(1 [2 3])").unwrap();
    assert!(mal_equal(&a, &b));
    let c = read_str("{:x 1 \"s\" 2}").unwrap();
    let d = read_str("{\"s\" 2 :x 1}").unwrap();
    assert!(mal_equal(&c, &d));
    let e = read_str("{:x 1}").unwrap();
    assert!(!mal_equal(&c, &e));
    assert!(!mal_equal(&a, &c));
}

#[test]
fn values_clone_deeply() {
    let a = read_str("(1 [2 {:k \"v\"}])").unwrap();
    let b = a.clone();
    assert!(mal_equal(&a, &b));
    assert_eq!(mal::pr_str(&b, true), "(1 [2 {:k \"v\"}])");
}

#[test]
fn atom_classification_entry_point() {
    assert!(matches!(read_atom("12".to_string(), 0), Ok(Mal::Num(12))));
    assert!(matches!(read_atom("-3".to_string(), 0), Ok(Mal::Num(-3))));
    assert!(matches!(read_atom(":k".to_string(), 0), Ok(Mal::Kw(_))));
    assert!(matches!(read_atom("nil".to_string(), 0), Ok(Mal::Nil)));
    assert!(matches!(read_atom("x1".to_string(), 0), Ok(Mal::Sym(_))));
    assert!(matches!(
        read_atom("1q".to_string(), 7),
        Err(MalError::Reader { pos: 7 })
    ));
}

#[test]
fn form_and_map_entry_points() {
    let mut lexer = Lexer::new("(+ 1) 2");
    let first = read_form(&mut lexer).unwrap();
    assert_eq!(mal::pr_str(&first, true), "(+ 1)");
    let second = read_form(&mut lexer).unwrap();
    assert!(matches!(second, Mal::Num(2)));

    // the opening brace was already consumed by the caller
    let mut body = Lexer::new(":k 1}");
    let m = read_hash_map(&mut body).unwrap();
    assert_eq!(mal::pr_str(&m, true), "{:k 1}");
}
