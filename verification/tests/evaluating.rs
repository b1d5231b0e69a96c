//! The evaluator, exercised from outside: arithmetic, comparisons,
//! scoping, closures, variadic binding, collection queries, equality,
//! and the printing builtins.

use mal::{core_env, Env, Failure, MalError};

const FUEL: u64 = 512;

fn run(env: &mut Env, out: &mut Vec<String>, text: &str) -> Result<String, Failure> {
    mal::rep(text, env, out, FUEL)
}

fn eval_one(text: &str) -> Result<String, Failure> {
    let mut env = core_env();
    let mut out = Vec::new();
    run(&mut env, &mut out, text)
}

#[test]
fn arithmetic() {
    assert_eq!(eval_one("(+ 1 2 3)").unwrap(), "6");
    assert_eq!(eval_one("(- 10 1 2)").unwrap(), "7");
    assert_eq!(eval_one("(* 2 3 4)").unwrap(), "24");
    assert_eq!(eval_one("(/ 20 2 5)").unwrap(), "2");
    assert_eq!(eval_one("(/ 7 2)").unwrap(), "3");
    assert_eq!(eval_one("(/ -7 2)").unwrap(), "-3");
    assert_eq!(eval_one("(+ 1 (* 2 3))").unwrap(), "7");
}

#[test]
fn division_by_zero_fails() {
    assert!(matches!(
        eval_one("(/ 1 0)"),
        Err(Failure::Error(MalError::DivisionByZero))
    ));
}

#[test]
fn arithmetic_type_and_arity_faults() {
    assert!(matches!(
        eval_one("(+ 1 \"x\")"),
        Err(Failure::Error(MalError::Type { .. }))
    ));
    assert!(matches!(
        eval_one("(+ 1)"),
        Err(Failure::Error(MalError::Arity { .. }))
    ));
}

#[test]
fn comparisons() {
    assert_eq!(eval_one("(< 1 2 3)").unwrap(), "true");
    assert_eq!(eval_one("(< 1 3 2)").unwrap(), "false");
    assert_eq!(eval_one("(>= 3 3 2)").unwrap(), "true");
    assert_eq!(eval_one("(> 3 2 1)").unwrap(), "true");
    assert_eq!(eval_one("(<= 1 1 2)").unwrap(), "true");
}

#[test]
fn let_scopes_and_unbinds() {
    let mut env = core_env();
    let mut out = Vec::new();
    assert_eq!(run(&mut env, &mut out, "(let* (x 1 y (+ x 1)) (+ x y))").unwrap(), "3");
    assert!(matches!(
        run(&mut env, &mut out, "x"),
        Err(Failure::Error(MalError::Unbound { .. }))
    ));
    assert!(matches!(
        run(&mut env, &mut out, "(let* (x 1 y) y)"),
        Err(Failure::Error(MalError::Arity { .. }))
    ));
}

#[test]
fn def_escapes_scope() {
    let mut env = core_env();
    let mut out = Vec::new();
    assert_eq!(run(&mut env, &mut out, "(def! a 7)").unwrap(), "7");
    assert_eq!(run(&mut env, &mut out, "a").unwrap(), "7");
    assert_eq!(run(&mut env, &mut out, "(def! a 8)").unwrap(), "8");
    assert_eq!(run(&mut env, &mut out, "a").unwrap(), "8");
}

#[test]
fn self_referential_named_closure() {
    let mut env = core_env();
    let mut out = Vec::new();
    run(&mut env, &mut out, "(def! fact (fn* (n) (if (<= n 1) 1 (* n (fact (- n 1))))))")
        .unwrap();
    assert_eq!(run(&mut env, &mut out, "(fact 5)").unwrap(), "120");
}

#[test]
fn variadic_parameters_collect_the_rest() {
    assert_eq!(eval_one("((fn* (a & rest) rest) 1 2 3)").unwrap(), "(2 3)");
    assert_eq!(eval_one("((fn* (a & rest) a) 1 2 3)").unwrap(), "1");
    assert_eq!(eval_one("((fn* (& rest) rest))").unwrap(), "()");
}

#[test]
fn misplaced_variadic_marker_is_a_fault() {
    assert!(matches!(
        eval_one("(fn* (a & b c) a)"),
        Err(Failure::Error(MalError::BadForm { .. }))
    ));
    assert!(matches!(
        eval_one("(fn* (a &) a)"),
        Err(Failure::Error(MalError::BadForm { .. }))
    ));
    assert!(matches!(
        eval_one("(fn* (& a & b) a)"),
        Err(Failure::Error(MalError::BadForm { .. }))
    ));
}

#[test]
fn closure_arity_is_checked() {
    assert!(matches!(
        eval_one("((fn* (a b) a) 1)"),
        Err(Failure::Error(MalError::Arity { .. }))
    ));
    assert!(matches!(
        eval_one("((fn* (a & rest) a))"),
        Err(Failure::Error(MalError::Arity { .. }))
    ));
}

#[test]
fn snapshot_capture_isolates_closures() {
    let mut env = core_env();
    let mut out = Vec::new();
    run(&mut env, &mut out, "(def! y 1)").unwrap();
    run(&mut env, &mut out, "(def! f (fn* () y))").unwrap();
    run(&mut env, &mut out, "(def! y 2)").unwrap();
    assert_eq!(run(&mut env, &mut out, "(f)").unwrap(), "1");
    assert_eq!(run(&mut env, &mut out, "y").unwrap(), "2");
}

#[test]
fn do_and_if() {
    assert_eq!(eval_one("(do)").unwrap(), "nil");
    assert_eq!(eval_one("(do 1 2 3)").unwrap(), "3");
    assert_eq!(eval_one("(if true 1 2)").unwrap(), "1");
    assert_eq!(eval_one("(if false 1 2)").unwrap(), "2");
    assert_eq!(eval_one("(if nil 1 2)").unwrap(), "2");
    assert_eq!(eval_one("(if 0 1 2)").unwrap(), "1");
    assert_eq!(eval_one("(if false 1)").unwrap(), "nil");
    let mut env = core_env();
    let mut out = Vec::new();
    assert_eq!(run(&mut env, &mut out, "(do (def! a 5) (+ a 1))").unwrap(), "6");
    assert_eq!(run(&mut env, &mut out, "a").unwrap(), "5");
}

#[test]
fn collection_queries() {
    assert_eq!(eval_one("(count nil)").unwrap(), "0");
    assert_eq!(eval_one("(count (list 1 2 3))").unwrap(), "3");
    assert_eq!(eval_one("(count [1 2])").unwrap(), "2");
    assert_eq!(eval_one("(empty? (list))").unwrap(), "true");
    assert_eq!(eval_one("(empty? (list 1))").unwrap(), "false");
    assert_eq!(eval_one("(list? (list 1))").unwrap(), "true");
    assert_eq!(eval_one("(list? [1])").unwrap(), "false");
    assert_eq!(eval_one("(list 1 2)").unwrap(), "(1 2)");
    assert!(matches!(
        eval_one("(count 5)"),
        Err(Failure::Error(MalError::Type { .. }))
    ));
    assert!(matches!(
        eval_one("(empty? nil)"),
        Err(Failure::Error(MalError::Type { .. }))
    ));
}

#[test]
fn cross_variant_equality() {
    assert_eq!(eval_one("(= (list 1 2) [1 2])").unwrap(), "true");
    assert_eq!(eval_one("(= [1 2] (list 1 2))").unwrap(), "true");
    assert_eq!(eval_one("(= (list 1 2) [1 3])").unwrap(), "false");
    assert_eq!(eval_one("(= 1 1 1)").unwrap(), "true");
    assert_eq!(eval_one("(= 1 1 2)").unwrap(), "false");
    assert_eq!(eval_one("(= \"a\" \"a\")").unwrap(), "true");
    assert_eq!(eval_one("(= {:k 1} {:k 1})").unwrap(), "true");
    assert_eq!(eval_one("(= nil nil)").unwrap(), "true");
    assert_eq!(eval_one("(= nil false)").unwrap(), "false");
}

#[test]
fn printing_builtins() {
    assert_eq!(eval_one("(str \"a\" \"b\")").unwrap(), "\"ab\"");
    assert_eq!(eval_one("(str 1 2)").unwrap(), "\"12\"");
    assert_eq!(eval_one("(pr-str \"a\")").unwrap(), "\"\\\"a\\\"\"");
    let mut env = core_env();
    let mut out = Vec::new();
    assert_eq!(run(&mut env, &mut out, "(prn 1 \"x\")").unwrap(), "nil");
    assert_eq!(out, vec!["1 \"x\"".to_string()]);
    let mut out2 = Vec::new();
    assert_eq!(run(&mut env, &mut out2, "(println 1 \"x\")").unwrap(), "nil");
    assert_eq!(out2, vec!["1x".to_string()]);
}

#[test]
fn applying_a_non_function_is_a_fault() {
    assert!(matches!(
        eval_one("(1 2)"),
        Err(Failure::Error(MalError::Type { .. }))
    ));
    assert!(matches!(
        eval_one("(unknown 1)"),
        Err(Failure::Error(MalError::Unbound { .. }))
    ));
}

#[test]
fn vectors_and_maps_evaluate_elementwise() {
    assert_eq!(eval_one("[(+ 1 2) 4]").unwrap(), "[3 4]");
    assert_eq!(eval_one("{:k (+ 1 2)}").unwrap(), "{:k 3}");
    assert_eq!(eval_one("()").unwrap(), "()");
}

#[test]
fn depth_budget_is_a_fault_not_an_error() {
    let mut env = core_env();
    let mut out = Vec::new();
    run(&mut env, &mut out, "(def! loop (fn* (n) (loop (+ n 1))))").unwrap();
    assert!(matches!(
        run(&mut env, &mut out, "(loop 0)"),
        Err(Failure::DepthExceeded)
    ));
}

#[test]
fn environment_operations() {
    let mut env = Env::new();
    assert!(env.get(&mal::Symbol::new("x")).is_err());
    env.set(mal::Symbol::new("x"), mal::Mal::Num(5));
    assert!(matches!(env.get(&mal::Symbol::new("x")), Ok(mal::Mal::Num(5))));
    env.push_scope();
    env.set(mal::Symbol::new("x"), mal::Mal::Num(6));
    env.set(mal::Symbol::new("y"), mal::Mal::Num(7));
    assert!(matches!(env.get(&mal::Symbol::new("x")), Ok(mal::Mal::Num(6))));
    env.pop_scope();
    assert!(matches!(env.get(&mal::Symbol::new("x")), Ok(mal::Mal::Num(5))));
    assert!(env.get(&mal::Symbol::new("y")).is_err());
    assert!(env.add_native_func("twice", mal::Native::Add).is_ok());
    assert!(env.add_native_func("twice", mal::Native::Add).is_err());
}
