use lisp_core::environment::Environment;
use lisp_core::expression::Expr;

#[test]
fn test_initialize_environment() {
    let env = Environment::initialize();
    assert!(env.get_symbol("T").is_some());
    assert_eq!(env.get_symbol("NIL"), Some(&Expr::List(vec![])));
}

#[test]
fn test_symbol_table_set_and_get() {
    let mut env = Environment::initialize();
    env.set_symbol("answer".to_string(), Expr::Number(42));
    assert_eq!(env.get_symbol("answer"), Some(&Expr::Number(42)));
    env.set_symbol("answer".to_string(), Expr::Number(43));
    assert_eq!(env.get_symbol("answer"), Some(&Expr::Number(43)));
    assert_eq!(env.get_symbol("missing"), None);
}

#[test]
fn test_function_table_set_and_get() {
    let mut env = Environment::initialize();
    let form = Expr::List(vec![
        Expr::Symbol("lambda".to_string()),
        Expr::List(vec![]),
        Expr::Number(1),
    ]);
    env.set_function("one".to_string(), form.clone());
    assert_eq!(env.get_function("one"), Some(&form));
    assert_eq!(env.get_function("two"), None);
}

#[test]
fn test_macro_table_set_and_get() {
    let mut env = Environment::initialize();
    let mac = Expr::Macro(vec![], Box::new(Expr::Number(7)));
    env.set_macro("m".to_string(), mac.clone());
    assert_eq!(env.get_macro("m"), Some(&mac));
    assert_eq!(env.get_macro("n"), None);
}

#[test]
fn test_namespaces_are_independent() {
    let mut env = Environment::initialize();
    env.set_symbol("shared".to_string(), Expr::Number(1));
    env.set_function("shared".to_string(), Expr::Number(2));
    env.set_macro("shared".to_string(), Expr::Number(3));
    assert_eq!(env.get_symbol("shared"), Some(&Expr::Number(1)));
    assert_eq!(env.get_function("shared"), Some(&Expr::Number(2)));
    assert_eq!(env.get_macro("shared"), Some(&Expr::Number(3)));
}

#[test]
fn test_clone_is_independent() {
    let mut env = Environment::initialize();
    env.set_symbol("x".to_string(), Expr::Number(1));
    let mut copy = env.clone();
    copy.set_symbol("x".to_string(), Expr::Number(2));
    assert_eq!(env.get_symbol("x"), Some(&Expr::Number(1)));
    assert_eq!(copy.get_symbol("x"), Some(&Expr::Number(2)));
}
