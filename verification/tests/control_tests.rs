use lisp_core::control::Control;
use lisp_core::environment::Environment;
use lisp_core::evaluator::Evaluator;
use lisp_core::exception::LispError;
use lisp_core::expression::Expr;

fn setup_environment() -> Environment {
    let mut env = Environment::initialize();
    env.set_symbol("nil".to_string(), Expr::List(vec![]));
    env.set_symbol("t".to_string(), Expr::Symbol("t".to_string()));
    env.set_symbol("T".to_string(), Expr::Symbol("T".to_string()));
    env
}

#[test]
fn test_cond_single_expression() {
    let mut env = setup_environment();

    let expr = Expr::List(vec![
        Expr::Symbol("cond".to_string()),
        Expr::List(vec![Expr::Number(3)]),
    ]);

    let result = Evaluator::eval(&expr, &mut env);
    assert_eq!(result, Ok(Expr::Number(3)));
}

#[test]
fn test_cond_with_multiple_clauses() {
    let mut env = setup_environment();

    let expr = Expr::List(vec![
        Expr::Symbol("cond".to_string()),
        Expr::List(vec![Expr::List(vec![]), Expr::Number(1)]),
        Expr::List(vec![
            Expr::List(vec![Expr::Symbol("not".to_string()), Expr::List(vec![])]),
            Expr::Number(2),
        ]),
        Expr::List(vec![Expr::Number(3)]),
    ]);

    let result = Evaluator::eval(&expr, &mut env);
    assert_eq!(result, Ok(Expr::Number(2)));
}

#[test]
fn test_cond_with_symbol_true() {
    let mut env = setup_environment();

    let expr = Expr::List(vec![
        Expr::Symbol("cond".to_string()),
        Expr::List(vec![
            Expr::List(vec![
                Expr::Symbol("not".to_string()),
                Expr::Symbol("t".to_string()),
            ]),
            Expr::Number(1),
        ]),
        Expr::List(vec![Expr::Symbol("t".to_string()), Expr::Number(2)]),
    ]);

    let result = Evaluator::eval(&expr, &mut env);
    assert_eq!(result, Ok(Expr::Number(2)));
}

#[test]
fn test_cond_with_nonempty_list_true() {
    let mut env = setup_environment();

    let expr = Expr::List(vec![
        Expr::Symbol("cond".to_string()),
        Expr::List(vec![Expr::List(vec![]), Expr::Number(1)]),
        Expr::List(vec![
            Expr::List(vec![
                Expr::Symbol("quote".to_string()),
                Expr::List(vec![Expr::Number(1)]),
            ]),
            Expr::Number(2),
        ]),
        Expr::List(vec![Expr::Symbol("t".to_string()), Expr::Number(3)]),
    ]);

    let result = Evaluator::eval(&expr, &mut env);
    assert_eq!(result, Ok(Expr::Number(2)));
}

#[test]
fn test_cond_with_multiple_true_conditions() {
    let mut env = setup_environment();

    let expr = Expr::List(vec![
        Expr::Symbol("cond".to_string()),
        Expr::List(vec![Expr::Symbol("t".to_string()), Expr::Number(1)]),
        Expr::List(vec![Expr::Symbol("t".to_string()), Expr::Number(2)]),
        Expr::List(vec![Expr::Number(3)]),
    ]);

    let result = Evaluator::eval(&expr, &mut env);
    assert_eq!(result, Ok(Expr::Number(1)));
}

#[test]
fn test_not_operator() {
    let mut env = setup_environment();

    let result = Control::eval_not(&vec![Expr::List(vec![])], &mut env);
    assert_eq!(result, Ok(Expr::Symbol("t".to_string())));

    let result = Control::eval_not(&vec![Expr::Number(1)], &mut env);
    assert_eq!(result, Ok(Expr::List(vec![])));

    let result = Control::eval_not(&vec![Expr::Number(0)], &mut env);
    assert_eq!(result, Ok(Expr::Symbol("t".to_string())));

    let result = Control::eval_not(&vec![Expr::List(vec![])], &mut env);
    assert_eq!(result, Ok(Expr::Symbol("t".to_string())));

    let result = Control::eval_not(&vec![Expr::List(vec![Expr::Number(1)])], &mut env);
    assert_eq!(result, Ok(Expr::List(vec![])));

    let result = Control::eval_not(&vec![Expr::Symbol("t".to_string())], &mut env);
    assert_eq!(result, Ok(Expr::List(vec![])));

    let result = Control::eval_not(&vec![Expr::Symbol("T".to_string())], &mut env);
    assert_eq!(result, Ok(Expr::List(vec![])));

    let result = Control::eval_not(
        &vec![Expr::List(vec![
            Expr::List(vec![Expr::Number(1)]),
            Expr::Number(2),
        ])],
        &mut env,
    );
    assert_eq!(result, Ok(Expr::List(vec![])));
}

#[test]
fn test_cond_single_clause() {
    let mut env = setup_environment();

    let expr = Expr::List(vec![
        Expr::Symbol("cond".to_string()),
        Expr::List(vec![Expr::Number(5)]),
    ]);

    let result = Evaluator::eval(&expr, &mut env);
    assert_eq!(result, Ok(Expr::Number(5)));
}

#[test]
fn test_cond_no_true_condition() {
    let mut env = setup_environment();

    let expr = Expr::List(vec![
        Expr::Symbol("cond".to_string()),
        Expr::List(vec![Expr::Symbol("nil".to_string()), Expr::Number(1)]),
        Expr::List(vec![Expr::Symbol("nil".to_string()), Expr::Number(2)]),
    ]);

    let result = Evaluator::eval(&expr, &mut env);
    assert_eq!(result, Err(LispError::new("No true condition in cond")));
}

#[test]
fn test_cond_clause_too_long() {
    let mut env = setup_environment();

    let expr = Expr::List(vec![
        Expr::Symbol("cond".to_string()),
        Expr::List(vec![
            Expr::Symbol("t".to_string()),
            Expr::Number(1),
            Expr::Number(2),
        ]),
    ]);

    let result = Evaluator::eval(&expr, &mut env);
    assert_eq!(
        result,
        Err(LispError::new("Each cond clause must have exactly one or two elements"))
    );
}

#[test]
fn test_cond_clause_not_a_list() {
    let mut env = setup_environment();

    let expr = Expr::List(vec![Expr::Symbol("cond".to_string()), Expr::Number(1)]);

    let result = Evaluator::eval(&expr, &mut env);
    assert_eq!(result, Err(LispError::new("Cond clause must be a list")));
}

#[test]
fn test_gensym_unique_symbols() {
    let mut env = setup_environment();

    let gensym1 = Control::eval_gensym(&vec![], &mut env).unwrap();
    let gensym2 = Control::eval_gensym(&vec![], &mut env).unwrap();

    assert_ne!(gensym1, gensym2);

    if let (Expr::Symbol(sym1), Expr::Symbol(sym2)) = (gensym1, gensym2) {
        assert!(sym1.starts_with("#:G"));
        assert!(sym2.starts_with("#:G"));
    } else {
        panic!("Gensym did not return symbols");
    }
}

#[test]
fn test_setf_and_gensym() {
    let mut env = setup_environment();

    let setf_expr = Expr::List(vec![
        Expr::Symbol("setf".to_string()),
        Expr::Symbol("seed".to_string()),
        Expr::List(vec![Expr::Symbol("gensym".to_string())]),
    ]);
    let result = Evaluator::eval(&setf_expr, &mut env).unwrap();

    if let Expr::Symbol(ref seed) = result {
        assert!(seed.starts_with("#:G"));
    } else {
        panic!("Expected gensym result to be a symbol");
    }

    let seed_expr = Expr::Symbol("seed".to_string());
    let seed_result = Evaluator::eval(&seed_expr, &mut env).unwrap();
    assert_eq!(seed_result, result);
}
