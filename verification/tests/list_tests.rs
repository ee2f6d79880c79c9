use lisp_core::environment::Environment;
use lisp_core::evaluator::Evaluator;
use lisp_core::expression::Expr;
use lisp_core::list::ListOps;

fn setup_environment() -> Environment {
    let mut env = Environment::initialize();
    env.set_symbol("nil".to_string(), Expr::List(vec![]));
    env.set_symbol("t".to_string(), Expr::Symbol("t".to_string()));
    env
}

#[test]
fn test_eval_cons_success() {
    let mut env = setup_environment();

    let expr = Expr::List(vec![
        Expr::Symbol("cons".to_string()),
        Expr::Number(1),
        Expr::List(vec![
            Expr::Symbol("quote".to_string()),
            Expr::List(vec![Expr::Number(2), Expr::Number(3)]),
        ]),
    ]);

    let result = Evaluator::eval(&expr, &mut env);
    assert_eq!(
        result,
        Ok(Expr::List(vec![
            Expr::Number(1),
            Expr::Number(2),
            Expr::Number(3)
        ]))
    );
}

#[test]
fn test_eval_cons_invalid_second_argument() {
    let mut env = setup_environment();

    let expr = Expr::List(vec![
        Expr::Symbol("cons".to_string()),
        Expr::Number(1),
        Expr::Number(2),
    ]);

    let result = Evaluator::eval(&expr, &mut env);
    assert_eq!(
        result,
        Ok(Expr::DottedPair(
            Box::new(Expr::Number(1)),
            Box::new(Expr::Number(2))
        ))
    );
}

#[test]
fn test_eval_car_success() {
    let mut env = setup_environment();

    let expr = Expr::List(vec![
        Expr::Symbol("car".to_string()),
        Expr::List(vec![
            Expr::Symbol("quote".to_string()),
            Expr::List(vec![Expr::Number(1), Expr::Number(2), Expr::Number(3)]),
        ]),
    ]);
    let result = Evaluator::eval(&expr, &mut env);
    assert_eq!(result, Ok(Expr::Number(1)));
}

#[test]
fn test_eval_car_empty_list() {
    let mut env = setup_environment();

    let result = ListOps::eval_car(&vec![Expr::List(vec![])], &mut env);
    assert_eq!(result, Ok(Expr::List(vec![])));
}

#[test]
fn test_eval_cdr_success() {
    let mut env = setup_environment();

    let expr = Expr::List(vec![
        Expr::Symbol("cdr".to_string()),
        Expr::List(vec![
            Expr::Symbol("quote".to_string()),
            Expr::List(vec![Expr::Number(1), Expr::Number(2), Expr::Number(3)]),
        ]),
    ]);
    let result = Evaluator::eval(&expr, &mut env);
    assert_eq!(result, Ok(Expr::List(vec![Expr::Number(2), Expr::Number(3)])));
}

#[test]
fn test_eval_cdr_empty_list() {
    let mut env = setup_environment();

    let result = ListOps::eval_cdr(&vec![Expr::List(vec![])], &mut env);
    assert_eq!(result, Ok(Expr::List(vec![])));
}

#[test]
fn test_eval_length_success() {
    let mut env = setup_environment();

    let expr = Expr::List(vec![
        Expr::Symbol("length".to_string()),
        Expr::List(vec![
            Expr::Symbol("quote".to_string()),
            Expr::List(vec![Expr::Number(1), Expr::Number(2), Expr::Number(3)]),
        ]),
    ]);
    let result = Evaluator::eval(&expr, &mut env);
    assert_eq!(result, Ok(Expr::Number(3)));
}

#[test]
fn test_eval_length_empty_list() {
    let mut env = setup_environment();

    let expr = Expr::List(vec![
        Expr::Symbol("length".to_string()),
        Expr::List(vec![Expr::Symbol("quote".to_string()), Expr::List(vec![])]),
    ]);
    let result = Evaluator::eval(&expr, &mut env);
    assert_eq!(result, Ok(Expr::Number(0)));
}

#[test]
fn test_eval_length_invalid_argument() {
    let mut env = setup_environment();

    let expr = Expr::List(vec![
        Expr::Symbol("length".to_string()),
        Expr::Number(123),
    ]);
    let result = Evaluator::eval(&expr, &mut env);
    assert!(result.is_err());
    if let Err(err) = result {
        assert_eq!(err.to_string(), "length: argument is not a list");
    }
}

#[test]
fn test_eval_quote_success() {
    let mut env = setup_environment();

    let expr = Expr::List(vec![
        Expr::Symbol("quote".to_string()),
        Expr::Number(123),
    ]);
    let result = Evaluator::eval(&expr, &mut env);
    assert_eq!(result, Ok(Expr::Number(123)));
}

#[test]
fn test_eval_quote_list() {
    let mut env = setup_environment();

    let expr = Expr::List(vec![
        Expr::Symbol("quote".to_string()),
        Expr::List(vec![Expr::Number(1), Expr::Number(2), Expr::Number(3)]),
    ]);
    let result = Evaluator::eval(&expr, &mut env);
    assert_eq!(
        result,
        Ok(Expr::List(vec![
            Expr::Number(1),
            Expr::Number(2),
            Expr::Number(3)
        ]))
    );
}

#[test]
fn test_eval_cons_with_non_list_second_argument() {
    let mut env = setup_environment();

    let expr = Expr::List(vec![
        Expr::Symbol("cons".to_string()),
        Expr::Number(1),
        Expr::Number(2),
    ]);

    let result = Evaluator::eval(&expr, &mut env);
    assert_eq!(
        result,
        Ok(Expr::DottedPair(
            Box::new(Expr::Number(1)),
            Box::new(Expr::Number(2))
        ))
    );
}

#[test]
fn test_eval_car_with_non_list_argument() {
    let mut env = setup_environment();

    let expr = Expr::List(vec![Expr::Symbol("car".to_string()), Expr::Number(123)]);
    let result = Evaluator::eval(&expr, &mut env);
    assert!(result.is_err());
    if let Err(err) = result {
        assert_eq!(err.to_string(), "car: argument must be a list");
    }
}

#[test]
fn test_eval_cdr_with_non_list_argument() {
    let mut env = setup_environment();

    let expr = Expr::List(vec![Expr::Symbol("cdr".to_string()), Expr::Number(123)]);
    let result = Evaluator::eval(&expr, &mut env);
    assert!(result.is_err());
    if let Err(err) = result {
        assert_eq!(err.to_string(), "cdr: argument must be a list");
    }
}

#[test]
fn test_cons_with_list() {
    let mut env = Environment::initialize();
    let a = Expr::List(vec![Expr::Number(1), Expr::Number(2), Expr::Number(3)]);
    env.set_symbol("a".to_string(), a.clone());

    let expr = Expr::List(vec![
        Expr::Symbol("cons".to_string()),
        Expr::Number(4),
        Expr::Symbol("a".to_string()),
    ]);

    let result = Evaluator::eval(&expr, &mut env).unwrap();
    assert_eq!(
        result,
        Expr::List(vec![
            Expr::Number(4),
            Expr::Number(1),
            Expr::Number(2),
            Expr::Number(3)
        ])
    );
}

#[test]
fn test_cons_with_dotted_pair() {
    let mut env = Environment::initialize();
    let a = Expr::List(vec![Expr::Number(1), Expr::Number(2), Expr::Number(3)]);
    env.set_symbol("a".to_string(), a.clone());

    let expr = Expr::List(vec![
        Expr::Symbol("cons".to_string()),
        Expr::Symbol("a".to_string()),
        Expr::Number(4),
    ]);

    let result = Evaluator::eval(&expr, &mut env).unwrap();
    assert_eq!(result, Expr::DottedPair(Box::new(a), Box::new(Expr::Number(4))));
}

#[test]
fn test_setf_and_cons() {
    let mut env = Environment::initialize();

    let setf_expr = Expr::List(vec![
        Expr::Symbol("setf".to_string()),
        Expr::Symbol("a".to_string()),
        Expr::List(vec![
            Expr::Symbol("quote".to_string()),
            Expr::List(vec![Expr::Number(1), Expr::Number(2), Expr::Number(3)]),
        ]),
    ]);
    let result = Evaluator::eval(&setf_expr, &mut env).unwrap();
    assert_eq!(
        result,
        Expr::List(vec![Expr::Number(1), Expr::Number(2), Expr::Number(3)])
    );

    let cons_expr1 = Expr::List(vec![
        Expr::Symbol("cons".to_string()),
        Expr::Number(4),
        Expr::Symbol("a".to_string()),
    ]);
    let result1 = Evaluator::eval(&cons_expr1, &mut env).unwrap();
    assert_eq!(
        result1,
        Expr::List(vec![
            Expr::Number(4),
            Expr::Number(1),
            Expr::Number(2),
            Expr::Number(3)
        ])
    );

    let cons_expr2 = Expr::List(vec![
        Expr::Symbol("cons".to_string()),
        Expr::Symbol("a".to_string()),
        Expr::Number(4),
    ]);
    let result2 = Evaluator::eval(&cons_expr2, &mut env).unwrap();
    assert_eq!(
        result2,
        Expr::DottedPair(
            Box::new(Expr::List(vec![
                Expr::Number(1),
                Expr::Number(2),
                Expr::Number(3)
            ])),
            Box::new(Expr::Number(4))
        )
    );
}
