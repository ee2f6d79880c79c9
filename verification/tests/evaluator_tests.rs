use lisp_core::environment::Environment;
use lisp_core::evaluator::Evaluator;
use lisp_core::exception::LispError;
use lisp_core::expression::Expr;

fn setup_environment() -> Environment {
    let mut env = Environment::initialize();
    env.set_symbol("x".to_string(), Expr::Number(10));
    env.set_symbol("y".to_string(), Expr::Number(20));
    env
}

#[test]
fn test_eval_symbol() {
    let mut env = setup_environment();
    let expr = Expr::Symbol("x".to_string());
    let result = Evaluator::eval(&expr, &mut env);
    assert_eq!(result, Ok(Expr::Number(10)));

    let expr = Expr::Symbol("z".to_string());
    let result = Evaluator::eval(&expr, &mut env);
    assert!(result.is_err());
}

#[test]
fn test_eval_number_and_string() {
    let mut env = setup_environment();
    let expr = Expr::Number(42);
    let result = Evaluator::eval(&expr, &mut env);
    assert_eq!(result, Ok(Expr::Number(42)));

    let expr = Expr::Str("Hello".to_string());
    let result = Evaluator::eval(&expr, &mut env);
    assert_eq!(result, Ok(Expr::Str("Hello".to_string())));
}

#[test]
fn test_eval_empty_list() {
    let mut env = setup_environment();

    let result = Evaluator::eval(&Expr::List(vec![]), &mut env);

    assert_eq!(result, Ok(Expr::List(vec![])));
}

#[test]
fn test_eval_lambda_call() {
    let mut env = setup_environment();
    let lambda_expr = Expr::List(vec![
        Expr::Symbol("lambda".to_string()),
        Expr::List(vec![Expr::Symbol("a".to_string())]),
        Expr::List(vec![
            Expr::Symbol("+".to_string()),
            Expr::Symbol("a".to_string()),
            Expr::Number(10),
        ]),
    ]);
    env.set_function("my-func".to_string(), lambda_expr);

    let expr = Expr::List(vec![
        Expr::Symbol("my-func".to_string()),
        Expr::Number(5),
    ]);
    let result = Evaluator::eval(&expr, &mut env);
    assert_eq!(result, Ok(Expr::Number(15)));
}

#[test]
fn test_eval_invalid_function_call() {
    let mut env = setup_environment();

    let expr = Expr::List(vec![
        Expr::Symbol("undefined_func".to_string()),
        Expr::Number(5),
    ]);
    let result = Evaluator::eval(&expr, &mut env);
    assert_eq!(
        result,
        Err(LispError::new("Undefined function: undefined_func"))
    );

    let expr = Expr::List(vec![Expr::Number(5), Expr::Number(10)]);
    let result = Evaluator::eval(&expr, &mut env);
    assert_eq!(
        result,
        Err(LispError::new("Cannot evaluate a list without a valid operator"))
    );

    let invalid_lambda_expr = Expr::List(vec![
        Expr::List(vec![Expr::Symbol("lambda".to_string()), Expr::Number(5)]),
        Expr::Number(10),
    ]);
    let result = Evaluator::eval(&invalid_lambda_expr, &mut env);
    assert_eq!(
        result,
        Err(LispError::new("lambda requires at least 2 arguments: params, body"))
    );
}

#[test]
fn test_eval_undefined_symbol() {
    let mut env = setup_environment();
    let expr = Expr::Symbol("undefined".to_string());
    let result = Evaluator::eval(&expr, &mut env);
    assert_eq!(result, Err(LispError::new("Undefined symbol: undefined")));
}

#[test]
fn test_eval_nested_expression() {
    let mut env = setup_environment();
    let expr = Expr::List(vec![
        Expr::Symbol("+".to_string()),
        Expr::Number(1),
        Expr::List(vec![
            Expr::Symbol("*".to_string()),
            Expr::Number(2),
            Expr::Number(3),
        ]),
    ]);
    let result = Evaluator::eval(&expr, &mut env);
    assert_eq!(result, Ok(Expr::Number(7)));
}

#[test]
fn test_eval_nested_lambda() {
    let mut env = setup_environment();

    let outer_lambda_expr = Expr::List(vec![
        Expr::Symbol("lambda".to_string()),
        Expr::List(vec![Expr::Symbol("a".to_string())]),
        Expr::List(vec![
            Expr::Symbol("+".to_string()),
            Expr::Symbol("a".to_string()),
            Expr::Number(5),
        ]),
    ]);

    let nested_lambda_expr = Expr::List(vec![
        Expr::Symbol("lambda".to_string()),
        Expr::List(vec![Expr::Symbol("b".to_string())]),
        Expr::List(vec![
            Expr::Symbol("lambda".to_string()),
            Expr::List(vec![Expr::Symbol("c".to_string())]),
            Expr::List(vec![
                Expr::Symbol("nested-func".to_string()),
                Expr::Symbol("c".to_string()),
            ]),
        ]),
    ]);

    env.set_function("nested-func".to_string(), outer_lambda_expr);
    env.set_function("nested-lambda".to_string(), nested_lambda_expr);

    let nested_lambda_call = Expr::List(vec![
        Expr::Symbol("nested-lambda".to_string()),
        Expr::Number(0),
    ]);

    let expr = Expr::List(vec![nested_lambda_call, Expr::Number(10)]);
    let result = Evaluator::eval(&expr, &mut env);
    assert_eq!(result, Ok(Expr::Number(15)));
}

#[test]
fn test_eval_invalid_lambda_expression() {
    let mut env = setup_environment();

    let invalid_lambda_expr = Expr::List(vec![
        Expr::Symbol("lambda".to_string()),
        Expr::Number(5),
    ]);

    let result = Evaluator::eval(&invalid_lambda_expr, &mut env);
    assert_eq!(
        result,
        Err(LispError::new("lambda requires at least 2 arguments: params, body"))
    );

    let incomplete_lambda_expr = Expr::List(vec![
        Expr::Symbol("lambda".to_string()),
        Expr::List(vec![Expr::Symbol("x".to_string())]),
    ]);

    let result = Evaluator::eval(&incomplete_lambda_expr, &mut env);
    assert_eq!(
        result,
        Err(LispError::new("lambda requires at least 2 arguments: params, body"))
    );
}

#[test]
fn test_eval_invalid_function_definition() {
    let mut env = setup_environment();

    let invalid_defun_expr = Expr::List(vec![
        Expr::Symbol("defun".to_string()),
        Expr::Number(5),
        Expr::List(vec![Expr::Symbol("x".to_string())]),
        Expr::List(vec![
            Expr::Symbol("+".to_string()),
            Expr::Symbol("x".to_string()),
            Expr::Number(1),
        ]),
    ]);

    let result = Evaluator::eval(&invalid_defun_expr, &mut env);
    assert_eq!(result, Err(LispError::new("defun: first argument must be a symbol")));
}

#[test]
fn test_eval_invalid_list_operator() {
    let mut env = setup_environment();

    let invalid_operator_expr = Expr::List(vec![Expr::Number(10), Expr::Number(5)]);

    let result = Evaluator::eval(&invalid_operator_expr, &mut env);
    assert_eq!(
        result,
        Err(LispError::new("Cannot evaluate a list without a valid operator"))
    );
}

#[test]
fn test_eval_invalid_lambda() {
    let mut env = setup_environment();

    let invalid_lambda = Expr::List(vec![
        Expr::List(vec![
            Expr::Symbol("lambda".to_string()),
            Expr::Number(5),
            Expr::Number(42),
        ]),
        Expr::Number(10),
    ]);

    let result = Evaluator::eval(&invalid_lambda, &mut env);
    assert_eq!(
        result,
        Err(LispError::new("lambda: first argument must be a list of parameters"))
    );
}

#[test]
fn test_eval_invalid_expression() {
    let mut env = setup_environment();

    let invalid_expression = Expr::List(vec![
        Expr::List(vec![Expr::Number(42)]),
        Expr::Number(10),
    ]);

    let result = Evaluator::eval(&invalid_expression, &mut env);
    assert_eq!(
        result,
        Err(LispError::new("Cannot evaluate a list without a valid operator"))
    );
}
