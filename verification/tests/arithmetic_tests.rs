use lisp_core::arithmetic::Arithmetic;
use lisp_core::environment::Environment;
use lisp_core::evaluator::Evaluator;
use lisp_core::expression::Expr;

#[test]
fn test_eval_add_success() {
    let mut env = Environment::initialize();
    let args = vec![Expr::Number(2), Expr::Number(3), Expr::Number(4)];
    let result = Arithmetic::eval_add(&args, &mut env);

    assert!(result.is_ok());
    assert_eq!(result.unwrap(), Expr::Number(9));
}

#[test]
fn test_eval_add_with_floats() {
    let mut env = Environment::initialize();
    let args = vec![
        Expr::Float((2.5f64).to_bits()),
        Expr::Number(3),
        Expr::Float((4.5f64).to_bits()),
    ];
    let result = Arithmetic::eval_add(&args, &mut env);

    assert!(result.is_ok());
    assert_eq!(result.unwrap(), Expr::Float((10.0f64).to_bits()));
}

#[test]
fn test_eval_add_no_arguments() {
    let mut env = Environment::initialize();
    let args: Vec<Expr> = vec![];
    let result = Arithmetic::eval_add(&args, &mut env);

    assert!(result.is_ok());
    assert_eq!(result.unwrap(), Expr::Number(0));
}

#[test]
fn test_eval_add_single_argument() {
    let mut env = Environment::initialize();
    let args = vec![Expr::Number(42)];
    let result = Arithmetic::eval_add(&args, &mut env);

    assert!(result.is_ok());
    assert_eq!(result.unwrap(), Expr::Number(42));
}

#[test]
fn test_eval_add_non_number_argument() {
    let mut env = Environment::initialize();
    let args = vec![Expr::Number(2), Expr::Symbol("a".to_string())];
    let result = Arithmetic::eval_add(&args, &mut env);

    assert!(result.is_err());
    if let Err(err) = result {
        assert_eq!(err.to_string(), "Undefined symbol: a");
    }
}

#[test]
fn test_eval_sub_success() {
    let mut env = Environment::initialize();
    let args = vec![Expr::Number(10), Expr::Number(3), Expr::Number(2)];
    let result = Arithmetic::eval_subtract(&args, &mut env);

    assert!(result.is_ok());
    assert_eq!(result.unwrap(), Expr::Number(5));
}

#[test]
fn test_eval_sub_with_floats() {
    let mut env = Environment::initialize();
    let args = vec![
        Expr::Float((10.5f64).to_bits()),
        Expr::Float((3.2f64).to_bits()),
        Expr::Number(2),
    ];
    let result = Arithmetic::eval_subtract(&args, &mut env);

    assert!(result.is_ok());
    assert_eq!(result.unwrap(), Expr::Float((5.3f64).to_bits()));
}

#[test]
fn test_eval_sub_no_arguments() {
    let mut env = Environment::initialize();
    let args: Vec<Expr> = vec![];
    let result = Arithmetic::eval_subtract(&args, &mut env);

    assert!(result.is_err());
    if let Err(err) = result {
        assert_eq!(err.to_string(), "Subtraction requires at least one argument");
    }
}

#[test]
fn test_eval_sub_single_argument() {
    let mut env = Environment::initialize();
    let args = vec![Expr::Number(5)];
    let result = Arithmetic::eval_subtract(&args, &mut env);

    assert!(result.is_ok());
    assert_eq!(result.unwrap(), Expr::Number(5));
}

#[test]
fn test_eval_sub_negative_result() {
    let mut env = Environment::initialize();
    let args = vec![Expr::Number(5), Expr::Number(10)];
    let result = Arithmetic::eval_subtract(&args, &mut env);

    assert!(result.is_ok());
    assert_eq!(result.unwrap(), Expr::Number(-5));
}

#[test]
fn test_eval_sub_non_number_argument() {
    let mut env = Environment::initialize();
    let args = vec![Expr::Number(10), Expr::Symbol("a".to_string())];
    let result = Arithmetic::eval_subtract(&args, &mut env);

    assert!(result.is_err());
    if let Err(err) = result {
        assert_eq!(err.to_string(), "Undefined symbol: a");
    }
}

#[test]
fn test_eval_mul_success() {
    let mut env = Environment::initialize();
    let args = vec![Expr::Number(2), Expr::Number(3), Expr::Number(4)];
    let result = Arithmetic::eval_multiply(&args, &mut env);

    assert!(result.is_ok());
    assert_eq!(result.unwrap(), Expr::Number(24));
}

#[test]
fn test_eval_mul_with_floats() {
    let mut env = Environment::initialize();
    let args = vec![
        Expr::Float((2.5f64).to_bits()),
        Expr::Number(3),
        Expr::Float((4.0f64).to_bits()),
    ];
    let result = Arithmetic::eval_multiply(&args, &mut env);

    assert!(result.is_ok());
    assert_eq!(result.unwrap(), Expr::Float((30.0f64).to_bits()));
}

#[test]
fn test_eval_mul_no_arguments() {
    let mut env = Environment::initialize();
    let args: Vec<Expr> = vec![];
    let result = Arithmetic::eval_multiply(&args, &mut env);

    assert!(result.is_ok());
    assert_eq!(result.unwrap(), Expr::Number(1));
}

#[test]
fn test_eval_mul_single_argument() {
    let mut env = Environment::initialize();
    let args = vec![Expr::Number(42)];
    let result = Arithmetic::eval_multiply(&args, &mut env);

    assert!(result.is_ok());
    assert_eq!(result.unwrap(), Expr::Number(42));
}

#[test]
fn test_eval_mul_non_number_argument() {
    let mut env = Environment::initialize();
    let args = vec![Expr::Number(2), Expr::Symbol("a".to_string())];
    let result = Arithmetic::eval_multiply(&args, &mut env);

    assert!(result.is_err());
    if let Err(err) = result {
        assert_eq!(err.to_string(), "Undefined symbol: a");
    }
}

#[test]
fn test_eval_div_success() {
    let mut env = Environment::initialize();
    let args = vec![Expr::Number(10), Expr::Number(2)];
    let result = Arithmetic::eval_divide(&args, &mut env);

    assert!(result.is_ok());
    assert_eq!(result.unwrap(), Expr::Number(5));
}

#[test]
fn test_eval_div_with_floats() {
    let mut env = Environment::initialize();
    let args = vec![Expr::Float((10.0f64).to_bits()), Expr::Number(4)];
    let result = Arithmetic::eval_divide(&args, &mut env);

    assert!(result.is_ok());
    assert_eq!(result.unwrap(), Expr::Float((2.5f64).to_bits()));
}

#[test]
fn test_eval_div_with_floats_result_integer() {
    let mut env = Environment::initialize();
    let args = vec![
        Expr::Float((10.0f64).to_bits()),
        Expr::Float((2.0f64).to_bits()),
    ];
    let result = Arithmetic::eval_divide(&args, &mut env);

    assert!(result.is_ok());
    assert_eq!(result.unwrap(), Expr::Float((5.0f64).to_bits()));
}

#[test]
fn test_eval_div_by_zero() {
    let mut env = Environment::initialize();
    let args = vec![Expr::Number(10), Expr::Number(0)];
    let result = Arithmetic::eval_divide(&args, &mut env);

    assert!(result.is_err());
    if let Err(err) = result {
        assert_eq!(err.to_string(), "Division by zero");
    }
}

#[test]
fn test_eval_div_by_zero_float() {
    let mut env = Environment::initialize();
    let args = vec![
        Expr::Float((10.0f64).to_bits()),
        Expr::Float((0.0f64).to_bits()),
    ];
    let result = Arithmetic::eval_divide(&args, &mut env);

    assert!(result.is_err());
    if let Err(err) = result {
        assert_eq!(err.to_string(), "Division by zero");
    }
}

#[test]
fn test_eval_div_non_number_argument() {
    let mut env = Environment::initialize();
    let args = vec![Expr::Number(10), Expr::Symbol("a".to_string())];
    let result = Arithmetic::eval_divide(&args, &mut env);

    assert!(result.is_err());
    if let Err(err) = result {
        assert_eq!(err.to_string(), "Undefined symbol: a");
    }
}

#[test]
fn test_eval_div_incorrect_number_of_arguments() {
    let mut env = Environment::initialize();

    let args: Vec<Expr> = vec![];
    let result = Arithmetic::eval_divide(&args, &mut env);
    assert!(result.is_err());
    if let Err(err) = result {
        assert_eq!(err.to_string(), "Division requires at least one argument");
    }

    let args = vec![Expr::Number(10)];
    let result = Arithmetic::eval_divide(&args, &mut env);
    assert!(result.is_ok());
    assert_eq!(result.unwrap(), Expr::Number(10));
}

#[test]
fn test_eval_div_nested_division_with_floats() {
    let mut env = Environment::initialize();

    let expr = Expr::List(vec![
        Expr::Symbol("/".to_string()),
        Expr::Number(100),
        Expr::List(vec![
            Expr::Symbol("/".to_string()),
            Expr::Number(10),
            Expr::Number(2),
        ]),
    ]);

    let result = Evaluator::eval(&expr, &mut env);
    assert_eq!(result, Ok(Expr::Number(20)));
}

#[test]
fn test_eval_nested_multiplication_with_float() {
    let mut env = Environment::initialize();

    let expr = Expr::List(vec![
        Expr::Symbol("*".to_string()),
        Expr::Number(100),
        Expr::Number(5),
        Expr::List(vec![
            Expr::Symbol("/".to_string()),
            Expr::Number(3),
            Expr::Number(2),
        ]),
    ]);

    let result = Evaluator::eval(&expr, &mut env);
    assert_eq!(result, Ok(Expr::Float((750.0f64).to_bits())));
}

#[test]
fn test_eval_large_numbers() {
    let mut env = Environment::initialize();
    let args = vec![Expr::Number(1_000_000_000), Expr::Number(2_000_000_000)];
    let result = Arithmetic::eval_add(&args, &mut env);

    assert!(result.is_ok());
    assert_eq!(result.unwrap(), Expr::Number(3_000_000_000));
}
