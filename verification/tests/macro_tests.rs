use lisp_core::environment::Environment;
use lisp_core::expression::Expr;
use lisp_core::macro_expander::MacroExpander;

#[test]
fn test_expand_macro_simple() {
    let mut env = Environment::initialize();
    env.set_macro(
        "my-macro".to_string(),
        Expr::Macro(
            vec![Expr::Symbol("x".to_string())],
            Box::new(Expr::List(vec![
                Expr::Symbol("+".to_string()),
                Expr::Symbol("x".to_string()),
                Expr::Number(10),
            ])),
        ),
    );

    let ast = Expr::List(vec![
        Expr::Symbol("my-macro".to_string()),
        Expr::Number(5),
    ]);

    let result = MacroExpander::expand_macro(&ast, &mut env);
    assert!(result.is_ok());

    if let Ok(expanded) = result {
        assert_eq!(
            expanded,
            Expr::List(vec![
                Expr::Symbol("+".to_string()),
                Expr::Number(5),
                Expr::Number(10)
            ])
        );
    }
}

#[test]
fn test_expand_macro_with_no_args() {
    let mut env = Environment::initialize();
    env.set_macro(
        "simple-macro".to_string(),
        Expr::Macro(
            vec![],
            Box::new(Expr::List(vec![
                Expr::Symbol("quote".to_string()),
                Expr::List(vec![
                    Expr::Symbol("hello".to_string()),
                    Expr::Symbol("world".to_string()),
                ]),
            ])),
        ),
    );

    let ast = Expr::List(vec![Expr::Symbol("simple-macro".to_string())]);

    let result = MacroExpander::expand_macro(&ast, &mut env);
    assert!(result.is_ok());

    if let Ok(expanded) = result {
        assert_eq!(
            expanded,
            Expr::List(vec![
                Expr::Symbol("quote".to_string()),
                Expr::List(vec![
                    Expr::Symbol("hello".to_string()),
                    Expr::Symbol("world".to_string())
                ])
            ])
        );
    }
}

#[test]
fn test_expand_macro_with_multiple_args() {
    let mut env = Environment::initialize();
    env.set_macro(
        "sum-macro".to_string(),
        Expr::Macro(
            vec![
                Expr::Symbol("a".to_string()),
                Expr::Symbol("b".to_string()),
            ],
            Box::new(Expr::List(vec![
                Expr::Symbol("+".to_string()),
                Expr::Symbol("a".to_string()),
                Expr::Symbol("b".to_string()),
            ])),
        ),
    );

    let ast = Expr::List(vec![
        Expr::Symbol("sum-macro".to_string()),
        Expr::Number(3),
        Expr::Number(4),
    ]);

    let result = MacroExpander::expand_macro(&ast, &mut env);
    assert!(result.is_ok());

    if let Ok(expanded) = result {
        assert_eq!(
            expanded,
            Expr::List(vec![
                Expr::Symbol("+".to_string()),
                Expr::Number(3),
                Expr::Number(4)
            ])
        );
    }
}

#[test]
fn test_expand_macro_with_unexpected_args() {
    let mut env = Environment::initialize();
    env.set_macro(
        "one-arg-macro".to_string(),
        Expr::Macro(
            vec![Expr::Symbol("x".to_string())],
            Box::new(Expr::Symbol("x".to_string())),
        ),
    );

    let ast = Expr::List(vec![
        Expr::Symbol("one-arg-macro".to_string()),
        Expr::Number(1),
        Expr::Number(2),
    ]);

    let result = MacroExpander::expand_macro(&ast, &mut env);
    assert!(result.is_err());
}

#[test]
fn test_expand_non_macro() {
    let mut env = Environment::initialize();
    let ast = Expr::List(vec![
        Expr::Symbol("+".to_string()),
        Expr::Number(1),
        Expr::Number(2),
    ]);

    let result = MacroExpander::expand_macro(&ast, &mut env);
    assert!(result.is_ok());

    if let Ok(expanded) = result {
        assert_eq!(
            expanded,
            Expr::List(vec![
                Expr::Symbol("+".to_string()),
                Expr::Number(1),
                Expr::Number(2)
            ])
        );
    }
}
