use lisp_core::environment::Environment;
use lisp_core::evaluator::Evaluator;
use lisp_core::exception::LispError;
use lisp_core::expression::Expr;
use lisp_core::parser::Parser;

#[test]
fn test_parse_number() {
    let input = "42";
    let mut env = Environment::initialize();
    let result = Parser::read(input, &mut env);
    assert_eq!(result, Ok(Expr::Number(42)));
}

#[test]
fn test_parse_negative_number() {
    let input = "-42";
    let mut env = Environment::initialize();
    let result = Parser::read(input, &mut env);
    assert_eq!(result, Ok(Expr::Number(-42)));
}

#[test]
fn test_parse_subtraction() {
    let input = "(- 2 1)";
    let mut env = Environment::initialize();
    let result = Parser::read(input, &mut env);
    assert!(result.is_ok());
    if let Ok(expr) = result {
        assert_eq!(
            expr,
            Expr::List(vec![
                Expr::Symbol("-".to_string()),
                Expr::Number(2),
                Expr::Number(1)
            ])
        );
    }
}

#[test]
fn test_parse_invalid_number() {
    let input = "42abc";
    let mut env = Environment::initialize();
    let result = Parser::read(input, &mut env);
    assert_eq!(result, Err(LispError::new("Invalid number")));
}

#[test]
fn test_parse_number_with_inline_comment() {
    let input = "123;test";
    let mut env = Environment::initialize();
    let result = Parser::read(input, &mut env);
    assert_eq!(result, Ok(Expr::Number(123)));
}

#[test]
fn test_parse_number_with_space_and_comment() {
    let input = "123 ;test";
    let mut env = Environment::initialize();
    let result = Parser::read(input, &mut env);
    assert_eq!(result, Ok(Expr::Number(123)));
}

#[test]
fn test_parse_negative_sign_without_number() {
    let input = "-";
    let mut env = Environment::initialize();
    let result = Parser::read(input, &mut env);
    assert_eq!(result, Err(LispError::new("Invalid number")));
}

#[test]
fn test_parse_symbol() {
    let input = "foo";
    let mut env = Environment::initialize();
    let result = Parser::read(input, &mut env);
    assert_eq!(result, Ok(Expr::Symbol("foo".to_string())));
}

#[test]
fn test_parse_simple_expression() {
    let input = "(+ 1 2)";
    let mut env = Environment::initialize();
    let result = Parser::read(input, &mut env);
    assert!(result.is_ok());
    if let Ok(expr) = result {
        assert_eq!(
            expr,
            Expr::List(vec![
                Expr::Symbol("+".to_string()),
                Expr::Number(1),
                Expr::Number(2)
            ])
        );
    }
}

#[test]
fn test_parse_nested_expression() {
    let input = "(+ 1 (* 2 3))";
    let mut env = Environment::initialize();
    let result = Parser::read(input, &mut env);
    assert!(result.is_ok());
    if let Ok(expr) = result {
        assert_eq!(
            expr,
            Expr::List(vec![
                Expr::Symbol("+".to_string()),
                Expr::Number(1),
                Expr::List(vec![
                    Expr::Symbol("*".to_string()),
                    Expr::Number(2),
                    Expr::Number(3)
                ])
            ])
        );
    }
}

#[test]
fn test_parse_quoted_expression() {
    let input = "'(1 2 3)";
    let mut env = Environment::initialize();
    let result = Parser::read(input, &mut env);
    assert!(result.is_ok());
    if let Ok(expr) = result {
        assert_eq!(
            expr,
            Expr::List(vec![
                Expr::Symbol("quote".to_string()),
                Expr::List(vec![Expr::Number(1), Expr::Number(2), Expr::Number(3)])
            ])
        );
    }
}

#[test]
fn test_parse_string() {
    let input = "\"hello\"";
    let mut env = Environment::initialize();
    let result = Parser::read(input, &mut env);
    assert_eq!(result, Ok(Expr::Str("hello".to_string())));
}

#[test]
fn test_parse_unterminated_string() {
    let input = "\"hello";
    let mut env = Environment::initialize();
    let result = Parser::read(input, &mut env);
    assert_eq!(result, Err(LispError::new("Unterminated string literal")));
}

#[test]
fn test_parse_empty_input() {
    let input = "";
    let mut env = Environment::initialize();
    let result = Parser::read(input, &mut env);
    assert_eq!(result, Ok(Expr::List(vec![])));
}

#[test]
fn test_parse_whitespace_only_input() {
    let input = "   ";
    let mut env = Environment::initialize();
    let result = Parser::read(input, &mut env);
    assert_eq!(result, Ok(Expr::List(vec![])));
}

#[test]
fn test_parse_invalid_symbol() {
    let input = "@#$%";
    let mut env = Environment::initialize();
    let result = Parser::read(input, &mut env);
    assert_eq!(result, Ok(Expr::Symbol("@#$%".to_string())));
}

#[test]
fn test_parse_unexpected_end_of_list() {
    let input = "(1 2 3";
    let mut env = Environment::initialize();
    let result = Parser::read(input, &mut env);
    assert_eq!(result, Err(LispError::new("Parse Error: Unexpected end of list")));
}

#[test]
fn test_parse_extra_closing_paren() {
    let input = "(1 2 3))";
    let mut env = Environment::initialize();
    let result = Parser::read(input, &mut env);
    assert_eq!(result, Err(LispError::new("Unexpected input after list")));
}

#[test]
fn test_parse_nested_error() {
    let input = "(1 (2 3";
    let mut env = Environment::initialize();
    let result = Parser::read(input, &mut env);
    assert_eq!(result, Err(LispError::new("Parse Error: Unexpected end of list")));
}

#[test]
fn test_parse_with_comments() {
    let input = "
            ; this is a comment
            (fib 6) ;should be 8
            ;exit
        ";
    let mut env = Environment::initialize();
    let result = Parser::read(input, &mut env);
    assert!(result.is_ok());
    if let Ok(expr) = result {
        assert_eq!(
            expr,
            Expr::List(vec![Expr::Symbol("fib".to_string()), Expr::Number(6)])
        );
    }
}

#[test]
fn test_parse_inline_comment() {
    let input = "(+ 1 2) ; this adds two numbers";
    let mut env = Environment::initialize();
    let result = Parser::read(input, &mut env);
    assert!(result.is_ok());
    if let Ok(expr) = result {
        assert_eq!(
            expr,
            Expr::List(vec![
                Expr::Symbol("+".to_string()),
                Expr::Number(1),
                Expr::Number(2)
            ])
        );
    }
}

#[test]
fn test_parse_multiline_expression() {
    let input = "(defun fib (n)\n\
                     (cond ((eq n 1) 1)\n\
                           ((eq n 0) 0)\n\
                           (t (+ (fib (- n 1)) (fib (- n 2))))))";
    let mut env = Environment::initialize();
    let result = Parser::read(input, &mut env);
    assert!(result.is_ok());
    if let Ok(expr) = result {
        assert_eq!(
            expr,
            Expr::List(vec![
                Expr::Symbol("defun".to_string()),
                Expr::Symbol("fib".to_string()),
                Expr::List(vec![Expr::Symbol("n".to_string())]),
                Expr::List(vec![
                    Expr::Symbol("cond".to_string()),
                    Expr::List(vec![
                        Expr::List(vec![
                            Expr::Symbol("eq".to_string()),
                            Expr::Symbol("n".to_string()),
                            Expr::Number(1)
                        ]),
                        Expr::Number(1)
                    ]),
                    Expr::List(vec![
                        Expr::List(vec![
                            Expr::Symbol("eq".to_string()),
                            Expr::Symbol("n".to_string()),
                            Expr::Number(0)
                        ]),
                        Expr::Number(0)
                    ]),
                    Expr::List(vec![
                        Expr::Symbol("t".to_string()),
                        Expr::List(vec![
                            Expr::Symbol("+".to_string()),
                            Expr::List(vec![
                                Expr::Symbol("fib".to_string()),
                                Expr::List(vec![
                                    Expr::Symbol("-".to_string()),
                                    Expr::Symbol("n".to_string()),
                                    Expr::Number(1)
                                ])
                            ]),
                            Expr::List(vec![
                                Expr::Symbol("fib".to_string()),
                                Expr::List(vec![
                                    Expr::Symbol("-".to_string()),
                                    Expr::Symbol("n".to_string()),
                                    Expr::Number(2)
                                ])
                            ])
                        ])
                    ])
                ])
            ])
        );
    }
}

#[test]
fn test_parse_negative_symbol() {
    let input = "-abc";
    let mut env = Environment::initialize();
    let result = Parser::read(input, &mut env);
    assert_eq!(result, Ok(Expr::Symbol("-abc".to_string())));
}

#[test]
fn test_parse_negative_float() {
    let input = "-3.14";
    let mut env = Environment::initialize();
    let result = Parser::read(input, &mut env);
    assert_eq!(result, Ok(Expr::Float((-3.14f64).to_bits())));
}

#[test]
fn test_parse_float() {
    let input = "3.14";
    let mut env = Environment::initialize();
    let result = Parser::read(input, &mut env);
    assert_eq!(result, Ok(Expr::Float((3.14f64).to_bits())));
}

#[test]
fn test_parse_invalid_float() {
    let input = "3.14.159";
    let mut env = Environment::initialize();
    let result = Parser::read(input, &mut env);
    assert_eq!(result, Err(LispError::new("Invalid float")));
}

#[test]
fn test_parse_symbol_with_numbers() {
    let input = "foo123";
    let mut env = Environment::initialize();
    let result = Parser::read(input, &mut env);
    assert_eq!(result, Ok(Expr::Symbol("foo123".to_string())));
}

#[test]
fn test_parse_symbol_with_special_characters() {
    let input = "foo-bar_baz!";
    let mut env = Environment::initialize();
    let result = Parser::read(input, &mut env);
    assert_eq!(result, Ok(Expr::Symbol("foo-bar_baz!".to_string())));
}

#[test]
fn test_parse_expression_with_leading_whitespace() {
    let input = "   (+ 1 2)";
    let mut env = Environment::initialize();
    let result = Parser::read(input, &mut env);
    assert!(result.is_ok());
    if let Ok(expr) = result {
        assert_eq!(
            expr,
            Expr::List(vec![
                Expr::Symbol("+".to_string()),
                Expr::Number(1),
                Expr::Number(2)
            ])
        );
    }
}

#[test]
fn test_parse_expression_with_trailing_whitespace() {
    let input = "(+ 1 2)   ";
    let mut env = Environment::initialize();
    let result = Parser::read(input, &mut env);
    assert!(result.is_ok());
    if let Ok(expr) = result {
        assert_eq!(
            expr,
            Expr::List(vec![
                Expr::Symbol("+".to_string()),
                Expr::Number(1),
                Expr::Number(2)
            ])
        );
    }
}

#[test]
fn test_parse_expression_with_comment_inside_list() {
    let input = "(+ 1 ; comment\n 2)";
    let mut env = Environment::initialize();
    let result = Parser::read(input, &mut env);
    assert!(result.is_ok());
    if let Ok(expr) = result {
        assert_eq!(
            expr,
            Expr::List(vec![
                Expr::Symbol("+".to_string()),
                Expr::Number(1),
                Expr::Number(2)
            ])
        );
    }
}

#[test]
fn test_parse_complex_expression() {
    let input = "(begin\n\
                        (define r 10) ; radius\n\
                        (define pi 3.14159)\n\
                        (define area (* pi (* r r)))\n\
                        area)";
    let mut env = Environment::initialize();
    let result = Parser::read(input, &mut env);
    assert!(result.is_ok());
    if let Ok(expr) = result {
        assert_eq!(
            expr,
            Expr::List(vec![
                Expr::Symbol("begin".to_string()),
                Expr::List(vec![
                    Expr::Symbol("define".to_string()),
                    Expr::Symbol("r".to_string()),
                    Expr::Number(10)
                ]),
                Expr::List(vec![
                    Expr::Symbol("define".to_string()),
                    Expr::Symbol("pi".to_string()),
                    Expr::Float((3.14159f64).to_bits())
                ]),
                Expr::List(vec![
                    Expr::Symbol("define".to_string()),
                    Expr::Symbol("area".to_string()),
                    Expr::List(vec![
                        Expr::Symbol("*".to_string()),
                        Expr::Symbol("pi".to_string()),
                        Expr::List(vec![
                            Expr::Symbol("*".to_string()),
                            Expr::Symbol("r".to_string()),
                            Expr::Symbol("r".to_string())
                        ])
                    ])
                ]),
                Expr::Symbol("area".to_string())
            ])
        );
    }
}

#[test]
fn test_parse_defmacro() {
    let input = "(defmacro my-macro (x) `(+ ,x 10))";
    let mut env = Environment::initialize();
    let result = Parser::read(input, &mut env);
    assert!(result.is_ok());

    let macro_expr = env.get_macro("my-macro").cloned();
    assert!(macro_expr.is_some());

    if let Some(Expr::Macro(params, body)) = macro_expr {
        assert_eq!(params, vec![Expr::Symbol("x".to_string())]);
        assert_eq!(
            *body,
            Expr::List(vec![
                Expr::Symbol("quasiquote".to_string()),
                Expr::List(vec![
                    Expr::Symbol("+".to_string()),
                    Expr::List(vec![
                        Expr::Symbol("unquote".to_string()),
                        Expr::Symbol("x".to_string())
                    ]),
                    Expr::Number(10)
                ])
            ])
        );
    } else {
        panic!("Expected a Macro expression");
    }
}

#[test]
fn test_parse_and_expand_macro() {
    let macro_definition = "(defmacro my-macro (x) `(+ ,x 10))";
    let mut env = Environment::initialize();
    let result = Parser::read(macro_definition, &mut env);
    assert!(result.is_ok());

    let macro_usage = "(my-macro 5)";
    let result = Parser::read(macro_usage, &mut env);
    assert!(result.is_ok());

    if let Ok(expr) = result {
        let expected_expr = Expr::List(vec![
            Expr::Symbol("+".to_string()),
            Expr::Number(5),
            Expr::Number(10),
        ]);
        assert_eq!(expr, expected_expr);

        let eval_result = Evaluator::eval(&expr, &mut env);
        assert_eq!(eval_result, Ok(Expr::Number(15)));
    }
}

#[test]
fn test_parser_error_handling() {
    let mut env = Environment::initialize();
    let input = "(+ 1 2";
    let result = Parser::read(input, &mut env);
    assert_eq!(result, Err(LispError::new("Parse Error: Unexpected end of list")));

    let input = "(+ 1 2))";
    let result = Parser::read(input, &mut env);
    assert_eq!(result, Err(LispError::new("Unexpected input after list")));
}

#[test]
fn test_parse_string_with_escaped_quote() {
    let mut env = Environment::initialize();
    let result = Parser::read("\"a\\\"b\"", &mut env);
    assert_eq!(result, Ok(Expr::Str("a\"b".to_string())));
}

#[test]
fn test_parse_string_with_escaped_backslash() {
    let mut env = Environment::initialize();
    let result = Parser::read("\"a\\\\b\"", &mut env);
    assert_eq!(result, Ok(Expr::Str("a\\b".to_string())));
}

#[test]
fn test_parse_string_with_trailing_backslash_is_unterminated() {
    let mut env = Environment::initialize();
    let result = Parser::read("\"abc\\", &mut env);
    assert_eq!(result, Err(LispError::new("Unterminated string literal")));
}

#[test]
fn test_parse_lone_dot_is_invalid() {
    let mut env = Environment::initialize();
    let result = Parser::read(".", &mut env);
    assert_eq!(result, Err(LispError::new("Invalid number")));

    let result = Parser::read("(cons . 2)", &mut env);
    assert_eq!(result, Err(LispError::new("Invalid number")));
}

#[test]
fn test_parse_dot_led_symbol() {
    let mut env = Environment::initialize();
    let result = Parser::read(".5", &mut env);
    assert_eq!(result, Ok(Expr::Symbol(".5".to_string())));
}
