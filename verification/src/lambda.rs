//! Function definition and application: `defun`, `lambda`, `progn`, and
//! the two call protocols. A call copies the whole environment, binds
//! parameters in the copy, evaluates the body there, and hands only the
//! gensym counter back.
use crate::environment::Environment;
use crate::evaluator::{
    bind_params_spec, call_frame_spec, defun_spec, eval_fuel, eval_function_call_spec,
    eval_lambda_call_spec, lambda_spec, progn_spec, EVAL_FUEL,
};
use crate::exception::LispError;
use crate::expression::{clone_exprs, clone_tail, exprs_view, Expr, ExprView};
use crate::operator::{Op, OperatorRegistry};
use vstd::prelude::*;

verus! {

broadcast use
    crate::expression::lemma_exprs_view_len,
    crate::expression::lemma_exprs_view_index,
    vstd::seq::axiom_seq_index_decreases;

pub struct Lambda;

impl Lambda {
    /// `lambda`: builds the inert `(lambda (params…) body)` list.
    pub fn eval_lambda(args: &Vec<Expr>, env: &mut Environment) -> (r: Result<Expr, LispError>)
        ensures
            ({
                let out = lambda_spec(exprs_view(args@), old(env)@);
                final(env)@ == out.env && match r {
                    Ok(e) => out.result == Ok::<ExprView, Seq<char>>(e@),
                    Err(err) => out.result is Err && err@ == out.result->Err_0,
                }
            }),
    {
        if args.len() < 2 {
            return Err(LispError::new("lambda requires at least 2 arguments: params, body"));
        }
        let params: Vec<Expr> = match &args[0] {
            Expr::List(p) => clone_exprs(p),
            _ => {
                return Err(
                    LispError::new("lambda: first argument must be a list of parameters"),
                );
            },
        };
        let body: Expr = if args.len() == 2 {
            proof {
                assert(decreases_to!(args@ => args@[1int]));
            }
            args[1].clone()
        } else {
            let mut body_items: Vec<Expr> = Vec::new();
            body_items.push(Expr::Symbol("progn".to_string()));
            let rest = clone_tail(args);
            let mut i: usize = 0;
            while i < rest.len()
                invariant
                    i <= rest@.len(),
                    body_items@.len() == i + 1,
                    body_items@[0]@ == ExprView::Symbol("progn"@),
                    forall|j: int| 0 <= j < i ==> body_items@[j + 1]@ == rest@[j]@,
                decreases rest@.len() - i,
            {
                proof {
                    assert(decreases_to!(rest@ => rest@[i as int]));
                }
                body_items.push(rest[i].clone());
                i += 1;
            }
            proof {
                assert(exprs_view(body_items@) =~= seq![ExprView::Symbol("progn"@)] + exprs_view(
                    args@,
                ).drop_first());
            }
            Expr::List(body_items)
        };
        let mut form: Vec<Expr> = Vec::new();
        form.push(Expr::Symbol("lambda".to_string()));
        form.push(Expr::List(params));
        form.push(body);
        let r = Expr::List(form);
        proof {
            let views = exprs_view(args@);
            assert(exprs_view(r->List_0@) =~= seq![
                ExprView::Symbol("lambda"@),
                views[0],
                (if views.len() == 2 {
                    views[1]
                } else {
                    ExprView::List(seq![ExprView::Symbol("progn"@)] + views.drop_first())
                }),
            ]);
        }
        Ok(r)
    }

    /// `defun`: stores the canonical lambda form under the function name.
    pub fn eval_defun(args: &Vec<Expr>, env: &mut Environment) -> (r: Result<Expr, LispError>)
        ensures
            ({
                let out = defun_spec(exprs_view(args@), old(env)@);
                final(env)@ == out.env && match r {
                    Ok(e) => out.result == Ok::<ExprView, Seq<char>>(e@),
                    Err(err) => out.result is Err && err@ == out.result->Err_0,
                }
            }),
    {
        if args.len() != 3 {
            return Err(LispError::new("defun requires exactly 3 arguments: name, params, body"));
        }
        let name: String = match &args[0] {
            Expr::Symbol(s) => s.clone(),
            _ => {
                return Err(LispError::new("defun: first argument must be a symbol"));
            },
        };
        let params: Vec<Expr> = match &args[1] {
            Expr::List(p) => clone_exprs(p),
            _ => {
                return Err(LispError::new("defun: second argument must be a list"));
            },
        };
        proof {
            assert(decreases_to!(args@ => args@[2int]));
        }
        let body = args[2].clone();
        let mut form: Vec<Expr> = Vec::new();
        form.push(Expr::Symbol("lambda".to_string()));
        form.push(Expr::List(params));
        form.push(body);
        proof {
            let views = exprs_view(args@);
            assert(exprs_view(form@) =~= seq![
                ExprView::Symbol("lambda"@),
                views[1],
                views[2],
            ]);
        }
        env.set_function(name.clone(), Expr::List(form));
        Ok(Expr::Symbol(name))
    }

    /// Applies an evaluated lambda form to raw arguments.
    pub fn eval_lambda_call(lambda_parts: &Vec<Expr>, args: &Vec<Expr>, env: &mut Environment) -> (r:
        Result<Expr, LispError>)
        ensures
            ({
                let out = eval_lambda_call_spec(
                    exprs_view(lambda_parts@),
                    exprs_view(args@),
                    old(env)@,
                    EVAL_FUEL as nat,
                );
                final(env)@ == out.env && match r {
                    Ok(e) => out.result == Ok::<ExprView, Seq<char>>(e@),
                    Err(err) => out.result is Err && err@ == out.result->Err_0,
                }
            }),
    {
        eval_lambda_call_fuel(lambda_parts, args, env, EVAL_FUEL)
    }

    /// Calls the named user function with raw arguments.
    pub fn eval_function_call(func_name: &str, args: &Vec<Expr>, env: &mut Environment) -> (r:
        Result<Expr, LispError>)
        ensures
            ({
                let out = eval_function_call_spec(
                    func_name@,
                    exprs_view(args@),
                    old(env)@,
                    EVAL_FUEL as nat,
                );
                final(env)@ == out.env && match r {
                    Ok(e) => out.result == Ok::<ExprView, Seq<char>>(e@),
                    Err(err) => out.result is Err && err@ == out.result->Err_0,
                }
            }),
    {
        eval_function_call_fuel(func_name, args, env, EVAL_FUEL)
    }
}

/// `progn`: evaluates each argument in order, yielding the last value.
#[verifier::loop_isolation(false)]
pub(crate) fn eval_progn_fuel(args: &Vec<Expr>, env: &mut Environment, fuel: u64) -> (r: Result<
    Expr,
    LispError,
>)
    requires
        fuel >= 1,
    ensures
        ({
            let out = progn_spec(
                exprs_view(args@),
                ExprView::List(Seq::empty()),
                old(env)@,
                fuel as nat,
            );
            final(env)@ == out.env && match r {
                Ok(e) => out.result == Ok::<ExprView, Seq<char>>(e@),
                Err(err) => out.result is Err && err@ == out.result->Err_0,
            }
        }),
    decreases fuel, 3int, 0int,
{
    let ghost views = exprs_view(args@);
    let ghost env0 = old(env)@;
    let empty: Vec<Expr> = Vec::new();
    proof {
        assert(exprs_view(empty@) =~= Seq::<ExprView>::empty());
    }
    let mut last: Expr = Expr::List(empty);
    proof {
        assert(views.skip(0) =~= views);
    }
    let mut i: usize = 0;
    while i < args.len()
        invariant
            i <= args@.len(),
            views == exprs_view(args@),
            fuel >= 1,
            progn_spec(views, ExprView::List(Seq::empty()), env0, fuel as nat) == progn_spec(
                views.skip(i as int),
                last@,
                env@,
                fuel as nat,
            ),
        decreases args@.len() - i,
    {
        proof {
            assert(views.skip(i as int)[0] == views[i as int]);
            assert(views[i as int] == args@[i as int]@);
        }
        last = match eval_fuel(&args[i], env, fuel - 1) {
            Ok(v) => v,
            Err(err) => {
                return Err(err);
            },
        };
        proof {
            assert(views.skip(i as int).drop_first() =~= views.skip(i as int + 1));
        }
        i += 1;
    }
    proof {
        assert(views.skip(args@.len() as int) =~= Seq::<ExprView>::empty());
    }
    Ok(last)
}

/// The shared call frame of both call protocols.
#[verifier::loop_isolation(false)]
fn call_frame_fuel(
    params: &Vec<Expr>,
    body: &Expr,
    args: &Vec<Expr>,
    env: &mut Environment,
    fuel: u64,
) -> (r: Result<Expr, LispError>)
    requires
        fuel >= 1,
    ensures
        ({
            let out = call_frame_spec(
                exprs_view(params@),
                body@,
                exprs_view(args@),
                old(env)@,
                fuel as nat,
            );
            final(env)@ == out.env && match r {
                Ok(e) => out.result == Ok::<ExprView, Seq<char>>(e@),
                Err(err) => out.result is Err && err@ == out.result->Err_0,
            }
        }),
    decreases fuel, 2int, 0int,
{
    if params.len() != args.len() {
        return Err(LispError::new("Argument count does not match parameter count"));
    }
    let ghost pviews = exprs_view(params@);
    let ghost aviews = exprs_view(args@);
    let ghost env0 = old(env)@;
    let mut local = env.clone();
    proof {
        assert(pviews.skip(0) =~= pviews);
        assert(aviews.skip(0) =~= aviews);
    }
    let mut i: usize = 0;
    while i < params.len()
        invariant
            i <= params@.len(),
            params@.len() == args@.len(),
            pviews == exprs_view(params@),
            aviews == exprs_view(args@),
            fuel >= 1,
            env@ == env0,
            bind_params_spec(pviews, aviews, env0, fuel as nat) == bind_params_spec(
                pviews.skip(i as int),
                aviews.skip(i as int),
                local@,
                fuel as nat,
            ),
        decreases params@.len() - i,
    {
        proof {
            assert(pviews.skip(i as int)[0] == pviews[i as int]);
            assert(aviews.skip(i as int)[0] == aviews[i as int]);
            assert(pviews[i as int] == params@[i as int]@);
            assert(aviews[i as int] == args@[i as int]@);
        }
        let name: String = match &params[i] {
            Expr::Symbol(s) => s.clone(),
            _ => {
                let counter = local.gensym_counter();
                env.sync_gensym(counter);
                return Err(LispError::new("Invalid parameter name"));
            },
        };
        let value = match eval_fuel(&args[i], &mut local, fuel - 1) {
            Ok(v) => v,
            Err(err) => {
                let counter = local.gensym_counter();
                env.sync_gensym(counter);
                return Err(err);
            },
        };
        local.set_symbol(name, value);
        proof {
            assert(pviews.skip(i as int).drop_first() =~= pviews.skip(i as int + 1));
            assert(aviews.skip(i as int).drop_first() =~= aviews.skip(i as int + 1));
        }
        i += 1;
    }
    proof {
        assert(pviews.skip(params@.len() as int) =~= Seq::<ExprView>::empty());
        assert(aviews.skip(args@.len() as int) =~= Seq::<ExprView>::empty());
    }
    let r = eval_fuel(body, &mut local, fuel - 1);
    let counter = local.gensym_counter();
    env.sync_gensym(counter);
    r
}

/// Applies an evaluated lambda form, given as its parameter list and
/// body, to raw arguments.
pub(crate) fn eval_lambda_call_fuel(
    lambda_parts: &Vec<Expr>,
    args: &Vec<Expr>,
    env: &mut Environment,
    fuel: u64,
) -> (r: Result<Expr, LispError>)
    requires
        fuel >= 1,
    ensures
        ({
            let out = eval_lambda_call_spec(
                exprs_view(lambda_parts@),
                exprs_view(args@),
                old(env)@,
                fuel as nat,
            );
            final(env)@ == out.env && match r {
                Ok(e) => out.result == Ok::<ExprView, Seq<char>>(e@),
                Err(err) => out.result is Err && err@ == out.result->Err_0,
            }
        }),
    decreases fuel, 3int, 0int,
{
    if lambda_parts.len() != 2 {
        return Err(LispError::new("Invalid lambda expression"));
    }
    proof {
        assert(exprs_view(lambda_parts@)[0int] == lambda_parts@[0int]@);
        assert(exprs_view(lambda_parts@)[1int] == lambda_parts@[1int]@);
    }
    match &lambda_parts[0] {
        Expr::List(params) => call_frame_fuel(params, &lambda_parts[1], args, env, fuel),
        _ => Err(LispError::new("Invalid parameter list")),
    }
}

/// Calls the function stored under `func_name`.
pub(crate) fn eval_function_call_fuel(
    func_name: &str,
    args: &Vec<Expr>,
    env: &mut Environment,
    fuel: u64,
) -> (r: Result<Expr, LispError>)
    requires
        fuel >= 1,
    ensures
        ({
            let out = eval_function_call_spec(
                func_name@,
                exprs_view(args@),
                old(env)@,
                fuel as nat,
            );
            final(env)@ == out.env && match r {
                Ok(e) => out.result == Ok::<ExprView, Seq<char>>(e@),
                Err(err) => out.result is Err && err@ == out.result->Err_0,
            }
        }),
    decreases fuel, 3int, 0int,
{
    let stored: Option<Expr> = match env.get_function(func_name) {
        Some(f) => Some(f.clone()),
        None => None,
    };
    let form = match stored {
        Some(f) => f,
        None => {
            let mut msg = String::new();
            msg.append("Undefined function: ");
            msg.append(func_name);
            return Err(LispError::new(msg.as_str()));
        },
    };
    match form {
        Expr::List(parts) => {
            proof {
                assert(form@ == ExprView::List(exprs_view(parts@)));
            }
            let head_is_lambda: bool = parts.len() == 3 && (match &parts[0] {
                Expr::Symbol(s) => {
                    proof {
                        assert(exprs_view(parts@)[0int] == parts@[0int]@);
                    }
                    crate::text::str_equal(s.as_str(), "lambda")
                },
                _ => false,
            });
            if !head_is_lambda {
                return Err(LispError::new("Invalid function definition"));
            }
            proof {
                assert(exprs_view(parts@)[0int] == parts@[0int]@);
                assert(exprs_view(parts@)[1int] == parts@[1int]@);
                assert(exprs_view(parts@)[2int] == parts@[2int]@);
            }
            match &parts[1] {
                Expr::List(params) => call_frame_fuel(params, &parts[2], args, env, fuel),
                _ => Err(LispError::new("Invalid parameter list")),
            }
        },
        _ => Err(LispError::new("Function is not defined correctly")),
    }
}

pub fn register_lambda_operators(registry: &mut OperatorRegistry)
    ensures
        final(registry)@ == old(registry)@.insert("defun"@, Op::Defun).insert(
            "lambda"@,
            Op::Lambda,
        ).insert("progn"@, Op::Progn),
{
    registry.register("defun", Op::Defun);
    registry.register("lambda", Op::Lambda);
    registry.register("progn", Op::Progn);
}

} // verus!
