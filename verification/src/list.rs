//! List operators: `cons`, `car`, `cdr`, `length` and `quote`.
use crate::environment::Environment;
use crate::evaluator::{
    car_spec, cdr_spec, cons_spec, eval_fuel, length_spec, quote_spec, EVAL_FUEL,
};
use crate::exception::LispError;
use crate::expression::{exprs_view, Expr, ExprView};
use crate::operator::{Op, OperatorRegistry};
use vstd::prelude::*;

verus! {

broadcast use
    crate::expression::lemma_exprs_view_len,
    crate::expression::lemma_exprs_view_index,
    vstd::seq::axiom_seq_index_decreases;

pub struct ListOps;

impl ListOps {
    /// `cons` at the standard evaluation depth.
    pub fn eval_cons(args: &Vec<Expr>, env: &mut Environment) -> (r: Result<Expr, LispError>)
        ensures
            ({
                let out = cons_spec(exprs_view(args@), old(env)@, EVAL_FUEL as nat);
                final(env)@ == out.env && match r {
                    Ok(e) => out.result == Ok::<ExprView, Seq<char>>(e@),
                    Err(err) => out.result is Err && err@ == out.result->Err_0,
                }
            }),
    {
        ListOps::eval_cons_fuel(args, env, EVAL_FUEL)
    }

    #[verifier::loop_isolation(false)]
    pub(crate) fn eval_cons_fuel(args: &Vec<Expr>, env: &mut Environment, fuel: u64) -> (r: Result<
        Expr,
        LispError,
    >)
        requires
            fuel >= 1,
        ensures
            ({
                let out = cons_spec(exprs_view(args@), old(env)@, fuel as nat);
                final(env)@ == out.env && match r {
                    Ok(e) => out.result == Ok::<ExprView, Seq<char>>(e@),
                    Err(err) => out.result is Err && err@ == out.result->Err_0,
                }
            }),
        decreases fuel, 3int, 0int,
    {
        if args.len() != 2 {
            return Err(LispError::new("cons requires exactly two arguments"));
        }
        let first = match eval_fuel(&args[0], env, fuel - 1) {
            Ok(e) => e,
            Err(err) => {
                return Err(err);
            },
        };
        let second = match eval_fuel(&args[1], env, fuel - 1) {
            Ok(e) => e,
            Err(err) => {
                return Err(err);
            },
        };
        match second {
            Expr::List(items) => {
                let mut out: Vec<Expr> = Vec::new();
                out.push(first);
                let mut i: usize = 0;
                while i < items.len()
                    invariant
                        i <= items@.len(),
                        out@.len() == i + 1,
                        out@[0]@ == first@,
                        forall|j: int| 0 <= j < i ==> out@[j + 1]@ == items@[j]@,
                    decreases items@.len() - i,
                {
                    proof {
                        assert(decreases_to!(items@ => items@[i as int]));
                    }
                    out.push(items[i].clone());
                    i += 1;
                }
                proof {
                    assert(exprs_view(out@) =~= seq![first@] + exprs_view(items@));
                }
                Ok(Expr::List(out))
            },
            _ => Ok(Expr::DottedPair(Box::new(first), Box::new(second))),
        }
    }

    /// `car` at the standard evaluation depth.
    pub fn eval_car(args: &Vec<Expr>, env: &mut Environment) -> (r: Result<Expr, LispError>)
        ensures
            ({
                let out = car_spec(exprs_view(args@), old(env)@, EVAL_FUEL as nat);
                final(env)@ == out.env && match r {
                    Ok(e) => out.result == Ok::<ExprView, Seq<char>>(e@),
                    Err(err) => out.result is Err && err@ == out.result->Err_0,
                }
            }),
    {
        ListOps::eval_car_fuel(args, env, EVAL_FUEL)
    }

    #[verifier::rlimit(50)]
    pub(crate) fn eval_car_fuel(args: &Vec<Expr>, env: &mut Environment, fuel: u64) -> (r: Result<
        Expr,
        LispError,
    >)
        requires
            fuel >= 1,
        ensures
            ({
                let out = car_spec(exprs_view(args@), old(env)@, fuel as nat);
                final(env)@ == out.env && match r {
                    Ok(e) => out.result == Ok::<ExprView, Seq<char>>(e@),
                    Err(err) => out.result is Err && err@ == out.result->Err_0,
                }
            }),
        decreases fuel, 3int, 0int,
    {
        if args.len() != 1 {
            return Err(LispError::new("car requires exactly one argument"));
        }
        let value = match eval_fuel(&args[0], env, fuel - 1) {
            Ok(e) => e,
            Err(err) => {
                return Err(err);
            },
        };
        match value {
            Expr::List(items) => {
                if items.len() > 0 {
                    proof {
                        assert(value@ == ExprView::List(exprs_view(items@)));
                        assert(exprs_view(items@)[0int] == items@[0int]@);
                        assert(decreases_to!(items@ => items@[0int]));
                    }
                    let item = items[0].clone();
                    proof {
                        assert(item@ == exprs_view(items@)[0int]);
                        let out = car_spec(exprs_view(args@), old(env)@, fuel as nat);
                        assert(out.result == Ok::<ExprView, Seq<char>>(item@));
                    }
                    Ok(item)
                } else {
                    let empty: Vec<Expr> = Vec::new();
                    proof {
                        assert(value@ == ExprView::List(exprs_view(items@)));
                        assert(exprs_view(items@).len() == 0);
                        assert(exprs_view(empty@) =~= Seq::<ExprView>::empty());
                    }
                    Ok(Expr::List(empty))
                }
            },
            _ => Err(LispError::new("car: argument must be a list")),
        }
    }

    /// `cdr` at the standard evaluation depth.
    pub fn eval_cdr(args: &Vec<Expr>, env: &mut Environment) -> (r: Result<Expr, LispError>)
        ensures
            ({
                let out = cdr_spec(exprs_view(args@), old(env)@, EVAL_FUEL as nat);
                final(env)@ == out.env && match r {
                    Ok(e) => out.result == Ok::<ExprView, Seq<char>>(e@),
                    Err(err) => out.result is Err && err@ == out.result->Err_0,
                }
            }),
    {
        ListOps::eval_cdr_fuel(args, env, EVAL_FUEL)
    }

    #[verifier::rlimit(50)]
    pub(crate) fn eval_cdr_fuel(args: &Vec<Expr>, env: &mut Environment, fuel: u64) -> (r: Result<
        Expr,
        LispError,
    >)
        requires
            fuel >= 1,
        ensures
            ({
                let out = cdr_spec(exprs_view(args@), old(env)@, fuel as nat);
                final(env)@ == out.env && match r {
                    Ok(e) => out.result == Ok::<ExprView, Seq<char>>(e@),
                    Err(err) => out.result is Err && err@ == out.result->Err_0,
                }
            }),
        decreases fuel, 3int, 0int,
    {
        if args.len() != 1 {
            return Err(LispError::new("cdr requires exactly one argument"));
        }
        let value = match eval_fuel(&args[0], env, fuel - 1) {
            Ok(e) => e,
            Err(err) => {
                return Err(err);
            },
        };
        match value {
            Expr::List(items) => {
                if items.len() > 1 {
                    proof {
                        assert(value@ == ExprView::List(exprs_view(items@)));
                    }
                    let rest = crate::expression::clone_tail(&items);
                    Ok(Expr::List(rest))
                } else {
                    let empty: Vec<Expr> = Vec::new();
                    proof {
                        assert(value@ == ExprView::List(exprs_view(items@)));
                        assert(exprs_view(items@).len() <= 1);
                        assert(exprs_view(empty@) =~= Seq::<ExprView>::empty());
                    }
                    Ok(Expr::List(empty))
                }
            },
            _ => Err(LispError::new("cdr: argument must be a list")),
        }
    }

    /// `length` at the standard evaluation depth.
    pub fn eval_length(args: &Vec<Expr>, env: &mut Environment) -> (r: Result<Expr, LispError>)
        ensures
            ({
                let out = length_spec(exprs_view(args@), old(env)@, EVAL_FUEL as nat);
                final(env)@ == out.env && match r {
                    Ok(e) => out.result == Ok::<ExprView, Seq<char>>(e@),
                    Err(err) => out.result is Err && err@ == out.result->Err_0,
                }
            }),
    {
        ListOps::eval_length_fuel(args, env, EVAL_FUEL)
    }

    pub(crate) fn eval_length_fuel(args: &Vec<Expr>, env: &mut Environment, fuel: u64) -> (r:
        Result<Expr, LispError>)
        requires
            fuel >= 1,
        ensures
            ({
                let out = length_spec(exprs_view(args@), old(env)@, fuel as nat);
                final(env)@ == out.env && match r {
                    Ok(e) => out.result == Ok::<ExprView, Seq<char>>(e@),
                    Err(err) => out.result is Err && err@ == out.result->Err_0,
                }
            }),
        decreases fuel, 3int, 0int,
    {
        if args.len() != 1 {
            return Err(LispError::new("length requires exactly one argument"));
        }
        let value = match eval_fuel(&args[0], env, fuel - 1) {
            Ok(e) => e,
            Err(err) => {
                return Err(err);
            },
        };
        match value {
            Expr::List(items) => {
                proof {
                    assert(value@ == ExprView::List(exprs_view(items@)));
                }
                let n = items.len();
                Ok(Expr::Number(#[verifier::truncate] (n as i64)))
            },
            _ => Err(LispError::new("length: argument is not a list")),
        }
    }

    /// `quote`: returns its argument verbatim, unevaluated.
    pub fn eval_quote(args: &Vec<Expr>, env: &mut Environment) -> (r: Result<Expr, LispError>)
        ensures
            ({
                let out = quote_spec(exprs_view(args@), old(env)@);
                final(env)@ == out.env && match r {
                    Ok(e) => out.result == Ok::<ExprView, Seq<char>>(e@),
                    Err(err) => out.result is Err && err@ == out.result->Err_0,
                }
            }),
    {
        if args.len() != 1 {
            return Err(LispError::new("quote requires exactly one argument"));
        }
        Ok(args[0].clone())
    }
}

pub fn register_list_operators(registry: &mut OperatorRegistry)
    ensures
        final(registry)@ == old(registry)@.insert("cons"@, Op::Cons).insert(
            "car"@,
            Op::Car,
        ).insert("cdr"@, Op::Cdr).insert("length"@, Op::Length).insert("quote"@, Op::Quote),
{
    registry.register("cons", Op::Cons);
    registry.register("car", Op::Car);
    registry.register("cdr", Op::Cdr);
    registry.register("length", Op::Length);
    registry.register("quote", Op::Quote);
}

} // verus!
