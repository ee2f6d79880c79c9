//! Assignment: `setf` binds an evaluated value in the value table and
//! returns the value.
use crate::environment::Environment;
use crate::evaluator::{eval_fuel, setf_spec, EVAL_FUEL};
use crate::exception::LispError;
use crate::expression::{exprs_view, Expr, ExprView};
use crate::operator::{Op, OperatorRegistry};
use vstd::prelude::*;

verus! {

broadcast use
    crate::expression::lemma_exprs_view_len,
    crate::expression::lemma_exprs_view_index;

pub struct SetOps;

impl SetOps {
    /// `setf` at the standard evaluation depth.
    pub fn eval_setf(args: &Vec<Expr>, env: &mut Environment) -> (r: Result<Expr, LispError>)
        ensures
            ({
                let out = setf_spec(exprs_view(args@), old(env)@, EVAL_FUEL as nat);
                final(env)@ == out.env && match r {
                    Ok(e) => out.result == Ok::<ExprView, Seq<char>>(e@),
                    Err(err) => out.result is Err && err@ == out.result->Err_0,
                }
            }),
    {
        eval_setf_fuel(args, env, EVAL_FUEL)
    }
}

pub(crate) fn eval_setf_fuel(args: &Vec<Expr>, env: &mut Environment, fuel: u64) -> (r: Result<
    Expr,
    LispError,
>)
    requires
        fuel >= 1,
    ensures
        ({
            let out = setf_spec(exprs_view(args@), old(env)@, fuel as nat);
            final(env)@ == out.env && match r {
                Ok(e) => out.result == Ok::<ExprView, Seq<char>>(e@),
                Err(err) => out.result is Err && err@ == out.result->Err_0,
            }
        }),
    decreases fuel, 3int, 0int,
{
    if args.len() != 2 {
        return Err(LispError::new("setf requires exactly two arguments"));
    }
    let name: String = match &args[0] {
        Expr::Symbol(s) => s.clone(),
        _ => {
            return Err(LispError::new("setf: first argument must be a symbol"));
        },
    };
    let value = match eval_fuel(&args[1], env, fuel - 1) {
        Ok(e) => e,
        Err(err) => {
            return Err(err);
        },
    };
    env.set_symbol(name, value.clone());
    Ok(value)
}

pub fn register_set_operators(registry: &mut OperatorRegistry)
    ensures
        final(registry)@ == old(registry)@.insert("setf"@, Op::Setf),
{
    registry.register("setf", Op::Setf);
}

} // verus!
