//! Arithmetic operators: `+`, `-`, `*`, `/`. Every computation runs
//! over IEEE-754 doubles; an all-integer, fraction-free outcome is
//! handed back as an integer.
use crate::environment::Environment;
use crate::evaluator::{
    arith_chain_spec, arith_first_rest_spec, arith_fold_spec, eval_fuel, one_bits, zero_bits,
    EVAL_FUEL,
};
use crate::exception::LispError;
use crate::expression::{exprs_view, Expr, ExprView};
use crate::numerics::{f64_add, f64_div, f64_fract_is_zero, f64_from_i64, f64_is_zero, f64_mul, f64_sub, f64_to_i64};
use crate::operator::{Op, OperatorRegistry};
use vstd::prelude::*;

verus! {

broadcast use
    crate::expression::lemma_exprs_view_len,
    crate::expression::lemma_exprs_view_index,
    vstd::seq::axiom_seq_index_decreases;

pub struct Arithmetic;

/// The fold shared by `+` and `*`.
#[verifier::loop_isolation(false)]
fn arith_fold_fuel(
    args: &Vec<Expr>,
    acc0: u64,
    is_add: bool,
    env: &mut Environment,
    fuel: u64,
) -> (r: Result<Expr, LispError>)
    requires
        fuel >= 1,
    ensures
        ({
            let out = arith_fold_spec(exprs_view(args@), acc0, false, is_add, old(env)@, fuel as nat);
            final(env)@ == out.env && match r {
                Ok(e) => out.result == Ok::<ExprView, Seq<char>>(e@),
                Err(err) => out.result is Err && err@ == out.result->Err_0,
            }
        }),
    decreases fuel, 3int, 0int,
{
    let ghost views = exprs_view(args@);
    let ghost env0 = old(env)@;
    let mut acc: u64 = acc0;
    let mut has_float = false;
    proof {
        assert(views.skip(0) =~= views);
    }
    let mut i: usize = 0;
    while i < args.len()
        invariant
            i <= args@.len(),
            views == exprs_view(args@),
            fuel >= 1,
            arith_fold_spec(views, acc0, false, is_add, env0, fuel as nat) == arith_fold_spec(
                views.skip(i as int),
                acc,
                has_float,
                is_add,
                env@,
                fuel as nat,
            ),
        decreases args@.len() - i,
    {
        proof {
            assert(views.skip(i as int)[0] == views[i as int]);
            assert(views[i as int] == args@[i as int]@);
        }
        let v = match eval_fuel(&args[i], env, fuel - 1) {
            Ok(v) => v,
            Err(err) => {
                return Err(err);
            },
        };
        let b: u64 = match &v {
            Expr::Number(n) => f64_from_i64(*n),
            Expr::Float(bits) => *bits,
            _ => {
                return Err(LispError::new("Invalid number"));
            },
        };
        if matches!(&v, Expr::Float(_)) {
            has_float = true;
        }
        acc = if is_add {
            f64_add(acc, b)
        } else {
            f64_mul(acc, b)
        };
        proof {
            assert(views.skip(i as int).drop_first() =~= views.skip(i as int + 1));
        }
        i += 1;
    }
    proof {
        assert(views.skip(args@.len() as int) =~= Seq::<ExprView>::empty());
    }
    if has_float || !f64_fract_is_zero(acc) {
        Ok(Expr::Float(acc))
    } else {
        Ok(Expr::Number(f64_to_i64(acc)))
    }
}

/// The left-to-right chain shared by `-` and `/`, after the first
/// argument seeded the accumulator.
#[verifier::loop_isolation(false)]
fn arith_chain_fuel(
    args: &Vec<Expr>,
    start: usize,
    acc0: u64,
    hf0: bool,
    is_div: bool,
    env: &mut Environment,
    fuel: u64,
) -> (r: Result<Expr, LispError>)
    requires
        fuel >= 1,
        start <= args@.len(),
    ensures
        ({
            let out = arith_chain_spec(
                exprs_view(args@).skip(start as int),
                acc0,
                hf0,
                is_div,
                old(env)@,
                fuel as nat,
            );
            final(env)@ == out.env && match r {
                Ok(e) => out.result == Ok::<ExprView, Seq<char>>(e@),
                Err(err) => out.result is Err && err@ == out.result->Err_0,
            }
        }),
    decreases fuel, 2int, 0int,
{
    let ghost views = exprs_view(args@);
    let ghost env0 = old(env)@;
    let mut acc: u64 = acc0;
    let mut has_float = hf0;
    let mut i: usize = start;
    while i < args.len()
        invariant
            start <= i <= args@.len(),
            views == exprs_view(args@),
            fuel >= 1,
            arith_chain_spec(views.skip(start as int), acc0, hf0, is_div, env0, fuel as nat)
                == arith_chain_spec(
                views.skip(i as int),
                acc,
                has_float,
                is_div,
                env@,
                fuel as nat,
            ),
        decreases args@.len() - i,
    {
        proof {
            assert(views.skip(i as int)[0] == views[i as int]);
            assert(views[i as int] == args@[i as int]@);
        }
        let v = match eval_fuel(&args[i], env, fuel - 1) {
            Ok(v) => v,
            Err(err) => {
                return Err(err);
            },
        };
        match &v {
            Expr::Number(n) => {
                if is_div && *n == 0 {
                    return Err(LispError::new("Division by zero"));
                }
                let b = f64_from_i64(*n);
                acc = if is_div {
                    f64_div(acc, b)
                } else {
                    f64_sub(acc, b)
                };
            },
            Expr::Float(bits) => {
                if is_div && f64_is_zero(*bits) {
                    return Err(LispError::new("Division by zero"));
                }
                acc = if is_div {
                    f64_div(acc, *bits)
                } else {
                    f64_sub(acc, *bits)
                };
                has_float = true;
            },
            _ => {
                return Err(LispError::new("Invalid number"));
            },
        }
        proof {
            assert(views.skip(i as int).drop_first() =~= views.skip(i as int + 1));
        }
        i += 1;
    }
    proof {
        assert(views.skip(args@.len() as int) =~= Seq::<ExprView>::empty());
    }
    if has_float || !f64_fract_is_zero(acc) {
        Ok(Expr::Float(acc))
    } else {
        Ok(Expr::Number(f64_to_i64(acc)))
    }
}

/// `-` and `/` both evaluate their first argument as the seed; whether
/// the outcome is a float follows the evaluated operand values.
fn arith_first_rest_fuel(args: &Vec<Expr>, is_div: bool, env: &mut Environment, fuel: u64) -> (r:
    Result<Expr, LispError>)
    requires
        fuel >= 1,
    ensures
        ({
            let out = arith_first_rest_spec(exprs_view(args@), is_div, old(env)@, fuel as nat);
            final(env)@ == out.env && match r {
                Ok(e) => out.result == Ok::<ExprView, Seq<char>>(e@),
                Err(err) => out.result is Err && err@ == out.result->Err_0,
            }
        }),
    decreases fuel, 3int, 0int,
{
    if args.len() == 0 {
        return if is_div {
            Err(LispError::new("Division requires at least one argument"))
        } else {
            Err(LispError::new("Subtraction requires at least one argument"))
        };
    }
    proof {
        assert(exprs_view(args@)[0int] == args@[0int]@);
    }
    let v = match eval_fuel(&args[0], env, fuel - 1) {
        Ok(v) => v,
        Err(err) => {
            return Err(err);
        },
    };
    let acc0: u64 = match &v {
        Expr::Number(n) => f64_from_i64(*n),
        Expr::Float(bits) => *bits,
        _ => {
            return Err(LispError::new("Invalid number"));
        },
    };
    let hf0 = matches!(&v, Expr::Float(_));
    proof {
        assert(exprs_view(args@).skip(1) =~= exprs_view(args@).drop_first());
    }
    arith_chain_fuel(args, 1, acc0, hf0, is_div, env, fuel)
}

impl Arithmetic {
    /// `+` at the standard evaluation depth.
    pub fn eval_add(args: &Vec<Expr>, env: &mut Environment) -> (r: Result<Expr, LispError>)
        ensures
            ({
                let out = arith_fold_spec(
                    exprs_view(args@),
                    zero_bits(),
                    false,
                    true,
                    old(env)@,
                    EVAL_FUEL as nat,
                );
                final(env)@ == out.env && match r {
                    Ok(e) => out.result == Ok::<ExprView, Seq<char>>(e@),
                    Err(err) => out.result is Err && err@ == out.result->Err_0,
                }
            }),
    {
        eval_add_fuel(args, env, EVAL_FUEL)
    }

    /// `-` at the standard evaluation depth.
    pub fn eval_subtract(args: &Vec<Expr>, env: &mut Environment) -> (r: Result<Expr, LispError>)
        ensures
            ({
                let out = arith_first_rest_spec(
                    exprs_view(args@),
                    false,
                    old(env)@,
                    EVAL_FUEL as nat,
                );
                final(env)@ == out.env && match r {
                    Ok(e) => out.result == Ok::<ExprView, Seq<char>>(e@),
                    Err(err) => out.result is Err && err@ == out.result->Err_0,
                }
            }),
    {
        eval_subtract_fuel(args, env, EVAL_FUEL)
    }

    /// `*` at the standard evaluation depth.
    pub fn eval_multiply(args: &Vec<Expr>, env: &mut Environment) -> (r: Result<Expr, LispError>)
        ensures
            ({
                let out = arith_fold_spec(
                    exprs_view(args@),
                    one_bits(),
                    false,
                    false,
                    old(env)@,
                    EVAL_FUEL as nat,
                );
                final(env)@ == out.env && match r {
                    Ok(e) => out.result == Ok::<ExprView, Seq<char>>(e@),
                    Err(err) => out.result is Err && err@ == out.result->Err_0,
                }
            }),
    {
        eval_multiply_fuel(args, env, EVAL_FUEL)
    }

    /// `/` at the standard evaluation depth.
    pub fn eval_divide(args: &Vec<Expr>, env: &mut Environment) -> (r: Result<Expr, LispError>)
        ensures
            ({
                let out = arith_first_rest_spec(
                    exprs_view(args@),
                    true,
                    old(env)@,
                    EVAL_FUEL as nat,
                );
                final(env)@ == out.env && match r {
                    Ok(e) => out.result == Ok::<ExprView, Seq<char>>(e@),
                    Err(err) => out.result is Err && err@ == out.result->Err_0,
                }
            }),
    {
        eval_divide_fuel(args, env, EVAL_FUEL)
    }
}

pub(crate) fn eval_add_fuel(args: &Vec<Expr>, env: &mut Environment, fuel: u64) -> (r: Result<
    Expr,
    LispError,
>)
    requires
        fuel >= 1,
    ensures
        ({
            let out = arith_fold_spec(
                exprs_view(args@),
                zero_bits(),
                false,
                true,
                old(env)@,
                fuel as nat,
            );
            final(env)@ == out.env && match r {
                Ok(e) => out.result == Ok::<ExprView, Seq<char>>(e@),
                Err(err) => out.result is Err && err@ == out.result->Err_0,
            }
        }),
    decreases fuel, 4int, 0int,
{
    arith_fold_fuel(args, 0, true, env, fuel)
}

pub(crate) fn eval_multiply_fuel(args: &Vec<Expr>, env: &mut Environment, fuel: u64) -> (r: Result<
    Expr,
    LispError,
>)
    requires
        fuel >= 1,
    ensures
        ({
            let out = arith_fold_spec(
                exprs_view(args@),
                one_bits(),
                false,
                false,
                old(env)@,
                fuel as nat,
            );
            final(env)@ == out.env && match r {
                Ok(e) => out.result == Ok::<ExprView, Seq<char>>(e@),
                Err(err) => out.result is Err && err@ == out.result->Err_0,
            }
        }),
    decreases fuel, 4int, 0int,
{
    arith_fold_fuel(args, 0x3ff0_0000_0000_0000, false, env, fuel)
}

pub(crate) fn eval_subtract_fuel(args: &Vec<Expr>, env: &mut Environment, fuel: u64) -> (r: Result<
    Expr,
    LispError,
>)
    requires
        fuel >= 1,
    ensures
        ({
            let out = arith_first_rest_spec(exprs_view(args@), false, old(env)@, fuel as nat);
            final(env)@ == out.env && match r {
                Ok(e) => out.result == Ok::<ExprView, Seq<char>>(e@),
                Err(err) => out.result is Err && err@ == out.result->Err_0,
            }
        }),
    decreases fuel, 4int, 0int,
{
    arith_first_rest_fuel(args, false, env, fuel)
}

pub(crate) fn eval_divide_fuel(args: &Vec<Expr>, env: &mut Environment, fuel: u64) -> (r: Result<
    Expr,
    LispError,
>)
    requires
        fuel >= 1,
    ensures
        ({
            let out = arith_first_rest_spec(exprs_view(args@), true, old(env)@, fuel as nat);
            final(env)@ == out.env && match r {
                Ok(e) => out.result == Ok::<ExprView, Seq<char>>(e@),
                Err(err) => out.result is Err && err@ == out.result->Err_0,
            }
        }),
    decreases fuel, 4int, 0int,
{
    arith_first_rest_fuel(args, true, env, fuel)
}

pub fn register_arithmetic_operators(registry: &mut OperatorRegistry)
    ensures
        final(registry)@ == old(registry)@.insert("+"@, Op::Add).insert("-"@, Op::Subtract).insert(
            "*"@,
            Op::Multiply,
        ).insert("/"@, Op::Divide),
{
    registry.register("+", Op::Add);
    registry.register("-", Op::Subtract);
    registry.register("*", Op::Multiply);
    registry.register("/", Op::Divide);
}

} // verus!
