//! Comparison operators: the ordered comparisons, `eq` and `ne`, with
//! the long-name aliases `gt`, `gte`, `lt`, `lte`. Results are the
//! symbol `t` or the empty list.
use crate::environment::Environment;
use crate::evaluator::{
    compare_spec, compare_values_spec, eval_fuel, EVAL_FUEL,
};
use crate::exception::LispError;
use crate::expression::{exprs_view, Expr, ExprView};
use crate::numerics::{f64_close, f64_from_i64, f64_le, f64_lt};
use crate::operator::{Op, OperatorRegistry};
use vstd::prelude::*;

verus! {

broadcast use
    crate::expression::lemma_exprs_view_len,
    crate::expression::lemma_exprs_view_index,
    vstd::seq::axiom_seq_index_decreases;

pub struct Comparison;

/// The symbol `t`.
fn truth() -> (r: Expr)
    ensures
        r@ == crate::evaluator::true_symbol(),
{
    Expr::Symbol("t".to_string())
}

/// The empty list.
fn falsehood() -> (r: Expr)
    ensures
        r@ == crate::evaluator::false_list(),
{
    let empty: Vec<Expr> = Vec::new();
    proof {
        assert(exprs_view(empty@) =~= Seq::<ExprView>::empty());
    }
    Expr::List(empty)
}

fn bool_to_expr(b: bool) -> (r: Expr)
    ensures
        r@ == crate::evaluator::bool_expr(b),
{
    if b {
        truth()
    } else {
        falsehood()
    }
}

/// Compares two evaluated values under the given operator.
fn compare_values(l: &Expr, r: &Expr, op: Op, env: &Environment) -> (res: Result<Expr, LispError>)
    ensures
        ({
            let out = compare_values_spec(l@, r@, op, env@);
            out.env == env@ && match res {
                Ok(e) => out.result == Ok::<ExprView, Seq<char>>(e@),
                Err(err) => out.result is Err && err@ == out.result->Err_0,
            }
        }),
{
    let is_eq_family = matches!(op, Op::Equal) || matches!(op, Op::NotEqual);
    if !is_eq_family {
        let pair_bits: Option<(u64, u64, bool, i64, i64)> = match (l, r) {
            (Expr::Number(a), Expr::Number(b)) => Some((0, 0, true, *a, *b)),
            (Expr::Float(a), Expr::Float(b)) => Some((*a, *b, false, 0, 0)),
            (Expr::Number(a), Expr::Float(b)) => Some((f64_from_i64(*a), *b, false, 0, 0)),
            (Expr::Float(a), Expr::Number(b)) => Some((*a, f64_from_i64(*b), false, 0, 0)),
            _ => None,
        };
        match pair_bits {
            Some((a, b, both_int, ia, ib)) => {
                let verdict: bool = if both_int {
                    match op {
                        Op::Greater => ia > ib,
                        Op::GreaterEqual => ia >= ib,
                        Op::Less => ia < ib,
                        _ => ia <= ib,
                    }
                } else {
                    match op {
                        Op::Greater => f64_lt(b, a),
                        Op::GreaterEqual => f64_le(b, a),
                        Op::Less => f64_lt(a, b),
                        _ => f64_le(a, b),
                    }
                };
                Ok(bool_to_expr(verdict))
            },
            None => {
                match op {
                    Op::Greater => Err(LispError::new("`>` arguments must be numbers")),
                    Op::GreaterEqual => Err(LispError::new("`>=` arguments must be numbers")),
                    Op::Less => Err(LispError::new("`<` arguments must be numbers")),
                    _ => Err(LispError::new("`<=` arguments must be numbers")),
                }
            },
        }
    } else {
        let negate = matches!(op, Op::NotEqual);
        let same: bool = match (l, r) {
            (Expr::Number(a), Expr::Number(b)) => *a == *b,
            (Expr::Float(a), Expr::Float(b)) => f64_close(*a, *b),
            (Expr::Number(a), Expr::Float(b)) => f64_close(f64_from_i64(*a), *b),
            (Expr::Float(a), Expr::Number(b)) => f64_close(*a, f64_from_i64(*b)),
            (Expr::Symbol(a), Expr::Symbol(b)) => {
                // Symbol values compare by name.
                crate::text::str_equal(a.as_str(), b.as_str())
            },
            (Expr::List(_), Expr::List(_)) => {
                // Lists compare by identity, and two separately
                // evaluated results are never the same object.
                false
            },
            _ => false,
        };
        Ok(bool_to_expr(same != negate))
    }
}

/// A comparison operator applied to its raw arguments.
pub(crate) fn compare_fuel(args: &Vec<Expr>, op: Op, env: &mut Environment, fuel: u64) -> (res:
    Result<Expr, LispError>)
    requires
        fuel >= 1,
    ensures
        ({
            let out = compare_spec(exprs_view(args@), op, old(env)@, fuel as nat);
            final(env)@ == out.env && match res {
                Ok(e) => out.result == Ok::<ExprView, Seq<char>>(e@),
                Err(err) => out.result is Err && err@ == out.result->Err_0,
            }
        }),
    decreases fuel, 3int, 0int,
{
    if args.len() != 2 {
        return match op {
            Op::Greater => Err(LispError::new("`>` expects exactly two arguments")),
            Op::GreaterEqual => Err(LispError::new("`>=` expects exactly two arguments")),
            Op::Less => Err(LispError::new("`<` expects exactly two arguments")),
            Op::LessEqual => Err(LispError::new("`<=` expects exactly two arguments")),
            Op::Equal => Err(LispError::new("`eq` expects exactly two arguments")),
            _ => Err(LispError::new("`ne` expects exactly two arguments")),
        };
    }
    proof {
        assert(exprs_view(args@)[0int] == args@[0int]@);
        assert(exprs_view(args@)[1int] == args@[1int]@);
    }
    let l = match eval_fuel(&args[0], env, fuel - 1) {
        Ok(v) => v,
        Err(err) => {
            return Err(err);
        },
    };
    let r = match eval_fuel(&args[1], env, fuel - 1) {
        Ok(v) => v,
        Err(err) => {
            return Err(err);
        },
    };
    compare_values(&l, &r, op, env)
}

impl Comparison {
    /// `>` at the standard evaluation depth.
    pub fn eval_greater(args: &Vec<Expr>, env: &mut Environment) -> (r: Result<Expr, LispError>)
        ensures
            ({
                let out = compare_spec(exprs_view(args@), Op::Greater, old(env)@, EVAL_FUEL as nat);
                final(env)@ == out.env && match r {
                    Ok(e) => out.result == Ok::<ExprView, Seq<char>>(e@),
                    Err(err) => out.result is Err && err@ == out.result->Err_0,
                }
            }),
    {
        compare_fuel(args, Op::Greater, env, EVAL_FUEL)
    }

    /// `>=` at the standard evaluation depth.
    pub fn eval_greater_equal(args: &Vec<Expr>, env: &mut Environment) -> (r: Result<
        Expr,
        LispError,
    >)
        ensures
            ({
                let out = compare_spec(
                    exprs_view(args@),
                    Op::GreaterEqual,
                    old(env)@,
                    EVAL_FUEL as nat,
                );
                final(env)@ == out.env && match r {
                    Ok(e) => out.result == Ok::<ExprView, Seq<char>>(e@),
                    Err(err) => out.result is Err && err@ == out.result->Err_0,
                }
            }),
    {
        compare_fuel(args, Op::GreaterEqual, env, EVAL_FUEL)
    }

    /// `<` at the standard evaluation depth.
    pub fn eval_less(args: &Vec<Expr>, env: &mut Environment) -> (r: Result<Expr, LispError>)
        ensures
            ({
                let out = compare_spec(exprs_view(args@), Op::Less, old(env)@, EVAL_FUEL as nat);
                final(env)@ == out.env && match r {
                    Ok(e) => out.result == Ok::<ExprView, Seq<char>>(e@),
                    Err(err) => out.result is Err && err@ == out.result->Err_0,
                }
            }),
    {
        compare_fuel(args, Op::Less, env, EVAL_FUEL)
    }

    /// `<=` at the standard evaluation depth.
    pub fn eval_less_equal(args: &Vec<Expr>, env: &mut Environment) -> (r: Result<Expr, LispError>)
        ensures
            ({
                let out = compare_spec(
                    exprs_view(args@),
                    Op::LessEqual,
                    old(env)@,
                    EVAL_FUEL as nat,
                );
                final(env)@ == out.env && match r {
                    Ok(e) => out.result == Ok::<ExprView, Seq<char>>(e@),
                    Err(err) => out.result is Err && err@ == out.result->Err_0,
                }
            }),
    {
        compare_fuel(args, Op::LessEqual, env, EVAL_FUEL)
    }

    /// `eq` at the standard evaluation depth.
    pub fn eval_equal(args: &Vec<Expr>, env: &mut Environment) -> (r: Result<Expr, LispError>)
        ensures
            ({
                let out = compare_spec(exprs_view(args@), Op::Equal, old(env)@, EVAL_FUEL as nat);
                final(env)@ == out.env && match r {
                    Ok(e) => out.result == Ok::<ExprView, Seq<char>>(e@),
                    Err(err) => out.result is Err && err@ == out.result->Err_0,
                }
            }),
    {
        compare_fuel(args, Op::Equal, env, EVAL_FUEL)
    }

    /// `ne` at the standard evaluation depth.
    pub fn eval_not_equal(args: &Vec<Expr>, env: &mut Environment) -> (r: Result<Expr, LispError>)
        ensures
            ({
                let out = compare_spec(exprs_view(args@), Op::NotEqual, old(env)@, EVAL_FUEL as nat);
                final(env)@ == out.env && match r {
                    Ok(e) => out.result == Ok::<ExprView, Seq<char>>(e@),
                    Err(err) => out.result is Err && err@ == out.result->Err_0,
                }
            }),
    {
        compare_fuel(args, Op::NotEqual, env, EVAL_FUEL)
    }
}

pub fn register_comparison_operators(registry: &mut OperatorRegistry)
    ensures
        final(registry)@ == old(registry)@.insert(">"@, Op::Greater).insert(
            "gt"@,
            Op::Greater,
        ).insert(">="@, Op::GreaterEqual).insert("gte"@, Op::GreaterEqual).insert(
            "<"@,
            Op::Less,
        ).insert("lt"@, Op::Less).insert("<="@, Op::LessEqual).insert(
            "lte"@,
            Op::LessEqual,
        ).insert("eq"@, Op::Equal).insert("ne"@, Op::NotEqual),
{
    registry.register(">", Op::Greater);
    registry.register("gt", Op::Greater);
    registry.register(">=", Op::GreaterEqual);
    registry.register("gte", Op::GreaterEqual);
    registry.register("<", Op::Less);
    registry.register("lt", Op::Less);
    registry.register("<=", Op::LessEqual);
    registry.register("lte", Op::LessEqual);
    registry.register("eq", Op::Equal);
    registry.register("ne", Op::NotEqual);
}

} // verus!
