//! Control operators: `cond`, `not` and `gensym`.
use crate::environment::Environment;
use crate::evaluator::{
    cond_spec, cond_truthy, eval_fuel, gensym_spec, not_spec, EVAL_FUEL,
};
use crate::exception::LispError;
use crate::expression::{exprs_view, Expr, ExprView};
use crate::operator::{Op, OperatorRegistry};
use vstd::prelude::*;

verus! {

broadcast use
    crate::expression::lemma_exprs_view_len,
    crate::expression::lemma_exprs_view_index,
    vstd::seq::axiom_seq_index_decreases;

pub struct Control;

impl Control {
    /// `cond` at the standard evaluation depth.
    pub fn eval_cond(conditions: &Vec<Expr>, env: &mut Environment) -> (r: Result<Expr, LispError>)
        ensures
            ({
                let out = cond_spec(exprs_view(conditions@), old(env)@, EVAL_FUEL as nat);
                final(env)@ == out.env && match r {
                    Ok(e) => out.result == Ok::<ExprView, Seq<char>>(e@),
                    Err(err) => out.result is Err && err@ == out.result->Err_0,
                }
            }),
    {
        eval_cond_fuel(conditions, env, EVAL_FUEL)
    }

    /// `not` inspects its single argument without evaluating it.
    pub fn eval_not(args: &Vec<Expr>, env: &mut Environment) -> (r: Result<Expr, LispError>)
        ensures
            ({
                let out = not_spec(exprs_view(args@), old(env)@);
                final(env)@ == out.env && match r {
                    Ok(e) => out.result == Ok::<ExprView, Seq<char>>(e@),
                    Err(err) => out.result is Err && err@ == out.result->Err_0,
                }
            }),
    {
        if args.len() != 1 {
            return Err(LispError::new("not expects exactly one argument"));
        }
        proof {
            assert(exprs_view(args@)[0int] == args@[0int]@);
        }
        let is_false: bool = match &args[0] {
            Expr::Symbol(s) => crate::text::str_equal(s.as_str(), "nil"),
            Expr::Number(n) => *n == 0,
            Expr::List(items) => {
                proof {
                    assert(args@[0int]@ == ExprView::List(exprs_view(items@)));
                }
                items.len() == 0
            },
            _ => false,
        };
        if is_false {
            Ok(Expr::Symbol("t".to_string()))
        } else {
            let empty: Vec<Expr> = Vec::new();
            proof {
                assert(exprs_view(empty@) =~= Seq::<ExprView>::empty());
            }
            Ok(Expr::List(empty))
        }
    }

    /// `gensym`: mints a fresh `#:G<n>` symbol and advances the counter.
    pub fn eval_gensym(_args: &Vec<Expr>, env: &mut Environment) -> (r: Result<Expr, LispError>)
        ensures
            ({
                let out = gensym_spec(old(env)@);
                final(env)@ == out.env && match r {
                    Ok(e) => out.result == Ok::<ExprView, Seq<char>>(e@),
                    Err(err) => false,
                }
            }),
    {
        let n = env.bump_gensym();
        let digits = crate::text::u64_to_dec(n);
        let mut name = String::new();
        name.append("#:G");
        name.append(digits.as_str());
        Ok(Expr::Symbol(name))
    }
}

#[verifier::loop_isolation(false)]
/// Whether an evaluated `cond` test counts as true.
fn truthy_of(v: &Expr) -> (r: bool)
    ensures
        r == cond_truthy(v@),
{
    match v {
        Expr::Symbol(s) => crate::text::str_equal(s.as_str(), "t") || crate::text::str_equal(
            s.as_str(),
            "T",
        ),
        Expr::Number(n) => *n != 0,
        Expr::List(items) => {
            proof {
                assert(v@ == ExprView::List(exprs_view(items@)));
            }
            items.len() > 0
        },
        _ => false,
    }
}

#[verifier::loop_isolation(false)]
pub(crate) fn eval_cond_fuel(conditions: &Vec<Expr>, env: &mut Environment, fuel: u64) -> (r:
    Result<Expr, LispError>)
    requires
        fuel >= 1,
    ensures
        ({
            let out = cond_spec(exprs_view(conditions@), old(env)@, fuel as nat);
            final(env)@ == out.env && match r {
                Ok(e) => out.result == Ok::<ExprView, Seq<char>>(e@),
                Err(err) => out.result is Err && err@ == out.result->Err_0,
            }
        }),
    decreases fuel, 3int, 0int,
{
    let ghost views = exprs_view(conditions@);
    let ghost env0 = old(env)@;
    proof {
        assert(views.skip(0) =~= views);
    }
    let mut i: usize = 0;
    while i < conditions.len()
        invariant
            i <= conditions@.len(),
            views == exprs_view(conditions@),
            fuel >= 1,
            cond_spec(views, env0, fuel as nat) == cond_spec(
                views.skip(i as int),
                env@,
                fuel as nat,
            ),
        decreases conditions@.len() - i,
    {
        proof {
            assert(decreases_to!(conditions@ => conditions@[i as int]));
            assert(views.skip(i as int)[0] == views[i as int]);
        }
        let ghost env_before = env@;
        match &conditions[i] {
            Expr::List(pair) => {
                if pair.len() == 1 {
                    proof {
                        assert(exprs_view(pair@)[0int] == pair@[0int]@);
                    }
                    let r = eval_fuel(&pair[0], env, fuel - 1);
                    proof {
                        assert(exprs_view(pair@)[0int] == pair@[0int]@);
                    }
                    return r;
                } else if pair.len() == 2 {
                    proof {
                        assert(exprs_view(pair@)[0int] == pair@[0int]@);
                        assert(exprs_view(pair@)[1int] == pair@[1int]@);
                    }
                    let tr = eval_fuel(&pair[0], env, fuel - 1);
                    let truthy: bool = match &tr {
                        Ok(v) => truthy_of(v),
                        Err(_) => false,
                    };
                    proof {
                        let tout = crate::evaluator::eval_spec(
                            exprs_view(pair@)[0int],
                            env_before,
                            (fuel - 1) as nat,
                        );
                        assert(truthy == (match tout.result {
                            Ok(v) => cond_truthy(v),
                            Err(_) => false,
                        }));
                    }
                    if truthy {
                        let r = eval_fuel(&pair[1], env, fuel - 1);
                        proof {
                            assert(exprs_view(pair@)[1int] == pair@[1int]@);
                        }
                        return r;
                    }
                } else {
                    return Err(
                        LispError::new("Each cond clause must have exactly one or two elements"),
                    );
                }
            },
            _ => {
                return Err(LispError::new("Cond clause must be a list"));
            },
        }
        proof {
            assert(views.skip(i as int).drop_first() =~= views.skip(i as int + 1));
        }
        i += 1;
    }
    proof {
        assert(views.skip(conditions@.len() as int) =~= Seq::<ExprView>::empty());
    }
    Err(LispError::new("No true condition in cond"))
}

pub fn register_control_operators(registry: &mut OperatorRegistry)
    ensures
        final(registry)@ == old(registry)@.insert("cond"@, Op::Cond).insert(
            "not"@,
            Op::Not,
        ).insert("gensym"@, Op::Gensym),
{
    registry.register("cond", Op::Cond);
    registry.register("not", Op::Not);
    registry.register("gensym", Op::Gensym);
}

} // verus!
