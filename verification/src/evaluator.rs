//! The evaluator. The meaning of every expression is fixed by the spec
//! interpreter `eval_spec`, a fuel-bounded big-step semantics; the
//! executable evaluator and every primitive operator are proved to return
//! exactly what it says.
use crate::environment::{EnvView, Environment};
use crate::exception::LispError;
use crate::expression::{exprs_view, Expr, ExprView};
use crate::numerics::{
    add_bits, bits_of_i64, div_bits, f64_close_spec, f64_le_spec, f64_lt_spec, fract_zero_bits,
    i64_of_bits, is_zero_bits, mul_bits, sub_bits,
};
use crate::operator::Op;
use crate::text::dec_digits;
use vstd::prelude::*;

verus! {

broadcast use
    crate::expression::lemma_exprs_view_len,
    crate::expression::lemma_exprs_view_index,
    vstd::seq::axiom_seq_index_decreases;

/// How deep evaluation may recurse before it gives up. Runaway user
/// recursion would otherwise exhaust the machine stack; the evaluator
/// counts instead and reports an error when the bound is passed.
pub const EVAL_FUEL: u64 = 1_000_000;

/// What one evaluation produces: a value or an error message, and the
/// environment as the evaluation leaves it.
pub struct EvalOut {
    pub result: Result<ExprView, Seq<char>>,
    pub env: EnvView,
}

/// The bits of the double `0.0`, the sum a `+` starts from.
pub open spec fn zero_bits() -> u64 {
    0u64
}

/// The bits of the double `1.0`, the product a `*` starts from.
pub open spec fn one_bits() -> u64 {
    0x3ff0_0000_0000_0000u64
}

/// Whether a value is one the arithmetic loop accepts, and the bits it
/// contributes.
pub open spec fn numeric_bits(v: ExprView) -> Option<u64> {
    match v {
        ExprView::Number(n) => Some(bits_of_i64(n)),
        ExprView::Float(b) => Some(b),
        _ => None,
    }
}

/// An arithmetic result: a float when a float operand was seen or the
/// value has a fractional part, an integer otherwise.
pub open spec fn arith_result(bits: u64, has_float: bool) -> ExprView {
    if has_float || !fract_zero_bits(bits) {
        ExprView::Float(bits)
    } else {
        ExprView::Number(i64_of_bits(bits))
    }
}

/// Truthiness of a `cond` test result: the symbols `t` and `T`, nonzero
/// integers and nonempty lists are true; everything else, and a failed
/// test, is false.
pub open spec fn cond_truthy(v: ExprView) -> bool {
    match v {
        ExprView::Symbol(s) => s == "t"@ || s == "T"@,
        ExprView::Number(n) => n != 0,
        ExprView::List(items) => items.len() > 0,
        _ => false,
    }
}

/// Falsiness as the unevaluating `not` sees it: the empty list, the
/// integer zero, and the symbol `nil`.
pub open spec fn not_falsy(v: ExprView) -> bool {
    match v {
        ExprView::Symbol(s) => s == "nil"@,
        ExprView::Number(n) => n == 0,
        ExprView::List(items) => items.len() == 0,
        _ => false,
    }
}

/// The name a `gensym` call mints for counter value `n`.
pub open spec fn gensym_name(n: u64) -> Seq<char> {
    "#:G"@ + dec_digits(n as nat)
}

/// The big-step semantics of evaluation: what an expression yields in an
/// environment, and how it leaves the environment, within the given
/// recursion depth. Atoms evaluate to themselves or to their binding;
/// a list dispatches on its head to an operator, a user function, or an
/// immediate lambda application.
pub open spec fn eval_spec(e: ExprView, env: EnvView, fuel: nat) -> EvalOut
    decreases fuel, 5int, 0int,
{
    if fuel == 0 {
        EvalOut { result: Err("Evaluation depth limit exceeded"@), env }
    } else {
        match e {
            ExprView::Symbol(s) => {
                if env.symbols.contains_key(s) {
                    EvalOut { result: Ok(env.symbols[s]), env }
                } else {
                    EvalOut { result: Err("Undefined symbol: "@ + s), env }
                }
            },
            ExprView::Number(_) => EvalOut { result: Ok(e), env },
            ExprView::Float(_) => EvalOut { result: Ok(e), env },
            ExprView::Str(_) => EvalOut { result: Ok(e), env },
            ExprView::List(items) => {
                if items.len() == 0 {
                    EvalOut { result: Ok(ExprView::List(Seq::empty())), env }
                } else {
                    match items[0] {
                        ExprView::Symbol(s) => {
                            if env.ops.contains_key(s) {
                                apply_op_spec(env.ops[s], items.drop_first(), env, fuel)
                            } else {
                                eval_function_call_spec(s, items.drop_first(), env, fuel)
                            }
                        },
                        ExprView::List(_) => {
                            let head = eval_spec(items[0], env, (fuel - 1) as nat);
                            match head.result {
                                Ok(f) => match f {
                                    ExprView::List(parts) => {
                                        if parts.len() >= 1 && parts[0] == ExprView::Symbol(
                                            "lambda"@,
                                        ) {
                                            eval_lambda_call_spec(
                                                parts.drop_first(),
                                                items.drop_first(),
                                                head.env,
                                                fuel,
                                            )
                                        } else {
                                            EvalOut {
                                                result: Err("Invalid function call"@),
                                                env: head.env,
                                            }
                                        }
                                    },
                                    _ => EvalOut {
                                        result: Err("Invalid function call"@),
                                        env: head.env,
                                    },
                                },
                                Err(m) => EvalOut { result: Err(m), env: head.env },
                            }
                        },
                        _ => EvalOut {
                            result: Err("Cannot evaluate a list without a valid operator"@),
                            env,
                        },
                    }
                }
            },
            ExprView::DottedPair(_, _) => EvalOut {
                result: Err("Cannot evaluate a list without a valid operator"@),
                env,
            },
            ExprView::Macro(_, _) => EvalOut {
                result: Err("Cannot evaluate a list without a valid operator"@),
                env,
            },
        }
    }
}

/// Dispatches a registered operator.
pub open spec fn apply_op_spec(op: Op, args: Seq<ExprView>, env: EnvView, fuel: nat) -> EvalOut
    decreases fuel, 4int, 0int,
{
    if fuel == 0 {
        EvalOut { result: Err("Evaluation depth limit exceeded"@), env }
    } else {
        match op {
            Op::Add => arith_fold_spec(args, zero_bits(), false, true, env, fuel),
            Op::Subtract => arith_first_rest_spec(args, false, env, fuel),
            Op::Multiply => arith_fold_spec(args, one_bits(), false, false, env, fuel),
            Op::Divide => arith_first_rest_spec(args, true, env, fuel),
            Op::Greater => compare_spec(args, Op::Greater, env, fuel),
            Op::GreaterEqual => compare_spec(args, Op::GreaterEqual, env, fuel),
            Op::Less => compare_spec(args, Op::Less, env, fuel),
            Op::LessEqual => compare_spec(args, Op::LessEqual, env, fuel),
            Op::Equal => compare_spec(args, Op::Equal, env, fuel),
            Op::NotEqual => compare_spec(args, Op::NotEqual, env, fuel),
            Op::Cond => cond_spec(args, env, fuel),
            Op::Not => not_spec(args, env),
            Op::Gensym => gensym_spec(env),
            Op::Defun => defun_spec(args, env),
            Op::Lambda => lambda_spec(args, env),
            Op::Progn => progn_spec(args, ExprView::List(Seq::empty()), env, fuel),
            Op::Cons => cons_spec(args, env, fuel),
            Op::Car => car_spec(args, env, fuel),
            Op::Cdr => cdr_spec(args, env, fuel),
            Op::Length => length_spec(args, env, fuel),
            Op::Quote => quote_spec(args, env),
            Op::Setf => setf_spec(args, env, fuel),
        }
    }
}

/// `+` and `*`: evaluates every argument, folding the bits; `is_add`
/// picks the error message side only through the initial value given by
/// the caller.
pub open spec fn arith_fold_spec(
    args: Seq<ExprView>,
    acc: u64,
    has_float: bool,
    is_add: bool,
    env: EnvView,
    fuel: nat,
) -> EvalOut
    decreases fuel, 2int, args.len()
        when fuel > 0
{
    if args.len() == 0 {
        EvalOut { result: Ok(arith_result(acc, has_float)), env }
    } else {
        let out = eval_spec(args[0], env, (fuel - 1) as nat);
        match out.result {
            Ok(v) => match numeric_bits(v) {
                Some(b) => {
                    let acc2 = if is_add {
                        add_bits(acc, b)
                    } else {
                        mul_bits(acc, b)
                    };
                    arith_fold_spec(
                        args.drop_first(),
                        acc2,
                        has_float || v is Float,
                        is_add,
                        out.env,
                        fuel,
                    )
                },
                None => EvalOut { result: Err("Invalid number"@), env: out.env },
            },
            Err(m) => EvalOut { result: Err(m), env: out.env },
        }
    }
}

/// `-` and `/`: the first argument seeds the accumulator; whether the
/// result is a float follows the evaluated operand values, as for `+`
/// and `*`.
pub open spec fn arith_first_rest_spec(
    args: Seq<ExprView>,
    is_div: bool,
    env: EnvView,
    fuel: nat,
) -> EvalOut
    decreases fuel, 3int, 0int
        when fuel > 0
{
    if args.len() == 0 {
        EvalOut {
            result: Err(
                if is_div {
                    "Division requires at least one argument"@
                } else {
                    "Subtraction requires at least one argument"@
                },
            ),
            env,
        }
    } else {
        let out = eval_spec(args[0], env, (fuel - 1) as nat);
        match out.result {
            Ok(v) => match numeric_bits(v) {
                Some(b) => arith_chain_spec(
                    args.drop_first(),
                    b,
                    v is Float,
                    is_div,
                    out.env,
                    fuel,
                ),
                None => EvalOut { result: Err("Invalid number"@), env: out.env },
            },
            Err(m) => EvalOut { result: Err(m), env: out.env },
        }
    }
}

/// The left-to-right chain of `-` or `/` over the remaining arguments.
pub open spec fn arith_chain_spec(
    args: Seq<ExprView>,
    acc: u64,
    has_float: bool,
    is_div: bool,
    env: EnvView,
    fuel: nat,
) -> EvalOut
    decreases fuel, 2int, args.len()
        when fuel > 0
{
    if args.len() == 0 {
        EvalOut { result: Ok(arith_result(acc, has_float)), env }
    } else {
        let out = eval_spec(args[0], env, (fuel - 1) as nat);
        match out.result {
            Ok(v) => match v {
                ExprView::Number(n) => {
                    if is_div && n == 0 {
                        EvalOut { result: Err("Division by zero"@), env: out.env }
                    } else {
                        let acc2 = if is_div {
                            div_bits(acc, bits_of_i64(n))
                        } else {
                            sub_bits(acc, bits_of_i64(n))
                        };
                        arith_chain_spec(args.drop_first(), acc2, has_float, is_div, out.env, fuel)
                    }
                },
                ExprView::Float(b) => {
                    if is_div && is_zero_bits(b) {
                        EvalOut { result: Err("Division by zero"@), env: out.env }
                    } else {
                        let acc2 = if is_div {
                            div_bits(acc, b)
                        } else {
                            sub_bits(acc, b)
                        };
                        arith_chain_spec(args.drop_first(), acc2, true, is_div, out.env, fuel)
                    }
                },
                _ => EvalOut { result: Err("Invalid number"@), env: out.env },
            },
            Err(m) => EvalOut { result: Err(m), env: out.env },
        }
    }
}

/// The error messages of one comparison operator.
pub open spec fn compare_arity_msg(op: Op) -> Seq<char> {
    match op {
        Op::Greater => "`>` expects exactly two arguments"@,
        Op::GreaterEqual => "`>=` expects exactly two arguments"@,
        Op::Less => "`<` expects exactly two arguments"@,
        Op::LessEqual => "`<=` expects exactly two arguments"@,
        Op::Equal => "`eq` expects exactly two arguments"@,
        _ => "`ne` expects exactly two arguments"@,
    }
}

pub open spec fn compare_type_msg(op: Op) -> Seq<char> {
    match op {
        Op::Greater => "`>` arguments must be numbers"@,
        Op::GreaterEqual => "`>=` arguments must be numbers"@,
        Op::Less => "`<` arguments must be numbers"@,
        _ => "`<=` arguments must be numbers"@,
    }
}

/// The symbol `t`, the truth the comparisons return.
pub open spec fn true_symbol() -> ExprView {
    ExprView::Symbol("t"@)
}

/// The empty list, the falsehood the comparisons return.
pub open spec fn false_list() -> ExprView {
    ExprView::List(Seq::empty())
}

pub open spec fn bool_expr(b: bool) -> ExprView {
    if b {
        true_symbol()
    } else {
        false_list()
    }
}

/// An ordered comparison of two numeric values, by `op`.
pub open spec fn ordered_cmp(op: Op, a: u64, b: u64, both_int: bool, ia: i64, ib: i64) -> bool {
    if both_int {
        match op {
            Op::Greater => ia > ib,
            Op::GreaterEqual => ia >= ib,
            Op::Less => ia < ib,
            _ => ia <= ib,
        }
    } else {
        match op {
            Op::Greater => f64_lt_spec(b, a),
            Op::GreaterEqual => f64_le_spec(b, a),
            Op::Less => f64_lt_spec(a, b),
            _ => f64_le_spec(a, b),
        }
    }
}

/// A comparison operator: exactly two arguments, both evaluated; see the
/// arms for the mixed-type rules, the epsilon equality of floats, the
/// by-name equality of symbols, and the identity comparison of lists,
/// which on separately produced values never holds.
pub open spec fn compare_spec(args: Seq<ExprView>, op: Op, env: EnvView, fuel: nat) -> EvalOut
    decreases fuel, 3int, 0int
        when fuel > 0
{
    if args.len() != 2 {
        EvalOut { result: Err(compare_arity_msg(op)), env }
    } else {
        let lout = eval_spec(args[0], env, (fuel - 1) as nat);
        match lout.result {
            Ok(l) => {
                let rout = eval_spec(args[1], lout.env, (fuel - 1) as nat);
                match rout.result {
                    Ok(r) => compare_values_spec(l, r, op, rout.env),
                    Err(m) => EvalOut { result: Err(m), env: rout.env },
                }
            },
            Err(m) => EvalOut { result: Err(m), env: lout.env },
        }
    }
}

/// Compares two already evaluated values; the environment comes back
/// untouched.
pub open spec fn compare_values_spec(l: ExprView, r: ExprView, op: Op, env: EnvView) -> EvalOut {
    let is_eq_family = op == Op::Equal || op == Op::NotEqual;
    if !is_eq_family {
        match (l, r) {
            (ExprView::Number(a), ExprView::Number(b)) => EvalOut {
                result: Ok(bool_expr(ordered_cmp(op, 0, 0, true, a, b))),
                env,
            },
            (ExprView::Float(a), ExprView::Float(b)) => EvalOut {
                result: Ok(bool_expr(ordered_cmp(op, a, b, false, 0, 0))),
                env,
            },
            (ExprView::Number(a), ExprView::Float(b)) => EvalOut {
                result: Ok(bool_expr(ordered_cmp(op, bits_of_i64(a), b, false, 0, 0))),
                env,
            },
            (ExprView::Float(a), ExprView::Number(b)) => EvalOut {
                result: Ok(bool_expr(ordered_cmp(op, a, bits_of_i64(b), false, 0, 0))),
                env,
            },
            _ => EvalOut { result: Err(compare_type_msg(op)), env },
        }
    } else {
        let negate = op == Op::NotEqual;
        match (l, r) {
            (ExprView::Number(a), ExprView::Number(b)) => EvalOut {
                result: Ok(bool_expr((a == b) != negate)),
                env,
            },
            (ExprView::Float(a), ExprView::Float(b)) => EvalOut {
                result: Ok(bool_expr(f64_close_spec(a, b) != negate)),
                env,
            },
            (ExprView::Number(a), ExprView::Float(b)) => EvalOut {
                result: Ok(bool_expr(f64_close_spec(bits_of_i64(a), b) != negate)),
                env,
            },
            (ExprView::Float(a), ExprView::Number(b)) => EvalOut {
                result: Ok(bool_expr(f64_close_spec(a, bits_of_i64(b)) != negate)),
                env,
            },
            (ExprView::Symbol(a), ExprView::Symbol(b)) => {
                // Two symbol values compare by name.
                EvalOut { result: Ok(bool_expr((a == b) != negate)), env }
            },
            (ExprView::List(a), ExprView::List(b)) => {
                // Lists compare by identity, and two freshly evaluated
                // results are never the same object.
                EvalOut { result: Ok(bool_expr(false != negate)), env }
            },
            _ => EvalOut { result: Ok(bool_expr(false != negate)), env },
        }
    }
}

/// `cond`: clauses tried left to right; a one-element clause yields its
/// expression unconditionally; a failing test counts as false.
pub open spec fn cond_spec(clauses: Seq<ExprView>, env: EnvView, fuel: nat) -> EvalOut
    decreases fuel, 2int, clauses.len()
        when fuel > 0
{
    if clauses.len() == 0 {
        EvalOut { result: Err("No true condition in cond"@), env }
    } else {
        match clauses[0] {
            ExprView::List(pair) => {
                if pair.len() == 1 {
                    eval_spec(pair[0], env, (fuel - 1) as nat)
                } else if pair.len() == 2 {
                    let tout = eval_spec(pair[0], env, (fuel - 1) as nat);
                    let truthy = match tout.result {
                        Ok(v) => cond_truthy(v),
                        Err(_) => false,
                    };
                    if truthy {
                        eval_spec(pair[1], tout.env, (fuel - 1) as nat)
                    } else {
                        cond_spec(clauses.drop_first(), tout.env, fuel)
                    }
                } else {
                    EvalOut {
                        result: Err("Each cond clause must have exactly one or two elements"@),
                        env,
                    }
                }
            },
            _ => EvalOut { result: Err("Cond clause must be a list"@), env },
        }
    }
}

/// `not`: inspects its single argument without evaluating it.
pub open spec fn not_spec(args: Seq<ExprView>, env: EnvView) -> EvalOut {
    if args.len() != 1 {
        EvalOut { result: Err("not expects exactly one argument"@), env }
    } else {
        EvalOut { result: Ok(bool_expr(not_falsy(args[0]))), env }
    }
}

/// `gensym`: mints `#:G<counter>` and advances the counter.
pub open spec fn gensym_spec(env: EnvView) -> EvalOut {
    EvalOut {
        result: Ok(ExprView::Symbol(gensym_name(env.gensym))),
        env: EnvView { gensym: env.gensym.wrapping_add(1), ..env },
    }
}

/// `setf`: binds an evaluated value to a symbol and returns the value.
pub open spec fn setf_spec(args: Seq<ExprView>, env: EnvView, fuel: nat) -> EvalOut
    decreases fuel, 3int, 0int
        when fuel > 0
{
    if args.len() != 2 {
        EvalOut { result: Err("setf requires exactly two arguments"@), env }
    } else {
        match args[0] {
            ExprView::Symbol(name) => {
                let out = eval_spec(args[1], env, (fuel - 1) as nat);
                match out.result {
                    Ok(v) => EvalOut {
                        result: Ok(v),
                        env: EnvView { symbols: out.env.symbols.insert(name, v), ..out.env },
                    },
                    Err(m) => EvalOut { result: Err(m), env: out.env },
                }
            },
            _ => EvalOut { result: Err("setf: first argument must be a symbol"@), env },
        }
    }
}

/// The canonical `(lambda (params…) body)` form a `defun` stores.
pub open spec fn lambda_form(params: Seq<ExprView>, body: ExprView) -> ExprView {
    ExprView::List(seq![ExprView::Symbol("lambda"@), ExprView::List(params), body])
}

/// `defun`: stores the canonical lambda form in the function table and
/// returns the function name.
pub open spec fn defun_spec(args: Seq<ExprView>, env: EnvView) -> EvalOut {
    if args.len() != 3 {
        EvalOut { result: Err("defun requires exactly 3 arguments: name, params, body"@), env }
    } else {
        match args[0] {
            ExprView::Symbol(name) => match args[1] {
                ExprView::List(params) => EvalOut {
                    result: Ok(ExprView::Symbol(name)),
                    env: EnvView {
                        functions: env.functions.insert(name, lambda_form(params, args[2])),
                        ..env
                    },
                },
                _ => EvalOut { result: Err("defun: second argument must be a list"@), env },
            },
            _ => EvalOut { result: Err("defun: first argument must be a symbol"@), env },
        }
    }
}

/// `lambda`: returns the inert lambda form; several body expressions are
/// wrapped in a `progn`.
pub open spec fn lambda_spec(args: Seq<ExprView>, env: EnvView) -> EvalOut {
    if args.len() < 2 {
        EvalOut { result: Err("lambda requires at least 2 arguments: params, body"@), env }
    } else {
        match args[0] {
            ExprView::List(params) => {
                let body = if args.len() == 2 {
                    args[1]
                } else {
                    ExprView::List(seq![ExprView::Symbol("progn"@)] + args.drop_first())
                };
                EvalOut { result: Ok(lambda_form(params, body)), env }
            },
            _ => EvalOut {
                result: Err("lambda: first argument must be a list of parameters"@),
                env,
            },
        }
    }
}

/// `progn`: evaluates the arguments in order and yields the last value,
/// the empty list when there are none.
pub open spec fn progn_spec(args: Seq<ExprView>, last: ExprView, env: EnvView, fuel: nat) -> EvalOut
    decreases fuel, 2int, args.len()
        when fuel > 0
{
    if args.len() == 0 {
        EvalOut { result: Ok(last), env }
    } else {
        let out = eval_spec(args[0], env, (fuel - 1) as nat);
        match out.result {
            Ok(v) => progn_spec(args.drop_first(), v, out.env, fuel),
            Err(m) => EvalOut { result: Err(m), env: out.env },
        }
    }
}

/// `cons`: prepends to a list, or forms a dotted pair.
pub open spec fn cons_spec(args: Seq<ExprView>, env: EnvView, fuel: nat) -> EvalOut
    decreases fuel, 3int, 0int
        when fuel > 0
{
    if args.len() != 2 {
        EvalOut { result: Err("cons requires exactly two arguments"@), env }
    } else {
        let fout = eval_spec(args[0], env, (fuel - 1) as nat);
        match fout.result {
            Ok(first) => {
                let sout = eval_spec(args[1], fout.env, (fuel - 1) as nat);
                match sout.result {
                    Ok(second) => match second {
                        ExprView::List(items) => EvalOut {
                            result: Ok(ExprView::List(seq![first] + items)),
                            env: sout.env,
                        },
                        _ => EvalOut {
                            result: Ok(ExprView::DottedPair(Box::new(first), Box::new(second))),
                            env: sout.env,
                        },
                    },
                    Err(m) => EvalOut { result: Err(m), env: sout.env },
                }
            },
            Err(m) => EvalOut { result: Err(m), env: fout.env },
        }
    }
}

/// `car`: the first element, or the empty list of an empty list.
pub open spec fn car_spec(args: Seq<ExprView>, env: EnvView, fuel: nat) -> EvalOut
    decreases fuel, 3int, 0int
        when fuel > 0
{
    if args.len() != 1 {
        EvalOut { result: Err("car requires exactly one argument"@), env }
    } else {
        let out = eval_spec(args[0], env, (fuel - 1) as nat);
        match out.result {
            Ok(v) => match v {
                ExprView::List(items) => {
                    if items.len() > 0 {
                        EvalOut { result: Ok(items[0]), env: out.env }
                    } else {
                        EvalOut { result: Ok(false_list()), env: out.env }
                    }
                },
                _ => EvalOut { result: Err("car: argument must be a list"@), env: out.env },
            },
            Err(m) => EvalOut { result: Err(m), env: out.env },
        }
    }
}

/// `cdr`: the list behind its first element, or the empty list.
pub open spec fn cdr_spec(args: Seq<ExprView>, env: EnvView, fuel: nat) -> EvalOut
    decreases fuel, 3int, 0int
        when fuel > 0
{
    if args.len() != 1 {
        EvalOut { result: Err("cdr requires exactly one argument"@), env }
    } else {
        let out = eval_spec(args[0], env, (fuel - 1) as nat);
        match out.result {
            Ok(v) => match v {
                ExprView::List(items) => {
                    if items.len() > 1 {
                        EvalOut { result: Ok(ExprView::List(items.drop_first())), env: out.env }
                    } else {
                        EvalOut { result: Ok(false_list()), env: out.env }
                    }
                },
                _ => EvalOut { result: Err("cdr: argument must be a list"@), env: out.env },
            },
            Err(m) => EvalOut { result: Err(m), env: out.env },
        }
    }
}

/// `length`: the element count of a list, as an integer.
pub open spec fn length_spec(args: Seq<ExprView>, env: EnvView, fuel: nat) -> EvalOut
    decreases fuel, 3int, 0int
        when fuel > 0
{
    if args.len() != 1 {
        EvalOut { result: Err("length requires exactly one argument"@), env }
    } else {
        let out = eval_spec(args[0], env, (fuel - 1) as nat);
        match out.result {
            Ok(v) => match v {
                ExprView::List(items) => EvalOut {
                    result: Ok(ExprView::Number(items.len() as i64)),
                    env: out.env,
                },
                _ => EvalOut { result: Err("length: argument is not a list"@), env: out.env },
            },
            Err(m) => EvalOut { result: Err(m), env: out.env },
        }
    }
}

/// `quote`: its single argument, untouched.
pub open spec fn quote_spec(args: Seq<ExprView>, env: EnvView) -> EvalOut {
    if args.len() != 1 {
        EvalOut { result: Err("quote requires exactly one argument"@), env }
    } else {
        EvalOut { result: Ok(args[0]), env }
    }
}

/// Binds parameters to evaluated arguments, one by one, inside the call
/// frame `local`; arguments are evaluated in the frame itself.
pub open spec fn bind_params_spec(
    params: Seq<ExprView>,
    args: Seq<ExprView>,
    local: EnvView,
    fuel: nat,
) -> Result<EnvView, (Seq<char>, EnvView)>
    decreases fuel, 2int, params.len()
        when fuel > 0
{
    if params.len() == 0 {
        Ok(local)
    } else {
        match params[0] {
            ExprView::Symbol(name) => {
                let out = eval_spec(args[0], local, (fuel - 1) as nat);
                match out.result {
                    Ok(v) => bind_params_spec(
                        params.drop_first(),
                        args.drop_first(),
                        EnvView { symbols: out.env.symbols.insert(name, v), ..out.env },
                        fuel,
                    ),
                    Err(m) => Err((m, out.env)),
                }
            },
            _ => Err(("Invalid parameter name"@, local)),
        }
    }
}

/// A call frame: the whole environment is copied, parameters are bound
/// in the copy, the body runs there, and only the gensym counter comes
/// back to the caller.
pub open spec fn call_frame_spec(
    params: Seq<ExprView>,
    body: ExprView,
    args: Seq<ExprView>,
    env: EnvView,
    fuel: nat,
) -> EvalOut
    decreases fuel, 3int, 1int
        when fuel > 0
{
    if params.len() != args.len() {
        EvalOut { result: Err("Argument count does not match parameter count"@), env }
    } else {
        match bind_params_spec(params, args, env, fuel) {
            Ok(local) => {
                let out = eval_spec(body, local, (fuel - 1) as nat);
                EvalOut { result: out.result, env: EnvView { gensym: out.env.gensym, ..env } }
            },
            Err((m, local)) => EvalOut {
                result: Err(m),
                env: EnvView { gensym: local.gensym, ..env },
            },
        }
    }
}

/// An immediate lambda application: `parts` holds the parameter list and
/// the body of the evaluated lambda form.
pub open spec fn eval_lambda_call_spec(
    parts: Seq<ExprView>,
    args: Seq<ExprView>,
    env: EnvView,
    fuel: nat,
) -> EvalOut
    decreases fuel, 3int, 2int
        when fuel > 0
{
    if parts.len() != 2 {
        EvalOut { result: Err("Invalid lambda expression"@), env }
    } else {
        match parts[0] {
            ExprView::List(params) => call_frame_spec(params, parts[1], args, env, fuel),
            _ => EvalOut { result: Err("Invalid parameter list"@), env },
        }
    }
}

/// A call of a named user function: the stored form must be the
/// canonical three-element lambda list.
pub open spec fn eval_function_call_spec(
    name: Seq<char>,
    args: Seq<ExprView>,
    env: EnvView,
    fuel: nat,
) -> EvalOut
    decreases fuel, 3int, 2int
        when fuel > 0
{
    if !env.functions.contains_key(name) {
        EvalOut { result: Err("Undefined function: "@ + name), env }
    } else {
        match env.functions[name] {
            ExprView::List(form) => {
                if form.len() != 3 || form[0] != ExprView::Symbol("lambda"@) {
                    EvalOut { result: Err("Invalid function definition"@), env }
                } else {
                    match form[1] {
                        ExprView::List(params) => call_frame_spec(params, form[2], args, env, fuel),
                        _ => EvalOut { result: Err("Invalid parameter list"@), env },
                    }
                }
            },
            _ => EvalOut { result: Err("Function is not defined correctly"@), env },
        }
    }
}

/// Dispatches one registered operator.
pub(crate) fn apply_op_fuel(op: Op, args: &Vec<Expr>, env: &mut Environment, fuel: u64) -> (r:
    Result<Expr, LispError>)
    requires
        fuel >= 1,
    ensures
        ({
            let out = apply_op_spec(op, exprs_view(args@), old(env)@, fuel as nat);
            final(env)@ == out.env && match r {
                Ok(e) => out.result == Ok::<ExprView, Seq<char>>(e@),
                Err(err) => out.result is Err && err@ == out.result->Err_0,
            }
        }),
    decreases fuel, 5int, 0int,
{
    match op {
        Op::Add => crate::arithmetic::eval_add_fuel(args, env, fuel),
        Op::Subtract => crate::arithmetic::eval_subtract_fuel(args, env, fuel),
        Op::Multiply => crate::arithmetic::eval_multiply_fuel(args, env, fuel),
        Op::Divide => crate::arithmetic::eval_divide_fuel(args, env, fuel),
        Op::Greater => crate::comparison::compare_fuel(args, Op::Greater, env, fuel),
        Op::GreaterEqual => crate::comparison::compare_fuel(args, Op::GreaterEqual, env, fuel),
        Op::Less => crate::comparison::compare_fuel(args, Op::Less, env, fuel),
        Op::LessEqual => crate::comparison::compare_fuel(args, Op::LessEqual, env, fuel),
        Op::Equal => crate::comparison::compare_fuel(args, Op::Equal, env, fuel),
        Op::NotEqual => crate::comparison::compare_fuel(args, Op::NotEqual, env, fuel),
        Op::Cond => crate::control::eval_cond_fuel(args, env, fuel),
        Op::Not => crate::control::Control::eval_not(args, env),
        Op::Gensym => crate::control::Control::eval_gensym(args, env),
        Op::Defun => crate::lambda::Lambda::eval_defun(args, env),
        Op::Lambda => crate::lambda::Lambda::eval_lambda(args, env),
        Op::Progn => crate::lambda::eval_progn_fuel(args, env, fuel),
        Op::Cons => crate::list::ListOps::eval_cons_fuel(args, env, fuel),
        Op::Car => crate::list::ListOps::eval_car_fuel(args, env, fuel),
        Op::Cdr => crate::list::ListOps::eval_cdr_fuel(args, env, fuel),
        Op::Length => crate::list::ListOps::eval_length_fuel(args, env, fuel),
        Op::Quote => crate::list::ListOps::eval_quote(args, env),
        Op::Setf => crate::setf::eval_setf_fuel(args, env, fuel),
    }
}

pub struct Evaluator;

impl Evaluator {
    /// Evaluates an expression in the given environment, at the standard
    /// evaluation depth.
    pub fn eval(ast: &Expr, env: &mut Environment) -> (r: Result<Expr, LispError>)
        ensures
            ({
                let out = eval_spec(ast@, old(env)@, EVAL_FUEL as nat);
                final(env)@ == out.env && match r {
                    Ok(e) => out.result == Ok::<ExprView, Seq<char>>(e@),
                    Err(err) => out.result is Err && err@ == out.result->Err_0,
                }
            }),
    {
        eval_fuel(ast, env, EVAL_FUEL)
    }
}

/// The fuel-counting evaluator behind `Evaluator::eval`.
pub(crate) fn eval_fuel(ast: &Expr, env: &mut Environment, fuel: u64) -> (r: Result<
    Expr,
    LispError,
>)
    ensures
        ({
            let out = eval_spec(ast@, old(env)@, fuel as nat);
            final(env)@ == out.env && match r {
                Ok(e) => out.result == Ok::<ExprView, Seq<char>>(e@),
                Err(err) => out.result is Err && err@ == out.result->Err_0,
            }
        }),
    decreases fuel, 6int, 0int,
{
    if fuel == 0 {
        return Err(LispError::new("Evaluation depth limit exceeded"));
    }
    match ast {
        Expr::Symbol(s) => {
            let found = match env.get_symbol(s.as_str()) {
                Some(v) => Some(v.clone()),
                None => None,
            };
            match found {
                Some(v) => {
                    return Ok(v);
                },
                None => {
                    let mut msg = String::new();
                    msg.append("Undefined symbol: ");
                    msg.append(s.as_str());
                    return Err(LispError::new(msg.as_str()));
                },
            }
        },
        Expr::Number(_) => {
            return Ok(ast.clone());
        },
        Expr::Float(_) => {
            return Ok(ast.clone());
        },
        Expr::Str(_) => {
            return Ok(ast.clone());
        },
        Expr::List(items) => {
            proof {
                assert(ast@ == ExprView::List(exprs_view(items@)));
            }
            if items.len() == 0 {
                let empty: Vec<Expr> = Vec::new();
                proof {
                    assert(exprs_view(empty@) =~= Seq::<ExprView>::empty());
                }
                return Ok(Expr::List(empty));
            }
            proof {
                assert(exprs_view(items@)[0int] == items@[0int]@);
            }
            let head_is_symbol = matches!(&items[0], Expr::Symbol(_));
            if head_is_symbol {
                let op_lookup = match &items[0] {
                    Expr::Symbol(s) => env.get_operator(s.as_str()),
                    _ => None,
                };
                let args = crate::expression::clone_tail(items);
                match op_lookup {
                    Some(op) => {
                        return apply_op_fuel(op, &args, env, fuel);
                    },
                    None => {
                        match &items[0] {
                            Expr::Symbol(s) => {
                                return crate::lambda::eval_function_call_fuel(
                                    s.as_str(),
                                    &args,
                                    env,
                                    fuel,
                                );
                            },
                            _ => {
                                return Err(
                                    LispError::new(
                                        "Cannot evaluate a list without a valid operator",
                                    ),
                                );
                            },
                        }
                    },
                }
            } else {
                let head_is_list = matches!(&items[0], Expr::List(_));
                if head_is_list {
                    proof {
                        assert(decreases_to!(*ast => *items));
                        assert(decreases_to!(items@ => items@[0int]));
                    }
                    let head = match eval_fuel(&items[0], env, fuel - 1) {
                        Ok(e) => e,
                        Err(err) => {
                            return Err(err);
                        },
                    };
                    match head {
                        Expr::List(parts) => {
                            proof {
                                assert(head@ == ExprView::List(exprs_view(parts@)));
                            }
                            let head_is_lambda = parts.len() >= 1 && (match &parts[0] {
                                Expr::Symbol(s) => {
                                    proof {
                                        assert(exprs_view(parts@)[0int] == parts@[0int]@);
                                    }
                                    crate::text::str_equal(s.as_str(), "lambda")
                                },
                                _ => false,
                            });
                            if head_is_lambda {
                                let lparts = crate::expression::clone_tail(&parts);
                                let args = crate::expression::clone_tail(items);
                                return crate::lambda::eval_lambda_call_fuel(
                                    &lparts,
                                    &args,
                                    env,
                                    fuel,
                                );
                            } else {
                                return Err(LispError::new("Invalid function call"));
                            }
                        },
                        _ => {
                            return Err(LispError::new("Invalid function call"));
                        },
                    }
                } else {
                    return Err(
                        LispError::new("Cannot evaluate a list without a valid operator"),
                    );
                }
            }
        },
        Expr::DottedPair(_, _) => {
            return Err(LispError::new("Cannot evaluate a list without a valid operator"));
        },
        Expr::Macro(_, _) => {
            return Err(LispError::new("Cannot evaluate a list without a valid operator"));
        },
    }
}

} // verus!
