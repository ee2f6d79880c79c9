//! Laws of the interpreter: properties that hold of all inputs, stated
//! over the spec-level semantics and proved once and for all.
use crate::environment::EnvView;
use crate::evaluator::{
    arith_fold_spec, cons_spec, eval_spec, gensym_name, gensym_spec, not_falsy, not_spec,
    numeric_bits, setf_spec, EvalOut,
};
use crate::expression::ExprView;
use crate::macro_expander::{expand_items_spec, expand_macro_spec};
use crate::numerics::fract_zero_bits;
use crate::text::{dec_digits, dec_value};
use vstd::prelude::*;

verus! {

broadcast use
    crate::expression::lemma_exprs_view_len,
    crate::expression::lemma_exprs_view_index,
    vstd::seq::axiom_seq_index_decreases;

/// A value set by `setf` is returned by `setf` and found by an
/// immediate lookup: when the value expression evaluates to `v`, the
/// `setf` form yields `v`, and evaluating the symbol afterwards yields
/// `v` again.
pub proof fn lemma_setf_then_lookup(
    name: Seq<char>,
    value_expr: ExprView,
    env: EnvView,
    fuel: nat,
)
    requires
        fuel >= 2,
        eval_spec(value_expr, env, (fuel - 1) as nat).result is Ok,
    ensures
        ({
            let args = seq![ExprView::Symbol(name), value_expr];
            let v = eval_spec(value_expr, env, (fuel - 1) as nat).result->Ok_0;
            let out = setf_spec(args, env, fuel);
            &&& out.result == Ok::<ExprView, Seq<char>>(v)
            &&& out.env.symbols.contains_key(name)
            &&& out.env.symbols[name] == v
            &&& eval_spec(ExprView::Symbol(name), out.env, fuel).result == Ok::<
                ExprView,
                Seq<char>,
            >(v)
        }),
{
    let args = seq![ExprView::Symbol(name), value_expr];
    assert(args[0] == ExprView::Symbol(name));
    assert(args[1] == value_expr);
}

/// `(not X)` yields the symbol `t` exactly when `X` is the empty list,
/// the integer zero, or the symbol `nil`; it yields the empty list
/// otherwise.
pub proof fn lemma_not_truthiness(x: ExprView, env: EnvView)
    ensures
        ({
            let out = not_spec(seq![x], env);
            &&& out.env == env
            &&& out.result == Ok::<ExprView, Seq<char>>(
                if x == ExprView::List(Seq::<ExprView>::empty()) || x == ExprView::Number(0) || x
                    == ExprView::Symbol("nil"@) {
                    ExprView::Symbol("t"@)
                } else {
                    ExprView::List(Seq::empty())
                },
            )
        }),
{
    let args = seq![x];
    assert(args[0] == x);
    if x is List {
        assert(not_falsy(x) == (x->List_0.len() == 0));
        if x->List_0.len() == 0 {
            assert(x->List_0 =~= Seq::<ExprView>::empty());
        }
    }
}

/// Arithmetic type preservation for the folding operators (`+`, `*`):
/// whenever the fold succeeds, the result is an integer exactly when no
/// evaluated operand was a float and the accumulated double is
/// fraction-free; a float operand forces a float result.
pub proof fn lemma_arith_type_preservation(
    args: Seq<ExprView>,
    acc: u64,
    has_float: bool,
    is_add: bool,
    env: EnvView,
    fuel: nat,
)
    requires
        fuel >= 1,
    ensures
        ({
            let out = arith_fold_spec(args, acc, has_float, is_add, env, fuel);
            out.result is Ok ==> ((out.result->Ok_0 is Number <==> !(arith_float_forced(
                args,
                acc,
                has_float,
                is_add,
                env,
                fuel,
            ))) && (has_float ==> out.result->Ok_0 is Float))
        }),
    decreases args.len(),
{
    if args.len() == 0 {
    } else {
        let step = eval_spec(args[0], env, (fuel - 1) as nat);
        match step.result {
            Ok(v) => {
                match numeric_bits(v) {
                    Some(b) => {
                        let acc2 = if is_add {
                            crate::numerics::add_bits(acc, b)
                        } else {
                            crate::numerics::mul_bits(acc, b)
                        };
                        lemma_arith_type_preservation(
                            args.drop_first(),
                            acc2,
                            has_float || v is Float,
                            is_add,
                            step.env,
                            fuel,
                        );
                    },
                    None => {},
                }
            },
            Err(_) => {},
        }
    }
}

/// Whether the fold of `+` or `*` ends in a float: a float operand was
/// seen, or the final accumulated double has a fractional part.
pub open spec fn arith_float_forced(
    args: Seq<ExprView>,
    acc: u64,
    has_float: bool,
    is_add: bool,
    env: EnvView,
    fuel: nat,
) -> bool
    decreases args.len(),
{
    if args.len() == 0 {
        has_float || !fract_zero_bits(acc)
    } else {
        let step = eval_spec(args[0], env, (fuel - 1) as nat);
        match step.result {
            Ok(v) => match numeric_bits(v) {
                Some(b) => arith_float_forced(
                    args.drop_first(),
                    if is_add {
                        crate::numerics::add_bits(acc, b)
                    } else {
                        crate::numerics::mul_bits(acc, b)
                    },
                    has_float || v is Float,
                    is_add,
                    step.env,
                    fuel,
                ),
                None => true,
            },
            Err(_) => true,
        }
    }
}

/// `cons` onto a quoted list prepends: `(cons (quote x) (quote (…)))`
/// yields the list with `x` in front; `cons` onto a quoted non-list
/// yields the dotted pair of the two values.
pub proof fn lemma_cons_shapes(x: ExprView, y: ExprView, env: EnvView, fuel: nat)
    requires
        fuel >= 2,
        env.ops.contains_key("quote"@),
        env.ops["quote"@] == crate::operator::Op::Quote,
    ensures
        ({
            let args = seq![
                ExprView::List(seq![ExprView::Symbol("quote"@), x]),
                ExprView::List(seq![ExprView::Symbol("quote"@), y]),
            ];
            let out = cons_spec(args, env, fuel);
            &&& out.env == env
            &&& (y is List ==> out.result == Ok::<ExprView, Seq<char>>(
                ExprView::List(seq![x] + y->List_0),
            ))
            &&& (!(y is List) ==> out.result == Ok::<ExprView, Seq<char>>(
                ExprView::DottedPair(Box::new(x), Box::new(y)),
            ))
        }),
{
    let qx = ExprView::List(seq![ExprView::Symbol("quote"@), x]);
    let qy = ExprView::List(seq![ExprView::Symbol("quote"@), y]);
    let args = seq![qx, qy];
    assert(args[0] == qx);
    assert(args[1] == qy);
    lemma_quote_evaluates(x, env, (fuel - 1) as nat);
    let fout = eval_spec(qx, env, (fuel - 1) as nat);
    lemma_quote_evaluates(y, fout.env, (fuel - 1) as nat);
}

/// A quoted form evaluates to the form itself, leaving the environment
/// unchanged, in any environment whose registry binds `quote` as the
/// standard one does.
pub proof fn lemma_quote_evaluates(x: ExprView, env: EnvView, fuel: nat)
    requires
        fuel >= 1,
        env.ops.contains_key("quote"@),
        env.ops["quote"@] == crate::operator::Op::Quote,
    ensures
        eval_spec(ExprView::List(seq![ExprView::Symbol("quote"@), x]), env, fuel) == (EvalOut {
            result: Ok::<ExprView, Seq<char>>(x),
            env,
        }),
{
    let form = seq![ExprView::Symbol("quote"@), x];
    let e = ExprView::List(form);
    assert(form[0] == ExprView::Symbol("quote"@));
    assert(form.len() == 2);
    assert(form.drop_first() =~= seq![x]);
    assert(form.drop_first()[0] == x);
    let out = eval_spec(e, env, fuel);
    assert(out == crate::evaluator::apply_op_spec(
        crate::operator::Op::Quote,
        form.drop_first(),
        env,
        fuel,
    ));
    assert(out == crate::evaluator::quote_spec(form.drop_first(), env));
    assert(out.result == Ok::<ExprView, Seq<char>>(x));
}

/// The standard operator registry binds `quote` to the quote operator.
pub proof fn lemma_standard_quote(env: EnvView)
    requires
        env.ops == crate::operator::standard_ops(),
    ensures
        env.ops.contains_key("quote"@),
        env.ops["quote"@] == crate::operator::Op::Quote,
{
    reveal_strlit("quote");
    reveal_strlit("setf");
    assert("quote"@.len() == 5);
    assert("setf"@.len() == 4);
    assert("quote"@ != "setf"@);
}

/// Gensym names are distinct for distinct counter values: the name
/// carries the counter's decimal digits, and those determine the value.
pub proof fn lemma_gensym_name_injective(a: u64, b: u64)
    requires
        gensym_name(a) == gensym_name(b),
    ensures
        a == b,
{
    lemma_dec_digits_value(a as nat);
    lemma_dec_digits_value(b as nat);
    reveal_strlit("#:G");
    assert("#:G"@.len() == 3);
    assert(dec_digits(a as nat) =~= gensym_name(a).skip(3));
    assert(dec_digits(b as nat) =~= gensym_name(b).skip(3));
    assert(dec_value(dec_digits(a as nat)) == dec_value(dec_digits(b as nat)));
}

/// Two calls of `gensym`, one after the other, never return the same
/// symbol while the process-wide counter has not wrapped around.
pub proof fn lemma_gensym_distinct(env: EnvView)
    requires
        env.gensym < u64::MAX,
    ensures
        ({
            let first = gensym_spec(env);
            let second = gensym_spec(first.env);
            &&& first.result is Ok
            &&& second.result is Ok
            &&& first.result->Ok_0 != second.result->Ok_0
        }),
{
    let a = env.gensym;
    let b = gensym_spec(env).env.gensym;
    assert(b == a + 1);
    if gensym_name(a) == gensym_name(b) {
        lemma_gensym_name_injective(a, b);
    }
}

/// Reading the decimal digits of `n` back as a number yields `n`.
pub proof fn lemma_dec_digits_value(n: nat)
    ensures
        dec_value(dec_digits(n)) == n,
        dec_digits(n).len() >= 1,
        crate::text::all_digits(dec_digits(n)),
    decreases n,
{
    if n < 10 {
        assert(dec_digits(n) =~= seq![crate::text::digit_char(n)]);
        assert(dec_digits(n).drop_last() =~= Seq::<char>::empty());
        assert(crate::text::digit_char(n) as int == 48 + n);
        assert(dec_value(Seq::<char>::empty()) == 0);
        assert(dec_value(dec_digits(n)) == n);
    } else {
        lemma_dec_digits_value(n / 10);
        assert(dec_digits(n).drop_last() =~= dec_digits(n / 10));
        assert(dec_digits(n).last() == crate::text::digit_char(n % 10));
        assert(dec_value(dec_digits(n)) == dec_value(dec_digits(n / 10)) * 10 + (n % 10));
    }
}

/// A decimal digit is an ordinary token character: not whitespace, not
/// a delimiter, not the start of another token kind.
proof fn lemma_digit_plain(c: char)
    requires
        '0' <= c <= '9',
    ensures
        !crate::parser::is_space_char(c),
        c != ';' && c != '(' && c != ')' && c != '\'' && c != '`' && c != ',' && c != '"' && c
            != '-' && c != '.',
        crate::parser::is_digit_char(c),
{
}

/// Scanning a number token over an all-digit tail runs to the end.
proof fn lemma_scan_digits(s: Seq<char>, i: int)
    requires
        0 <= i <= s.len(),
        forall|k: int| i <= k < s.len() ==> '0' <= #[trigger] s[k] <= '9',
    ensures
        crate::parser::scan_num_end(s, i) == s.len(),
    decreases s.len() - i,
{
    if i < s.len() {
        lemma_scan_digits(s, i + 1);
    }
}

/// An all-digit token holds no dots.
proof fn lemma_no_dots(s: Seq<char>)
    requires
        crate::text::all_digits(s),
    ensures
        crate::parser::count_dots(s) == 0,
    decreases s.len(),
{
    if s.len() > 0 {
        assert(crate::text::all_digits(s.drop_last())) by {
            assert(forall|i: int|
                0 <= i < s.drop_last().len() ==> s.drop_last()[i] == #[trigger] s[i]);
        }
        lemma_no_dots(s.drop_last());
    }
}

/// Printing an integer and reading the text back yields the integer: the
/// decimal form of any `i64` parses to exactly that number, through the
/// whole of `read`, in any environment.
pub proof fn lemma_read_integer(n: i64, env: EnvView)
    ensures
        crate::parser::read_spec(crate::text::dec_int(n as int), env) == (
            Ok::<ExprView, Seq<char>>(ExprView::Number(n)),
            env.macros,
        ),
{
    let s = crate::text::dec_int(n as int);
    if n >= 0 {
        let mag = n as nat;
        lemma_dec_digits_value(mag);
        assert(s == dec_digits(mag));
        assert('0' <= s[0] <= '9');
        lemma_digit_plain(s[0]);
        assert(crate::parser::skip_ws(s, 0) == 0);
        lemma_scan_digits(s, 0);
        let token = s.subrange(0, s.len() as int);
        assert(token =~= s);
        lemma_no_dots(token);
        assert(crate::parser::token_int(token) == n);
        let step = crate::parser::parse_expr_spec(s, 0, env.macros);
        assert(step.result == Ok::<(ExprView, int), Seq<char>>(
            (ExprView::Number(n), s.len() as int),
        ));
        assert(step.macros == env.macros);
        assert(crate::parser::skip_ws(s, s.len() as int) == s.len());
        assert(crate::macro_expander::expand_macro_spec(
            ExprView::Number(n),
            env.macros,
            crate::macro_expander::MACRO_FUEL as nat,
        ) == Ok::<ExprView, Seq<char>>(ExprView::Number(n)));
    } else {
        let mag = (-(n as int)) as nat;
        lemma_dec_digits_value(mag);
        assert(s == seq!['-'] + dec_digits(mag));
        assert(s[0] == '-');
        assert(s.len() == 1 + dec_digits(mag).len());
        assert(forall|k: int| 1 <= k < s.len() ==> '0' <= #[trigger] s[k] <= '9') by {
            assert(forall|k: int|
                1 <= k < s.len() ==> s[k] == #[trigger] dec_digits(mag)[k - 1]);
        }
        assert('0' <= s[1] <= '9');
        lemma_digit_plain(s[1]);
        assert(!crate::parser::is_space_char('-') && '-' != ';');
        assert(crate::parser::skip_ws(s, 0) == 0);
        lemma_scan_digits(s, 1);
        let token = s.subrange(1, s.len() as int);
        assert(token =~= dec_digits(mag));
        lemma_no_dots(token);
        assert(crate::parser::token_int(token) == mag);
        assert(mag <= 0x8000_0000_0000_0000);
        let step = crate::parser::parse_expr_spec(s, 0, env.macros);
        assert(step.result == Ok::<(ExprView, int), Seq<char>>(
            (ExprView::Number(n), s.len() as int),
        ));
        assert(step.macros == env.macros);
        assert(crate::parser::skip_ws(s, s.len() as int) == s.len());
        assert(crate::macro_expander::expand_macro_spec(
            ExprView::Number(n),
            env.macros,
            crate::macro_expander::MACRO_FUEL as nat,
        ) == Ok::<ExprView, Seq<char>>(ExprView::Number(n)));
    }
}

/// A symbol whose printed name reads back as the same symbol: nonempty,
/// free of whitespace and parentheses, not starting like another token
/// kind, not a lone or number-like minus, and not the lone dot.
pub open spec fn plain_symbol(s: Seq<char>) -> bool {
    &&& s.len() > 0
    &&& (forall|k: int|
        0 <= k < s.len() ==> !crate::parser::is_space_char(#[trigger] s[k]) && s[k] != '(' && s[k]
            != ')')
    &&& s[0] != '"' && s[0] != '\'' && s[0] != '`' && s[0] != ',' && s[0] != ';'
    &&& !crate::parser::is_digit_char(s[0])
    &&& (s[0] == '-' ==> s.len() >= 2 && !crate::parser::is_digit_char(s[1]) && s[1] != '.')
    &&& !(s.len() == 1 && s[0] == '.')
}

/// The printable forms: integers, plain symbols, strings, and proper
/// lists of printable forms that are not `defmacro` forms. Floats are
/// left out for their formatting variance; dotted pairs and macro
/// values do not read back.
pub open spec fn printable(e: ExprView) -> bool
    decreases e, 1int,
{
    match e {
        ExprView::Number(_) => true,
        ExprView::Symbol(s) => plain_symbol(s),
        ExprView::Str(_) => true,
        ExprView::List(es) => {
            &&& !(es.len() > 0 && es[0] == ExprView::Symbol("defmacro"@))
            &&& printable_items(es)
        },
        _ => false,
    }
}

pub open spec fn printable_items(es: Seq<ExprView>) -> bool
    decreases es, 2int,
{
    es.len() == 0 || (printable(es[0]) && printable_items(es.drop_first()))
}

/// The escaped body of a string, decomposed from the front.
proof fn lemma_escape_head(s: Seq<char>)
    requires
        s.len() > 0,
    ensures
        crate::expression::escape_str(s) == crate::expression::escape_char(s[0])
            + crate::expression::escape_str(s.drop_first()),
    decreases s.len(),
{
    if s.len() == 1 {
        assert(s.drop_last() =~= Seq::<char>::empty());
        assert(s.drop_first() =~= Seq::<char>::empty());
        assert(crate::expression::escape_str(s) =~= crate::expression::escape_char(s[0])
            + crate::expression::escape_str(s.drop_first()));
    } else {
        lemma_escape_head(s.drop_last());
        assert(s.drop_last().drop_first() =~= s.drop_first().drop_last());
        assert(s.drop_last()[0] == s[0]);
        assert(s.drop_first().last() == s.last());
        assert(crate::expression::escape_char(s[0]) + crate::expression::escape_str(
            s.drop_first(),
        ) =~= (crate::expression::escape_char(s[0]) + crate::expression::escape_str(
            s.drop_first().drop_last(),
        )) + crate::expression::escape_char(s.last()));
    }
}

/// A number scan stops exactly at the first non-token character.
proof fn lemma_scan_num_range(s: Seq<char>, i: int, end: int)
    requires
        0 <= i <= end <= s.len(),
        forall|k: int| i <= k < end ==> crate::parser::is_digit_char(#[trigger] s[k]),
        end < s.len() ==> !(crate::parser::is_digit_char(s[end]) || s[end] == '.'),
    ensures
        crate::parser::scan_num_end(s, i) == end,
    decreases end - i,
{
    if i < end {
        lemma_scan_num_range(s, i + 1, end);
    }
}

/// A symbol scan stops exactly at the first delimiter.
proof fn lemma_scan_sym_range(s: Seq<char>, i: int, end: int)
    requires
        0 <= i <= end <= s.len(),
        forall|k: int|
            i <= k < end ==> !crate::parser::is_space_char(#[trigger] s[k]) && s[k] != '(' && s[k]
                != ')',
        end < s.len() ==> (crate::parser::is_space_char(s[end]) || s[end] == '(' || s[end] == ')'),
    ensures
        crate::parser::scan_sym_end(s, i) == end,
    decreases end - i,
{
    if i < end {
        lemma_scan_sym_range(s, i + 1, end);
    }
}

/// Reading the escaped body of a string, followed by its closing quote,
/// recovers the string.
proof fn lemma_read_escaped(s: Seq<char>, i: int, inner: Seq<char>)
    requires
        0 <= i,
        i + crate::expression::escape_str(inner).len() + 1 <= s.len(),
        s.subrange(i, i + crate::expression::escape_str(inner).len() as int)
            == crate::expression::escape_str(inner),
        s[i + crate::expression::escape_str(inner).len()] == '"',
    ensures
        crate::parser::read_string_body(s, i) == Ok::<(Seq<char>, int), Seq<char>>(
            (inner, i + crate::expression::escape_str(inner).len() + 1),
        ),
    decreases inner.len(),
{
    let esc = crate::expression::escape_str(inner);
    assert forall|k: int| i <= k < i + esc.len() implies s[k] == esc[k - i] by {
        assert(s.subrange(i, i + esc.len() as int)[k - i] == s[k]);
    }
    if inner.len() == 0 {
        assert(esc =~= Seq::<char>::empty());
        assert(s[i] == '"');
        assert(Seq::<char>::empty() =~= inner);
    } else {
        lemma_escape_head(inner);
        let c = inner[0];
        let rest = inner.drop_first();
        let resc = crate::expression::escape_str(rest);
        let hd = crate::expression::escape_char(c);
        assert(esc == hd + resc);
        let d = hd.len() as int;
        assert forall|j: int|
            0 <= j < resc.len() implies s.subrange(i + d, i + d + resc.len() as int)[j]
                == resc[j] by {
            assert(s.subrange(i + d, i + d + resc.len() as int)[j] == s[i + d + j]);
            assert(s[i + d + j] == esc[d + j]);
            assert(esc[d + j] == resc[j]);
        }
        assert(s.subrange(i + d, i + d + resc.len() as int) =~= resc);
        assert(s[i + d + resc.len()] == '"');
        lemma_read_escaped(s, i + d, rest);
        if c == '\\' || c == '"' {
            assert(hd == seq!['\\', c]);
            assert(s[i] == esc[0]);
            assert(esc[0] == '\\');
            assert(s[i + 1] == esc[1]);
            assert(esc[1] == c);
            assert(seq![c] + rest =~= inner);
        } else {
            assert(hd == seq![c]);
            assert(s[i] == c);
            assert(seq![c] + rest =~= inner);
        }
    }
}

/// An all-digit region counts no dots.
proof fn lemma_no_dots_region(t: Seq<char>)
    requires
        forall|k: int| 0 <= k < t.len() ==> crate::parser::is_digit_char(#[trigger] t[k]),
    ensures
        crate::parser::count_dots(t) == 0,
    decreases t.len(),
{
    if t.len() > 0 {
        assert(forall|k: int|
            0 <= k < t.drop_last().len() ==> crate::parser::is_digit_char(
                #[trigger] t.drop_last()[k],
            ) || t.drop_last()[k] == t[k]);
        assert(forall|k: int|
            0 <= k < t.drop_last().len() ==> t.drop_last()[k] == #[trigger] t[k]);
        lemma_no_dots_region(t.drop_last());
    }
}

/// The printed form of a printable expression is nonempty, starts with a
/// character that ends any whitespace skip, and never starts with a
/// closing parenthesis.
proof fn lemma_print_head(e: ExprView)
    requires
        printable(e),
    ensures
        print_len(e) >= 1,
        !crate::parser::is_space_char(crate::expression::print_expr(e)[0]),
        crate::expression::print_expr(e)[0] != ';',
        crate::expression::print_expr(e)[0] != ')',
    decreases e,
{
    match e {
        ExprView::Number(n) => {
            lemma_dec_digits_value(if n >= 0 {
                n as nat
            } else {
                (-(n as int)) as nat
            });
            if n >= 0 {
                assert(crate::expression::print_expr(e)[0] == dec_digits(n as nat)[0]);
                assert(crate::parser::is_digit_char(dec_digits(n as nat)[0]));
            } else {
                assert(crate::expression::print_expr(e)[0] == '-');
            }
        },
        ExprView::Symbol(s) => {},
        ExprView::Str(s) => {
            assert(crate::expression::print_expr(e) == seq!['"']
                + crate::expression::escape_str(s) + seq!['"']);
            assert(crate::expression::print_expr(e)[0] == '"');
        },
        ExprView::List(es) => {
            assert(crate::expression::print_expr(e)[0] == '(');
        },
        _ => {},
    }
}

/// Shorthand for the printed length.
pub open spec fn print_len(e: ExprView) -> int {
    crate::expression::print_expr(e).len() as int
}

/// The space-separated join, decomposed from the front.
proof fn lemma_join_head(es: Seq<ExprView>)
    requires
        es.len() >= 2,
    ensures
        crate::expression::join_printed(es) == crate::expression::print_expr(es[0]) + seq![' ']
            + crate::expression::join_printed(es.drop_first()),
    decreases es.len(),
{
    if es.len() == 2 {
        assert(es.drop_last() =~= seq![es[0]]);
        assert(es.drop_first() =~= seq![es[1]]);
        assert(crate::expression::join_printed(seq![es[0]]) == crate::expression::print_expr(
            es[0],
        ));
        assert(crate::expression::join_printed(seq![es[1]]) == crate::expression::print_expr(
            es[1],
        ));
        assert(crate::expression::join_printed(es) == crate::expression::print_expr(es[0])
            + seq![' '] + crate::expression::print_expr(es[1]));
    } else {
        lemma_join_head(es.drop_last());
        assert(es.drop_last().drop_first() =~= es.drop_first().drop_last());
        assert(es.drop_last()[0] == es[0]);
        assert(es.drop_first().last() == es.last());
        assert(crate::expression::join_printed(es) == crate::expression::join_printed(
            es.drop_last(),
        ) + seq![' '] + crate::expression::print_expr(es.last()));
        assert(crate::expression::join_printed(es.drop_first()) == crate::expression::join_printed(
            es.drop_first().drop_last(),
        ) + seq![' '] + crate::expression::print_expr(es.drop_first().last()));
        assert(crate::expression::print_expr(es[0]) + seq![' ']
            + crate::expression::join_printed(es.drop_first()) =~= (crate::expression::print_expr(
            es[0],
        ) + seq![' '] + crate::expression::join_printed(es.drop_first().drop_last())) + seq![' ']
            + crate::expression::print_expr(es.drop_first().last()));
    }
}

/// The text a list body prints as: its joined elements and the closing
/// parenthesis.
pub open spec fn items_seg(es: Seq<ExprView>) -> Seq<char> {
    if es.len() == 0 {
        seq![')']
    } else {
        crate::expression::join_printed(es) + seq![')']
    }
}

/// The number case of the round trip: the decimal text of an integer
/// parses back to it.
proof fn lemma_parse_printed_number(s: Seq<char>, i: int, n: i64, m: Map<Seq<char>, ExprView>)
    requires
        0 <= i,
        i + print_len(ExprView::Number(n)) <= s.len(),
        s.subrange(i, i + print_len(ExprView::Number(n))) == crate::expression::print_expr(
            ExprView::Number(n),
        ),
        i + print_len(ExprView::Number(n)) < s.len() ==> (s[i + print_len(ExprView::Number(n))]
            == ' ' || s[i + print_len(ExprView::Number(n))] == ')'),
    ensures
        crate::parser::parse_expr_spec(s, i, m) == (crate::parser::ParseStep {
            result: Ok::<(ExprView, int), Seq<char>>(
                (ExprView::Number(n), i + print_len(ExprView::Number(n))),
            ),
            macros: m,
        }),
{
    let e = ExprView::Number(n);
    let p = crate::expression::print_expr(e);
    let end = i + print_len(e);
    lemma_print_head(e);
    assert forall|k: int| i <= k < end implies s[k] == p[k - i] by {
        assert(s.subrange(i, end)[k - i] == s[k]);
    }
    assert(s[i] == p[0]);
    assert(crate::parser::skip_ws(s, i) == i);
    if n >= 0 {
        let mag = n as nat;
        lemma_dec_digits_value(mag);
        assert(p == dec_digits(mag));
        assert forall|k: int| i <= k < end implies crate::parser::is_digit_char(s[k]) by {
            assert(s[k] == dec_digits(mag)[k - i]);
            assert('0' <= dec_digits(mag)[k - i] <= '9');
        }
        lemma_scan_num_range(s, i, end);
        let token = s.subrange(i, end);
        assert(token == dec_digits(mag));
        lemma_no_dots_region(token);
        assert(crate::parser::token_int(token) == n);
    } else {
        let mag = (-(n as int)) as nat;
        lemma_dec_digits_value(mag);
        assert(p == seq!['-'] + dec_digits(mag));
        assert(p[0] == '-');
        assert(s[i] == '-');
        assert(p.len() == 1 + dec_digits(mag).len());
        assert forall|k: int| i + 1 <= k < end implies crate::parser::is_digit_char(s[k]) by {
            assert(s[k] == p[k - i]);
            assert(p[k - i] == dec_digits(mag)[k - i - 1]);
            assert('0' <= dec_digits(mag)[k - i - 1] <= '9');
        }
        assert(crate::parser::is_digit_char(s[i + 1]));
        lemma_scan_num_range(s, i + 1, end);
        let token = s.subrange(i + 1, end);
        assert forall|j: int| 0 <= j < token.len() implies token[j] == dec_digits(mag)[j] by {
            assert(token[j] == s[i + 1 + j]);
            assert(s[i + 1 + j] == p[j + 1]);
        }
        assert(token =~= dec_digits(mag));
        lemma_no_dots_region(token);
        assert(crate::parser::token_int(token) == mag);
        assert(mag <= 0x8000_0000_0000_0000);
    }
}

/// The symbol case of the round trip.
proof fn lemma_parse_printed_symbol(
    s: Seq<char>,
    i: int,
    sym: Seq<char>,
    m: Map<Seq<char>, ExprView>,
)
    requires
        plain_symbol(sym),
        0 <= i,
        i + sym.len() <= s.len(),
        s.subrange(i, i + sym.len() as int) == sym,
        i + sym.len() < s.len() ==> (s[i + sym.len()] == ' ' || s[i + sym.len()] == ')'),
    ensures
        crate::parser::parse_expr_spec(s, i, m) == (crate::parser::ParseStep {
            result: Ok::<(ExprView, int), Seq<char>>(
                (ExprView::Symbol(sym), i + sym.len() as int),
            ),
            macros: m,
        }),
{
    let end = i + sym.len() as int;
    assert forall|k: int| i <= k < end implies s[k] == sym[k - i] by {
        assert(s.subrange(i, end)[k - i] == s[k]);
    }
    assert(s[i] == sym[0]);
    assert(crate::parser::skip_ws(s, i) == i);
    assert forall|k: int|
        i <= k < end implies !crate::parser::is_space_char(s[k]) && s[k] != '(' && s[k]
            != ')' by {
        assert(s[k] == sym[k - i]);
    }
    if sym[0] == '-' {
        assert(s[i] == '-');
        assert(s[i + 1] == sym[1]);
        lemma_scan_sym_range(s, i + 1, end);
        assert(s.subrange(i, end) == sym);
    } else {
        lemma_scan_sym_range(s, i, end);
        assert(s.subrange(i, end) == sym);
        if s[i] == '.' {
            // The lone dot is excluded from plain symbols, so the name
            // has at least a second character.
            assert(sym[0] == '.');
            assert(sym.len() >= 2);
            assert(end >= i + 2);
        }
        assert(!(crate::parser::scan_sym_end(s, i) == i + 1 && s[i] == '.'));
    }
}

/// The string case of the round trip: the printed literal, its body
/// escaped, reads back to the same string.
proof fn lemma_parse_printed_string(
    s: Seq<char>,
    i: int,
    inner: Seq<char>,
    m: Map<Seq<char>, ExprView>,
)
    requires
        0 <= i,
        i + print_len(ExprView::Str(inner)) <= s.len(),
        s.subrange(i, i + print_len(ExprView::Str(inner))) == crate::expression::print_expr(
            ExprView::Str(inner),
        ),
    ensures
        crate::parser::parse_expr_spec(s, i, m) == (crate::parser::ParseStep {
            result: Ok::<(ExprView, int), Seq<char>>(
                (ExprView::Str(inner), i + print_len(ExprView::Str(inner))),
            ),
            macros: m,
        }),
{
    let e = ExprView::Str(inner);
    let p = crate::expression::print_expr(e);
    let esc = crate::expression::escape_str(inner);
    let end = i + print_len(e);
    assert(p == seq!['"'] + esc + seq!['"']);
    assert(p.len() == esc.len() + 2);
    assert forall|k: int| i <= k < end implies s[k] == p[k - i] by {
        assert(s.subrange(i, end)[k - i] == s[k]);
    }
    assert(s[i] == '"');
    assert(crate::parser::skip_ws(s, i) == i);
    assert forall|j: int|
        0 <= j < esc.len() implies s.subrange(i + 1, i + 1 + esc.len() as int)[j] == esc[j] by {
        assert(s.subrange(i + 1, i + 1 + esc.len() as int)[j] == s[i + 1 + j]);
        assert(s[i + 1 + j] == p[j + 1]);
    }
    assert(s.subrange(i + 1, i + 1 + esc.len() as int) =~= esc);
    assert(s[i + 1 + esc.len()] == p[esc.len() as int + 1]);
    assert(p[esc.len() as int + 1] == '"');
    lemma_read_escaped(s, i + 1, inner);
}

/// Parsing the printed form of a printable expression at position `i`
/// yields the expression back, consuming exactly its text, provided the
/// character after it (if any) is a space or a closing parenthesis.
pub proof fn lemma_parse_printed_at(s: Seq<char>, i: int, e: ExprView, m: Map<Seq<char>, ExprView>)
    requires
        printable(e),
        0 <= i,
        i + print_len(e) <= s.len(),
        s.subrange(i, i + print_len(e)) == crate::expression::print_expr(e),
        i + print_len(e) < s.len() ==> (s[i + print_len(e)] == ' ' || s[i + print_len(e)] == ')'),
    ensures
        crate::parser::parse_expr_spec(s, i, m) == (crate::parser::ParseStep {
            result: Ok::<(ExprView, int), Seq<char>>((e, i + print_len(e))),
            macros: m,
        }),
    decreases e, 1int,
{
    match e {
        ExprView::Number(n) => {
            lemma_parse_printed_number(s, i, n, m);
        },
        ExprView::Symbol(sym) => {
            lemma_parse_printed_symbol(s, i, sym, m);
        },
        ExprView::Str(inner) => {
            lemma_parse_printed_string(s, i, inner, m);
        },
        ExprView::List(es) => {
            let p = crate::expression::print_expr(e);
            let seg = items_seg(es);
            lemma_print_head(e);
            assert forall|k: int| i <= k < i + print_len(e) implies s[k] == p[k - i] by {
                assert(s.subrange(i, i + print_len(e))[k - i] == s[k]);
            }
            if es.len() == 0 {
                assert(crate::expression::join_printed(es) == Seq::<char>::empty());
            }
            assert(p =~= seq!['('] + seg);
            assert(s[i] == p[0]);
            assert(p[0] == '(');
            assert(crate::parser::skip_ws(s, i) == i);
            assert forall|j: int|
                0 <= j < seg.len() implies s.subrange(i + 1, i + 1 + seg.len() as int)[j]
                    == seg[j] by {
                assert(s.subrange(i + 1, i + 1 + seg.len() as int)[j] == s[i + 1 + j]);
                assert(s[i + 1 + j] == p[j + 1]);
            }
            assert(s.subrange(i + 1, i + 1 + seg.len() as int) =~= seg);
            assert(Seq::<ExprView>::empty() + es =~= es);
            lemma_parse_items_printed(s, i + 1, 0, es, m, Seq::empty());
        },
        _ => {},
    }
}

/// Parsing the printed elements of a list (preceded by one separating
/// space when `d` is one) accumulates exactly those elements and stops
/// after the closing parenthesis.
pub proof fn lemma_parse_items_printed(
    s: Seq<char>,
    i: int,
    d: int,
    es: Seq<ExprView>,
    m: Map<Seq<char>, ExprView>,
    acc: Seq<ExprView>,
)
    requires
        printable_items(es),
        d == 0 || d == 1,
        d == 1 ==> i < s.len() && s[i] == ' ',
        0 <= i,
        i + d + items_seg(es).len() <= s.len(),
        s.subrange(i + d, i + d + items_seg(es).len()) == items_seg(es),
        (acc + es).len() == 0 || (acc + es)[0] != ExprView::Symbol("defmacro"@),
    ensures
        crate::parser::parse_items_spec(s, i, m, acc) == (crate::parser::ParseStep {
            result: Ok::<(ExprView, int), Seq<char>>(
                (ExprView::List(acc + es), i + d + items_seg(es).len()),
            ),
            macros: m,
        }),
    decreases es, 2int,
{
    let seg = items_seg(es);
    let start = i + d;
    assert forall|k: int| start <= k < start + seg.len() implies s[k] == seg[k - start] by {
        assert(s.subrange(start, start + seg.len())[k - start] == s[k]);
    }
    if es.len() == 0 {
        assert(seg == seq![')']);
        assert(s[start] == ')');
        assert(crate::parser::skip_ws(s, i) == start);
        assert(acc + es =~= acc);
        if acc.len() > 0 {
            assert((acc + es)[0] == acc[0]);
        }
    } else {
        let e0 = es[0];
        let p0 = crate::expression::print_expr(e0);
        let rest = es.drop_first();
        assert(printable(e0) && printable_items(rest));
        lemma_print_head(e0);
        if es.len() == 1 {
            assert(crate::expression::join_printed(es) == p0);
            assert(seg =~= p0 + seq![')']);
        } else {
            lemma_join_head(es);
            assert(seg =~= p0 + seq![' '] + items_seg(rest));
        }
        assert(s[start] == seg[0]);
        assert(seg[0] == p0[0]);
        assert(crate::parser::skip_ws(s, i) == start);
        assert(s[start] != ')');
        let k = start + p0.len();
        assert forall|j: int| 0 <= j < p0.len() implies s.subrange(start, k)[j] == p0[j] by {
            assert(s.subrange(start, k)[j] == s[start + j]);
            assert(s[start + j] == seg[j]);
            assert(seg[j] == p0[j]);
        }
        assert(s.subrange(start, k) =~= p0);
        if es.len() == 1 {
            assert(s[k] == seg[p0.len() as int]);
            assert(seg[p0.len() as int] == ')');
        } else {
            assert(s[k] == seg[p0.len() as int]);
            assert(seg[p0.len() as int] == ' ');
        }
        lemma_parse_printed_at(s, start, e0, m);
        let step = crate::parser::parse_expr_spec(s, start, m);
        assert(step.result == Ok::<(ExprView, int), Seq<char>>((e0, k)));
        assert(k > start >= i);
        assert(k <= s.len());
        let acc2 = acc.push(e0);
        assert(acc2 + rest =~= acc + es);
        assert((acc2 + rest).len() > 0);
        assert((acc2 + rest)[0] == (acc + es)[0]);
        if es.len() == 1 {
            assert(rest =~= Seq::<ExprView>::empty());
            assert(items_seg(rest) == seq![')']);
            assert forall|j: int|
                0 <= j < 1 implies s.subrange(k, k + 1)[j] == items_seg(rest)[j] by {
                assert(s.subrange(k, k + 1)[j] == s[k + j]);
            }
            assert(s.subrange(k, k + 1) =~= items_seg(rest));
            lemma_parse_items_printed(s, k, 0, rest, m, acc2);
        } else {
            assert(s[k] == ' ');
            let rseg = items_seg(rest);
            assert forall|j: int|
                0 <= j < rseg.len() implies s.subrange(k + 1, k + 1 + rseg.len())[j] == rseg[j] by {
                assert(s.subrange(k + 1, k + 1 + rseg.len())[j] == s[k + 1 + j]);
                assert(s[k + 1 + j] == seg[p0.len() + 1 + j]);
                assert(seg[p0.len() + 1 + j] == rseg[j]);
            }
            assert(s.subrange(k + 1, k + 1 + rseg.len()) =~= rseg);
            lemma_parse_items_printed(s, k, 1, rest, m, acc2);
        }
        assert(crate::parser::parse_items_spec(s, i, m, acc) == crate::parser::parse_items_spec(
            s,
            k,
            step.macros,
            acc2,
        ));
        assert(i + d + seg.len() == k + (if es.len() == 1 { 0int } else { 1int }) + items_seg(
            rest,
        ).len());
    }
}

/// Reading the printed form of a printable, macro-free expression yields
/// the expression back, the environment untouched.
pub proof fn lemma_read_printed(e: ExprView, env: EnvView)
    requires
        printable(e),
        macro_free(e, env.macros),
    ensures
        crate::parser::read_spec(crate::expression::print_expr(e), env) == (
            Ok::<ExprView, Seq<char>>(e),
            env.macros,
        ),
{
    let s = crate::expression::print_expr(e);
    lemma_print_head(e);
    assert(crate::parser::skip_ws(s, 0) == 0);
    assert(s.subrange(0, s.len() as int) =~= s);
    lemma_parse_printed_at(s, 0, e, env.macros);
    assert(crate::parser::skip_ws(s, s.len() as int) == s.len());
    lemma_expand_macro_free(e, env.macros, crate::macro_expander::MACRO_FUEL as nat);
}

/// No macro call occurs anywhere in `e`.
pub open spec fn macro_free(e: ExprView, macros: Map<Seq<char>, ExprView>) -> bool
    decreases e, 1int,
{
    match e {
        ExprView::List(items) => {
            &&& !(items.len() > 0 && items[0] is Symbol && macros.contains_key(
                items[0]->Symbol_0,
            ))
            &&& macro_free_items(items, macros)
        },
        _ => true,
    }
}

pub open spec fn macro_free_items(items: Seq<ExprView>, macros: Map<Seq<char>, ExprView>) -> bool
    decreases items, 2int,
{
    if items.len() == 0 {
        true
    } else {
        macro_free(items[0], macros) && macro_free_items(items.drop_first(), macros)
    }
}

/// Macro expansion leaves a macro-free form untouched; in particular it
/// is idempotent on such forms.
pub proof fn lemma_expand_macro_free(e: ExprView, macros: Map<Seq<char>, ExprView>, fuel: nat)
    requires
        fuel >= 1,
        macro_free(e, macros),
    ensures
        expand_macro_spec(e, macros, fuel) == Ok::<ExprView, Seq<char>>(e),
    decreases e, 1int,
{
    match e {
        ExprView::List(items) => {
            lemma_expand_items_macro_free(items, macros, fuel);
        },
        _ => {},
    }
}

pub proof fn lemma_expand_items_macro_free(
    items: Seq<ExprView>,
    macros: Map<Seq<char>, ExprView>,
    fuel: nat,
)
    requires
        fuel >= 1,
        macro_free_items(items, macros),
    ensures
        expand_items_spec(items, macros, fuel) == Ok::<Seq<ExprView>, Seq<char>>(items),
    decreases items, 2int,
{
    if items.len() == 0 {
        assert(expand_items_spec(items, macros, fuel) == Ok::<Seq<ExprView>, Seq<char>>(
            Seq::empty(),
        ));
        assert(items =~= Seq::<ExprView>::empty());
    } else {
        lemma_expand_macro_free(items[0], macros, fuel);
        lemma_expand_items_macro_free(items.drop_first(), macros, fuel);
        assert(seq![items[0]] + items.drop_first() =~= items);
    }
}

} // verus!
