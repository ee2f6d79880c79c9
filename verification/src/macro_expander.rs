//! Macro handling: `defmacro` forms are installed by the reader through
//! `parse_defmacro`; `expand_macro` replaces macro calls in a parsed
//! expression by their substituted templates, resolving quasiquote and
//! unquote.
use crate::environment::{EnvView, Environment};
use crate::exception::LispError;
use crate::expression::{exprs_view, Expr, ExprView};
use crate::parser::parse_defmacro_spec;
use vstd::prelude::*;

verus! {

broadcast use
    crate::expression::lemma_exprs_view_len,
    crate::expression::lemma_exprs_view_index,
    vstd::seq::axiom_seq_index_decreases;

/// How deep macro re-expansion may recurse before it gives up;
/// circular macros are a user error, reported instead of recursed
/// into without bound.
pub const MACRO_FUEL: u64 = 1000;

/// The substitution map a macro call builds: parameters bound in order
/// to the raw argument expressions; parameters that are not symbols are
/// passed over.
pub open spec fn build_subst(params: Seq<ExprView>, args: Seq<ExprView>) -> Map<
    Seq<char>,
    ExprView,
>
    decreases params.len(),
{
    if params.len() == 0 || args.len() == 0 {
        Map::empty()
    } else {
        let rest = build_subst(params.drop_last(), args.drop_last());
        match params.last() {
            ExprView::Symbol(name) => rest.insert(name, args.last()),
            _ => rest,
        }
    }
}

/// Applies a substitution to a template: symbols in the map are replaced,
/// lists walked element-wise, and a `quasiquote` form hands its single
/// argument to quasiquote expansion.
pub open spec fn substitute_spec(template: ExprView, subst: Map<Seq<char>, ExprView>) -> Result<
    ExprView,
    Seq<char>,
>
    decreases template, 1int,
{
    match template {
        ExprView::Symbol(name) => {
            if subst.contains_key(name) {
                Ok(subst[name])
            } else {
                Ok(template)
            }
        },
        ExprView::List(items) => {
            if items.len() > 0 && items[0] == ExprView::Symbol("quasiquote"@) {
                if items.len() != 2 {
                    Err("quasiquote requires exactly one argument"@)
                } else {
                    quasi_spec(items[1], subst)
                }
            } else {
                match subst_items_spec(items, subst) {
                    Ok(done) => Ok(ExprView::List(done)),
                    Err(m) => Err(m),
                }
            }
        },
        _ => Ok(template),
    }
}

/// Element-wise substitution; the first error wins.
pub open spec fn subst_items_spec(items: Seq<ExprView>, subst: Map<Seq<char>, ExprView>) -> Result<
    Seq<ExprView>,
    Seq<char>,
>
    decreases items, 2int,
{
    if items.len() == 0 {
        Ok(Seq::empty())
    } else {
        match substitute_spec(items[0], subst) {
            Ok(v) => match subst_items_spec(items.drop_first(), subst) {
                Ok(rest) => Ok(seq![v] + rest),
                Err(m) => Err(m),
            },
            Err(m) => Err(m),
        }
    }
}

/// Quasiquote expansion: inside a quasiquoted form, `(unquote x)` with a
/// substituted symbol `x` splices the bound expression in; everything
/// else is walked recursively, substituting bare symbols.
pub open spec fn quasi_spec(e: ExprView, subst: Map<Seq<char>, ExprView>) -> Result<
    ExprView,
    Seq<char>,
>
    decreases e, 1int,
{
    match e {
        ExprView::List(items) => {
            match quasi_items_spec(items, subst) {
                Ok(done) => Ok(ExprView::List(done)),
                Err(m) => Err(m),
            }
        },
        ExprView::Symbol(name) => {
            if subst.contains_key(name) {
                Ok(subst[name])
            } else {
                Ok(e)
            }
        },
        _ => Ok(e),
    }
}

/// One element of a quasiquoted list.
pub open spec fn quasi_item_spec(item: ExprView, subst: Map<Seq<char>, ExprView>) -> Result<
    ExprView,
    Seq<char>,
>
    decreases item, 2int,
{
    match item {
        ExprView::List(inner) => {
            if inner.len() > 0 && inner[0] == ExprView::Symbol("unquote"@) {
                if inner.len() != 2 {
                    Err("unquote requires exactly one argument"@)
                } else {
                    match inner[1] {
                        ExprView::Symbol(name) => {
                            if subst.contains_key(name) {
                                Ok(subst[name])
                            } else {
                                quasi_spec(item, subst)
                            }
                        },
                        _ => quasi_spec(item, subst),
                    }
                }
            } else {
                quasi_spec(item, subst)
            }
        },
        _ => quasi_spec(item, subst),
    }
}

/// Element-wise quasiquote expansion; the first error wins.
pub open spec fn quasi_items_spec(items: Seq<ExprView>, subst: Map<Seq<char>, ExprView>) -> Result<
    Seq<ExprView>,
    Seq<char>,
>
    decreases items, 3int,
{
    if items.len() == 0 {
        Ok(Seq::empty())
    } else {
        match quasi_item_spec(items[0], subst) {
            Ok(v) => match quasi_items_spec(items.drop_first(), subst) {
                Ok(rest) => Ok(seq![v] + rest),
                Err(m) => Err(m),
            },
            Err(m) => Err(m),
        }
    }
}

/// Macro expansion: a list whose head names a stored macro is replaced by
/// its substituted template, and the replacement is expanded again; other
/// forms are walked element-wise.
pub open spec fn expand_macro_spec(
    ast: ExprView,
    macros: Map<Seq<char>, ExprView>,
    fuel: nat,
) -> Result<ExprView, Seq<char>>
    decreases fuel, ast, 1int,
{
    if fuel == 0 {
        Err("Macro expansion depth limit exceeded"@)
    } else {
        match ast {
            ExprView::List(items) => {
                if items.len() > 0 && items[0] is Symbol && macros.contains_key(
                    items[0]->Symbol_0,
                ) {
                    match macros[items[0]->Symbol_0] {
                        ExprView::Macro(params, template) => {
                            if params.len() != items.len() - 1 {
                                Err("Macro parameter count does not match argument count"@)
                            } else {
                                let subst = build_subst(params, items.drop_first());
                                match substitute_spec(*template, subst) {
                                    Ok(expanded) => expand_macro_spec(
                                        expanded,
                                        macros,
                                        (fuel - 1) as nat,
                                    ),
                                    Err(m) => Err(m),
                                }
                            }
                        },
                        _ => Err("Invalid macro"@),
                    }
                } else {
                    match expand_items_spec(items, macros, fuel) {
                        Ok(done) => Ok(ExprView::List(done)),
                        Err(m) => Err(m),
                    }
                }
            },
            _ => Ok(ast),
        }
    }
}

/// Element-wise macro expansion; the first error wins.
pub open spec fn expand_items_spec(
    items: Seq<ExprView>,
    macros: Map<Seq<char>, ExprView>,
    fuel: nat,
) -> Result<Seq<ExprView>, Seq<char>>
    decreases fuel, items, 2int,
{
    if fuel == 0 {
        Err("Macro expansion depth limit exceeded"@)
    } else if items.len() == 0 {
        Ok(Seq::empty())
    } else {
        match expand_macro_spec(items[0], macros, fuel) {
            Ok(v) => match expand_items_spec(items.drop_first(), macros, fuel) {
                Ok(rest) => Ok(seq![v] + rest),
                Err(m) => Err(m),
            },
            Err(m) => Err(m),
        }
    }
}

/// Applies a substitution to one template expression.
fn substitute(template: &Expr, subst: &crate::environment::Table) -> (r: Result<Expr, LispError>)
    ensures
        ({
            let out = substitute_spec(template@, subst@);
            match r {
                Ok(e) => out == Ok::<ExprView, Seq<char>>(e@),
                Err(err) => out is Err && err@ == out->Err_0,
            }
        }),
    decreases template, 1int,
{
    match template {
        Expr::Symbol(name) => {
            match subst.get(name.as_str()) {
                Some(v) => Ok(v.clone()),
                None => Ok(template.clone()),
            }
        },
        Expr::List(items) => {
            proof {
                assert(template@ == ExprView::List(exprs_view(items@)));
            }
            let head_is_quasi: bool = items.len() > 0 && (match &items[0] {
                Expr::Symbol(s) => {
                    proof {
                        assert(exprs_view(items@)[0int] == items@[0int]@);
                    }
                    crate::text::str_equal(s.as_str(), "quasiquote")
                },
                _ => false,
            });
            if head_is_quasi {
                if items.len() != 2 {
                    Err(LispError::new("quasiquote requires exactly one argument"))
                } else {
                    proof {
                        assert(exprs_view(items@)[1int] == items@[1int]@);
                        assert(decreases_to!(*template => *items));
                        assert(decreases_to!(items@ => items@[1int]));
                    }
                    quasi_expand(&items[1], subst)
                }
            } else {
                proof {
                    assert(decreases_to!(*template => *items));
                }
                match substitute_items(items, subst) {
                    Ok(done) => Ok(Expr::List(done)),
                    Err(err) => Err(err),
                }
            }
        },
        _ => Ok(template.clone()),
    }
}

/// Applies a substitution to each element of a list.
#[verifier::loop_isolation(false)]
fn substitute_items(items: &Vec<Expr>, subst: &crate::environment::Table) -> (r: Result<
    Vec<Expr>,
    LispError,
>)
    ensures
        ({
            let out = subst_items_spec(exprs_view(items@), subst@);
            match r {
                Ok(done) => out == Ok::<Seq<ExprView>, Seq<char>>(exprs_view(done@)),
                Err(err) => out is Err && err@ == out->Err_0,
            }
        }),
    decreases items@, 2int,
{
    let ghost views = exprs_view(items@);
    let mut done: Vec<Expr> = Vec::new();
    proof {
        assert(views.skip(0) =~= views);
        assert(exprs_view(done@) =~= Seq::<ExprView>::empty());
    }
    let mut i: usize = 0;
    while i < items.len()
        invariant
            i <= items@.len(),
            views == exprs_view(items@),
            subst_items_spec(views, subst@) == (match subst_items_spec(
                views.skip(i as int),
                subst@,
            ) {
                Ok(rest) => Ok::<Seq<ExprView>, Seq<char>>(exprs_view(done@) + rest),
                Err(m) => Err(m),
            }),
        decreases items@.len() - i,
    {
        proof {
            assert(views.skip(i as int)[0] == views[i as int]);
            assert(views[i as int] == items@[i as int]@);
            assert(decreases_to!(items@ => items@[i as int]));
        }
        let v = match substitute(&items[i], subst) {
            Ok(v) => v,
            Err(err) => {
                return Err(err);
            },
        };
        let ghost done_before = exprs_view(done@);
        done.push(v);
        proof {
            assert(exprs_view(done@) =~= done_before.push(v@));
            assert(views.skip(i as int).drop_first() =~= views.skip(i as int + 1));
            if subst_items_spec(views.skip(i as int + 1), subst@) is Ok {
                assert(done_before.push(v@) + subst_items_spec(
                    views.skip(i as int + 1),
                    subst@,
                )->Ok_0 =~= done_before + (seq![v@] + subst_items_spec(
                    views.skip(i as int + 1),
                    subst@,
                )->Ok_0));
            }
        }
        i += 1;
    }
    proof {
        assert(views.skip(items@.len() as int) =~= Seq::<ExprView>::empty());
        assert(exprs_view(done@) + Seq::<ExprView>::empty() =~= exprs_view(done@));
    }
    Ok(done)
}

/// Expands one quasiquoted expression.
fn quasi_expand(e: &Expr, subst: &crate::environment::Table) -> (r: Result<Expr, LispError>)
    ensures
        ({
            let out = quasi_spec(e@, subst@);
            match r {
                Ok(v) => out == Ok::<ExprView, Seq<char>>(v@),
                Err(err) => out is Err && err@ == out->Err_0,
            }
        }),
    decreases e, 1int,
{
    match e {
        Expr::List(items) => {
            proof {
                assert(e@ == ExprView::List(exprs_view(items@)));
                assert(decreases_to!(*e => *items));
            }
            match quasi_items(items, subst) {
                Ok(done) => Ok(Expr::List(done)),
                Err(err) => Err(err),
            }
        },
        Expr::Symbol(name) => {
            match subst.get(name.as_str()) {
                Some(v) => Ok(v.clone()),
                None => Ok(e.clone()),
            }
        },
        _ => Ok(e.clone()),
    }
}

/// Expands one element of a quasiquoted list: an `(unquote x)` with a
/// substituted symbol splices the binding in.
fn quasi_item(item: &Expr, subst: &crate::environment::Table) -> (r: Result<Expr, LispError>)
    ensures
        ({
            let out = quasi_item_spec(item@, subst@);
            match r {
                Ok(v) => out == Ok::<ExprView, Seq<char>>(v@),
                Err(err) => out is Err && err@ == out->Err_0,
            }
        }),
    decreases item, 2int,
{
    let unquote_form: bool = match item {
        Expr::List(inner) => {
            proof {
                assert(item@ == ExprView::List(exprs_view(inner@)));
            }
            inner.len() > 0 && (match &inner[0] {
                Expr::Symbol(s) => {
                    proof {
                        assert(exprs_view(inner@)[0int] == inner@[0int]@);
                    }
                    crate::text::str_equal(s.as_str(), "unquote")
                },
                _ => false,
            })
        },
        _ => false,
    };
    if unquote_form {
        match item {
            Expr::List(inner) => {
                if inner.len() != 2 {
                    return Err(LispError::new("unquote requires exactly one argument"));
                }
                proof {
                    assert(exprs_view(inner@)[1int] == inner@[1int]@);
                }
                match &inner[1] {
                    Expr::Symbol(name) => {
                        match subst.get(name.as_str()) {
                            Some(v) => Ok(v.clone()),
                            None => quasi_expand(item, subst),
                        }
                    },
                    _ => quasi_expand(item, subst),
                }
            },
            _ => quasi_expand(item, subst),
        }
    } else {
        quasi_expand(item, subst)
    }
}

/// Expands each element of a quasiquoted list.
#[verifier::loop_isolation(false)]
fn quasi_items(items: &Vec<Expr>, subst: &crate::environment::Table) -> (r: Result<
    Vec<Expr>,
    LispError,
>)
    ensures
        ({
            let out = quasi_items_spec(exprs_view(items@), subst@);
            match r {
                Ok(done) => out == Ok::<Seq<ExprView>, Seq<char>>(exprs_view(done@)),
                Err(err) => out is Err && err@ == out->Err_0,
            }
        }),
    decreases items@, 3int,
{
    let ghost views = exprs_view(items@);
    let mut done: Vec<Expr> = Vec::new();
    proof {
        assert(views.skip(0) =~= views);
        assert(exprs_view(done@) =~= Seq::<ExprView>::empty());
    }
    let mut i: usize = 0;
    while i < items.len()
        invariant
            i <= items@.len(),
            views == exprs_view(items@),
            quasi_items_spec(views, subst@) == (match quasi_items_spec(
                views.skip(i as int),
                subst@,
            ) {
                Ok(rest) => Ok::<Seq<ExprView>, Seq<char>>(exprs_view(done@) + rest),
                Err(m) => Err(m),
            }),
        decreases items@.len() - i,
    {
        proof {
            assert(views.skip(i as int)[0] == views[i as int]);
            assert(views[i as int] == items@[i as int]@);
            assert(decreases_to!(items@ => items@[i as int]));
        }
        let v = match quasi_item(&items[i], subst) {
            Ok(v) => v,
            Err(err) => {
                return Err(err);
            },
        };
        let ghost done_before = exprs_view(done@);
        done.push(v);
        proof {
            assert(exprs_view(done@) =~= done_before.push(v@));
            assert(views.skip(i as int).drop_first() =~= views.skip(i as int + 1));
            if quasi_items_spec(views.skip(i as int + 1), subst@) is Ok {
                assert(done_before.push(v@) + quasi_items_spec(
                    views.skip(i as int + 1),
                    subst@,
                )->Ok_0 =~= done_before + (seq![v@] + quasi_items_spec(
                    views.skip(i as int + 1),
                    subst@,
                )->Ok_0));
            }
        }
        i += 1;
    }
    proof {
        assert(views.skip(items@.len() as int) =~= Seq::<ExprView>::empty());
        assert(exprs_view(done@) + Seq::<ExprView>::empty() =~= exprs_view(done@));
    }
    Ok(done)
}

/// The fuel-counting expander behind `expand_macro`.
pub(crate) fn expand_fuel(ast: &Expr, env: &Environment, fuel: u64) -> (r: Result<Expr, LispError>)
    ensures
        ({
            let out = expand_macro_spec(ast@, env@.macros, fuel as nat);
            match r {
                Ok(e) => out == Ok::<ExprView, Seq<char>>(e@),
                Err(err) => out is Err && err@ == out->Err_0,
            }
        }),
    decreases fuel, ast, 1int,
{
    if fuel == 0 {
        return Err(LispError::new("Macro expansion depth limit exceeded"));
    }
    match ast {
        Expr::List(items) => {
            proof {
                assert(ast@ == ExprView::List(exprs_view(items@)));
            }
            let stored: Option<Expr> = if items.len() > 0 {
                match &items[0] {
                    Expr::Symbol(s) => {
                        proof {
                            assert(exprs_view(items@)[0int] == items@[0int]@);
                        }
                        match env.get_macro(s.as_str()) {
                            Some(m) => Some(m.clone()),
                            None => None,
                        }
                    },
                    _ => None,
                }
            } else {
                None
            };
            match stored {
                Some(mac) => {
                    match mac {
                        Expr::Macro(params, template) => {
                            proof {
                                assert(mac@ == ExprView::Macro(
                                    exprs_view(params@),
                                    Box::new(template@),
                                ));
                            }
                            if params.len() != items.len() - 1 {
                                return Err(
                                    LispError::new(
                                        "Macro parameter count does not match argument count",
                                    ),
                                );
                            }
                            let subst = build_subst_table(&params, items);
                            let expanded = match substitute(&*template, &subst) {
                                Ok(e) => e,
                                Err(err) => {
                                    return Err(err);
                                },
                            };
                            expand_fuel(&expanded, env, fuel - 1)
                        },
                        _ => Err(LispError::new("Invalid macro")),
                    }
                },
                None => {
                    proof {
                        assert(decreases_to!(*ast => *items));
                    }
                    match expand_items_fuel(items, env, fuel) {
                        Ok(done) => Ok(Expr::List(done)),
                        Err(err) => Err(err),
                    }
                },
            }
        },
        _ => Ok(ast.clone()),
    }
}

/// Builds the substitution table of a macro call: `items` is the whole
/// call, its head included.
#[verifier::loop_isolation(false)]
fn build_subst_table(params: &Vec<Expr>, items: &Vec<Expr>) -> (r: crate::environment::Table)
    requires
        items@.len() >= 1,
        params@.len() == items@.len() - 1,
    ensures
        r@ == build_subst(exprs_view(params@), exprs_view(items@).drop_first()),
{
    let ghost pviews = exprs_view(params@);
    let ghost aviews = exprs_view(items@).drop_first();
    let mut table = crate::environment::Table::new();
    proof {
        assert(pviews.take(0) =~= Seq::<ExprView>::empty());
        assert(aviews.take(0) =~= Seq::<ExprView>::empty());
        assert(table@ =~= build_subst(pviews.take(0), aviews.take(0)));
    }
    let mut i: usize = 0;
    while i < params.len()
        invariant
            i <= params@.len(),
            pviews == exprs_view(params@),
            aviews == exprs_view(items@).drop_first(),
            table@ == build_subst(pviews.take(i as int), aviews.take(i as int)),
        decreases params@.len() - i,
    {
        proof {
            assert(pviews.take(i as int + 1).drop_last() =~= pviews.take(i as int));
            assert(aviews.take(i as int + 1).drop_last() =~= aviews.take(i as int));
            assert(pviews.take(i as int + 1).last() == pviews[i as int]);
            assert(aviews.take(i as int + 1).last() == aviews[i as int]);
            assert(pviews[i as int] == params@[i as int]@);
            assert(aviews[i as int] == items@[i as int + 1]@);
        }
        match &params[i] {
            Expr::Symbol(name) => {
                proof {
                    assert(decreases_to!(items@ => items@[i as int + 1]));
                }
                table.set(name.clone(), items[i + 1].clone());
            },
            _ => {},
        }
        i += 1;
    }
    proof {
        assert(pviews.take(params@.len() as int) =~= pviews);
        assert(aviews.take(params@.len() as int) =~= aviews);
    }
    table
}

/// Expands each element of a list that is not a macro call.
#[verifier::loop_isolation(false)]
fn expand_items_fuel(items: &Vec<Expr>, env: &Environment, fuel: u64) -> (r: Result<
    Vec<Expr>,
    LispError,
>)
    requires
        fuel >= 1,
    ensures
        ({
            let out = expand_items_spec(exprs_view(items@), env@.macros, fuel as nat);
            match r {
                Ok(done) => out == Ok::<Seq<ExprView>, Seq<char>>(exprs_view(done@)),
                Err(err) => out is Err && err@ == out->Err_0,
            }
        }),
    decreases fuel, items@, 2int,
{
    let ghost views = exprs_view(items@);
    let mut done: Vec<Expr> = Vec::new();
    proof {
        assert(views.skip(0) =~= views);
        assert(exprs_view(done@) =~= Seq::<ExprView>::empty());
    }
    let mut i: usize = 0;
    while i < items.len()
        invariant
            i <= items@.len(),
            views == exprs_view(items@),
            fuel >= 1,
            expand_items_spec(views, env@.macros, fuel as nat) == (match expand_items_spec(
                views.skip(i as int),
                env@.macros,
                fuel as nat,
            ) {
                Ok(rest) => Ok::<Seq<ExprView>, Seq<char>>(exprs_view(done@) + rest),
                Err(m) => Err(m),
            }),
        decreases items@.len() - i,
    {
        proof {
            assert(views.skip(i as int)[0] == views[i as int]);
            assert(views[i as int] == items@[i as int]@);
            assert(decreases_to!(items@ => items@[i as int]));
        }
        let v = match expand_fuel(&items[i], env, fuel) {
            Ok(v) => v,
            Err(err) => {
                return Err(err);
            },
        };
        let ghost done_before = exprs_view(done@);
        done.push(v);
        proof {
            assert(exprs_view(done@) =~= done_before.push(v@));
            assert(views.skip(i as int).drop_first() =~= views.skip(i as int + 1));
            if expand_items_spec(views.skip(i as int + 1), env@.macros, fuel as nat) is Ok {
                assert(done_before.push(v@) + expand_items_spec(
                    views.skip(i as int + 1),
                    env@.macros,
                    fuel as nat,
                )->Ok_0 =~= done_before + (seq![v@] + expand_items_spec(
                    views.skip(i as int + 1),
                    env@.macros,
                    fuel as nat,
                )->Ok_0));
            }
        }
        i += 1;
    }
    proof {
        assert(views.skip(items@.len() as int) =~= Seq::<ExprView>::empty());
        assert(exprs_view(done@) + Seq::<ExprView>::empty() =~= exprs_view(done@));
    }
    Ok(done)
}

pub struct MacroExpander;

impl MacroExpander {
    /// Replaces every macro call in `ast` by its substituted template,
    /// re-expanding until no macro call is left; the environment is
    /// only read.
    pub fn expand_macro(ast: &Expr, env: &mut Environment) -> (r: Result<Expr, LispError>)
        ensures
            final(env)@ == old(env)@,
            ({
                let out = expand_macro_spec(ast@, old(env)@.macros, MACRO_FUEL as nat);
                match r {
                    Ok(e) => out == Ok::<ExprView, Seq<char>>(e@),
                    Err(err) => out is Err && err@ == out->Err_0,
                }
            }),
    {
        expand_fuel(ast, env, MACRO_FUEL)
    }
    /// Reads a `(defmacro name (params…) body…)` list, stores the macro
    /// in the environment's macro table, and yields the empty list in
    /// its place.
    pub fn parse_defmacro(list: &Vec<Expr>, env: &mut Environment) -> (r: Result<Expr, LispError>)
        ensures
            final(env)@ == (EnvView {
                macros: parse_defmacro_spec(exprs_view(list@), old(env)@.macros).1,
                ..old(env)@
            }),
            match r {
                Ok(e) => parse_defmacro_spec(exprs_view(list@), old(env)@.macros).0 == Ok::<
                    ExprView,
                    Seq<char>,
                >(e@),
                Err(err) => parse_defmacro_spec(
                    exprs_view(list@),
                    old(env)@.macros,
                ).0 is Err && err@ == parse_defmacro_spec(
                    exprs_view(list@),
                    old(env)@.macros,
                ).0->Err_0,
            },
    {
        if list.len() < 4 {
            return Err(
                LispError::new("defmacro requires a name, a parameter list and a body"),
            );
        }
        let name: String = match &list[1] {
            Expr::Symbol(name) => name.clone(),
            _ => {
                return Err(LispError::new("defmacro: first argument must be a symbol"));
            },
        };
        let params: Vec<Expr> = match &list[2] {
            Expr::List(params) => crate::expression::clone_exprs(params),
            _ => {
                return Err(
                    LispError::new("defmacro: second argument must be a parameter list"),
                );
            },
        };
        proof {
            assert(decreases_to!(list@ => list@[3int]));
        }
        let body = list[3].clone();
        env.set_macro(name, Expr::Macro(params, Box::new(body)));
        let empty_list: Vec<Expr> = Vec::new();
        proof {
            assert(empty_list@ =~= Seq::<Expr>::empty());
            assert(exprs_view(empty_list@) =~= Seq::<ExprView>::empty());
        }
        Ok(Expr::List(empty_list))
    }
}

} // verus!
