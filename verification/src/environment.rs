//! The environment: three independent mappings from symbol names to
//! expressions (values, functions, macros), the operator registry, and the
//! counter behind `gensym`.
use crate::expression::{Expr, ExprView};
use crate::operator::{Op, OperatorRegistry};
use vstd::prelude::*;

verus! {

broadcast use vstd::string::group_string_axioms;

/// First-match lookup in an association list of expressions, at the level
/// of views.
pub open spec fn table_lookup(entries: Seq<(String, Expr)>, name: Seq<char>) -> Option<ExprView>
    decreases entries,
{
    if entries.len() == 0 {
        None
    } else if entries[0].0@ == name {
        Some(entries[0].1@)
    } else {
        table_lookup(entries.drop_first(), name)
    }
}

/// One keyed mapping from symbol names to expressions. Binding a name that
/// is already bound overwrites the earlier binding.
pub struct Table {
    entries: Vec<(String, Expr)>,
}

impl View for Table {
    type V = Map<Seq<char>, ExprView>;

    closed spec fn view(&self) -> Map<Seq<char>, ExprView> {
        Map::new(
            |name: Seq<char>| table_lookup(self.entries@, name) is Some,
            |name: Seq<char>| table_lookup(self.entries@, name)->Some_0,
        )
    }
}

impl Table {
    pub fn new() -> (r: Self)
        ensures
            r@ == Map::<Seq<char>, ExprView>::empty(),
    {
        let r = Table { entries: Vec::new() };
        proof {
            assert(r@ =~= Map::<Seq<char>, ExprView>::empty());
        }
        r
    }

    /// Binds `name` to `value`, overwriting any earlier binding.
    pub fn set(&mut self, name: String, value: Expr)
        ensures
            final(self)@ == old(self)@.insert(name@, value@),
    {
        self.entries.insert(0, (name, value));
        proof {
            assert(self.entries@.drop_first() =~= old(self).entries@);
            assert(self@ =~= old(self)@.insert(self.entries@[0].0@, self.entries@[0].1@));
        }
    }

    /// Looks `name` up; `None` exactly when the name is unbound here.
    pub fn get(&self, name: &str) -> (r: Option<&Expr>)
        ensures
            match r {
                Some(e) => self@.contains_key(name@) && e@ == self@[name@],
                None => !self@.contains_key(name@),
            },
    {
        let n = self.entries.len();
        let mut i: usize = 0;
        proof {
            assert(self.entries@.skip(0) =~= self.entries@);
        }
        while i < n
            invariant
                n == self.entries@.len(),
                i <= n,
                table_lookup(self.entries@.skip(i as int), name@) == table_lookup(
                    self.entries@,
                    name@,
                ),
            decreases n - i,
        {
            if crate::text::str_equal(self.entries[i].0.as_str(), name) {
                proof {
                    assert(self.entries@.skip(i as int)[0] == self.entries@[i as int]);
                }
                return Some(&self.entries[i].1);
            }
            proof {
                assert(self.entries@.skip(i as int).drop_first() =~= self.entries@.skip(
                    i as int + 1,
                ));
            }
            i += 1;
        }
        proof {
            assert(self.entries@.skip(n as int) =~= Seq::<(String, Expr)>::empty());
        }
        None
    }
}

impl Clone for Table {
    fn clone(&self) -> (res: Self)
        ensures
            res@ == self@,
    {
        let mut copy: Vec<(String, Expr)> = Vec::new();
        let n = self.entries.len();
        let mut i: usize = 0;
        while i < n
            invariant
                n == self.entries@.len(),
                i <= n,
                copy@.len() == i as int,
                forall|j: int| 0 <= j < i ==> copy@[j].0@ == self.entries@[j].0@
                    && copy@[j].1@ == self.entries@[j].1@,
            decreases n - i,
        {
            copy.push((self.entries[i].0.clone(), self.entries[i].1.clone()));
            i += 1;
        }
        let res = Table { entries: copy };
        proof {
            lemma_table_lookup_congruence(res.entries@, self.entries@);
            assert(res@ =~= self@);
        }
        res
    }
}

/// Two tables whose entries agree name-for-name and value-for-value look
/// up alike.
proof fn lemma_table_lookup_congruence(a: Seq<(String, Expr)>, b: Seq<(String, Expr)>)
    requires
        a.len() == b.len(),
        forall|j: int| 0 <= j < a.len() ==> a[j].0@ == b[j].0@ && a[j].1@ == b[j].1@,
    ensures
        forall|name: Seq<char>| table_lookup(a, name) == table_lookup(b, name),
    decreases a,
{
    if a.len() > 0 {
        lemma_table_lookup_congruence(a.drop_first(), b.drop_first());
        assert forall|name: Seq<char>| table_lookup(a, name) == table_lookup(b, name) by {
            if a[0].0@ == name {
            } else {
                assert(table_lookup(a, name) == table_lookup(a.drop_first(), name));
                assert(table_lookup(b, name) == table_lookup(b.drop_first(), name));
            }
        }
    } else {
        assert(a =~= Seq::<(String, Expr)>::empty());
        assert(b =~= Seq::<(String, Expr)>::empty());
    }
}

/// The model of an environment: the three name spaces, the operator
/// registry, and the gensym counter.
pub struct EnvView {
    pub symbols: Map<Seq<char>, ExprView>,
    pub functions: Map<Seq<char>, ExprView>,
    pub macros: Map<Seq<char>, ExprView>,
    pub ops: Map<Seq<char>, Op>,
    pub gensym: u64,
}

/// The bindings every fresh environment starts with: `T` and `t` name the
/// symbol `T`; `NIL` and `nil` name the empty list.
pub open spec fn initial_symbols() -> Map<Seq<char>, ExprView> {
    Map::<Seq<char>, ExprView>::empty().insert("T"@, ExprView::Symbol("T"@)).insert(
        "t"@,
        ExprView::Symbol("T"@),
    ).insert("NIL"@, ExprView::List(Seq::empty())).insert("nil"@, ExprView::List(Seq::empty()))
}

/// An environment: the value, function and macro tables, the operator
/// registry, and the counter that `gensym` draws from.
pub struct Environment {
    symbols: Table,
    functions: Table,
    macros: Table,
    registry: OperatorRegistry,
    gensym: u64,
}

impl View for Environment {
    type V = EnvView;

    closed spec fn view(&self) -> EnvView {
        EnvView {
            symbols: self.symbols@,
            functions: self.functions@,
            macros: self.macros@,
            ops: self.registry@,
            gensym: self.gensym,
        }
    }
}

impl Environment {
    /// A fresh environment: operators registered, truth and nil symbols
    /// preseeded, gensym counter at zero.
    pub fn initialize() -> (r: Self)
        ensures
            r@.symbols == initial_symbols(),
            r@.functions == Map::<Seq<char>, ExprView>::empty(),
            r@.macros == Map::<Seq<char>, ExprView>::empty(),
            r@.ops == crate::operator::standard_ops(),
            r@.gensym == 0,
    {
        let registry = crate::operator::initialize();
        let mut env = Environment {
            symbols: Table::new(),
            functions: Table::new(),
            macros: Table::new(),
            registry,
            gensym: 0,
        };
        env.set_symbol("T".to_string(), Expr::Symbol("T".to_string()));
        env.set_symbol("t".to_string(), Expr::Symbol("T".to_string()));
        env.set_symbol("NIL".to_string(), Expr::List(Vec::new()));
        env.set_symbol("nil".to_string(), Expr::List(Vec::new()));
        proof {
            assert(crate::expression::exprs_view(Seq::<Expr>::empty()) =~= Seq::<
                ExprView,
            >::empty());
            assert(env@.symbols =~= initial_symbols());
        }
        env
    }

    pub fn get_symbol(&self, symbol: &str) -> (r: Option<&Expr>)
        ensures
            match r {
                Some(e) => self@.symbols.contains_key(symbol@) && e@ == self@.symbols[symbol@],
                None => !self@.symbols.contains_key(symbol@),
            },
    {
        self.symbols.get(symbol)
    }

    pub fn set_symbol(&mut self, symbol: String, value: Expr)
        ensures
            final(self)@ == (EnvView {
                symbols: old(self)@.symbols.insert(symbol@, value@),
                ..old(self)@
            }),
    {
        self.symbols.set(symbol, value);
    }

    pub fn get_function(&self, name: &str) -> (r: Option<&Expr>)
        ensures
            match r {
                Some(e) => self@.functions.contains_key(name@) && e@ == self@.functions[name@],
                None => !self@.functions.contains_key(name@),
            },
    {
        self.functions.get(name)
    }

    pub fn set_function(&mut self, name: String, func: Expr)
        ensures
            final(self)@ == (EnvView {
                functions: old(self)@.functions.insert(name@, func@),
                ..old(self)@
            }),
    {
        self.functions.set(name, func);
    }

    pub fn get_macro(&self, name: &str) -> (r: Option<&Expr>)
        ensures
            match r {
                Some(e) => self@.macros.contains_key(name@) && e@ == self@.macros[name@],
                None => !self@.macros.contains_key(name@),
            },
    {
        self.macros.get(name)
    }

    pub fn set_macro(&mut self, name: String, macro_def: Expr)
        ensures
            final(self)@ == (EnvView {
                macros: old(self)@.macros.insert(name@, macro_def@),
                ..old(self)@
            }),
    {
        self.macros.set(name, macro_def);
    }

    /// Looks an operator up in the registry carried by this environment.
    pub fn get_operator(&self, name: &str) -> (r: Option<Op>)
        ensures
            match r {
                Some(op) => self@.ops.contains_key(name@) && self@.ops[name@] == op,
                None => !self@.ops.contains_key(name@),
            },
    {
        self.registry.get(name)
    }

    /// Draws the next gensym number, advancing the counter.
    pub fn bump_gensym(&mut self) -> (r: u64)
        ensures
            r == old(self)@.gensym,
            final(self)@ == (EnvView { gensym: old(self)@.gensym.wrapping_add(1), ..old(self)@ }),
    {
        let r = self.gensym;
        self.gensym = self.gensym.wrapping_add(1);
        r
    }

    pub fn gensym_counter(&self) -> (r: u64)
        ensures
            r == self@.gensym,
    {
        self.gensym
    }

    /// Carries a gensym counter over from a call frame, so that numbers
    /// drawn inside the frame are never drawn again outside it.
    pub fn sync_gensym(&mut self, counter: u64)
        ensures
            final(self)@ == (EnvView { gensym: counter, ..old(self)@ }),
    {
        self.gensym = counter;
    }
}

impl Clone for Environment {
    fn clone(&self) -> (res: Self)
        ensures
            res@ == self@,
    {
        Environment {
            symbols: self.symbols.clone(),
            functions: self.functions.clone(),
            macros: self.macros.clone(),
            registry: self.registry.clone(),
            gensym: self.gensym,
        }
    }
}

} // verus!
