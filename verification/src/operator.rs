//! The operator registry: a mapping from operator symbol names to the
//! built-in operators, populated once when an environment is created.
use vstd::prelude::*;

verus! {

broadcast use vstd::string::group_string_axioms;

/// A built-in operator. The evaluator dispatches on this tag; each tag is
/// implemented by one `eval_*` function of the operator modules.
#[derive(Clone, Copy, Debug, PartialEq, Eq)]
pub enum Op {
    Add,
    Subtract,
    Multiply,
    Divide,
    Greater,
    GreaterEqual,
    Less,
    LessEqual,
    Equal,
    NotEqual,
    Cond,
    Not,
    Gensym,
    Defun,
    Lambda,
    Progn,
    Cons,
    Car,
    Cdr,
    Length,
    Quote,
    Setf,
}

/// First-match lookup in an association list of operators.
pub open spec fn ops_lookup(entries: Seq<(String, Op)>, name: Seq<char>) -> Option<Op>
    decreases entries,
{
    if entries.len() == 0 {
        None
    } else if entries[0].0@ == name {
        Some(entries[0].1)
    } else {
        ops_lookup(entries.drop_first(), name)
    }
}

/// The mapping from operator names to built-in operators.
pub struct OperatorRegistry {
    entries: Vec<(String, Op)>,
}

impl View for OperatorRegistry {
    type V = Map<Seq<char>, Op>;

    closed spec fn view(&self) -> Map<Seq<char>, Op> {
        Map::new(
            |name: Seq<char>| ops_lookup(self.entries@, name) is Some,
            |name: Seq<char>| ops_lookup(self.entries@, name)->Some_0,
        )
    }
}

impl OperatorRegistry {
    pub fn new() -> (r: Self)
        ensures
            r@ == Map::<Seq<char>, Op>::empty(),
    {
        let r = OperatorRegistry { entries: Vec::new() };
        proof {
            assert(r@ =~= Map::<Seq<char>, Op>::empty());
        }
        r
    }

    /// Binds `name` to the operator `op`, overwriting any earlier binding.
    pub fn register(&mut self, name: &str, op: Op)
        ensures
            final(self)@ == old(self)@.insert(name@, op),
    {
        self.entries.insert(0, (name.to_string(), op));
        proof {
            assert(self.entries@.drop_first() =~= old(self).entries@);
            assert(self@ =~= old(self)@.insert(name@, op));
        }
    }

    /// Looks a name up in the registry.
    pub fn get(&self, name: &str) -> (r: Option<Op>)
        ensures
            match r {
                Some(op) => self@.contains_key(name@) && self@[name@] == op,
                None => !self@.contains_key(name@),
            },
    {
        let n = self.entries.len();
        let mut i: usize = 0;
        proof {
            assert(self.entries@.skip(0) =~= self.entries@);
        }
        while i < n
            invariant
                n == self.entries@.len(),
                i <= n,
                ops_lookup(self.entries@.skip(i as int), name@) == ops_lookup(
                    self.entries@,
                    name@,
                ),
            decreases n - i,
        {
            let entry_name: &String = &self.entries[i].0;
            if crate::text::str_equal(entry_name.as_str(), name) {
                let op = self.entries[i].1;
                proof {
                    assert(self.entries@.skip(i as int)[0] == self.entries@[i as int]);
                }
                return Some(op);
            }
            proof {
                assert(self.entries@.skip(i as int).drop_first() =~= self.entries@.skip(
                    i as int + 1,
                ));
            }
            i += 1;
        }
        proof {
            assert(self.entries@.skip(n as int) =~= Seq::<(String, Op)>::empty());
        }
        None
    }
}

impl Clone for OperatorRegistry {
    fn clone(&self) -> (res: Self)
        ensures
            res@ == self@,
    {
        let mut copy: Vec<(String, Op)> = Vec::new();
        let n = self.entries.len();
        let mut i: usize = 0;
        while i < n
            invariant
                n == self.entries@.len(),
                i <= n,
                copy@.len() == i as int,
                forall|j: int| 0 <= j < i ==> copy@[j].0@ == self.entries@[j].0@
                    && copy@[j].1 == self.entries@[j].1,
            decreases n - i,
        {
            copy.push((self.entries[i].0.clone(), self.entries[i].1));
            i += 1;
        }
        let res = OperatorRegistry { entries: copy };
        proof {
            lemma_ops_lookup_congruence(res.entries@, self.entries@);
            assert(res@ =~= self@);
        }
        res
    }
}

/// Two operator lists whose entries agree name-for-name look up alike.
proof fn lemma_ops_lookup_congruence(a: Seq<(String, Op)>, b: Seq<(String, Op)>)
    requires
        a.len() == b.len(),
        forall|j: int| 0 <= j < a.len() ==> a[j].0@ == b[j].0@ && a[j].1 == b[j].1,
    ensures
        forall|name: Seq<char>| ops_lookup(a, name) == ops_lookup(b, name),
    decreases a,
{
    if a.len() > 0 {
        lemma_ops_lookup_congruence(a.drop_first(), b.drop_first());
        assert forall|name: Seq<char>| ops_lookup(a, name) == ops_lookup(b, name) by {
            if a[0].0@ == name {
            } else {
                assert(ops_lookup(a, name) == ops_lookup(a.drop_first(), name));
                assert(ops_lookup(b, name) == ops_lookup(b.drop_first(), name));
            }
        }
    } else {
        assert(a =~= Seq::<(String, Op)>::empty());
        assert(b =~= Seq::<(String, Op)>::empty());
    }
}

/// The operators a fresh environment carries, under their registered
/// names.
pub open spec fn standard_ops() -> Map<Seq<char>, Op> {
    Map::<Seq<char>, Op>::empty().insert("+"@, Op::Add).insert("-"@, Op::Subtract).insert(
        "*"@,
        Op::Multiply,
    ).insert("/"@, Op::Divide).insert(">"@, Op::Greater).insert("gt"@, Op::Greater).insert(
        ">="@,
        Op::GreaterEqual,
    ).insert("gte"@, Op::GreaterEqual).insert("<"@, Op::Less).insert("lt"@, Op::Less).insert(
        "<="@,
        Op::LessEqual,
    ).insert("lte"@, Op::LessEqual).insert("eq"@, Op::Equal).insert("ne"@, Op::NotEqual).insert(
        "cond"@,
        Op::Cond,
    ).insert("not"@, Op::Not).insert("gensym"@, Op::Gensym).insert("defun"@, Op::Defun).insert(
        "lambda"@,
        Op::Lambda,
    ).insert("progn"@, Op::Progn).insert("cons"@, Op::Cons).insert("car"@, Op::Car).insert(
        "cdr"@,
        Op::Cdr,
    ).insert("length"@, Op::Length).insert("quote"@, Op::Quote).insert("setf"@, Op::Setf)
}

/// Builds the registry that every fresh environment carries.
pub fn initialize() -> (r: OperatorRegistry)
    ensures
        r@ == standard_ops(),
{
    let mut registry = OperatorRegistry::new();
    crate::arithmetic::register_arithmetic_operators(&mut registry);
    crate::comparison::register_comparison_operators(&mut registry);
    crate::control::register_control_operators(&mut registry);
    crate::lambda::register_lambda_operators(&mut registry);
    crate::list::register_list_operators(&mut registry);
    crate::setf::register_set_operators(&mut registry);
    registry
}

} // verus!
