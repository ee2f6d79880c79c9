//! The universal value of the interpreter: a tagged sum of atoms and
//! composites, with a mathematical view used by all contracts.
use vstd::prelude::*;

verus! {

broadcast use vstd::seq::axiom_seq_index_decreases;

/// Mathematical model of an expression. Floating-point values are carried
/// as their IEEE-754 binary64 bit patterns.
pub enum ExprView {
    Symbol(Seq<char>),
    Number(i64),
    Float(u64),
    Str(Seq<char>),
    List(Seq<ExprView>),
    DottedPair(Box<ExprView>, Box<ExprView>),
    Macro(Seq<ExprView>, Box<ExprView>),
}

/// An expression value. `Float` holds the IEEE-754 binary64 bit pattern of
/// the number; all float arithmetic goes through the `numerics` module.
/// `Macro` holds a parameter list and a template; it lives only in the
/// macro table of an environment and is never printed.
#[derive(Debug, PartialEq, Eq)]
pub enum Expr {
    Symbol(String),
    Number(i64),
    Float(u64),
    Str(String),
    List(Vec<Expr>),
    DottedPair(Box<Expr>, Box<Expr>),
    Macro(Vec<Expr>, Box<Expr>),
}

/// The model of an expression value, mapping `Vec` to `Seq` and `String`
/// to `Seq<char>` throughout.
pub open spec fn expr_view(e: Expr) -> ExprView
    decreases e,
{
    match e {
        Expr::Symbol(s) => ExprView::Symbol(s@),
        Expr::Number(n) => ExprView::Number(n),
        Expr::Float(b) => ExprView::Float(b),
        Expr::Str(s) => ExprView::Str(s@),
        Expr::List(es) => ExprView::List(exprs_view(es@)),
        Expr::DottedPair(h, t) => ExprView::DottedPair(Box::new(expr_view(*h)), Box::new(expr_view(*t))),
        Expr::Macro(ps, b) => ExprView::Macro(exprs_view(ps@), Box::new(expr_view(*b))),
    }
}

/// The element-wise model of a sequence of expressions.
pub open spec fn exprs_view(es: Seq<Expr>) -> Seq<ExprView>
    decreases es,
{
    Seq::new(
        es.len(),
        |i: int|
            if 0 <= i < es.len() {
                expr_view(es[i])
            } else {
                ExprView::Number(0)
            },
    )
}

/// The model of a sequence keeps its length.
pub broadcast proof fn lemma_exprs_view_len(es: Seq<Expr>)
    ensures
        #[trigger] exprs_view(es).len() == es.len(),
{
}

/// The model of a sequence holds the members' models.
pub broadcast proof fn lemma_exprs_view_index(es: Seq<Expr>, i: int)
    requires
        0 <= i < es.len(),
    ensures
        #[trigger] exprs_view(es)[i] == es[i]@,
{
}

impl View for Expr {
    type V = ExprView;

    open spec fn view(&self) -> ExprView {
        expr_view(*self)
    }
}

impl Expr {
    pub fn is_number(&self) -> (r: bool)
        ensures
            r == self@ is Number,
    {
        matches!(self, Expr::Number(_))
    }

    pub fn is_symbol(&self) -> (r: bool)
        ensures
            r == self@ is Symbol,
    {
        matches!(self, Expr::Symbol(_))
    }

    pub fn is_string(&self) -> (r: bool)
        ensures
            r == self@ is Str,
    {
        matches!(self, Expr::Str(_))
    }

    pub fn is_list(&self) -> (r: bool)
        ensures
            r == self@ is List,
    {
        matches!(self, Expr::List(_))
    }

    pub fn is_float(&self) -> (r: bool)
        ensures
            r == self@ is Float,
    {
        matches!(self, Expr::Float(_))
    }

    pub fn is_dotted_pair(&self) -> (r: bool)
        ensures
            r == self@ is DottedPair,
    {
        matches!(self, Expr::DottedPair(_, _))
    }
}

/// Copies every element of a vector of expressions.
pub(crate) fn clone_exprs(es: &Vec<Expr>) -> (res: Vec<Expr>)
    ensures
        exprs_view(res@) == exprs_view(es@),
        res@.len() == es@.len(),
    decreases es@,
{
    let mut copy: Vec<Expr> = Vec::new();
    let mut i: usize = 0;
    while i < es.len()
        invariant
            i <= es.len(),
            copy@.len() == i as int,
            forall|j: int| 0 <= j < i ==> copy@[j]@ == es@[j]@,
        decreases es.len() - i,
    {
        proof {
            assert(decreases_to!(es@ => es@[i as int]));
        }
        copy.push(es[i].clone());
        i += 1;
    }
    proof {
        assert(exprs_view(copy@) =~= exprs_view(es@));
    }
    copy
}

/// The elements after the head of a list, copied.
pub(crate) fn clone_tail(es: &Vec<Expr>) -> (r: Vec<Expr>)
    requires
        es@.len() >= 1,
    ensures
        exprs_view(r@) == exprs_view(es@).drop_first(),
        r@.len() == es@.len() - 1,
    decreases es@,
{
    let mut copy: Vec<Expr> = Vec::new();
    let mut i: usize = 1;
    while i < es.len()
        invariant
            1 <= i <= es.len(),
            copy@.len() == i - 1,
            forall|j: int| 0 <= j < i - 1 ==> copy@[j]@ == es@[j + 1]@,
        decreases es.len() - i,
    {
        proof {
            assert(decreases_to!(es@ => es@[i as int]));
        }
        copy.push(es[i].clone());
        i += 1;
    }
    proof {
        assert(exprs_view(copy@) =~= exprs_view(es@).drop_first());
    }
    copy
}

/// Structural equality of two expression vectors, at the level of views.
fn exprs_equal(a: &Vec<Expr>, b: &Vec<Expr>) -> (r: bool)
    ensures
        r == (exprs_view(a@) == exprs_view(b@)),
    decreases a@,
{
    if a.len() != b.len() {
        proof {
            assert(exprs_view(a@).len() != exprs_view(b@).len());
        }
        return false;
    }
    let mut i: usize = 0;
    while i < a.len()
        invariant
            i <= a@.len(),
            a@.len() == b@.len(),
            forall|j: int| 0 <= j < i ==> a@[j]@ == b@[j]@,
        decreases a@.len() - i,
    {
        proof {
            assert(decreases_to!(a@ => a@[i as int]));
        }
        if !expr_equal(&a[i], &b[i]) {
            proof {
                assert(exprs_view(a@)[i as int] != exprs_view(b@)[i as int]);
            }
            return false;
        }
        i += 1;
    }
    proof {
        assert(exprs_view(a@) =~= exprs_view(b@));
    }
    true
}

/// Structural equality of two expressions, at the level of views:
/// recursive over all variants, cross-variant values never equal, and
/// floats compared by their bit patterns.
pub fn expr_equal(a: &Expr, b: &Expr) -> (r: bool)
    ensures
        r == (a@ == b@),
    decreases a,
{
    match (a, b) {
        (Expr::Symbol(x), Expr::Symbol(y)) => crate::text::str_equal(x.as_str(), y.as_str()),
        (Expr::Number(x), Expr::Number(y)) => x == y,
        (Expr::Float(x), Expr::Float(y)) => x == y,
        (Expr::Str(x), Expr::Str(y)) => crate::text::str_equal(x.as_str(), y.as_str()),
        (Expr::List(xs), Expr::List(ys)) => exprs_equal(xs, ys),
        (Expr::DottedPair(xh, xt), Expr::DottedPair(yh, yt)) => expr_equal(xh, yh) && expr_equal(
            xt,
            yt,
        ),
        (Expr::Macro(xp, xb), Expr::Macro(yp, yb)) => exprs_equal(xp, yp) && expr_equal(xb, yb),
        _ => false,
    }
}

/// One character of a printed string literal: backslashes and double
/// quotes get a backslash before them.
pub open spec fn escape_char(c: char) -> Seq<char> {
    if c == '\\' {
        seq!['\\', '\\']
    } else if c == '"' {
        seq!['\\', '"']
    } else {
        seq![c]
    }
}

/// The body of a printed string literal.
pub open spec fn escape_str(s: Seq<char>) -> Seq<char>
    decreases s.len(),
{
    if s.len() == 0 {
        Seq::empty()
    } else {
        escape_str(s.drop_last()) + escape_char(s.last())
    }
}

/// The printed elements of a list, separated by single spaces.
pub open spec fn join_printed(es: Seq<ExprView>) -> Seq<char>
    decreases es,
{
    if es.len() == 0 {
        Seq::empty()
    } else if es.len() == 1 {
        print_expr(es[0])
    } else {
        join_printed(es.drop_last()) + seq![' '] + print_expr(es.last())
    }
}

/// The printed form of an expression: symbols bare, numbers in decimal,
/// floats as the shortest round-tripping decimal, strings quoted with
/// backslash escaping, lists in parentheses, dotted pairs as `(h . t)`.
/// A macro value never reaches the printer; it prints as an inert tag.
pub open spec fn print_expr(e: ExprView) -> Seq<char>
    decreases e,
{
    match e {
        ExprView::Symbol(s) => s,
        ExprView::Number(n) => crate::text::dec_int(n as int),
        ExprView::Float(b) => crate::floatfmt::float_dec(b),
        ExprView::Str(s) => seq!['"'] + escape_str(s) + seq!['"'],
        ExprView::List(es) => seq!['('] + join_printed(es) + seq![')'],
        ExprView::DottedPair(h, t) => seq!['('] + print_expr(*h) + seq![' ', '.', ' ']
            + print_expr(*t) + seq![')'],
        ExprView::Macro(ps, b) => "#<macro>"@,
    }
}

/// Appends the characters of a string slice to `out`.
fn append_str(out: &mut Vec<char>, s: &str)
    ensures
        final(out)@ == old(out)@ + s@,
{
    let n = s.unicode_len();
    let mut i: usize = 0;
    while i < n
        invariant
            i <= n,
            n == s@.len(),
            out@ =~= old(out)@ + s@.take(i as int),
        decreases n - i,
    {
        out.push(s.get_char(i));
        proof {
            assert(s@.take(i as int + 1) =~= s@.take(i as int).push(s@[i as int]));
        }
        i += 1;
    }
    proof {
        assert(s@.take(n as int) =~= s@);
    }
}

/// Appends the printed elements of a list, space separated, to `out`.
fn push_print_items(es: &Vec<Expr>, out: &mut Vec<char>)
    ensures
        final(out)@ == old(out)@ + join_printed(exprs_view(es@)),
    decreases es@,
{
    let ghost base = out@;
    let ghost views = exprs_view(es@);
    let mut i: usize = 0;
    while i < es.len()
        invariant
            i <= es@.len(),
            views == exprs_view(es@),
            out@ =~= base + join_printed(views.take(i as int)),
        decreases es@.len() - i,
    {
        if i > 0 {
            out.push(' ');
        }
        proof {
            assert(decreases_to!(es@ => es@[i as int]));
        }
        push_print(&es[i], out);
        proof {
            assert(views.take(i as int + 1).drop_last() =~= views.take(i as int));
            assert(views[i as int] == es@[i as int]@);
            assert(out@ =~= base + join_printed(views.take(i as int + 1)));
        }
        i += 1;
    }
    proof {
        assert(views.take(views.len() as int) =~= views);
    }
}

/// Appends the printed form of `e` to `out`.
fn push_print(e: &Expr, out: &mut Vec<char>)
    ensures
        final(out)@ == old(out)@ + print_expr(e@),
    decreases e,
{
    match e {
        Expr::Symbol(s) => {
            append_str(out, s.as_str());
        }
        Expr::Number(n) => {
            let printed = crate::text::i64_to_dec(*n);
            append_str(out, printed.as_str());
        }
        Expr::Float(b) => {
            let printed = crate::floatfmt::format_float(*b);
            append_str(out, printed.as_str());
        }
        Expr::Str(s) => {
            out.push('"');
            let cs = crate::text::str_to_chars(s.as_str());
            let ghost base = out@;
            let mut i: usize = 0;
            while i < cs.len()
                invariant
                    i <= cs@.len(),
                    cs@ == s@,
                    out@ =~= base + escape_str(cs@.take(i as int)),
                decreases cs@.len() - i,
            {
                let c = cs[i];
                if c == '\\' {
                    out.push('\\');
                    out.push('\\');
                } else if c == '"' {
                    out.push('\\');
                    out.push('"');
                } else {
                    out.push(c);
                }
                proof {
                    assert(cs@.take(i as int + 1).drop_last() =~= cs@.take(i as int));
                    assert(out@ =~= base + escape_str(cs@.take(i as int + 1)));
                }
                i += 1;
            }
            out.push('"');
            proof {
                assert(cs@.take(cs@.len() as int) =~= cs@);
                assert(out@ =~= old(out)@ + (seq!['"'] + escape_str(s@) + seq!['"']));
            }
        }
        Expr::List(es) => {
            out.push('(');
            push_print_items(es, out);
            out.push(')');
            proof {
                assert(out@ =~= old(out)@ + (seq!['('] + join_printed(exprs_view(es@))
                    + seq![')']));
            }
        }
        Expr::DottedPair(h, t) => {
            out.push('(');
            push_print(h, out);
            out.push(' ');
            out.push('.');
            out.push(' ');
            push_print(t, out);
            out.push(')');
            proof {
                assert(out@ =~= old(out)@ + (seq!['('] + print_expr(h@) + seq![' ', '.', ' ']
                    + print_expr(t@) + seq![')']));
            }
        }
        Expr::Macro(ps, b) => {
            append_str(out, "#<macro>");
        }
    }
}

impl Expr {
    /// The printed form of this expression.
    pub fn to_string(&self) -> (r: String)
        ensures
            r@ == print_expr(self@),
    {
        let mut out: Vec<char> = Vec::new();
        push_print(self, &mut out);
        proof {
            assert(out@ =~= print_expr(self@));
        }
        crate::text::chars_to_string(&out)
    }
}

impl Clone for Expr {
    fn clone(&self) -> (res: Self)
        ensures
            res@ == self@,
        decreases self,
    {
        match self {
            Expr::Symbol(s) => Expr::Symbol(s.clone()),
            Expr::Number(n) => Expr::Number(*n),
            Expr::Float(b) => Expr::Float(*b),
            Expr::Str(s) => Expr::Str(s.clone()),
            Expr::List(es) => Expr::List(clone_exprs(es)),
            Expr::DottedPair(h, t) => Expr::DottedPair(Box::new((**h).clone()), Box::new((**t).clone())),
            Expr::Macro(ps, b) => Expr::Macro(clone_exprs(ps), Box::new((**b).clone())),
        }
    }
}

} // verus!
