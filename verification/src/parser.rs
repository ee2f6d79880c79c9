//! The reader: character stream to expression tree. It recognizes the
//! quote family of reader macros, tells minus-as-sign from
//! minus-as-symbol, reads numbers, strings and comments, and intercepts
//! `defmacro` forms, writing them to the macro table instead of emitting
//! them.
use crate::environment::{EnvView, Environment};
use crate::exception::LispError;
use crate::expression::{Expr, ExprView};
use vstd::prelude::*;

verus! {

broadcast use
    crate::expression::lemma_exprs_view_len,
    crate::expression::lemma_exprs_view_index,
    vstd::seq::axiom_seq_index_decreases;

/// Whether `c` has Unicode's `White_Space` property, the set that
/// `char::is_whitespace` recognizes.
pub open spec fn is_space_char(c: char) -> bool {
    ||| c == ' '
    ||| '\u{9}' <= c <= '\u{D}'
    ||| c == '\u{85}'
    ||| c == '\u{A0}'
    ||| c == '\u{1680}'
    ||| '\u{2000}' <= c <= '\u{200A}'
    ||| c == '\u{2028}'
    ||| c == '\u{2029}'
    ||| c == '\u{202F}'
    ||| c == '\u{205F}'
    ||| c == '\u{3000}'
}

pub open spec fn is_digit_char(c: char) -> bool {
    '0' <= c <= '9'
}

/// The position of the first character at or after `i` that is neither
/// whitespace nor part of a `;` line comment.
pub open spec fn skip_ws(s: Seq<char>, i: int) -> int
    decreases s.len() - i,
{
    if i < 0 || i >= s.len() {
        i
    } else if is_space_char(s[i]) {
        skip_ws(s, i + 1)
    } else if s[i] == ';' {
        skip_comment(s, i + 1)
    } else {
        i
    }
}

/// Skips the remainder of a line comment, the newline included.
pub open spec fn skip_comment(s: Seq<char>, i: int) -> int
    decreases s.len() - i,
{
    if i < 0 || i >= s.len() {
        i
    } else if s[i] == '\n' {
        skip_ws(s, i + 1)
    } else {
        skip_comment(s, i + 1)
    }
}

/// The end of a symbol starting at `i`: the first position holding
/// whitespace or a parenthesis.
pub open spec fn scan_sym_end(s: Seq<char>, i: int) -> int
    decreases s.len() - i,
{
    if i < 0 || i >= s.len() {
        s.len() as int
    } else if is_space_char(s[i]) || s[i] == '(' || s[i] == ')' {
        i
    } else {
        scan_sym_end(s, i + 1)
    }
}

/// The end of a number token starting at `i`: the first position holding
/// neither a digit nor a dot.
pub open spec fn scan_num_end(s: Seq<char>, i: int) -> int
    decreases s.len() - i,
{
    if i < 0 || i >= s.len() {
        s.len() as int
    } else if is_digit_char(s[i]) || s[i] == '.' {
        scan_num_end(s, i + 1)
    } else {
        i
    }
}

/// How many dots a token holds.
pub open spec fn count_dots(s: Seq<char>) -> int
    decreases s.len(),
{
    if s.len() == 0 {
        0
    } else {
        count_dots(s.drop_last()) + (if s.last() == '.' {
            1int
        } else {
            0int
        })
    }
}

/// The value of a digit-and-dot token read as a decimal integer,
/// ignoring nothing: only called on all-digit tokens.
pub open spec fn token_int(s: Seq<char>) -> int {
    crate::text::dec_value(s)
}

/// Reads the body of a string literal from `i`: characters up to the
/// unescaped closing quote, a backslash taking the character after it
/// literally (so `\"` stands for a quote and `\\` for a backslash).
/// Running out of input, also right after a backslash, is an error.
pub open spec fn read_string_body(s: Seq<char>, i: int) -> Result<(Seq<char>, int), Seq<char>>
    decreases s.len() - i,
{
    if i < 0 || i >= s.len() {
        Err("Unterminated string literal"@)
    } else if s[i] == '"' {
        Ok((Seq::empty(), i + 1))
    } else if s[i] == '\\' {
        if i + 1 >= s.len() {
            Err("Unterminated string literal"@)
        } else {
            match read_string_body(s, i + 2) {
                Ok((rest, e)) => Ok((seq![s[i + 1]] + rest, e)),
                Err(m) => Err(m),
            }
        }
    } else {
        match read_string_body(s, i + 1) {
            Ok((rest, e)) => Ok((seq![s[i]] + rest, e)),
            Err(m) => Err(m),
        }
    }
}

/// What one parsing step produces: a parsed expression with the position
/// after it, or an error message; and the macro table, which `defmacro`
/// forms met along the way have extended.
pub struct ParseStep {
    pub result: Result<(ExprView, int), Seq<char>>,
    pub macros: Map<Seq<char>, ExprView>,
}

/// An unsigned number token starting at the digit at `i`. After the
/// token the next character must be whitespace, a parenthesis, a comment
/// or the end; one dot makes it a float, two make it malformed.
pub open spec fn parse_number_spec(s: Seq<char>, i: int) -> Result<(ExprView, int), Seq<char>> {
    let end = scan_num_end(s, i);
    let token = s.subrange(i, end);
    if count_dots(token) >= 2 {
        Err("Invalid float"@)
    } else if end < s.len() && !(is_space_char(s[end]) || s[end] == '(' || s[end] == ')' || s[end]
        == ';') {
        Err("Invalid number"@)
    } else if count_dots(token) == 1 {
        match crate::numerics::bits_of_decimal(token) {
            Some(b) => Ok((ExprView::Float(b), end)),
            None => Err("Invalid float"@),
        }
    } else {
        if token_int(token) > i64::MAX as int {
            Err("Invalid number"@)
        } else {
            Ok((ExprView::Number(token_int(token) as i64), end))
        }
    }
}

/// A number token right after a minus sign, `i` at its first digit or
/// dot. Unlike the unsigned case, nothing checks what follows the
/// token here.
pub open spec fn parse_signed_number_spec(s: Seq<char>, i: int) -> Result<
    (ExprView, int),
    Seq<char>,
> {
    let end = scan_num_end(s, i);
    let token = s.subrange(i, end);
    if count_dots(token) >= 2 {
        Err("Invalid float"@)
    } else if count_dots(token) == 1 {
        match crate::numerics::bits_of_decimal(seq!['-'] + token) {
            Some(b) => Ok((ExprView::Float(b), end)),
            None => Err("Invalid float"@),
        }
    } else {
        if token_int(token) > 0x8000_0000_0000_0000 {
            Err("Invalid number"@)
        } else {
            Ok((ExprView::Number((-token_int(token)) as i64), end))
        }
    }
}

/// A string literal whose body starts at `i` (the opening quote already
/// consumed).
pub open spec fn parse_string_spec(s: Seq<char>, i: int) -> Result<(ExprView, int), Seq<char>> {
    match read_string_body(s, i) {
        Ok((content, e)) => Ok((ExprView::Str(content), e)),
        Err(m) => Err(m),
    }
}

/// Installs a `defmacro` form: the list read as
/// `(defmacro name (params…) body…)` stores a macro under the name and
/// stands for the empty list.
pub open spec fn parse_defmacro_spec(items: Seq<ExprView>, macros: Map<Seq<char>, ExprView>) -> (
    Result<ExprView, Seq<char>>,
    Map<Seq<char>, ExprView>,
) {
    if items.len() < 4 {
        (Err("defmacro requires a name, a parameter list and a body"@), macros)
    } else {
        match items[1] {
            ExprView::Symbol(name) => match items[2] {
                ExprView::List(params) => (
                    Ok(ExprView::List(Seq::empty())),
                    macros.insert(name, ExprView::Macro(params, Box::new(items[3]))),
                ),
                _ => (Err("defmacro: second argument must be a parameter list"@), macros),
            },
            _ => (Err("defmacro: first argument must be a symbol"@), macros),
        }
    }
}

/// Parses one expression starting at `i`.
pub open spec fn parse_expr_spec(s: Seq<char>, i: int, macros: Map<Seq<char>, ExprView>) -> ParseStep
    decreases s.len() - i, 1int,
{
    let j = skip_ws(s, i);
    if j < i {
        // `skip_ws` never moves backward; this case is unreachable.
        ParseStep { result: Err("Unexpected end of input"@), macros }
    } else if j >= s.len() {
        ParseStep { result: Err("Unexpected end of input"@), macros }
    } else if s[j] == '(' {
        parse_items_spec(s, j + 1, macros, Seq::empty())
    } else if s[j] == '\'' {
        wrap_reader_macro(s, j, macros, "quote"@)
    } else if s[j] == '`' {
        wrap_reader_macro(s, j, macros, "quasiquote"@)
    } else if s[j] == ',' {
        wrap_reader_macro(s, j, macros, "unquote"@)
    } else if s[j] == '"' {
        ParseStep { result: parse_string_spec(s, j + 1), macros }
    } else if s[j] == '-' {
        if j + 1 >= s.len() {
            ParseStep { result: Err("Invalid number"@), macros }
        } else if is_digit_char(s[j + 1]) || s[j + 1] == '.' {
            ParseStep { result: parse_signed_number_spec(s, j + 1), macros }
        } else if is_space_char(s[j + 1]) || s[j + 1] == '(' || s[j + 1] == ')' {
            ParseStep { result: Ok((ExprView::Symbol("-"@), j + 1)), macros }
        } else {
            ParseStep {
                result: Ok(
                    (ExprView::Symbol(s.subrange(j, scan_sym_end(s, j + 1))), scan_sym_end(
                        s,
                        j + 1,
                    )),
                ),
                macros,
            }
        }
    } else if is_digit_char(s[j]) {
        ParseStep { result: parse_number_spec(s, j), macros }
    } else if scan_sym_end(s, j) == j + 1 && s[j] == '.' {
        // The lone token `.` is not a symbol.
        ParseStep { result: Err("Invalid number"@), macros }
    } else {
        ParseStep {
            result: Ok((ExprView::Symbol(s.subrange(j, scan_sym_end(s, j))), scan_sym_end(s, j))),
            macros,
        }
    }
}

/// Parses the form after a reader macro character at `j` and wraps it as
/// `(name form)`.
pub open spec fn wrap_reader_macro(
    s: Seq<char>,
    j: int,
    macros: Map<Seq<char>, ExprView>,
    name: Seq<char>,
) -> ParseStep
    decreases s.len() - j, 0int,
{
    if j < 0 || j >= s.len() {
        ParseStep { result: Err("Unexpected end of input"@), macros }
    } else {
        let inner = parse_expr_spec(s, j + 1, macros);
        match inner.result {
            Ok((e, k)) => ParseStep {
                result: Ok((ExprView::List(seq![ExprView::Symbol(name), e]), k)),
                macros: inner.macros,
            },
            Err(m) => inner,
        }
    }
}

/// Parses list elements until the closing parenthesis, then applies the
/// `defmacro` interception.
pub open spec fn parse_items_spec(
    s: Seq<char>,
    i: int,
    macros: Map<Seq<char>, ExprView>,
    acc: Seq<ExprView>,
) -> ParseStep
    decreases s.len() - i, 2int,
{
    let j = skip_ws(s, i);
    if j < i {
        ParseStep { result: Err("Parse Error: Unexpected end of list"@), macros }
    } else if j >= s.len() {
        ParseStep { result: Err("Parse Error: Unexpected end of list"@), macros }
    } else if s[j] == ')' {
        if acc.len() > 0 && acc[0] == ExprView::Symbol("defmacro"@) {
            let (res, macros2) = parse_defmacro_spec(acc, macros);
            match res {
                Ok(e) => ParseStep { result: Ok((e, j + 1)), macros: macros2 },
                Err(m) => ParseStep { result: Err(m), macros: macros2 },
            }
        } else {
            ParseStep { result: Ok((ExprView::List(acc), j + 1)), macros }
        }
    } else {
        let step = parse_expr_spec(s, j, macros);
        match step.result {
            Ok((e, k)) => if k > j && k <= s.len() {
                parse_items_spec(s, k, step.macros, acc.push(e))
            } else {
                // A successful parse here always advances; unreachable.
                ParseStep { result: Err("Parse Error: Unexpected end of list"@), macros: step.macros }
            },
            Err(m) => step,
        }
    }
}

/// `skip_ws` stays within the input.
pub proof fn lemma_skip_ws_bounds(s: Seq<char>, i: int)
    requires
        0 <= i <= s.len(),
    ensures
        i <= skip_ws(s, i) <= s.len(),
    decreases s.len() - i,
{
    if i < s.len() {
        if is_space_char(s[i]) {
            lemma_skip_ws_bounds(s, i + 1);
        } else if s[i] == ';' {
            lemma_skip_comment_bounds(s, i + 1);
        }
    }
}

/// `skip_comment` stays within the input.
pub proof fn lemma_skip_comment_bounds(s: Seq<char>, i: int)
    requires
        0 <= i <= s.len(),
    ensures
        i <= skip_comment(s, i) <= s.len(),
    decreases s.len() - i,
{
    if i < s.len() {
        if s[i] == '\n' {
            lemma_skip_ws_bounds(s, i + 1);
        } else {
            lemma_skip_comment_bounds(s, i + 1);
        }
    }
}

/// `skip_ws` stops at a character that is neither whitespace nor the
/// start of a comment.
pub proof fn lemma_skip_ws_stops(s: Seq<char>, i: int)
    requires
        0 <= i <= s.len(),
    ensures
        skip_ws(s, i) < s.len() ==> !is_space_char(s[skip_ws(s, i)]) && s[skip_ws(s, i)] != ';',
    decreases s.len() - i,
{
    if i < s.len() {
        if is_space_char(s[i]) {
            lemma_skip_ws_stops(s, i + 1);
        } else if s[i] == ';' {
            lemma_skip_comment_stops(s, i + 1);
        }
    }
}

pub proof fn lemma_skip_comment_stops(s: Seq<char>, i: int)
    requires
        0 <= i <= s.len(),
    ensures
        skip_comment(s, i) < s.len() ==> !is_space_char(s[skip_comment(s, i)]) && s[skip_comment(
            s,
            i,
        )] != ';',
    decreases s.len() - i,
{
    if i < s.len() {
        if s[i] == '\n' {
            lemma_skip_ws_stops(s, i + 1);
        } else {
            lemma_skip_comment_stops(s, i + 1);
        }
    }
}

/// `scan_sym_end` stays within the input.
pub proof fn lemma_scan_sym_bounds(s: Seq<char>, i: int)
    requires
        0 <= i <= s.len(),
    ensures
        i <= scan_sym_end(s, i) <= s.len(),
    decreases s.len() - i,
{
    if i < s.len() && !(is_space_char(s[i]) || s[i] == '(' || s[i] == ')') {
        lemma_scan_sym_bounds(s, i + 1);
    }
}

/// `scan_num_end` stays within the input.
pub proof fn lemma_scan_num_bounds(s: Seq<char>, i: int)
    requires
        0 <= i <= s.len(),
    ensures
        i <= scan_num_end(s, i) <= s.len(),
    decreases s.len() - i,
{
    if i < s.len() && (is_digit_char(s[i]) || s[i] == '.') {
        lemma_scan_num_bounds(s, i + 1);
    }
}

/// Every character of a number token is a digit or a dot.
pub proof fn lemma_scan_num_chars(s: Seq<char>, i: int)
    requires
        0 <= i <= s.len(),
    ensures
        forall|k: int|
            i <= k < scan_num_end(s, i) ==> is_digit_char(#[trigger] s[k]) || s[k] == '.',
    decreases s.len() - i,
{
    if i < s.len() && (is_digit_char(s[i]) || s[i] == '.') {
        lemma_scan_num_chars(s, i + 1);
        lemma_scan_num_bounds(s, i + 1);
    }
}

/// A token never counts a negative number of dots.
pub proof fn lemma_count_dots_nonneg(s: Seq<char>)
    ensures
        count_dots(s) >= 0,
    decreases s.len(),
{
    if s.len() > 0 {
        lemma_count_dots_nonneg(s.drop_last());
    }
}

/// A token holding a dot counts at least one.
pub proof fn lemma_count_dots_pos(s: Seq<char>, k: int)
    requires
        0 <= k < s.len(),
        s[k] == '.',
    ensures
        count_dots(s) >= 1,
    decreases s.len(),
{
    lemma_count_dots_nonneg(s.drop_last());
    if k < s.len() - 1 {
        lemma_count_dots_pos(s.drop_last(), k);
    }
}

/// A read string body ends past its start, within the input.
pub proof fn lemma_read_string_bounds(s: Seq<char>, i: int)
    requires
        0 <= i <= s.len(),
    ensures
        match read_string_body(s, i) {
            Ok((content, e)) => i < e <= s.len(),
            Err(m) => true,
        },
    decreases s.len() - i,
{
    if i < s.len() {
        if s[i] == '"' {
        } else if s[i] == '\\' {
            if i + 1 < s.len() {
                lemma_read_string_bounds(s, i + 2);
            }
        } else {
            lemma_read_string_bounds(s, i + 1);
        }
    }
}

/// A successful parse lands within the input, and past the opening
/// character of its form.
pub proof fn lemma_parse_expr_advances(s: Seq<char>, i: int, macros: Map<Seq<char>, ExprView>)
    requires
        0 <= i <= s.len(),
    ensures
        match parse_expr_spec(s, i, macros).result {
            Ok((e, k)) => skip_ws(s, i) <= k <= s.len() && (skip_ws(s, i) < s.len() && s[skip_ws(
                s,
                i,
            )] != ')' ==> k > skip_ws(s, i)),
            Err(m) => true,
        },
    decreases s.len() - i, 1int,
{
    let j = skip_ws(s, i);
    lemma_skip_ws_bounds(s, i);
    lemma_skip_ws_stops(s, i);
    if j < s.len() {
        if s[j] == '(' {
            lemma_parse_items_advances(s, j + 1, macros, Seq::empty());
        } else if s[j] == '\'' || s[j] == '`' || s[j] == ',' {
            lemma_parse_expr_advances(s, j + 1, macros);
            lemma_skip_ws_bounds(s, j + 1);
        } else if s[j] == '"' {
            lemma_read_string_bounds(s, j + 1);
        } else if s[j] == '-' {
            if j + 1 < s.len() && (is_digit_char(s[j + 1]) || s[j + 1] == '.') {
                lemma_scan_num_bounds(s, j + 1);
            } else if j + 1 < s.len() && !(is_space_char(s[j + 1]) || s[j + 1] == '(' || s[j + 1]
                == ')') {
                lemma_scan_sym_bounds(s, j + 1);
            }
        } else if is_digit_char(s[j]) {
            lemma_scan_num_bounds(s, j + 1);
            assert(scan_num_end(s, j) == scan_num_end(s, j + 1));
        } else if s[j] != ')' {
            lemma_scan_sym_bounds(s, j + 1);
            assert(scan_sym_end(s, j) == scan_sym_end(s, j + 1));
        } else {
            lemma_scan_sym_bounds(s, j);
        }
    }
}

/// Parsing list elements lands within the input, past the closing
/// parenthesis.
pub proof fn lemma_parse_items_advances(
    s: Seq<char>,
    i: int,
    macros: Map<Seq<char>, ExprView>,
    acc: Seq<ExprView>,
)
    requires
        0 <= i <= s.len(),
    ensures
        match parse_items_spec(s, i, macros, acc).result {
            Ok((e, k)) => i < k <= s.len(),
            Err(m) => true,
        },
    decreases s.len() - i, 2int,
{
    let j = skip_ws(s, i);
    lemma_skip_ws_bounds(s, i);
    if j < s.len() && s[j] != ')' {
        lemma_parse_expr_advances(s, j, macros);
        let step = parse_expr_spec(s, j, macros);
        match step.result {
            Ok((e, k)) => {
                if k > j && k <= s.len() {
                    lemma_parse_items_advances(s, k, step.macros, acc.push(e));
                }
            },
            Err(m) => {},
        }
    }
}

/// What reading one top-level form yields, and the macro table as the
/// read leaves it: empty input is the empty list; leftover text after
/// the form is an error; the parsed form is run through macro expansion.
pub open spec fn read_spec(s: Seq<char>, env: EnvView) -> (Result<ExprView, Seq<char>>, Map<
    Seq<char>,
    ExprView,
>) {
    let j = skip_ws(s, 0);
    if j >= s.len() {
        (Ok(ExprView::List(Seq::empty())), env.macros)
    } else {
        let step = parse_expr_spec(s, j, env.macros);
        match step.result {
            Ok((e, k)) => {
                if skip_ws(s, k) < s.len() {
                    (Err("Unexpected input after list"@), step.macros)
                } else {
                    (
                        crate::macro_expander::expand_macro_spec(
                            e,
                            step.macros,
                            crate::macro_expander::MACRO_FUEL as nat,
                        ),
                        step.macros,
                    )
                }
            },
            Err(m) => (Err(m), step.macros),
        }
    }
}

/// The reader itself. Its entry point is `read`; the `parse_*` functions
/// mirror the structure of the grammar.
pub struct Parser;

fn is_space(c: char) -> (r: bool)
    ensures
        r == is_space_char(c),
{
    c == ' ' || ('\u{9}' <= c && c <= '\u{D}') || c == '\u{85}' || c == '\u{A0}' || c == '\u{1680}'
        || ('\u{2000}' <= c && c <= '\u{200A}') || c == '\u{2028}' || c == '\u{2029}' || c
        == '\u{202F}' || c == '\u{205F}' || c == '\u{3000}'
}

fn is_digit(c: char) -> (r: bool)
    ensures
        r == is_digit_char(c),
{
    '0' <= c && c <= '9'
}

/// The end of the symbol token starting at `start`.
#[verifier::loop_isolation(false)]
fn scan_symbol_end(chars: &Vec<char>, start: usize) -> (r: usize)
    requires
        start <= chars@.len(),
    ensures
        r as int == scan_sym_end(chars@, start as int),
        start <= r <= chars@.len(),
{
    let n = chars.len();
    let mut cur: usize = start;
    while cur < n
        invariant
            start <= cur <= n,
            n == chars@.len(),
            scan_sym_end(chars@, start as int) == scan_sym_end(chars@, cur as int),
        decreases n - cur,
    {
        let c = chars[cur];
        if is_space(c) || c == '(' || c == ')' {
            return cur;
        }
        cur += 1;
    }
    cur
}

/// The end of the number token starting at `start`.
#[verifier::loop_isolation(false)]
fn scan_number_end(chars: &Vec<char>, start: usize) -> (r: usize)
    requires
        start <= chars@.len(),
    ensures
        r as int == scan_num_end(chars@, start as int),
        start <= r <= chars@.len(),
{
    let n = chars.len();
    let mut cur: usize = start;
    while cur < n
        invariant
            start <= cur <= n,
            n == chars@.len(),
            scan_num_end(chars@, start as int) == scan_num_end(chars@, cur as int),
        decreases n - cur,
    {
        let c = chars[cur];
        if !(is_digit(c) || c == '.') {
            return cur;
        }
        cur += 1;
    }
    cur
}

/// The characters from `lo` to `hi`, as a string.
#[verifier::loop_isolation(false)]
fn string_from_range(chars: &Vec<char>, lo: usize, hi: usize) -> (r: String)
    requires
        lo <= hi <= chars@.len(),
    ensures
        r@ == chars@.subrange(lo as int, hi as int),
{
    let mut out: Vec<char> = Vec::new();
    let mut i: usize = lo;
    while i < hi
        invariant
            lo <= i <= hi <= chars@.len(),
            out@ =~= chars@.subrange(lo as int, i as int),
        decreases hi - i,
    {
        out.push(chars[i]);
        proof {
            assert(chars@.subrange(lo as int, i as int + 1) =~= chars@.subrange(
                lo as int,
                i as int,
            ).push(chars@[i as int]));
        }
        i += 1;
    }
    crate::text::chars_to_string(&out)
}

/// How many dots the token from `lo` to `hi` holds.
#[verifier::loop_isolation(false)]
fn dots_in_range(chars: &Vec<char>, lo: usize, hi: usize) -> (r: usize)
    requires
        lo <= hi <= chars@.len(),
    ensures
        r as int == count_dots(chars@.subrange(lo as int, hi as int)),
{
    let ghost token = chars@.subrange(lo as int, hi as int);
    let mut dots: usize = 0;
    let mut i: usize = lo;
    while i < hi
        invariant
            lo <= i <= hi <= chars@.len(),
            token == chars@.subrange(lo as int, hi as int),
            dots <= i - lo,
            dots as int == count_dots(token.take(i - lo)),
        decreases hi - i,
    {
        proof {
            assert(token.take(i - lo + 1).drop_last() =~= token.take(i - lo));
            assert(token.take(i - lo + 1).last() == chars@[i as int]);
        }
        if chars[i] == '.' {
            dots += 1;
        }
        i += 1;
    }
    proof {
        assert(token.take(hi - lo) =~= token);
    }
    dots
}

/// The value of the all-digit token from `lo` to `hi`, unless it passes
/// `cap`.
#[verifier::loop_isolation(false)]
fn digits_value_capped(chars: &Vec<char>, lo: usize, hi: usize, cap: u64) -> (r: Option<u64>)
    requires
        lo <= hi <= chars@.len(),
        crate::text::all_digits(chars@.subrange(lo as int, hi as int)),
    ensures
        match r {
            Some(v) => v as int == crate::text::dec_value(
                chars@.subrange(lo as int, hi as int),
            ) && v <= cap,
            None => crate::text::dec_value(chars@.subrange(lo as int, hi as int)) > cap,
        },
{
    let ghost token = chars@.subrange(lo as int, hi as int);
    let mut val: u64 = 0;
    let mut i: usize = lo;
    while i < hi
        invariant
            lo <= i <= hi <= chars@.len(),
            token == chars@.subrange(lo as int, hi as int),
            crate::text::all_digits(token),
            val <= cap,
            val as int == crate::text::dec_value(token.take(i - lo)),
        decreases hi - i,
    {
        let c = chars[i];
        proof {
            assert(token[i - lo] == c);
            assert('0' <= c <= '9');
            assert(token.take(i - lo + 1).drop_last() =~= token.take(i - lo));
        }
        let d: u64 = (c as u32 as u64) - 48;
        let stepped = match val.checked_mul(10) {
            Some(m) => m.checked_add(d),
            None => None,
        };
        match stepped {
            Some(v2) => {
                if v2 > cap {
                    proof {
                        crate::text::lemma_dec_value_prefix(token, i - lo + 1);
                    }
                    return None;
                }
                val = v2;
            },
            None => {
                proof {
                    crate::text::lemma_dec_value_prefix(token, i - lo + 1);
                }
                return None;
            },
        }
        i += 1;
    }
    proof {
        assert(token.take(hi - lo) =~= token);
    }
    Some(val)
}

impl Parser {
    /// Reads one top-level form from `input`: parses it, installing any
    /// `defmacro` forms in the macro table, rejects leftover text, and
    /// returns the macro-expanded expression. Empty input reads as the
    /// empty list.
    pub fn read(input: &str, env: &mut Environment) -> (r: Result<Expr, LispError>)
        ensures
            final(env)@ == (EnvView { macros: read_spec(input@, old(env)@).1, ..old(env)@ }),
            ({
                let out = read_spec(input@, old(env)@).0;
                match r {
                    Ok(e) => out == Ok::<ExprView, Seq<char>>(e@),
                    Err(err) => out is Err && err@ == out->Err_0,
                }
            }),
    {
        let chars = crate::text::str_to_chars(input);
        let mut pos: usize = 0;
        Parser::skip_whitespace_and_comments(&chars, &mut pos);
        if pos >= chars.len() {
            let empty: Vec<Expr> = Vec::new();
            proof {
                assert(crate::expression::exprs_view(empty@) =~= Seq::<ExprView>::empty());
            }
            return Ok(Expr::List(empty));
        }
        let parsed = match Parser::parse_expr(&chars, &mut pos, env) {
            Ok(e) => e,
            Err(err) => {
                return Err(err);
            },
        };
        Parser::skip_whitespace_and_comments(&chars, &mut pos);
        if pos < chars.len() {
            return Err(LispError::new("Unexpected input after list"));
        }
        crate::macro_expander::expand_fuel(&parsed, env, crate::macro_expander::MACRO_FUEL)
    }

    /// Moves `pos` past whitespace and `;` line comments.
    #[verifier::loop_isolation(false)]
    pub fn skip_whitespace_and_comments(chars: &Vec<char>, pos: &mut usize)
        requires
            *old(pos) <= chars@.len(),
        ensures
            *final(pos) as int == skip_ws(chars@, *old(pos) as int),
            *old(pos) <= *final(pos) <= chars@.len(),
    {
        let n = chars.len();
        proof {
            lemma_skip_ws_bounds(chars@, *old(pos) as int);
        }
        while *pos < n
            invariant
                *pos <= n,
                n == chars@.len(),
                *old(pos) <= *pos,
                skip_ws(chars@, *old(pos) as int) == skip_ws(chars@, *pos as int),
            decreases n - *pos,
        {
            let c = chars[*pos];
            if is_space(c) {
                *pos += 1;
            } else if c == ';' {
                *pos += 1;
                let ghost mid = *pos as int;
                proof {
                    assert(skip_ws(chars@, *old(pos) as int) == skip_comment(chars@, mid));
                }
                let mut done = false;
                while !done && *pos < n
                    invariant
                        *pos <= n,
                        n == chars@.len(),
                        *old(pos) <= *pos,
                        mid <= *pos as int,
                        !done ==> skip_ws(chars@, *old(pos) as int) == skip_comment(
                            chars@,
                            *pos as int,
                        ),
                        done ==> skip_ws(chars@, *old(pos) as int) == skip_ws(
                            chars@,
                            *pos as int,
                        ),
                    decreases n - *pos, (if done { 0int } else { 1int }),
                {
                    let c2 = chars[*pos];
                    *pos += 1;
                    if c2 == '\n' {
                        done = true;
                    }
                }
            } else {
                return ;
            }
        }
    }

    /// Parses a string literal; `pos` stands just after the opening
    /// quote. A backslash takes the next character literally.
    #[verifier::loop_isolation(false)]
    fn parse_string(chars: &Vec<char>, pos: &mut usize) -> (r: Result<Expr, LispError>)
        requires
            *old(pos) <= chars@.len(),
        ensures
            *final(pos) <= chars@.len(),
            match r {
                Ok(e) => parse_string_spec(chars@, *old(pos) as int) == Ok::<
                    (ExprView, int),
                    Seq<char>,
                >((e@, *final(pos) as int)),
                Err(err) => parse_string_spec(chars@, *old(pos) as int) is Err && err@
                    == parse_string_spec(chars@, *old(pos) as int)->Err_0,
            },
    {
        let n = chars.len();
        let start = *pos;
        let mut cur: usize = start;
        let mut closed = false;
        let mut content: Vec<char> = Vec::new();
        while !closed && cur < n
            invariant
                start <= cur <= n,
                !closed ==> read_string_body(chars@, start as int) == (match read_string_body(
                    chars@,
                    cur as int,
                ) {
                    Ok((rest, e)) => Ok::<(Seq<char>, int), Seq<char>>((content@ + rest, e)),
                    Err(m) => Err(m),
                }),
                closed ==> read_string_body(chars@, start as int) == Ok::<
                    (Seq<char>, int),
                    Seq<char>,
                >((content@, cur as int)),
            decreases n - cur, (if closed { 0int } else { 1int }),
        {
            let c = chars[cur];
            if c == '"' {
                proof {
                    assert(content@ + Seq::<char>::empty() =~= content@);
                }
                cur = cur + 1;
                closed = true;
            } else if c == '\\' {
                if cur + 1 >= n {
                    return Err(LispError::new("Unterminated string literal"));
                }
                let ghost before = content@;
                content.push(chars[cur + 1]);
                proof {
                    if read_string_body(chars@, cur as int + 2) is Ok {
                        let rest = read_string_body(chars@, cur as int + 2)->Ok_0.0;
                        assert(before + (seq![chars@[cur as int + 1]] + rest) =~= content@ + rest);
                    }
                }
                cur = cur + 2;
            } else {
                let ghost before = content@;
                content.push(c);
                proof {
                    if read_string_body(chars@, cur as int + 1) is Ok {
                        let rest = read_string_body(chars@, cur as int + 1)->Ok_0.0;
                        assert(before + (seq![chars@[cur as int]] + rest) =~= content@ + rest);
                    }
                }
                cur = cur + 1;
            }
        }
        if closed {
            let text = crate::text::chars_to_string(&content);
            *pos = cur;
            Ok(Expr::Str(text))
        } else {
            Err(LispError::new("Unterminated string literal"))
        }
    }

    /// Parses an unsigned number; `pos` stands at its first digit.
    #[verifier::loop_isolation(false)]
    fn parse_number(chars: &Vec<char>, pos: &mut usize) -> (r: Result<Expr, LispError>)
        requires
            *old(pos) <= chars@.len(),
        ensures
            *final(pos) <= chars@.len(),
            match r {
                Ok(e) => parse_number_spec(chars@, *old(pos) as int) == Ok::<
                    (ExprView, int),
                    Seq<char>,
                >((e@, *final(pos) as int)),
                Err(err) => parse_number_spec(chars@, *old(pos) as int) is Err && err@
                    == parse_number_spec(chars@, *old(pos) as int)->Err_0,
            },
    {
        let n = chars.len();
        let start = *pos;
        let end = scan_number_end(chars, start);
        let ghost token = chars@.subrange(start as int, end as int);
        let dots = dots_in_range(chars, start, end);
        if dots >= 2 {
            return Err(LispError::new("Invalid float"));
        }
        if end < n {
            let c = chars[end];
            if !(is_space(c) || c == '(' || c == ')' || c == ';') {
                return Err(LispError::new("Invalid number"));
            }
        }
        if dots == 1 {
            let t = string_from_range(chars, start, end);
            proof {
                lemma_scan_num_chars(chars@, start as int);
                assert forall|k: int| 0 <= k < t@.len() implies t@[k] != 'x' && t@[k]
                    != 'X' by {
                    assert(t@[k] == chars@[start + k]);
                }
            }
            match crate::numerics::f64_parse(t.as_str()) {
                Some(b) => {
                    *pos = end;
                    Ok(Expr::Float(b))
                },
                None => Err(LispError::new("Invalid float")),
            }
        } else {
            proof {
                lemma_scan_num_chars(chars@, start as int);
                assert forall|k: int| 0 <= k < token.len() implies '0' <= #[trigger] token[k]
                    <= '9' by {
                    assert(token[k] == chars@[start + k]);
                    if token[k] == '.' {
                        lemma_count_dots_pos(token, k);
                    }
                }
            }
            match digits_value_capped(chars, start, end, 0x7fff_ffff_ffff_ffff) {
                Some(v) => {
                    *pos = end;
                    Ok(Expr::Number(v as i64))
                },
                None => Err(LispError::new("Invalid number")),
            }
        }
    }

    /// Parses a number whose minus sign was already consumed; `pos`
    /// stands at the first digit or dot.
    #[verifier::loop_isolation(false)]
    fn parse_number_with_leading_sign(chars: &Vec<char>, pos: &mut usize) -> (r: Result<
        Expr,
        LispError,
    >)
        requires
            *old(pos) <= chars@.len(),
        ensures
            *final(pos) <= chars@.len(),
            match r {
                Ok(e) => parse_signed_number_spec(chars@, *old(pos) as int) == Ok::<
                    (ExprView, int),
                    Seq<char>,
                >((e@, *final(pos) as int)),
                Err(err) => parse_signed_number_spec(chars@, *old(pos) as int) is Err && err@
                    == parse_signed_number_spec(chars@, *old(pos) as int)->Err_0,
            },
    {
        let start = *pos;
        let end = scan_number_end(chars, start);
        let ghost token = chars@.subrange(start as int, end as int);
        let dots = dots_in_range(chars, start, end);
        if dots >= 2 {
            return Err(LispError::new("Invalid float"));
        }
        if dots == 1 {
            let mut signed: Vec<char> = Vec::new();
            signed.push('-');
            append_range_chars(&mut signed, chars, start, end);
            proof {
                assert(signed@ =~= seq!['-'] + token);
            }
            let t = crate::text::chars_to_string(&signed);
            proof {
                lemma_scan_num_chars(chars@, start as int);
                assert forall|k: int| 0 <= k < t@.len() implies t@[k] != 'x' && t@[k]
                    != 'X' by {
                    if k >= 1 {
                        assert(t@[k] == token[k - 1]);
                        assert(token[k - 1] == chars@[start + k - 1]);
                    }
                }
            }
            match crate::numerics::f64_parse(t.as_str()) {
                Some(b) => {
                    *pos = end;
                    Ok(Expr::Float(b))
                },
                None => Err(LispError::new("Invalid float")),
            }
        } else {
            proof {
                lemma_scan_num_chars(chars@, start as int);
                assert forall|k: int| 0 <= k < token.len() implies '0' <= #[trigger] token[k]
                    <= '9' by {
                    assert(token[k] == chars@[start + k]);
                    if token[k] == '.' {
                        lemma_count_dots_pos(token, k);
                    }
                }
            }
            match digits_value_capped(chars, start, end, 0x8000_0000_0000_0000) {
                Some(v) => {
                    *pos = end;
                    let value: i64 = if v >= 0x8000_0000_0000_0000 {
                        i64::MIN
                    } else {
                        -(v as i64)
                    };
                    Ok(Expr::Number(value))
                },
                None => Err(LispError::new("Invalid number")),
            }
        }
    }

    /// Parses a bare symbol starting at `pos`.
    fn parse_symbol(chars: &Vec<char>, pos: &mut usize) -> (r: Expr)
        requires
            *old(pos) <= chars@.len(),
        ensures
            *final(pos) as int == scan_sym_end(chars@, *old(pos) as int),
            *old(pos) <= *final(pos) <= chars@.len(),
            r@ == ExprView::Symbol(
                chars@.subrange(*old(pos) as int, scan_sym_end(chars@, *old(pos) as int)),
            ),
    {
        let start = *pos;
        let end = scan_symbol_end(chars, start);
        let name = string_from_range(chars, start, end);
        *pos = end;
        Expr::Symbol(name)
    }

    /// Parses one expression. `pos` moves past it; `defmacro` forms met
    /// on the way extend the macro table of `env` and nothing else in it.
    pub fn parse_expr(chars: &Vec<char>, pos: &mut usize, env: &mut Environment) -> (r: Result<
        Expr,
        LispError,
    >)
        requires
            *old(pos) <= chars@.len(),
        ensures
            *final(pos) <= chars@.len(),
            final(env)@ == (EnvView {
                macros: parse_expr_spec(chars@, *old(pos) as int, old(env)@.macros).macros,
                ..old(env)@
            }),
            match r {
                Ok(e) => parse_expr_spec(chars@, *old(pos) as int, old(env)@.macros).result == Ok::<
                    (ExprView, int),
                    Seq<char>,
                >((e@, *final(pos) as int)),
                Err(err) => parse_expr_spec(
                    chars@,
                    *old(pos) as int,
                    old(env)@.macros,
                ).result is Err && err@ == parse_expr_spec(
                    chars@,
                    *old(pos) as int,
                    old(env)@.macros,
                ).result->Err_0,
            },
        decreases chars@.len() - *old(pos), 1int,
    {
        let n = chars.len();
        Parser::skip_whitespace_and_comments(chars, pos);
        let j = *pos;
        if j >= n {
            return Err(LispError::new("Unexpected end of input"));
        }
        let c = chars[j];
        if c == '(' {
            *pos = j + 1;
            Parser::parse_list(chars, pos, env)
        } else if c == '\'' || c == '`' || c == ',' {
            *pos = j + 1;
            let inner = match Parser::parse_expr(chars, pos, env) {
                Ok(e) => e,
                Err(err) => {
                    return Err(err);
                },
            };
            let head: Expr = if c == '\'' {
                Expr::Symbol("quote".to_string())
            } else if c == '`' {
                Expr::Symbol("quasiquote".to_string())
            } else {
                Expr::Symbol("unquote".to_string())
            };
            let mut items: Vec<Expr> = Vec::new();
            items.push(head);
            items.push(inner);
            let r = Expr::List(items);
            proof {
                let name: Seq<char> = if c == '\'' {
                    "quote"@
                } else if c == '`' {
                    "quasiquote"@
                } else {
                    "unquote"@
                };
                assert(crate::expression::exprs_view(r->List_0@) =~= seq![
                    ExprView::Symbol(name),
                    parse_expr_spec(
                        chars@,
                        j + 1,
                        old(env)@.macros,
                    ).result->Ok_0.0,
                ]);
            }
            Ok(r)
        } else if c == '"' {
            *pos = j + 1;
            Parser::parse_string(chars, pos)
        } else if c == '-' {
            if j + 1 >= n {
                return Err(LispError::new("Invalid number"));
            }
            let c2 = chars[j + 1];
            if is_digit(c2) || c2 == '.' {
                *pos = j + 1;
                Parser::parse_number_with_leading_sign(chars, pos)
            } else if is_space(c2) || c2 == '(' || c2 == ')' {
                *pos = j + 1;
                Ok(Expr::Symbol("-".to_string()))
            } else {
                let end = scan_symbol_end(chars, j + 1);
                let name = string_from_range(chars, j, end);
                *pos = end;
                Ok(Expr::Symbol(name))
            }
        } else if is_digit(c) {
            Parser::parse_number(chars, pos)
        } else {
            let end = scan_symbol_end(chars, j);
            if end == j + 1 && c == '.' {
                return Err(LispError::new("Invalid number"));
            }
            Ok(Parser::parse_symbol(chars, pos))
        }
    }

    /// Parses list elements up to the closing parenthesis; `pos` stands
    /// just after the opening one.
    #[verifier::loop_isolation(false)]
    fn parse_list(chars: &Vec<char>, pos: &mut usize, env: &mut Environment) -> (r: Result<
        Expr,
        LispError,
    >)
        requires
            *old(pos) <= chars@.len(),
        ensures
            *final(pos) <= chars@.len(),
            final(env)@ == (EnvView {
                macros: parse_items_spec(
                    chars@,
                    *old(pos) as int,
                    old(env)@.macros,
                    Seq::empty(),
                ).macros,
                ..old(env)@
            }),
            match r {
                Ok(e) => parse_items_spec(
                    chars@,
                    *old(pos) as int,
                    old(env)@.macros,
                    Seq::empty(),
                ).result == Ok::<(ExprView, int), Seq<char>>((e@, *final(pos) as int)),
                Err(err) => parse_items_spec(
                    chars@,
                    *old(pos) as int,
                    old(env)@.macros,
                    Seq::empty(),
                ).result is Err && err@ == parse_items_spec(
                    chars@,
                    *old(pos) as int,
                    old(env)@.macros,
                    Seq::empty(),
                ).result->Err_0,
            },
        decreases chars@.len() - *old(pos), 2int,
    {
        let n = chars.len();
        let ghost i0 = *old(pos) as int;
        let ghost m0 = old(env)@.macros;
        let ghost env0 = old(env)@;
        let mut items: Vec<Expr> = Vec::new();
        proof {
            assert(crate::expression::exprs_view(Seq::<Expr>::empty()) =~= Seq::<
                ExprView,
            >::empty());
            assert(items@ =~= Seq::<Expr>::empty());
        }
        loop
            invariant
                *pos <= n,
                n == chars@.len(),
                i0 <= *pos as int,
                env@.symbols == env0.symbols,
                env@.functions == env0.functions,
                env@.ops == env0.ops,
                env@.gensym == env0.gensym,
                parse_items_spec(chars@, i0, m0, Seq::empty()) == parse_items_spec(
                    chars@,
                    *pos as int,
                    env@.macros,
                    crate::expression::exprs_view(items@),
                ),
            decreases n - *pos,
        {
            let ghost pos_at_entry = *pos as int;
            let ghost macros_at_entry = env@.macros;
            let ghost acc_at_entry = crate::expression::exprs_view(items@);
            Parser::skip_whitespace_and_comments(chars, pos);
            let j = *pos;
            if j >= n {
                return Err(LispError::new("Parse Error: Unexpected end of list"));
            }
            if chars[j] == ')' {
                *pos = j + 1;
                let is_defmacro: bool = if items.len() > 0 {
                    match &items[0] {
                        Expr::Symbol(name) => crate::text::str_equal(name.as_str(), "defmacro"),
                        _ => false,
                    }
                } else {
                    false
                };
                proof {
                    assert(is_defmacro == (acc_at_entry.len() > 0 && acc_at_entry[0]
                        == ExprView::Symbol("defmacro"@)));
                }
                if is_defmacro {
                    let res = crate::macro_expander::MacroExpander::parse_defmacro(&items, env);
                    return res;
                }
                return Ok(Expr::List(items));
            }
            proof {
                lemma_parse_expr_advances(chars@, j as int, env@.macros);
            }
            let parsed = match Parser::parse_expr(chars, pos, env) {
                Ok(e) => e,
                Err(err) => {
                    return Err(err);
                },
            };
            items.push(parsed);
            proof {
                assert(crate::expression::exprs_view(items@) =~= acc_at_entry.push(parsed@));
            }
        }
    }
}

/// Appends the characters of `s` from `lo` to `hi` to `out`.
fn append_range_chars(out: &mut Vec<char>, s: &Vec<char>, lo: usize, hi: usize)
    requires
        lo <= hi <= s@.len(),
    ensures
        final(out)@ == old(out)@ + s@.subrange(lo as int, hi as int),
{
    let mut j: usize = lo;
    while j < hi
        invariant
            lo <= j <= hi <= s@.len(),
            out@ =~= old(out)@ + s@.subrange(lo as int, j as int),
        decreases hi - j,
    {
        out.push(s[j]);
        proof {
            assert(s@.subrange(lo as int, j as int + 1) =~= s@.subrange(lo as int, j as int).push(
                s@[j as int],
            ));
        }
        j += 1;
    }
}

} // verus!
