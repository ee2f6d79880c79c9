//! Printing a float. The formatting wrapper writes a double in decimal
//! scientific notation at a chosen number of significant digits; this
//! module picks the smallest precision whose output parses back to the
//! same bits, then rewrites the scientific form as a plain decimal.
use crate::numerics::{
    bits_of_decimal, decimal_of_bits, f64_format, f64_is_nan, f64_parse, is_nan_bits, is_inf_bits,
    is_zero_bits, sign_of_bits,
};
use crate::text::{all_digits, chars_to_string, dec_value, lemma_dec_value_prefix, str_to_chars};
use vstd::prelude::*;

verus! {

/// The first position at or after `i` where `c` occurs in `s`.
pub open spec fn find_char(s: Seq<char>, c: char, i: int) -> Option<int>
    decreases s.len() - i,
{
    if i < 0 || i >= s.len() {
        None
    } else if s[i] == c {
        Some(i)
    } else {
        find_char(s, c, i + 1)
    }
}

/// A run of `n` zero characters (empty when `n` is not positive).
pub open spec fn zeros(n: int) -> Seq<char> {
    Seq::new(
        if n >= 0 {
            n as nat
        } else {
            0
        },
        |i: int| '0',
    )
}

/// Whether `body` (a scientific form without its sign) is shaped
/// `D.M…ME±X…X`, with the exponent no larger than a thousand.
pub open spec fn sci_wf(body: Seq<char>, e: int) -> bool {
    &&& 3 <= e
    &&& e + 2 < body.len()
    &&& '0' <= body[0] <= '9'
    &&& body[1] == '.'
    &&& all_digits(body.subrange(2, e))
    &&& (body[e + 1] == '+' || body[e + 1] == '-')
    &&& all_digits(body.subrange(e + 2, body.len() as int))
    &&& dec_value(body.subrange(e + 2, body.len() as int)) <= 1000
}

/// The plain decimal written by a well-shaped scientific form.
pub open spec fn sci_expand(body: Seq<char>, e: int) -> Seq<char> {
    let mant = body.subrange(2, e);
    let digits = if mant == seq!['0'] {
        seq![body[0]]
    } else {
        seq![body[0]] + mant
    };
    let ev = dec_value(body.subrange(e + 2, body.len() as int));
    let exp = if body[e + 1] == '-' {
        -ev
    } else {
        ev
    };
    let point = 1 + exp;
    if point >= digits.len() {
        digits + zeros(point - digits.len())
    } else if point >= 1 {
        digits.take(point) + seq!['.'] + digits.skip(point)
    } else {
        seq!['0', '.'] + zeros(-point) + digits
    }
}

/// Rewrites a decimal scientific form as a plain decimal; anything of
/// another shape passes through unchanged.
pub open spec fn expand_sci(s: Seq<char>) -> Seq<char> {
    let neg = s.len() > 0 && s[0] == '-';
    let body = if neg {
        s.drop_first()
    } else {
        s
    };
    match find_char(body, 'E', 0) {
        Some(e) => if sci_wf(body, e) {
            if neg {
                seq!['-'] + sci_expand(body, e)
            } else {
                sci_expand(body, e)
            }
        } else {
            s
        },
        None => s,
    }
}

/// The smallest number of significant digits, at least `p` and at most
/// seventeen, at which the formatted double parses back to its own bits.
pub open spec fn pick_precision(bits: u64, p: usize) -> usize
    decreases 17 - p,
{
    if p >= 17 {
        17
    } else if bits_of_decimal(decimal_of_bits(bits, p)) == Some(bits) {
        p
    } else {
        pick_precision(bits, (p + 1) as usize)
    }
}

/// What printing the double given by bits yields: `NaN`, a signed `inf`,
/// a signed `0`, or the shortest round-tripping decimal.
pub open spec fn float_dec(bits: u64) -> Seq<char> {
    if is_nan_bits(bits) {
        "NaN"@
    } else if is_inf_bits(bits) {
        if sign_of_bits(bits) {
            "-inf"@
        } else {
            "inf"@
        }
    } else if is_zero_bits(bits) {
        if sign_of_bits(bits) {
            "-0"@
        } else {
            "0"@
        }
    } else {
        expand_sci(decimal_of_bits(bits, pick_precision(bits, 1)))
    }
}

/// A found character lies inside the sequence.
proof fn lemma_find_char_in_range(s: Seq<char>, c: char, i: int)
    ensures
        match find_char(s, c, i) {
            Some(e) => i <= e < s.len() && s[e] == c,
            None => true,
        },
    decreases s.len() - i,
{
    if !(i < 0 || i >= s.len()) && s[i] != c {
        lemma_find_char_in_range(s, c, i + 1);
    }
}

/// The position of the exponent marker in the unsigned part of a
/// scientific form.
fn find_marker(s: &Vec<char>, off: usize) -> (r: Option<usize>)
    requires
        off <= s@.len(),
    ensures
        match r {
            Some(e) => find_char(s@.skip(off as int), 'E', 0) == Some(e as int),
            None => find_char(s@.skip(off as int), 'E', 0) is None,
        },
{
    let ghost body = s@.skip(off as int);
    let n = s.len();
    let mut j: usize = off;
    while j < n
        invariant
            off <= j <= n,
            n == s@.len(),
            body == s@.skip(off as int),
            find_char(body, 'E', 0) == find_char(body, 'E', j - off),
        decreases n - j,
    {
        if s[j] == 'E' {
            proof {
                assert(body[j - off] == 'E');
            }
            return Some(j - off);
        }
        proof {
            assert(body[j - off] != 'E');
        }
        j += 1;
    }
    None
}

/// Whether the characters of `s` from `lo` to `hi` are all decimal
/// digits.
fn digits_in_range(s: &Vec<char>, lo: usize, hi: usize) -> (r: bool)
    requires
        lo <= hi <= s@.len(),
    ensures
        r == all_digits(s@.subrange(lo as int, hi as int)),
{
    let ghost part = s@.subrange(lo as int, hi as int);
    let mut j: usize = lo;
    while j < hi
        invariant
            lo <= j <= hi <= s@.len(),
            part == s@.subrange(lo as int, hi as int),
            forall|k: int| lo <= k < j ==> '0' <= #[trigger] s@[k] <= '9',
        decreases hi - j,
    {
        if !('0' <= s[j] && s[j] <= '9') {
            proof {
                assert(part[j - lo] == s@[j as int]);
            }
            return false;
        }
        j += 1;
    }
    proof {
        assert(forall|k: int| 0 <= k < part.len() ==> part[k] == #[trigger] s@[k + lo]);
    }
    true
}

/// The value of the digit run from `lo` to the end of `s`, unless it
/// passes a thousand.
fn exponent_value(s: &Vec<char>, lo: usize) -> (r: Option<u64>)
    requires
        lo <= s@.len(),
        all_digits(s@.subrange(lo as int, s@.len() as int)),
    ensures
        match r {
            Some(v) => v == dec_value(s@.subrange(lo as int, s@.len() as int)) && v <= 1000,
            None => dec_value(s@.subrange(lo as int, s@.len() as int)) > 1000,
        },
{
    let ghost part = s@.subrange(lo as int, s@.len() as int);
    let n = s.len();
    let mut v: u64 = 0;
    let mut j: usize = lo;
    while j < n
        invariant
            lo <= j <= n,
            n == s@.len(),
            part == s@.subrange(lo as int, s@.len() as int),
            all_digits(part),
            v <= 1000,
            v == dec_value(part.take(j - lo)),
        decreases n - j,
    {
        let c = s[j];
        proof {
            assert(part[j - lo] == c);
            assert(part.take(j - lo + 1).drop_last() =~= part.take(j - lo));
        }
        v = v * 10 + ((c as u32 as u64) - 48);
        j += 1;
        if v > 1000 {
            proof {
                lemma_dec_value_prefix(part, j - lo);
            }
            return None;
        }
    }
    proof {
        assert(part.take(n - lo) =~= part);
    }
    Some(v)
}

/// Appends the characters of `s` from `lo` to `hi` to `out`.
fn append_range(out: &mut Vec<char>, s: &Vec<char>, lo: usize, hi: usize)
    requires
        lo <= hi <= s@.len(),
    ensures
        final(out)@ == old(out)@ + s@.subrange(lo as int, hi as int),
{
    let mut j: usize = lo;
    while j < hi
        invariant
            lo <= j <= hi <= s@.len(),
            out@ =~= old(out)@ + s@.subrange(lo as int, j as int),
        decreases hi - j,
    {
        out.push(s[j]);
        proof {
            assert(s@.subrange(lo as int, j as int + 1) =~= s@.subrange(lo as int, j as int).push(
                s@[j as int],
            ));
        }
        j += 1;
    }
}

/// Appends `count` zero characters to `out`.
fn append_zeros(out: &mut Vec<char>, count: u64)
    ensures
        final(out)@ == old(out)@ + zeros(count as int),
{
    let mut z: u64 = 0;
    while z < count
        invariant
            z <= count,
            out@ =~= old(out)@ + zeros(z as int),
        decreases count - z,
    {
        out.push('0');
        proof {
            assert(zeros(z as int + 1) =~= zeros(z as int).push('0'));
        }
        z += 1;
    }
}

/// Expands one scientific form; used on the output of the formatting
/// wrapper.
#[verifier::rlimit(50)]
fn expand_sci_chars(s: &Vec<char>) -> (r: Vec<char>)
    ensures
        r@ == expand_sci(s@),
{
    let n = s.len();
    let neg = n > 0 && s[0] == '-';
    let off: usize = if neg { 1 } else { 0 };
    let ghost body = if neg { s@.drop_first() } else { s@ };
    proof {
        assert(body =~= s@.skip(off as int));
        assert(forall|j: int| 0 <= j < body.len() ==> body[j] == s@[j + off]);
    }
    let blen = n - off;
    let e = match find_marker(s, off) {
        Some(e) => e,
        None => {
            return s.clone();
        }
    };
    proof {
        assert(find_char(body, 'E', 0) == Some(e as int));
        lemma_find_char_in_range(body, 'E', 0);
        assert(e < blen);
    }
    if e < 3 || blen - e <= 2 {
        proof {
            assert(!sci_wf(body, e as int));
        }
        return s.clone();
    }
    if !('0' <= s[off] && s[off] <= '9') || s[off + 1] != '.' {
        proof {
            assert(body[0] == s@[off as int] && body[1] == s@[off as int + 1]);
            assert(!sci_wf(body, e as int));
        }
        return s.clone();
    }
    let ghost mant = body.subrange(2, e as int);
    proof {
        assert(mant =~= s@.subrange(off + 2, (off + e) as int));
    }
    if !digits_in_range(s, off + 2, off + e) {
        proof {
            assert(!sci_wf(body, e as int));
        }
        return s.clone();
    }
    let sign_ch = s[off + e + 1];
    if !(sign_ch == '+' || sign_ch == '-') {
        proof {
            assert(body[e as int + 1] == s@[(off + e + 1) as int]);
            assert(!sci_wf(body, e as int));
        }
        return s.clone();
    }
    let ghost edigits = body.subrange(e as int + 2, body.len() as int);
    proof {
        assert(edigits =~= s@.subrange((off + e + 2) as int, s@.len() as int));
    }
    if !digits_in_range(s, off + e + 2, n) {
        proof {
            assert(!sci_wf(body, e as int));
        }
        return s.clone();
    }
    let ev: u64 = match exponent_value(s, off + e + 2) {
        Some(v) => v,
        None => {
            proof {
                assert(!sci_wf(body, e as int));
            }
            return s.clone();
        }
    };
    proof {
        assert(sci_wf(body, e as int));
    }
    // The digit run: the lead digit, then the mantissa unless the
    // mantissa is the lone placeholder zero.
    let mut digits: Vec<char> = Vec::new();
    digits.push(s[off]);
    if e == 3 && s[off + 2] == '0' {
        proof {
            assert(mant =~= seq!['0']);
            assert(digits@ =~= seq![body[0]]);
        }
    } else {
        append_range(&mut digits, s, off + 2, off + e);
        proof {
            if mant == seq!['0'] {
                assert(mant.len() == 1);
                assert(mant[0] == '0');
                assert(false);
            }
            assert(digits@ =~= seq![body[0]] + mant);
        }
    }
    let ghost gdigits = if mant == seq!['0'] {
        seq![body[0]]
    } else {
        seq![body[0]] + mant
    };
    proof {
        assert(digits@ == gdigits);
        assert(digits@.len() <= 1 + mant.len() < n);
    }
    let exp: i64 = if sign_ch == '-' {
        -(ev as i64)
    } else {
        ev as i64
    };
    let point: i64 = 1 + exp;
    let mut out: Vec<char> = Vec::new();
    if neg {
        out.push('-');
    }
    let ghost sign_prefix = if neg { seq!['-'] } else { Seq::<char>::empty() };
    proof {
        assert(out@ =~= sign_prefix);
        assert(-1000 <= point <= 1001);
    }
    if point >= 0 && digits.len() <= point as usize {
        append_range(&mut out, &digits, 0, digits.len());
        let zcount: u64 = point as u64 - digits.len() as u64;
        append_zeros(&mut out, zcount);
        proof {
            assert(digits@.subrange(0, digits@.len() as int) =~= digits@);
            assert(point as int >= gdigits.len());
            assert(zcount as int == point - gdigits.len());
            assert(out@ =~= sign_prefix + (gdigits + zeros(point - gdigits.len())));
        }
    } else if point >= 1 {
        let p = point as usize;
        append_range(&mut out, &digits, 0, p);
        out.push('.');
        append_range(&mut out, &digits, p, digits.len());
        proof {
            assert(digits@.subrange(0, p as int) =~= gdigits.take(point as int));
            assert(digits@.subrange(p as int, digits@.len() as int) =~= gdigits.skip(point as int));
            assert(out@ =~= sign_prefix + (gdigits.take(point as int) + seq!['.'] + gdigits.skip(
                point as int,
            )));
        }
    } else {
        out.push('0');
        out.push('.');
        append_zeros(&mut out, (-point) as u64);
        append_range(&mut out, &digits, 0, digits.len());
        proof {
            assert(digits@.subrange(0, digits@.len() as int) =~= digits@);
            assert(out@ =~= sign_prefix + (seq!['0', '.'] + zeros(-(point as int)) + gdigits));
        }
    }
    proof {
        assert(out@ == expand_sci(s@));
    }
    out
}

/// The printed form of the double given by bits.
pub fn format_float(bits: u64) -> (r: String)
    ensures
        r@ == float_dec(bits),
{
    if f64_is_nan(bits) {
        return "NaN".to_string();
    }
    let mag = bits & 0x7fff_ffff_ffff_ffff;
    let negative = bits & 0x8000_0000_0000_0000 != 0;
    if mag == 0x7ff0_0000_0000_0000 {
        return if negative {
            "-inf".to_string()
        } else {
            "inf".to_string()
        };
    }
    if mag == 0 {
        return if negative {
            "-0".to_string()
        } else {
            "0".to_string()
        };
    }
    let mut p: usize = 1;
    let mut formatted = f64_format(bits, p);
    let mut parsed = f64_parse(formatted.as_str());
    while !(p >= 17 || parsed == Some(bits))
        invariant
            1 <= p <= 17,
            formatted@ == decimal_of_bits(bits, p),
            parsed == bits_of_decimal(formatted@),
            pick_precision(bits, 1) == pick_precision(bits, p),
        decreases 17 - p,
    {
        p += 1;
        formatted = f64_format(bits, p);
        parsed = f64_parse(formatted.as_str());
    }
    proof {
        assert(pick_precision(bits, 1) == p);
    }
    let cs = str_to_chars(formatted.as_str());
    let out = expand_sci_chars(&cs);
    chars_to_string(&out)
}

} // verus!
