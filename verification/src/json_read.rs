//! A JSON reader for the document model of `json`.
//!
//! The grammar is standard JSON: objects, arrays, strings with escapes
//! (including `\uXXXX` and surrogate pairs), numbers, `true`, `false`,
//! `null`.  An integer that fits `i64` becomes `Json::Int`; any other
//! numeric literal is kept verbatim as `Json::Num`.  A later duplicate
//! key in an object replaces nothing: members are kept in order and
//! lookups take the last binding.

use vstd::prelude::*;

use crate::json::{Json, JsonSpec};
use crate::text::{digit_val, is_digit, is_digit_exec, scan_digits, scan_digits_exec, sub_chars, ws_char};

verus! {

broadcast use vstd::std_specs::vec::group_vec_axioms, vstd::seq::group_seq_axioms;

/// Relies on `char::from_u32`: `Some` exactly on Unicode scalar values
/// (not a surrogate, at most 0x10FFFF), returning the scalar itself.
pub assume_specification[ char::from_u32 ](n: u32) -> (r: Option<char>)
    ensures
        if 0xD800 <= n < 0xE000 || n > 0x10FFFF {
            r is None
        } else {
            r == Some(n as char)
        },
;

/// The first position at or after `p` that does not hold whitespace.
pub open spec fn skip_ws(s: Seq<char>, p: int) -> int
    decreases s.len() - p,
{
    if 0 <= p < s.len() && ws_char(s[p]) {
        skip_ws(s, p + 1)
    } else {
        p
    }
}

/// The value of the digit run `s[a .. b]`, read as a decimal numeral.
pub open spec fn digits_val(s: Seq<char>, a: int, b: int) -> int
    decreases b - a,
{
    if a >= b {
        0
    } else {
        digits_val(s, a, b - 1) * 10 + digit_val(s[b - 1])
    }
}

/// The value of a hexadecimal digit character, or -1.
pub open spec fn hex_val(c: char) -> int {
    if 48 <= c as u32 <= 57 {
        c as u32 - 48
    } else if 97 <= c as u32 <= 102 {
        c as u32 - 87
    } else if 65 <= c as u32 <= 70 {
        c as u32 - 55
    } else {
        -1
    }
}

/// The value of the four hexadecimal digits at `p`, if they are there.
pub open spec fn hex4(s: Seq<char>, p: int) -> Option<int> {
    if p < 0 || p + 4 > s.len() {
        None
    } else if hex_val(s[p]) >= 0 && hex_val(s[p + 1]) >= 0 && hex_val(s[p + 2]) >= 0 && hex_val(
        s[p + 3],
    ) >= 0 {
        Some(4096 * hex_val(s[p]) + 256 * hex_val(s[p + 1]) + 16 * hex_val(s[p + 2]) + hex_val(
            s[p + 3],
        ))
    } else {
        None
    }
}

/// Reads string content from `p` (just past the opening quote) to the
/// closing quote, appending the decoded characters to `acc`.
pub open spec fn parse_str_body(s: Seq<char>, p: int, acc: Seq<char>) -> Option<(Seq<char>, int)>
    decreases s.len() - p,
{
    if p < 0 || p >= s.len() {
        None
    } else {
        let c = s[p];
        if c == '"' {
            Some((acc, p + 1))
        } else if c == '\\' {
            if p + 1 >= s.len() {
                None
            } else {
                let e = s[p + 1];
                if e == '"' {
                    parse_str_body(s, p + 2, acc.push('"'))
                } else if e == '\\' {
                    parse_str_body(s, p + 2, acc.push('\\'))
                } else if e == '/' {
                    parse_str_body(s, p + 2, acc.push('/'))
                } else if e == 'n' {
                    parse_str_body(s, p + 2, acc.push('\n'))
                } else if e == 'r' {
                    parse_str_body(s, p + 2, acc.push('\r'))
                } else if e == 't' {
                    parse_str_body(s, p + 2, acc.push('\t'))
                } else if e == 'b' {
                    parse_str_body(s, p + 2, acc.push('\u{08}'))
                } else if e == 'f' {
                    parse_str_body(s, p + 2, acc.push('\u{0c}'))
                } else if e == 'u' {
                    match hex4(s, p + 2) {
                        None => None,
                        Some(code) => {
                            if 0xD800 <= code < 0xDC00 {
                                if p + 12 <= s.len() && s[p + 6] == '\\' && s[p + 7] == 'u' {
                                    match hex4(s, p + 8) {
                                        None => None,
                                        Some(lo) => {
                                            if 0xDC00 <= lo < 0xE000 {
                                                let cp = 0x10000 + (code - 0xD800) * 0x400 + (lo
                                                    - 0xDC00);
                                                parse_str_body(
                                                    s,
                                                    p + 12,
                                                    acc.push((cp as u32) as char),
                                                )
                                            } else {
                                                None
                                            }
                                        },
                                    }
                                } else {
                                    None
                                }
                            } else if 0xDC00 <= code < 0xE000 {
                                None
                            } else {
                                parse_str_body(s, p + 6, acc.push((code as u32) as char))
                            }
                        },
                    }
                } else {
                    None
                }
            }
        } else if (c as u32) < 0x20 {
            None
        } else {
            parse_str_body(s, p + 1, acc.push(c))
        }
    }
}

/// Reads the string literal that starts at `p`.
pub open spec fn parse_string(s: Seq<char>, p: int) -> Option<(Seq<char>, int)> {
    if 0 <= p < s.len() && s[p] == '"' {
        parse_str_body(s, p + 1, Seq::empty())
    } else {
        None
    }
}

/// Reads the fraction and exponent parts of a numeric literal from `p`;
/// gives whether either part is present, and the end position.
pub open spec fn scan_frac_exp(s: Seq<char>, p: int) -> Option<(bool, int)> {
    let f = if 0 <= p < s.len() && s[p] == '.' {
        let f1 = scan_digits(s, p + 1);
        if f1 == p + 1 {
            None
        } else {
            Some((true, f1))
        }
    } else {
        Some((false, p))
    };
    match f {
        None => None,
        Some((isf, q)) => {
            if 0 <= q < s.len() && (s[q] == 'e' || s[q] == 'E') {
                let r = if q + 1 < s.len() && (s[q + 1] == '+' || s[q + 1] == '-') {
                    q + 2
                } else {
                    q + 1
                };
                let e1 = scan_digits(s, r);
                if e1 == r {
                    None
                } else {
                    Some((true, e1))
                }
            } else {
                Some((isf, q))
            }
        },
    }
}

/// Reads the numeric literal that starts at `p`.
pub open spec fn parse_number(s: Seq<char>, p: int) -> Option<(JsonSpec, int)> {
    if p < 0 || p >= s.len() {
        None
    } else {
        let neg = s[p] == '-';
        let d0 = if neg {
            p + 1
        } else {
            p
        };
        let d1 = scan_digits(s, d0);
        if d1 == d0 {
            None
        } else if s[d0] == '0' && d1 > d0 + 1 {
            None
        } else {
            match scan_frac_exp(s, d1) {
                None => None,
                Some((isf, end)) => {
                    if isf {
                        Some((JsonSpec::Num(s.subrange(p, end)), end))
                    } else {
                        let v = digits_val(s, d0, d1);
                        if neg {
                            if v <= 0x8000_0000_0000_0000 {
                                Some((JsonSpec::Int((-v) as i64), end))
                            } else {
                                Some((JsonSpec::Num(s.subrange(p, end)), end))
                            }
                        } else {
                            if v <= 0x7fff_ffff_ffff_ffff {
                                Some((JsonSpec::Int(v as i64), end))
                            } else {
                                Some((JsonSpec::Num(s.subrange(p, end)), end))
                            }
                        }
                    }
                },
            }
        }
    }
}

/// Whether `lit` stands at `p` in `s`.
pub open spec fn has_lit(s: Seq<char>, p: int, lit: Seq<char>) -> bool {
    0 <= p && p + lit.len() <= s.len() && s.subrange(p, p + lit.len()) == lit
}

/// Reads the document value that starts at or after `p` (leading
/// whitespace skipped).
pub open spec fn parse_value(s: Seq<char>, p: int) -> Option<(JsonSpec, int)>
    decreases s.len() - p, 1int,
{
    let p2 = skip_ws(s, p);
    if p2 < 0 || p2 >= s.len() || p2 < p {
        None
    } else {
        let c = s[p2];
        if c == '{' {
            let p3 = skip_ws(s, p2 + 1);
            if p2 + 1 <= p3 < s.len() && s[p3] == '}' {
                Some((JsonSpec::Obj(Seq::empty()), p3 + 1))
            } else {
                parse_members(s, p2 + 1, Seq::empty())
            }
        } else if c == '[' {
            let p3 = skip_ws(s, p2 + 1);
            if p2 + 1 <= p3 < s.len() && s[p3] == ']' {
                Some((JsonSpec::Arr(Seq::empty()), p3 + 1))
            } else {
                parse_items(s, p2 + 1, Seq::empty())
            }
        } else if c == '"' {
            match parse_string(s, p2) {
                None => None,
                Some((cs, q)) => Some((JsonSpec::Str(cs), q)),
            }
        } else if c == 't' {
            if has_lit(s, p2, seq!['t', 'r', 'u', 'e']) {
                Some((JsonSpec::Bool(true), p2 + 4))
            } else {
                None
            }
        } else if c == 'f' {
            if has_lit(s, p2, seq!['f', 'a', 'l', 's', 'e']) {
                Some((JsonSpec::Bool(false), p2 + 5))
            } else {
                None
            }
        } else if c == 'n' {
            if has_lit(s, p2, seq!['n', 'u', 'l', 'l']) {
                Some((JsonSpec::Null, p2 + 1 + 3))
            } else {
                None
            }
        } else if c == '-' || is_digit(c) {
            parse_number(s, p2)
        } else {
            None
        }
    }
}

/// Reads array elements from `p` on, `acc` holding those already read.
pub open spec fn parse_items(s: Seq<char>, p: int, acc: Seq<JsonSpec>) -> Option<(JsonSpec, int)>
    decreases s.len() - p, 2int,
{
    if p < 0 || p > s.len() {
        None
    } else {
        match parse_value(s, p) {
            None => None,
            Some((j, q0)) => {
                let q = if q0 > p {
                    q0
                } else {
                    p + 1
                };
                let q2 = skip_ws(s, q);
                if q <= q2 < s.len() && s[q2] == ',' {
                    parse_items(s, q2 + 1, acc.push(j))
                } else if q <= q2 < s.len() && s[q2] == ']' {
                    Some((JsonSpec::Arr(acc.push(j)), q2 + 1))
                } else {
                    None
                }
            },
        }
    }
}

/// Reads object members from `p` on, `acc` holding those already read.
pub open spec fn parse_members(s: Seq<char>, p: int, acc: Seq<(Seq<char>, JsonSpec)>) -> Option<
    (JsonSpec, int),
>
    decreases s.len() - p, 2int,
{
    if p < 0 || p > s.len() {
        None
    } else {
        let k0 = skip_ws(s, p);
        if k0 < p {
            None
        } else {
            match parse_string(s, k0) {
                None => None,
                Some((key, q0)) => {
                    let q = if q0 > p {
                        q0
                    } else {
                        p + 1
                    };
                    let q2 = skip_ws(s, q);
                    if q <= q2 < s.len() && s[q2] == ':' {
                        match parse_value(s, q2 + 1) {
                            None => None,
                            Some((j, r0)) => {
                                let r = if r0 > q2 + 1 {
                                    r0
                                } else {
                                    q2 + 2
                                };
                                let r2 = skip_ws(s, r);
                                if r <= r2 < s.len() && s[r2] == ',' {
                                    parse_members(s, r2 + 1, acc.push((key, j)))
                                } else if r <= r2 < s.len() && s[r2] == '}' {
                                    Some((JsonSpec::Obj(acc.push((key, j))), r2 + 1))
                                } else {
                                    None
                                }
                            },
                        }
                    } else {
                        None
                    }
                },
            }
        }
    }
}

/// The document model of a whole JSON text: one value, with nothing but
/// whitespace around it.
pub open spec fn spec_parse_json(s: Seq<char>) -> Option<JsonSpec> {
    match parse_value(s, 0) {
        None => None,
        Some((j, q)) => {
            if skip_ws(s, q) == s.len() {
                Some(j)
            } else {
                None
            }
        },
    }
}

} // verus!

verus! {

/// Executable twin of `skip_ws`.
fn skip_ws_exec(s: &Vec<char>, p: usize) -> (r: usize)
    requires
        p <= s@.len(),
    ensures
        r as int == skip_ws(s@, p as int),
        p <= r <= s@.len(),
{
    let n = s.len();
    let mut cur = p;
    while cur < n && crate::text::is_ws_char(s[cur])
        invariant
            p <= cur <= n,
            n == s@.len(),
            skip_ws(s@, p as int) == skip_ws(s@, cur as int),
        decreases n - cur,
    {
        cur = cur + 1;
    }
    cur
}

/// Executable twin of `hex_val`.
fn hex_val_exec(c: char) -> (r: i32)
    ensures
        r as int == hex_val(c),
{
    let u = c as u32;
    if 48 <= u && u <= 57 {
        (u - 48) as i32
    } else if 97 <= u && u <= 102 {
        (u - 87) as i32
    } else if 65 <= u && u <= 70 {
        (u - 55) as i32
    } else {
        -1
    }
}

/// Executable twin of `hex4`.
fn hex4_exec(s: &Vec<char>, p: usize) -> (r: Option<u32>)
    requires
        p <= s@.len(),
    ensures
        match r {
            Some(v) => hex4(s@, p as int) == Some(v as int) && v < 0x10000,
            None => hex4(s@, p as int) is None,
        },
{
    if s.len() < 4 || p > s.len() - 4 {
        return None;
    }
    let h0 = hex_val_exec(s[p]);
    let h1 = hex_val_exec(s[p + 1]);
    let h2 = hex_val_exec(s[p + 2]);
    let h3 = hex_val_exec(s[p + 3]);
    if h0 >= 0 && h1 >= 0 && h2 >= 0 && h3 >= 0 {
        Some(4096 * (h0 as u32) + 256 * (h1 as u32) + 16 * (h2 as u32) + (h3 as u32))
    } else {
        None
    }
}

/// Reads the string literal that starts at `p`; executable twin of
/// `parse_string`.
fn p_string(s: &Vec<char>, p: usize) -> (r: Option<(Vec<char>, usize)>)
    requires
        p <= s@.len(),
    ensures
        match r {
            Some(v) => parse_string(s@, p as int) == Some((v.0@, v.1 as int)) && p < v.1 <= s@.len(),
            None => parse_string(s@, p as int) is None,
        },
{
    let n = s.len();
    if p >= n || s[p] != '"' {
        return None;
    }
    let mut acc: Vec<char> = Vec::new();
    let mut cur = p + 1;
    loop
        invariant
            p + 1 <= cur <= n,
            n == s@.len(),
            p < n,
            s@[p as int] == '"',
            parse_str_body(s@, p + 1, Seq::<char>::empty()) == parse_str_body(
                s@,
                cur as int,
                acc@,
            ),
        decreases n - cur,
    {
        if cur >= n {
            return None;
        }
        let c = s[cur];
        if c == '"' {
            return Some((acc, cur + 1));
        } else if c == '\\' {
            if cur + 1 >= n {
                return None;
            }
            let e = s[cur + 1];
            if e == '"' {
                acc.push('"');
                cur = cur + 2;
            } else if e == '\\' {
                acc.push('\\');
                cur = cur + 2;
            } else if e == '/' {
                acc.push('/');
                cur = cur + 2;
            } else if e == 'n' {
                acc.push('\n');
                cur = cur + 2;
            } else if e == 'r' {
                acc.push('\r');
                cur = cur + 2;
            } else if e == 't' {
                acc.push('\t');
                cur = cur + 2;
            } else if e == 'b' {
                acc.push('\u{08}');
                cur = cur + 2;
            } else if e == 'f' {
                acc.push('\u{0c}');
                cur = cur + 2;
            } else if e == 'u' {
                match hex4_exec(s, cur + 2) {
                    None => {
                        return None;
                    },
                    Some(code) => {
                        if 0xD800 <= code && code < 0xDC00 {
                            if n - cur >= 12 && s[cur + 6] == '\\' && s[cur + 7] == 'u' {
                                match hex4_exec(s, cur + 8) {
                                    None => {
                                        return None;
                                    },
                                    Some(lo) => {
                                        if 0xDC00 <= lo && lo < 0xE000 {
                                            let cp: u32 = 0x10000 + (code - 0xD800) * 0x400 + (lo
                                                - 0xDC00);
                                            match char::from_u32(cp) {
                                                Some(ch) => {
                                                    acc.push(ch);
                                                    cur = cur + 12;
                                                },
                                                None => {
                                                    proof {
                                                        assert(false);
                                                    }
                                                    return None;
                                                },
                                            }
                                        } else {
                                            return None;
                                        }
                                    },
                                }
                            } else {
                                return None;
                            }
                        } else if 0xDC00 <= code && code < 0xE000 {
                            return None;
                        } else {
                            match char::from_u32(code) {
                                Some(ch) => {
                                    acc.push(ch);
                                    cur = cur + 6;
                                },
                                None => {
                                    proof {
                                        assert(false);
                                    }
                                    return None;
                                },
                            }
                        }
                    },
                }
            } else {
                return None;
            }
        } else if (c as u32) < 0x20 {
            return None;
        } else {
            acc.push(c);
            cur = cur + 1;
        }
    }
}

} // verus!

verus! {

proof fn lemma_digits_val_nonneg(s: Seq<char>, a: int, b: int)
    requires
        forall|k: int| a <= k < b ==> is_digit(s[k]),
    ensures
        digits_val(s, a, b) >= 0,
    decreases b - a,
{
    if a < b {
        lemma_digits_val_nonneg(s, a, b - 1);
    }
}

proof fn lemma_digits_val_monotone(s: Seq<char>, a: int, k: int, b: int)
    requires
        a <= k <= b,
        forall|m: int| a <= m < b ==> is_digit(s[m]),
    ensures
        digits_val(s, a, b) >= digits_val(s, a, k),
    decreases b - k,
{
    if k < b {
        lemma_digits_val_monotone(s, a, k, b - 1);
        lemma_digits_val_nonneg(s, a, b - 1);
    }
}

/// Reads the numeric literal that starts at `p`; executable twin of
/// `parse_number`.
fn p_number(s: &Vec<char>, p: usize) -> (r: Option<(Json, usize)>)
    requires
        p <= s@.len(),
    ensures
        match r {
            Some(v) => parse_number(s@, p as int) == Some((v.0@, v.1 as int)) && p < v.1
                <= s@.len(),
            None => parse_number(s@, p as int) is None,
        },
{
    let n = s.len();
    if p >= n {
        return None;
    }
    let neg = s[p] == '-';
    let d0 = if neg {
        p + 1
    } else {
        p
    };
    if d0 > n {
        return None;
    }
    let d1 = scan_digits_exec(s, d0);
    if d1 == d0 {
        return None;
    }
    if s[d0] == '0' && d1 > d0 + 1 {
        return None;
    }
    // fraction and exponent
    let mut isf = false;
    let mut q = d1;
    if q < n && s[q] == '.' {
        let f1 = scan_digits_exec(s, q + 1);
        if f1 == q + 1 {
            proof {
                assert(scan_frac_exp(s@, d1 as int) is None);
            }
            return None;
        }
        isf = true;
        q = f1;
    }
    if q < n && (s[q] == 'e' || s[q] == 'E') {
        let r0 = if q + 1 < n && (s[q + 1] == '+' || s[q + 1] == '-') {
            q + 2
        } else {
            q + 1
        };
        let e1 = scan_digits_exec(s, r0);
        if e1 == r0 {
            proof {
                assert(scan_frac_exp(s@, d1 as int) is None);
            }
            return None;
        }
        isf = true;
        q = e1;
    }
    let end = q;
    proof {
        assert(scan_frac_exp(s@, d1 as int) == Some((isf, end as int)));
    }
    if isf {
        let tok = sub_chars(s, p, end);
        let st = crate::text::string_from_chars(&tok);
        return Some((Json::Num(st), end));
    }
    // integer value of the digit run
    let mut acc: u64 = 0;
    let mut over = false;
    let mut i = d0;
    while i < d1
        invariant
            d0 <= i <= d1 <= n,
            n == s@.len(),
            forall|k: int| d0 <= k < d1 ==> is_digit(s@[k]),
            !over ==> acc as int == digits_val(s@, d0 as int, i as int),
            over ==> digits_val(s@, d0 as int, i as int) > u64::MAX,
        decreases d1 - i,
    {
        let u = s[i] as u32;
        proof {
            assert(is_digit(s@[i as int]));
        }
        let d: u64 = (u - 48) as u64;
        proof {
            assert(d as int == digit_val(s@[i as int]));
            assert(digits_val(s@, d0 as int, i + 1) == digits_val(s@, d0 as int, i as int) * 10
                + d);
        }
        if over {
            proof {
                lemma_digits_val_nonneg(s@, d0 as int, i as int);
                assert(digits_val(s@, d0 as int, i as int) * 10 >= digits_val(
                    s@,
                    d0 as int,
                    i as int,
                ));
            }
        } else {
            match acc.checked_mul(10) {
                None => {
                    over = true;
                },
                Some(m) => {
                    match m.checked_add(d) {
                        None => {
                            over = true;
                        },
                        Some(v) => {
                            acc = v;
                        },
                    }
                },
            }
        }
        i = i + 1;
    }
    if over {
        proof {
            lemma_digits_val_monotone(s@, d0 as int, d1 as int, d1 as int);
            assert(digits_val(s@, d0 as int, d1 as int) > 0x8000_0000_0000_0000);
            assert(digits_val(s@, d0 as int, d1 as int) > 0x7fff_ffff_ffff_ffff);
        }
        let tok = sub_chars(s, p, end);
        let st = crate::text::string_from_chars(&tok);
        return Some((Json::Num(st), end));
    }
    if neg {
        if acc <= 0x8000_0000_0000_0000u64 {
            let v: i64 = if acc == 0x8000_0000_0000_0000u64 {
                i64::MIN
            } else {
                -(acc as i64)
            };
            Some((Json::Int(v), end))
        } else {
            let tok = sub_chars(s, p, end);
            let st = crate::text::string_from_chars(&tok);
            Some((Json::Num(st), end))
        }
    } else {
        if acc <= 0x7fff_ffff_ffff_ffffu64 {
            Some((Json::Int(acc as i64), end))
        } else {
            let tok = sub_chars(s, p, end);
            let st = crate::text::string_from_chars(&tok);
            Some((Json::Num(st), end))
        }
    }
}

} // verus!

verus! {

/// Whether the four characters at `p` are `c0 c1 c2 c3`.
fn lit4(s: &Vec<char>, p: usize, c0: char, c1: char, c2: char, c3: char) -> (r: bool)
    requires
        p <= s@.len(),
    ensures
        r == has_lit(s@, p as int, seq![c0, c1, c2, c3]),
{
    let ghost lit = seq![c0, c1, c2, c3];
    if s.len() < 4 || p > s.len() - 4 {
        return false;
    }
    let ok = s[p] == c0 && s[p + 1] == c1 && s[p + 2] == c2 && s[p + 3] == c3;
    proof {
        let sub = s@.subrange(p as int, p + 4);
        if ok {
            assert(sub =~= lit);
        } else {
            assert(sub[0] == s@[p as int] && sub[1] == s@[p + 1] && sub[2] == s@[p + 2] && sub[3]
                == s@[p + 3]);
            assert(sub != lit);
        }
    }
    ok
}

/// Whether the five characters at `p` are `c0 c1 c2 c3 c4`.
fn lit5(s: &Vec<char>, p: usize, c0: char, c1: char, c2: char, c3: char, c4: char) -> (r: bool)
    requires
        p <= s@.len(),
    ensures
        r == has_lit(s@, p as int, seq![c0, c1, c2, c3, c4]),
{
    let ghost lit = seq![c0, c1, c2, c3, c4];
    if s.len() < 5 || p > s.len() - 5 {
        return false;
    }
    let ok = s[p] == c0 && s[p + 1] == c1 && s[p + 2] == c2 && s[p + 3] == c3 && s[p + 4] == c4;
    proof {
        let sub = s@.subrange(p as int, p + 5);
        if ok {
            assert(sub =~= lit);
        } else {
            assert(sub[0] == s@[p as int] && sub[1] == s@[p + 1] && sub[2] == s@[p + 2] && sub[3]
                == s@[p + 3] && sub[4] == s@[p + 4]);
            assert(sub != lit);
        }
    }
    ok
}

/// Reads the document value at or after `p`; executable twin of
/// `parse_value`.
fn p_value(s: &Vec<char>, p: usize) -> (r: Option<(Json, usize)>)
    requires
        p <= s@.len(),
    ensures
        match r {
            Some(v) => parse_value(s@, p as int) == Some((v.0@, v.1 as int)) && p < v.1 <= s@.len(),
            None => parse_value(s@, p as int) is None,
        },
    decreases s@.len() - p, 1int,
{
    let n = s.len();
    let p2 = skip_ws_exec(s, p);
    if p2 >= n {
        return None;
    }
    let c = s[p2];
    if c == '{' {
        let p3 = skip_ws_exec(s, p2 + 1);
        if p3 < n && s[p3] == '}' {
            let empty: Vec<(String, Json)> = Vec::new();
            proof {
                crate::json::lemma_jview_obj(empty@);
                assert(crate::json::jview_obj(empty@) =~= Seq::<(Seq<char>, JsonSpec)>::empty());
            }
            Some((Json::Obj(empty), p3 + 1))
        } else {
            p_members(s, p2 + 1)
        }
    } else if c == '[' {
        let p3 = skip_ws_exec(s, p2 + 1);
        if p3 < n && s[p3] == ']' {
            let empty: Vec<Json> = Vec::new();
            proof {
                crate::json::lemma_jview_arr(empty@);
                assert(crate::json::jview_arr(empty@) =~= Seq::<JsonSpec>::empty());
            }
            Some((Json::Arr(empty), p3 + 1))
        } else {
            p_items(s, p2 + 1)
        }
    } else if c == '"' {
        match p_string(s, p2) {
            None => None,
            Some((cs, q)) => Some((Json::Str(crate::text::string_from_chars(&cs)), q)),
        }
    } else if c == 't' {
        if lit4(s, p2, 't', 'r', 'u', 'e') {
            Some((Json::Bool(true), p2 + 4))
        } else {
            None
        }
    } else if c == 'f' {
        if lit5(s, p2, 'f', 'a', 'l', 's', 'e') {
            Some((Json::Bool(false), p2 + 5))
        } else {
            None
        }
    } else if c == 'n' {
        if lit4(s, p2, 'n', 'u', 'l', 'l') {
            Some((Json::Null, p2 + 4))
        } else {
            None
        }
    } else if c == '-' || is_digit_exec(c) {
        p_number(s, p2)
    } else {
        None
    }
}

/// Reads array elements from `p` on; executable twin of `parse_items`.
fn p_items(s: &Vec<char>, p: usize) -> (r: Option<(Json, usize)>)
    requires
        p <= s@.len(),
    ensures
        match r {
            Some(v) => parse_items(s@, p as int, Seq::empty()) == Some((v.0@, v.1 as int)) && p
                < v.1 <= s@.len(),
            None => parse_items(s@, p as int, Seq::empty()) is None,
        },
    decreases s@.len() - p, 2int,
{
    let n = s.len();
    let mut acc: Vec<Json> = Vec::new();
    let mut cur = p;
    proof {
        crate::json::lemma_jview_arr(acc@);
        assert(crate::json::jview_arr(acc@) =~= Seq::<JsonSpec>::empty());
    }
    loop
        invariant
            p <= cur <= n,
            n == s@.len(),
            parse_items(s@, p as int, Seq::empty()) == parse_items(
                s@,
                cur as int,
                crate::json::jview_arr(acc@),
            ),
        decreases n - cur,
    {
        match p_value(s, cur) {
            None => {
                return None;
            },
            Some((j, q)) => {
                let q2 = skip_ws_exec(s, q);
                let ghost oldacc = crate::json::jview_arr(acc@);
                if q2 < n && s[q2] == ',' {
                    proof {
                        crate::json::lemma_jview_arr(acc@.push(j));
                        crate::json::lemma_jview_arr(acc@);
                        assert(crate::json::jview_arr(acc@.push(j)) =~= oldacc.push(j@));
                    }
                    acc.push(j);
                    cur = q2 + 1;
                } else if q2 < n && s[q2] == ']' {
                    proof {
                        crate::json::lemma_jview_arr(acc@.push(j));
                        crate::json::lemma_jview_arr(acc@);
                        assert(crate::json::jview_arr(acc@.push(j)) =~= oldacc.push(j@));
                    }
                    acc.push(j);
                    return Some((Json::Arr(acc), q2 + 1));
                } else {
                    return None;
                }
            },
        }
    }
}

/// Reads object members from `p` on; executable twin of `parse_members`.
fn p_members(s: &Vec<char>, p: usize) -> (r: Option<(Json, usize)>)
    requires
        p <= s@.len(),
    ensures
        match r {
            Some(v) => parse_members(s@, p as int, Seq::empty()) == Some((v.0@, v.1 as int)) && p
                < v.1 <= s@.len(),
            None => parse_members(s@, p as int, Seq::empty()) is None,
        },
    decreases s@.len() - p, 2int,
{
    let n = s.len();
    let mut acc: Vec<(String, Json)> = Vec::new();
    let mut cur = p;
    proof {
        crate::json::lemma_jview_obj(acc@);
        assert(crate::json::jview_obj(acc@) =~= Seq::<(Seq<char>, JsonSpec)>::empty());
    }
    loop
        invariant
            p <= cur <= n,
            n == s@.len(),
            parse_members(s@, p as int, Seq::empty()) == parse_members(
                s@,
                cur as int,
                crate::json::jview_obj(acc@),
            ),
        decreases n - cur,
    {
        let k0 = skip_ws_exec(s, cur);
        match p_string(s, k0) {
            None => {
                return None;
            },
            Some((kcs, q0)) => {
                let key = crate::text::string_from_chars(&kcs);
                let q2 = skip_ws_exec(s, q0);
                if q2 < n && s[q2] == ':' {
                    match p_value(s, q2 + 1) {
                        None => {
                            return None;
                        },
                        Some((j, r0)) => {
                            let r2 = skip_ws_exec(s, r0);
                            let ghost oldacc = crate::json::jview_obj(acc@);
                            if r2 < n && s[r2] == ',' {
                                proof {
                                    crate::json::lemma_jview_obj(acc@.push((key, j)));
                                    crate::json::lemma_jview_obj(acc@);
                                    assert(crate::json::jview_obj(acc@.push((key, j)))
                                        =~= oldacc.push((kcs@, j@)));
                                }
                                acc.push((key, j));
                                cur = r2 + 1;
                            } else if r2 < n && s[r2] == '}' {
                                proof {
                                    crate::json::lemma_jview_obj(acc@.push((key, j)));
                                    crate::json::lemma_jview_obj(acc@);
                                    assert(crate::json::jview_obj(acc@.push((key, j)))
                                        =~= oldacc.push((kcs@, j@)));
                                }
                                acc.push((key, j));
                                return Some((Json::Obj(acc), r2 + 1));
                            } else {
                                return None;
                            }
                        },
                    }
                } else {
                    return None;
                }
            },
        }
    }
}

/// Reads a whole JSON text; executable twin of `spec_parse_json`.
pub fn parse_json(s: &str) -> (r: Option<Json>)
    ensures
        match r {
            Some(j) => spec_parse_json(s@) == Some(j@),
            None => spec_parse_json(s@) is None,
        },
{
    let cs = crate::text::chars_of(s);
    match p_value(&cs, 0) {
        None => None,
        Some((j, q)) => {
            let q2 = skip_ws_exec(&cs, q);
            if q2 == cs.len() {
                Some(j)
            } else {
                None
            }
        },
    }
}

} // verus!

verus! {

/// What parsing a whole character sequence as a signed 64-bit decimal
/// integer yields: an optional sign, then only digits, within range.
pub open spec fn spec_parse_i64(s: Seq<char>) -> Option<i64> {
    let signed = s.len() > 0 && (s[0] == '+' || s[0] == '-');
    let neg = s.len() > 0 && s[0] == '-';
    let d0: int = if signed {
        1
    } else {
        0
    };
    if d0 >= s.len() || scan_digits(s, d0) != s.len() {
        None
    } else {
        let v = digits_val(s, d0, s.len() as int);
        if neg {
            if v <= 0x8000_0000_0000_0000 {
                Some((-v) as i64)
            } else {
                None
            }
        } else {
            if v <= 0x7fff_ffff_ffff_ffff {
                Some(v as i64)
            } else {
                None
            }
        }
    }
}

/// Parses a whole string as a signed 64-bit decimal integer;
/// executable twin of `spec_parse_i64`.
pub fn parse_i64_str(s: &str) -> (r: Option<i64>)
    ensures
        r == spec_parse_i64(s@),
{
    let cs = crate::text::chars_of(s);
    let n = cs.len();
    let mut neg = false;
    let mut d0: usize = 0;
    if n > 0 && (cs[0] == '+' || cs[0] == '-') {
        neg = cs[0] == '-';
        d0 = 1;
    }
    if d0 >= n {
        return None;
    }
    let d1 = scan_digits_exec(&cs, d0);
    if d1 != n {
        return None;
    }
    let mut acc: u64 = 0;
    let mut over = false;
    let mut i = d0;
    while i < n
        invariant
            d0 <= i <= n,
            n == cs@.len(),
            forall|k: int| d0 <= k < n ==> is_digit(cs@[k]),
            !over ==> acc as int == digits_val(cs@, d0 as int, i as int),
            over ==> digits_val(cs@, d0 as int, i as int) > u64::MAX,
        decreases n - i,
    {
        let u = cs[i] as u32;
        proof {
            assert(is_digit(cs@[i as int]));
        }
        let d: u64 = (u - 48) as u64;
        proof {
            assert(d as int == digit_val(cs@[i as int]));
            assert(digits_val(cs@, d0 as int, i + 1) == digits_val(cs@, d0 as int, i as int) * 10
                + d);
        }
        if over {
            proof {
                lemma_digits_val_nonneg(cs@, d0 as int, i as int);
                assert(digits_val(cs@, d0 as int, i as int) * 10 >= digits_val(
                    cs@,
                    d0 as int,
                    i as int,
                ));
            }
        } else {
            match acc.checked_mul(10) {
                None => {
                    over = true;
                },
                Some(m) => {
                    match m.checked_add(d) {
                        None => {
                            over = true;
                        },
                        Some(v) => {
                            acc = v;
                        },
                    }
                },
            }
        }
        i = i + 1;
    }
    if over {
        return None;
    }
    if neg {
        if acc <= 0x8000_0000_0000_0000u64 {
            if acc == 0x8000_0000_0000_0000u64 {
                Some(i64::MIN)
            } else {
                Some(-(acc as i64))
            }
        } else {
            None
        }
    } else {
        if acc <= 0x7fff_ffff_ffff_ffffu64 {
            Some(acc as i64)
        } else {
            None
        }
    }
}

} // verus!
