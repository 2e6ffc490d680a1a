//! Parser for inbound request payloads.
//!
//! The request grammar is JSON with two restrictions that match the
//! protocol's wire shapes: numbers are integers, and nesting is bounded
//! (an object of fields whose values are scalars, arrays of scalars or of
//! flat objects, or one flat object). Anything deeper, a fraction, an
//! exponent or a `\u` escape is rejected as malformed.

use vstd::prelude::*;

use crate::json::{Json, JsonV, arr_view, obj_view};

verus! {

pub open spec fn is_ws(c: char) -> bool {
    c == ' ' || c == '\n' || c == '\t' || c == '\r'
}

/// First position at or after `i` holding no whitespace.
pub open spec fn skip_ws(s: Seq<char>, i: int) -> int
    decreases s.len() - i,
{
    if 0 <= i < s.len() && is_ws(s[i]) {
        skip_ws(s, i + 1)
    } else {
        i
    }
}

pub proof fn lemma_skip_ws(s: Seq<char>, i: int)
    requires
        0 <= i <= s.len(),
    ensures
        i <= skip_ws(s, i) <= s.len(),
    decreases s.len() - i,
{
    if i < s.len() && is_ws(s[i]) {
        lemma_skip_ws(s, i + 1);
    }
}

/// The character an escape letter stands for.
pub open spec fn unesc(c: char) -> Option<char> {
    if c == '"' {
        Option::Some('"')
    } else if c == '\\' {
        Option::Some('\\')
    } else if c == '/' {
        Option::Some('/')
    } else if c == 'n' {
        Option::Some('\n')
    } else if c == 'r' {
        Option::Some('\r')
    } else if c == 't' {
        Option::Some('\t')
    } else if c == 'b' {
        Option::Some('\u{8}')
    } else if c == 'f' {
        Option::Some('\u{c}')
    } else {
        Option::None
    }
}

/// Text content from just after an opening quote to its closing quote;
/// yields the unescaped text and the position after the closing quote.
pub open spec fn parse_str_body(s: Seq<char>, i: int) -> Option<(Seq<char>, int)>
    decreases s.len() - i,
{
    if i < 0 || i >= s.len() {
        Option::None
    } else if s[i] == '"' {
        Option::Some((Seq::empty(), i + 1))
    } else if s[i] == '\\' {
        if i + 1 >= s.len() {
            Option::None
        } else {
            match unesc(s[i + 1]) {
                Option::None => Option::None,
                Option::Some(c) => match parse_str_body(s, i + 2) {
                    Option::None => Option::None,
                    Option::Some((rest, j)) => Option::Some((seq![c] + rest, j)),
                },
            }
        }
    } else {
        match parse_str_body(s, i + 1) {
            Option::None => Option::None,
            Option::Some((rest, j)) => Option::Some((seq![s[i]] + rest, j)),
        }
    }
}

pub proof fn lemma_str_body(s: Seq<char>, i: int)
    ensures
        parse_str_body(s, i) matches Option::Some(r) ==> i < r.1 <= s.len(),
    decreases s.len() - i,
{
    if 0 <= i < s.len() {
        lemma_str_body(s, i + 1);
        if i + 2 <= s.len() {
            lemma_str_body(s, i + 2);
        }
    }
}

/// A quoted string token at `i`.
pub open spec fn parse_string(s: Seq<char>, i: int) -> Option<(Seq<char>, int)> {
    if 0 <= i < s.len() && s[i] == '"' {
        parse_str_body(s, i + 1)
    } else {
        Option::None
    }
}

pub proof fn lemma_parse_string(s: Seq<char>, i: int)
    ensures
        parse_string(s, i) matches Option::Some(r) ==> i < r.1 <= s.len(),
{
    lemma_str_body(s, i + 1);
}

/// First position at or after `i` holding no decimal digit.
pub open spec fn digits_end(s: Seq<char>, i: int) -> int
    decreases s.len() - i,
{
    if 0 <= i < s.len() && '0' <= s[i] && s[i] <= '9' {
        digits_end(s, i + 1)
    } else {
        i
    }
}

pub proof fn lemma_digits_end(s: Seq<char>, i: int)
    requires
        0 <= i <= s.len(),
    ensures
        i <= digits_end(s, i) <= s.len(),
    decreases s.len() - i,
{
    if i < s.len() && '0' <= s[i] && s[i] <= '9' {
        lemma_digits_end(s, i + 1);
    }
}

/// Value of the digit run `s[i..j)`.
pub open spec fn digits_val(s: Seq<char>, i: int, j: int) -> int
    decreases j - i,
{
    if i >= j {
        0
    } else {
        digits_val(s, i, j - 1) * 10 + (s[j - 1] as int - '0' as int)
    }
}

/// An integer token at `i`: optional minus, one or more digits, value
/// within the signed 64-bit range.
pub open spec fn parse_int(s: Seq<char>, i: int) -> Option<(i64, int)> {
    let neg = 0 <= i < s.len() && s[i] == '-';
    let d0 = if neg {
        i + 1
    } else {
        i
    };
    let e = digits_end(s, d0);
    if e == d0 {
        Option::None
    } else {
        let m = digits_val(s, d0, e);
        let v = if neg {
            -m
        } else {
            m
        };
        if -9223372036854775808 <= v <= 9223372036854775807 {
            Option::Some((v as i64, e))
        } else {
            Option::None
        }
    }
}

pub proof fn lemma_parse_int(s: Seq<char>, i: int)
    requires
        0 <= i <= s.len(),
    ensures
        parse_int(s, i) matches Option::Some(r) ==> i < r.1 <= s.len(),
{
    if 0 <= i < s.len() && s[i] == '-' {
        lemma_digits_end(s, i + 1);
    } else {
        lemma_digits_end(s, i);
    }
}

/// A scalar token at `i`: keyword, number or string.
pub open spec fn parse_scalar(s: Seq<char>, i: int) -> Option<(JsonV, int)> {
    if i < 0 || i >= s.len() {
        Option::None
    } else if s[i] == '"' {
        match parse_string(s, i) {
            Option::None => Option::None,
            Option::Some((t, j)) => Option::Some((JsonV::Text(t), j)),
        }
    } else if s[i] == '-' || ('0' <= s[i] && s[i] <= '9') {
        match parse_int(s, i) {
            Option::None => Option::None,
            Option::Some((n, j)) => Option::Some((JsonV::Int(n), j)),
        }
    } else if s[i] == 'n' {
        if i + 4 <= s.len() && s[i + 1] == 'u' && s[i + 2] == 'l' && s[i + 3] == 'l' {
            Option::Some((JsonV::Null, i + 4))
        } else {
            Option::None
        }
    } else if s[i] == 't' {
        if i + 4 <= s.len() && s[i + 1] == 'r' && s[i + 2] == 'u' && s[i + 3] == 'e' {
            Option::Some((JsonV::Bool(true), i + 4))
        } else {
            Option::None
        }
    } else if s[i] == 'f' {
        if i + 5 <= s.len() && s[i + 1] == 'a' && s[i + 2] == 'l' && s[i + 3] == 's' && s[i + 4]
            == 'e' {
            Option::Some((JsonV::Bool(false), i + 5))
        } else {
            Option::None
        }
    } else {
        Option::None
    }
}

pub proof fn lemma_parse_scalar(s: Seq<char>, i: int)
    requires
        0 <= i <= s.len(),
    ensures
        parse_scalar(s, i) matches Option::Some(r) ==> i < r.1 <= s.len(),
{
    lemma_parse_string(s, i);
    lemma_parse_int(s, i);
}

/// Fields of an object whose values are scalars, from the first key at or
/// after `i` to the closing brace.
pub open spec fn parse_flat_fields(s: Seq<char>, i: int) -> Option<
    (Seq<(Seq<char>, JsonV)>, int),
>
    decreases s.len() - i
        when 0 <= i <= s.len()
{
    let k0 = skip_ws(s, i);
    proof {
        lemma_skip_ws(s, i);
        lemma_parse_string(s, k0);
    }
    match parse_string(s, k0) {
        Option::None => Option::None,
        Option::Some((key, j1)) => {
            let c0 = skip_ws(s, j1);
            proof {
                lemma_skip_ws(s, j1);
            }
            if c0 < s.len() && s[c0] == ':' {
                let v0 = skip_ws(s, c0 + 1);
                proof {
                    lemma_skip_ws(s, c0 + 1);
                    lemma_parse_scalar(s, v0);
                }
                match parse_scalar(s, v0) {
                    Option::None => Option::None,
                    Option::Some((v, j2)) => {
                        let t = skip_ws(s, j2);
                        proof {
                            lemma_skip_ws(s, j2);
                        }
                        if t < s.len() && s[t] == ',' {
                            match parse_flat_fields(s, t + 1) {
                                Option::None => Option::None,
                                Option::Some((rest, j3)) => Option::Some(
                                    (seq![(key, v)] + rest, j3),
                                ),
                            }
                        } else if t < s.len() && s[t] == '}' {
                            Option::Some((seq![(key, v)], t + 1))
                        } else {
                            Option::None
                        }
                    },
                }
            } else {
                Option::None
            }
        },
    }
}

pub proof fn lemma_flat_fields(s: Seq<char>, i: int)
    requires
        0 <= i <= s.len(),
    ensures
        parse_flat_fields(s, i) matches Option::Some(r) ==> i < r.1 <= s.len(),
    decreases s.len() - i,
{
    lemma_skip_ws(s, i);
    let k0 = skip_ws(s, i);
    lemma_parse_string(s, k0);
    match parse_string(s, k0) {
        Option::None => {},
        Option::Some((key, j1)) => {
            lemma_skip_ws(s, j1);
            let c0 = skip_ws(s, j1);
            if c0 < s.len() && s[c0] == ':' {
                lemma_skip_ws(s, c0 + 1);
                let v0 = skip_ws(s, c0 + 1);
                lemma_parse_scalar(s, v0);
                match parse_scalar(s, v0) {
                    Option::None => {},
                    Option::Some((v, j2)) => {
                        lemma_skip_ws(s, j2);
                        let t = skip_ws(s, j2);
                        if t < s.len() && s[t] == ',' {
                            lemma_flat_fields(s, t + 1);
                        }
                    },
                }
            }
        },
    }
}

/// An object token at `i` whose field values are scalars.
pub open spec fn parse_flat_obj(s: Seq<char>, i: int) -> Option<(Seq<(Seq<char>, JsonV)>, int)> {
    if 0 <= i < s.len() && s[i] == '{' {
        let b = skip_ws(s, i + 1);
        if b < s.len() && s[b] == '}' {
            Option::Some((Seq::empty(), b + 1))
        } else {
            parse_flat_fields(s, i + 1)
        }
    } else {
        Option::None
    }
}

pub proof fn lemma_flat_obj(s: Seq<char>, i: int)
    requires
        0 <= i <= s.len(),
    ensures
        parse_flat_obj(s, i) matches Option::Some(r) ==> i < r.1 <= s.len(),
{
    if 0 <= i < s.len() && s[i] == '{' {
        lemma_skip_ws(s, i + 1);
        lemma_flat_fields(s, i + 1);
    }
}

/// Array elements, each a scalar or a flat object, from the first element
/// at or after `i` to the closing bracket.
pub open spec fn parse_items(s: Seq<char>, i: int) -> Option<(Seq<JsonV>, int)>
    decreases s.len() - i
        when 0 <= i <= s.len()
{
    let e0 = skip_ws(s, i);
    proof {
        lemma_skip_ws(s, i);
        lemma_elem(s, e0);
    }
    match parse_elem(s, e0) {
        Option::None => Option::None,
        Option::Some((v, j1)) => {
            let t = skip_ws(s, j1);
            proof {
                lemma_skip_ws(s, j1);
            }
            if t < s.len() && s[t] == ',' {
                match parse_items(s, t + 1) {
                    Option::None => Option::None,
                    Option::Some((rest, j2)) => Option::Some((seq![v] + rest, j2)),
                }
            } else if t < s.len() && s[t] == ']' {
                Option::Some((seq![v], t + 1))
            } else {
                Option::None
            }
        },
    }
}

/// One array element: a flat object or a scalar.
pub open spec fn parse_elem(s: Seq<char>, i: int) -> Option<(JsonV, int)> {
    if 0 <= i < s.len() && s[i] == '{' {
        match parse_flat_obj(s, i) {
            Option::None => Option::None,
            Option::Some((fields, j)) => Option::Some((JsonV::Obj(fields), j)),
        }
    } else {
        parse_scalar(s, i)
    }
}

pub proof fn lemma_elem(s: Seq<char>, i: int)
    requires
        0 <= i <= s.len(),
    ensures
        parse_elem(s, i) matches Option::Some(r) ==> i < r.1 <= s.len(),
{
    lemma_flat_obj(s, i);
    lemma_parse_scalar(s, i);
}

pub proof fn lemma_items(s: Seq<char>, i: int)
    requires
        0 <= i <= s.len(),
    ensures
        parse_items(s, i) matches Option::Some(r) ==> i < r.1 <= s.len(),
    decreases s.len() - i,
{
    lemma_skip_ws(s, i);
    let e0 = skip_ws(s, i);
    lemma_elem(s, e0);
    match parse_elem(s, e0) {
        Option::None => {},
        Option::Some((v, j1)) => {
            lemma_skip_ws(s, j1);
            let t = skip_ws(s, j1);
            if t < s.len() && s[t] == ',' {
                lemma_items(s, t + 1);
            }
        },
    }
}

/// A field value in the request object: array, flat object or scalar.
pub open spec fn parse_value(s: Seq<char>, i: int) -> Option<(JsonV, int)> {
    if 0 <= i < s.len() && s[i] == '[' {
        let b = skip_ws(s, i + 1);
        if b < s.len() && s[b] == ']' {
            Option::Some((JsonV::Arr(Seq::empty()), b + 1))
        } else {
            match parse_items(s, i + 1) {
                Option::None => Option::None,
                Option::Some((items, j)) => Option::Some((JsonV::Arr(items), j)),
            }
        }
    } else {
        parse_elem(s, i)
    }
}

pub proof fn lemma_value(s: Seq<char>, i: int)
    requires
        0 <= i <= s.len(),
    ensures
        parse_value(s, i) matches Option::Some(r) ==> i < r.1 <= s.len(),
{
    if 0 <= i < s.len() && s[i] == '[' {
        lemma_skip_ws(s, i + 1);
        lemma_items(s, i + 1);
    }
    lemma_elem(s, i);
}

/// Fields of the request object, whose values follow `parse_value`.
pub open spec fn parse_fields(s: Seq<char>, i: int) -> Option<(Seq<(Seq<char>, JsonV)>, int)>
    decreases s.len() - i
        when 0 <= i <= s.len()
{
    let k0 = skip_ws(s, i);
    proof {
        lemma_skip_ws(s, i);
        lemma_parse_string(s, k0);
    }
    match parse_string(s, k0) {
        Option::None => Option::None,
        Option::Some((key, j1)) => {
            let c0 = skip_ws(s, j1);
            proof {
                lemma_skip_ws(s, j1);
            }
            if c0 < s.len() && s[c0] == ':' {
                let v0 = skip_ws(s, c0 + 1);
                proof {
                    lemma_skip_ws(s, c0 + 1);
                    lemma_value(s, v0);
                }
                match parse_value(s, v0) {
                    Option::None => Option::None,
                    Option::Some((v, j2)) => {
                        let t = skip_ws(s, j2);
                        proof {
                            lemma_skip_ws(s, j2);
                        }
                        if t < s.len() && s[t] == ',' {
                            match parse_fields(s, t + 1) {
                                Option::None => Option::None,
                                Option::Some((rest, j3)) => Option::Some(
                                    (seq![(key, v)] + rest, j3),
                                ),
                            }
                        } else if t < s.len() && s[t] == '}' {
                            Option::Some((seq![(key, v)], t + 1))
                        } else {
                            Option::None
                        }
                    },
                }
            } else {
                Option::None
            }
        },
    }
}

pub proof fn lemma_fields(s: Seq<char>, i: int)
    requires
        0 <= i <= s.len(),
    ensures
        parse_fields(s, i) matches Option::Some(r) ==> i < r.1 <= s.len(),
    decreases s.len() - i,
{
    lemma_skip_ws(s, i);
    let k0 = skip_ws(s, i);
    lemma_parse_string(s, k0);
    match parse_string(s, k0) {
        Option::None => {},
        Option::Some((key, j1)) => {
            lemma_skip_ws(s, j1);
            let c0 = skip_ws(s, j1);
            if c0 < s.len() && s[c0] == ':' {
                lemma_skip_ws(s, c0 + 1);
                let v0 = skip_ws(s, c0 + 1);
                lemma_value(s, v0);
                match parse_value(s, v0) {
                    Option::None => {},
                    Option::Some((v, j2)) => {
                        lemma_skip_ws(s, j2);
                        let t = skip_ws(s, j2);
                        if t < s.len() && s[t] == ',' {
                            lemma_fields(s, t + 1);
                        }
                    },
                }
            }
        },
    }
}

/// An object one level in: field values follow `parse_value`, so it can
/// hold the arrays and flat objects of a params object.
pub open spec fn parse_obj1(s: Seq<char>, i: int) -> Option<(Seq<(Seq<char>, JsonV)>, int)> {
    if 0 <= i < s.len() && s[i] == '{' {
        let b = skip_ws(s, i + 1);
        if b < s.len() && s[b] == '}' {
            Option::Some((Seq::empty(), b + 1))
        } else {
            parse_fields(s, i + 1)
        }
    } else {
        Option::None
    }
}

pub proof fn lemma_obj1(s: Seq<char>, i: int)
    requires
        0 <= i <= s.len(),
    ensures
        parse_obj1(s, i) matches Option::Some(r) ==> i < r.1 <= s.len(),
{
    if 0 <= i < s.len() && s[i] == '{' {
        lemma_skip_ws(s, i + 1);
        lemma_fields(s, i + 1);
    }
}

/// A field value of the request object itself: a params-shaped object,
/// or any flat value.
pub open spec fn parse_value2(s: Seq<char>, i: int) -> Option<(JsonV, int)> {
    if 0 <= i < s.len() && s[i] == '{' {
        match parse_obj1(s, i) {
            Option::None => Option::None,
            Option::Some((f, j)) => Option::Some((JsonV::Obj(f), j)),
        }
    } else {
        parse_value(s, i)
    }
}

pub proof fn lemma_value2(s: Seq<char>, i: int)
    requires
        0 <= i <= s.len(),
    ensures
        parse_value2(s, i) matches Option::Some(r) ==> i < r.1 <= s.len(),
{
    lemma_obj1(s, i);
    lemma_value(s, i);
}

/// Fields of the request object, whose values follow `parse_value2`.
pub open spec fn parse_fields2(s: Seq<char>, i: int) -> Option<(Seq<(Seq<char>, JsonV)>, int)>
    decreases s.len() - i
        when 0 <= i <= s.len()
{
    let k0 = skip_ws(s, i);
    proof {
        lemma_skip_ws(s, i);
        lemma_parse_string(s, k0);
    }
    match parse_string(s, k0) {
        Option::None => Option::None,
        Option::Some((key, j1)) => {
            let c0 = skip_ws(s, j1);
            proof {
                lemma_skip_ws(s, j1);
            }
            if c0 < s.len() && s[c0] == ':' {
                let v0 = skip_ws(s, c0 + 1);
                proof {
                    lemma_skip_ws(s, c0 + 1);
                    lemma_value2(s, v0);
                }
                match parse_value2(s, v0) {
                    Option::None => Option::None,
                    Option::Some((v, j2)) => {
                        let t = skip_ws(s, j2);
                        proof {
                            lemma_skip_ws(s, j2);
                        }
                        if t < s.len() && s[t] == ',' {
                            match parse_fields2(s, t + 1) {
                                Option::None => Option::None,
                                Option::Some((rest, j3)) => Option::Some(
                                    (seq![(key, v)] + rest, j3),
                                ),
                            }
                        } else if t < s.len() && s[t] == '}' {
                            Option::Some((seq![(key, v)], t + 1))
                        } else {
                            Option::None
                        }
                    },
                }
            } else {
                Option::None
            }
        },
    }
}

pub proof fn lemma_fields2(s: Seq<char>, i: int)
    requires
        0 <= i <= s.len(),
    ensures
        parse_fields2(s, i) matches Option::Some(r) ==> i < r.1 <= s.len(),
    decreases s.len() - i,
{
    lemma_skip_ws(s, i);
    let k0 = skip_ws(s, i);
    lemma_parse_string(s, k0);
    match parse_string(s, k0) {
        Option::None => {},
        Option::Some((key, j1)) => {
            lemma_skip_ws(s, j1);
            let c0 = skip_ws(s, j1);
            if c0 < s.len() && s[c0] == ':' {
                lemma_skip_ws(s, c0 + 1);
                let v0 = skip_ws(s, c0 + 1);
                lemma_value2(s, v0);
                match parse_value2(s, v0) {
                    Option::None => {},
                    Option::Some((v, j2)) => {
                        lemma_skip_ws(s, j2);
                        let t = skip_ws(s, j2);
                        if t < s.len() && s[t] == ',' {
                            lemma_fields2(s, t + 1);
                        }
                    },
                }
            }
        },
    }
}

/// A whole request document: one object, nothing but whitespace around it.
pub open spec fn parse_doc(s: Seq<char>) -> Option<Seq<(Seq<char>, JsonV)>> {
    let i0 = skip_ws(s, 0);
    if i0 < s.len() && s[i0] == '{' {
        let b = skip_ws(s, i0 + 1);
        let r = if b < s.len() && s[b] == '}' {
            Option::Some((Seq::<(Seq<char>, JsonV)>::empty(), b + 1))
        } else {
            parse_fields2(s, i0 + 1)
        };
        match r {
            Option::None => Option::None,
            Option::Some((fields, j)) => {
                if skip_ws(s, j) == s.len() {
                    Option::Some(fields)
                } else {
                    Option::None
                }
            },
        }
    } else {
        Option::None
    }
}


// ------------------------------------------------------------------
// The executable parser, each function proved equal to its
// specification twin above.
// ------------------------------------------------------------------
fn is_ws_x(c: char) -> (r: bool)
    ensures
        r == is_ws(c),
{
    c == ' ' || c == '\n' || c == '\t' || c == '\r'
}

fn ws_end(s: &Vec<char>, i: usize) -> (r: usize)
    requires
        i <= s@.len(),
    ensures
        r as int == skip_ws(s@, i as int),
        i <= r <= s@.len(),
{
    let mut j = i;
    while j < s.len() && is_ws_x(s[j])
        invariant
            i <= j <= s@.len(),
            skip_ws(s@, i as int) == skip_ws(s@, j as int),
        decreases s@.len() - j,
    {
        j = j + 1;
    }
    j
}

fn unesc_x(c: char) -> (r: Option<char>)
    ensures
        r == unesc(c),
{
    if c == '"' {
        Some('"')
    } else if c == '\\' {
        Some('\\')
    } else if c == '/' {
        Some('/')
    } else if c == 'n' {
        Some('\n')
    } else if c == 'r' {
        Some('\r')
    } else if c == 't' {
        Some('\t')
    } else if c == 'b' {
        Some('\u{8}')
    } else if c == 'f' {
        Some('\u{c}')
    } else {
        None
    }
}

fn str_body_x(s: &Vec<char>, i: usize) -> (r: Option<(Vec<char>, usize)>)
    requires
        i <= s@.len(),
    ensures
        match (r, parse_str_body(s@, i as int)) {
            (Some((t, j)), Some(sr)) => t@ == sr.0 && j as int == sr.1 && j <= s@.len(),
            (None, None) => true,
            _ => false,
        },
    decreases s@.len() - i,
{
    proof {
        lemma_str_body(s@, i as int);
    }
    if i >= s.len() {
        return None;
    }
    let c = s[i];
    if c == '"' {
        Some((Vec::new(), i + 1))
    } else if c == '\\' {
        if s.len() - i < 2 {
            None
        } else {
            match unesc_x(s[i + 1]) {
                None => None,
                Some(u) => match str_body_x(s, i + 2) {
                    None => None,
                    Some((rest, j)) => {
                        let mut tx = rest;
                        tx.insert(0, u);
                        proof {
                            assert(tx@ =~= seq![u] + tx@.drop_first());
                        }
                        Some((tx, j))
                    },
                },
            }
        }
    } else {
        match str_body_x(s, i + 1) {
            None => None,
            Some((rest, j)) => {
                let mut tx = rest;
                tx.insert(0, c);
                proof {
                    assert(tx@ =~= seq![c] + tx@.drop_first());
                }
                Some((tx, j))
            },
        }
    }
}

fn string_x(s: &Vec<char>, i: usize) -> (r: Option<(Vec<char>, usize)>)
    requires
        i <= s@.len(),
    ensures
        match (r, parse_string(s@, i as int)) {
            (Some((t, j)), Some(sr)) => t@ == sr.0 && j as int == sr.1 && i < j <= s@.len(),
            (None, None) => true,
            _ => false,
        },
{
    proof {
        lemma_parse_string(s@, i as int);
    }
    if i < s.len() && s[i] == '"' {
        str_body_x(s, i + 1)
    } else {
        None
    }
}

fn digits_end_x(s: &Vec<char>, i: usize) -> (r: usize)
    requires
        i <= s@.len(),
    ensures
        r as int == digits_end(s@, i as int),
        i <= r <= s@.len(),
{
    let mut j = i;
    while j < s.len() && '0' <= s[j] && s[j] <= '9'
        invariant
            i <= j <= s@.len(),
            digits_end(s@, i as int) == digits_end(s@, j as int),
        decreases s@.len() - j,
    {
        j = j + 1;
    }
    j
}

proof fn lemma_digits_val_step(s: Seq<char>, i: int, j: int)
    requires
        i <= j,
    ensures
        digits_val(s, i, j + 1) == digits_val(s, i, j) * 10 + (s[j] as int - '0' as int),
{
}

proof fn lemma_digits_val_bounds(s: Seq<char>, i: int, j: int)
    requires
        0 <= i <= j <= s.len(),
        forall|k: int| i <= k < j ==> '0' <= #[trigger] s[k] <= '9',
    ensures
        digits_val(s, i, j) >= 0,
        forall|k: int|
            i <= k <= j ==> digits_val(s, i, j) >= #[trigger] digits_val(s, i, k),
    decreases j - i,
{
    if i < j {
        lemma_digits_val_bounds(s, i, j - 1);
        assert(digits_val(s, i, j) == digits_val(s, i, j - 1) * 10 + (s[j - 1] as int
            - '0' as int));
        assert(digits_val(s, i, j - 1) * 10 >= digits_val(s, i, j - 1)) by (nonlinear_arith)
            requires
                digits_val(s, i, j - 1) >= 0,
        ;
    }
}

proof fn lemma_digits_in_run(s: Seq<char>, i: int)
    requires
        0 <= i <= s.len(),
    ensures
        forall|k: int| i <= k < digits_end(s, i) ==> '0' <= #[trigger] s[k] <= '9',
        i <= digits_end(s, i) <= s.len(),
    decreases s.len() - i,
{
    if i < s.len() && '0' <= s[i] && s[i] <= '9' {
        lemma_digits_in_run(s, i + 1);
    }
}

fn int_x(s: &Vec<char>, i: usize) -> (r: Option<(i64, usize)>)
    requires
        i <= s@.len(),
    ensures
        match (r, parse_int(s@, i as int)) {
            (Some((v, j)), Some(sr)) => v == sr.0 && j as int == sr.1 && i < j <= s@.len(),
            (None, None) => true,
            _ => false,
        },
{
    proof {
        lemma_parse_int(s@, i as int);
    }
    let neg = i < s.len() && s[i] == '-';
    let d0 = if neg {
        i + 1
    } else {
        i
    };
    let e = digits_end_x(s, d0);
    if e == d0 {
        return None;
    }
    proof {
        lemma_digits_in_run(s@, d0 as int);
        lemma_digits_val_bounds(s@, d0 as int, e as int);
    }
    // Largest magnitude that still fits: one more for the negative side.
    let limit: u64 = if neg {
        9223372036854775808u64
    } else {
        9223372036854775807u64
    };
    let lim10: u64 = 922337203685477580u64;
    let rem: u64 = if neg {
        8u64
    } else {
        7u64
    };
    let mut acc: u64 = 0;
    let mut k = d0;
    while k < e
        invariant
            i <= s@.len(),
            neg == (i < s@.len() && s@[i as int] == '-'),
            d0 as int == if neg { i as int + 1 } else { i as int },
            d0 <= k <= e,
            e <= s@.len(),
            e as int == digits_end(s@, d0 as int),
            forall|q: int| d0 <= q < e ==> '0' <= #[trigger] s@[q] <= '9',
            acc as int == digits_val(s@, d0 as int, k as int),
            acc <= limit,
            lim10 == 922337203685477580u64,
            limit == if neg { 9223372036854775808u64 } else { 9223372036854775807u64 },
            rem == if neg { 8u64 } else { 7u64 },
        decreases e - k,
    {
        let d: u64 = (s[k] as u32 as u64) - ('0' as u32 as u64);
        proof {
            assert('0' <= s@[k as int] <= '9');
            assert(d as int == s@[k as int] as int - '0' as int);
            assert(d <= 9);
        }
        if acc > lim10 || (acc == lim10 && d > rem) {
            proof {
                assert(acc * 10 + d > limit) by (nonlinear_arith)
                    requires
                        acc > lim10 || (acc == lim10 && d > rem),
                        limit == lim10 * 10 + rem,
                        d <= 9,
                        rem <= 8,
                ;
                lemma_digits_val_step(s@, d0 as int, k as int);
                lemma_digits_val_bounds(s@, d0 as int, e as int);
                assert(digits_val(s@, d0 as int, e as int) >= digits_val(
                    s@,
                    d0 as int,
                    k as int + 1,
                ));
                assert(digits_val(s@, d0 as int, e as int) > limit);
                assert(parse_int(s@, i as int) is None);
            }
            return None;
        }
        proof {
            assert(acc * 10 + d <= limit) by (nonlinear_arith)
                requires
                    acc <= lim10,
                    acc == lim10 ==> d <= rem,
                    limit == lim10 * 10 + rem,
                    d <= 9,
            ;
            lemma_digits_val_step(s@, d0 as int, k as int);
        }
        acc = acc * 10 + d;
        k = k + 1;
    }
    if neg {
        let v: i64 = if acc == 9223372036854775808u64 {
            i64::MIN
        } else {
            -((acc) as i64)
        };
        Some((v, e))
    } else {
        Some((acc as i64, e))
    }
}

fn scalar_x(s: &Vec<char>, i: usize) -> (r: Option<(Json, usize)>)
    requires
        i <= s@.len(),
    ensures
        match (r, parse_scalar(s@, i as int)) {
            (Some((v, j)), Some(sr)) => v@ == sr.0 && j as int == sr.1 && i < j <= s@.len(),
            (None, None) => true,
            _ => false,
        },
{
    proof {
        lemma_parse_scalar(s@, i as int);
    }
    if i >= s.len() {
        return None;
    }
    let c = s[i];
    if c == '"' {
        match string_x(s, i) {
            None => None,
            Some((t, j)) => Some((Json::Text(t), j)),
        }
    } else if c == '-' || ('0' <= c && c <= '9') {
        match int_x(s, i) {
            None => None,
            Some((n, j)) => Some((Json::Int(n), j)),
        }
    } else if c == 'n' {
        if s.len() - i >= 4 && s[i + 1] == 'u' && s[i + 2] == 'l' && s[i + 3] == 'l' {
            Some((Json::Null, i + 4))
        } else {
            None
        }
    } else if c == 't' {
        if s.len() - i >= 4 && s[i + 1] == 'r' && s[i + 2] == 'u' && s[i + 3] == 'e' {
            Some((Json::Bool(true), i + 4))
        } else {
            None
        }
    } else if c == 'f' {
        if s.len() - i >= 5 && s[i + 1] == 'a' && s[i + 2] == 'l' && s[i + 3] == 's' && s[i + 4]
            == 'e' {
            Some((Json::Bool(false), i + 5))
        } else {
            None
        }
    } else {
        None
    }
}

fn flat_fields_x(s: &Vec<char>, i: usize) -> (r: Option<(Vec<(Vec<char>, Json)>, usize)>)
    requires
        i <= s@.len(),
    ensures
        match (r, parse_flat_fields(s@, i as int)) {
            (Some((f, j)), Some(sr)) => obj_view(f@) == sr.0 && j as int == sr.1 && i < j
                <= s@.len(),
            (None, None) => true,
            _ => false,
        },
    decreases s@.len() - i,
{
    proof {
        lemma_flat_fields(s@, i as int);
    }
    let k0 = ws_end(s, i);
    match string_x(s, k0) {
        None => None,
        Some((key, j1)) => {
            let c0 = ws_end(s, j1);
            if c0 < s.len() && s[c0] == ':' {
                let v0 = ws_end(s, c0 + 1);
                match scalar_x(s, v0) {
                    None => None,
                    Some((v, j2)) => {
                        let t = ws_end(s, j2);
                        if t < s.len() && s[t] == ',' {
                            match flat_fields_x(s, t + 1) {
                                None => None,
                                Some((rest, j3)) => {
                                    let mut f = rest;
                                    f.insert(0, (key, v));
                                    proof {
                                        let sr = parse_flat_fields(s@, i as int)->Some_0;
                                        assert(obj_view(f@) =~= sr.0);
                                    }
                                    Some((f, j3))
                                },
                            }
                        } else if t < s.len() && s[t] == '}' {
                            let mut f: Vec<(Vec<char>, Json)> = Vec::new();
                            f.push((key, v));
                            proof {
                                let sr = parse_flat_fields(s@, i as int)->Some_0;
                                assert(obj_view(f@) =~= sr.0);
                            }
                            Some((f, t + 1))
                        } else {
                            None
                        }
                    },
                }
            } else {
                None
            }
        },
    }
}

fn flat_obj_x(s: &Vec<char>, i: usize) -> (r: Option<(Vec<(Vec<char>, Json)>, usize)>)
    requires
        i <= s@.len(),
    ensures
        match (r, parse_flat_obj(s@, i as int)) {
            (Some((f, j)), Some(sr)) => obj_view(f@) == sr.0 && j as int == sr.1 && i < j
                <= s@.len(),
            (None, None) => true,
            _ => false,
        },
{
    proof {
        lemma_flat_obj(s@, i as int);
    }
    if i < s.len() && s[i] == '{' {
        let b = ws_end(s, i + 1);
        if b < s.len() && s[b] == '}' {
            let f: Vec<(Vec<char>, Json)> = Vec::new();
            proof {
                assert(obj_view(f@) =~= Seq::<(Seq<char>, JsonV)>::empty());
            }
            Some((f, b + 1))
        } else {
            flat_fields_x(s, i + 1)
        }
    } else {
        None
    }
}

fn elem_x(s: &Vec<char>, i: usize) -> (r: Option<(Json, usize)>)
    requires
        i <= s@.len(),
    ensures
        match (r, parse_elem(s@, i as int)) {
            (Some((v, j)), Some(sr)) => v@ == sr.0 && j as int == sr.1 && i < j <= s@.len(),
            (None, None) => true,
            _ => false,
        },
{
    proof {
        lemma_elem(s@, i as int);
    }
    if i < s.len() && s[i] == '{' {
        match flat_obj_x(s, i) {
            None => None,
            Some((f, j)) => Some((Json::Obj(f), j)),
        }
    } else {
        scalar_x(s, i)
    }
}

fn items_x(s: &Vec<char>, i: usize) -> (r: Option<(Vec<Json>, usize)>)
    requires
        i <= s@.len(),
    ensures
        match (r, parse_items(s@, i as int)) {
            (Some((v, j)), Some(sr)) => arr_view(v@) == sr.0 && j as int == sr.1 && i < j
                <= s@.len(),
            (None, None) => true,
            _ => false,
        },
    decreases s@.len() - i,
{
    proof {
        lemma_items(s@, i as int);
    }
    let e0 = ws_end(s, i);
    match elem_x(s, e0) {
        None => None,
        Some((v, j1)) => {
            let t = ws_end(s, j1);
            if t < s.len() && s[t] == ',' {
                match items_x(s, t + 1) {
                    None => None,
                    Some((rest, j2)) => {
                        let mut out = rest;
                        out.insert(0, v);
                        proof {
                            let sr = parse_items(s@, i as int)->Some_0;
                            assert(arr_view(out@) =~= sr.0);
                        }
                        Some((out, j2))
                    },
                }
            } else if t < s.len() && s[t] == ']' {
                let mut out: Vec<Json> = Vec::new();
                out.push(v);
                proof {
                    let sr = parse_items(s@, i as int)->Some_0;
                    assert(arr_view(out@) =~= sr.0);
                }
                Some((out, t + 1))
            } else {
                None
            }
        },
    }
}

fn value_x(s: &Vec<char>, i: usize) -> (r: Option<(Json, usize)>)
    requires
        i <= s@.len(),
    ensures
        match (r, parse_value(s@, i as int)) {
            (Some((v, j)), Some(sr)) => v@ == sr.0 && j as int == sr.1 && i < j <= s@.len(),
            (None, None) => true,
            _ => false,
        },
{
    proof {
        lemma_value(s@, i as int);
    }
    if i < s.len() && s[i] == '[' {
        let b = ws_end(s, i + 1);
        if b < s.len() && s[b] == ']' {
            let items: Vec<Json> = Vec::new();
            proof {
                assert(arr_view(items@) =~= Seq::<JsonV>::empty());
            }
            Some((Json::Arr(items), b + 1))
        } else {
            match items_x(s, i + 1) {
                None => None,
                Some((items, j)) => Some((Json::Arr(items), j)),
            }
        }
    } else {
        elem_x(s, i)
    }
}

fn fields_x(s: &Vec<char>, i: usize) -> (r: Option<(Vec<(Vec<char>, Json)>, usize)>)
    requires
        i <= s@.len(),
    ensures
        match (r, parse_fields(s@, i as int)) {
            (Some((f, j)), Some(sr)) => obj_view(f@) == sr.0 && j as int == sr.1 && i < j
                <= s@.len(),
            (None, None) => true,
            _ => false,
        },
    decreases s@.len() - i,
{
    proof {
        lemma_fields(s@, i as int);
    }
    let k0 = ws_end(s, i);
    match string_x(s, k0) {
        None => None,
        Some((key, j1)) => {
            let c0 = ws_end(s, j1);
            if c0 < s.len() && s[c0] == ':' {
                let v0 = ws_end(s, c0 + 1);
                match value_x(s, v0) {
                    None => None,
                    Some((v, j2)) => {
                        let t = ws_end(s, j2);
                        if t < s.len() && s[t] == ',' {
                            match fields_x(s, t + 1) {
                                None => None,
                                Some((rest, j3)) => {
                                    let mut f = rest;
                                    f.insert(0, (key, v));
                                    proof {
                                        let sr = parse_fields(s@, i as int)->Some_0;
                                        assert(obj_view(f@) =~= sr.0);
                                    }
                                    Some((f, j3))
                                },
                            }
                        } else if t < s.len() && s[t] == '}' {
                            let mut f: Vec<(Vec<char>, Json)> = Vec::new();
                            f.push((key, v));
                            proof {
                                let sr = parse_fields(s@, i as int)->Some_0;
                                assert(obj_view(f@) =~= sr.0);
                            }
                            Some((f, t + 1))
                        } else {
                            None
                        }
                    },
                }
            } else {
                None
            }
        },
    }
}

fn obj1_x(s: &Vec<char>, i: usize) -> (r: Option<(Vec<(Vec<char>, Json)>, usize)>)
    requires
        i <= s@.len(),
    ensures
        match (r, parse_obj1(s@, i as int)) {
            (Some((f, j)), Some(sr)) => obj_view(f@) == sr.0 && j as int == sr.1 && i < j
                <= s@.len(),
            (None, None) => true,
            _ => false,
        },
{
    proof {
        lemma_obj1(s@, i as int);
    }
    if i < s.len() && s[i] == '{' {
        let b = ws_end(s, i + 1);
        if b < s.len() && s[b] == '}' {
            let f: Vec<(Vec<char>, Json)> = Vec::new();
            proof {
                assert(obj_view(f@) =~= Seq::<(Seq<char>, JsonV)>::empty());
            }
            Some((f, b + 1))
        } else {
            fields_x(s, i + 1)
        }
    } else {
        None
    }
}

fn value2_x(s: &Vec<char>, i: usize) -> (r: Option<(Json, usize)>)
    requires
        i <= s@.len(),
    ensures
        match (r, parse_value2(s@, i as int)) {
            (Some((v, j)), Some(sr)) => v@ == sr.0 && j as int == sr.1 && i < j <= s@.len(),
            (None, None) => true,
            _ => false,
        },
{
    proof {
        lemma_value2(s@, i as int);
    }
    if i < s.len() && s[i] == '{' {
        match obj1_x(s, i) {
            None => None,
            Some((f, j)) => Some((Json::Obj(f), j)),
        }
    } else {
        value_x(s, i)
    }
}

fn fields2_x(s: &Vec<char>, i: usize) -> (r: Option<(Vec<(Vec<char>, Json)>, usize)>)
    requires
        i <= s@.len(),
    ensures
        match (r, parse_fields2(s@, i as int)) {
            (Some((f, j)), Some(sr)) => obj_view(f@) == sr.0 && j as int == sr.1 && i < j
                <= s@.len(),
            (None, None) => true,
            _ => false,
        },
    decreases s@.len() - i,
{
    proof {
        lemma_fields2(s@, i as int);
    }
    let k0 = ws_end(s, i);
    match string_x(s, k0) {
        None => None,
        Some((key, j1)) => {
            let c0 = ws_end(s, j1);
            if c0 < s.len() && s[c0] == ':' {
                let v0 = ws_end(s, c0 + 1);
                match value2_x(s, v0) {
                    None => None,
                    Some((v, j2)) => {
                        let t = ws_end(s, j2);
                        if t < s.len() && s[t] == ',' {
                            match fields2_x(s, t + 1) {
                                None => None,
                                Some((rest, j3)) => {
                                    let mut f = rest;
                                    f.insert(0, (key, v));
                                    proof {
                                        let sr = parse_fields2(s@, i as int)->Some_0;
                                        assert(obj_view(f@) =~= sr.0);
                                    }
                                    Some((f, j3))
                                },
                            }
                        } else if t < s.len() && s[t] == '}' {
                            let mut f: Vec<(Vec<char>, Json)> = Vec::new();
                            f.push((key, v));
                            proof {
                                let sr = parse_fields2(s@, i as int)->Some_0;
                                assert(obj_view(f@) =~= sr.0);
                            }
                            Some((f, t + 1))
                        } else {
                            None
                        }
                    },
                }
            } else {
                None
            }
        },
    }
}

/// Parses a whole request document; the result is the parsed field list
/// exactly when the specification parser accepts the text.
pub fn parse_doc_x(s: &Vec<char>) -> (r: Option<Vec<(Vec<char>, Json)>>)
    ensures
        match (r, parse_doc(s@)) {
            (Some(f), Some(sf)) => obj_view(f@) == sf,
            (None, None) => true,
            _ => false,
        },
{
    let i0 = ws_end(s, 0);
    if i0 < s.len() && s[i0] == '{' {
        let b = ws_end(s, i0 + 1);
        let parsed: Option<(Vec<(Vec<char>, Json)>, usize)> = if b < s.len() && s[b] == '}' {
            let f: Vec<(Vec<char>, Json)> = Vec::new();
            proof {
                assert(obj_view(f@) =~= Seq::<(Seq<char>, JsonV)>::empty());
            }
            Some((f, b + 1))
        } else {
            fields2_x(s, i0 + 1)
        };
        match parsed {
            None => None,
            Some((f, j)) => {
                let tail = ws_end(s, j);
                if tail == s.len() {
                    Some(f)
                } else {
                    None
                }
            },
        }
    } else {
        None
    }
}

} // verus!
