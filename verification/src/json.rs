//! The wire shape of every envelope payload: a JSON value model, a
//! serializer, and a parser for the bounded request grammar.
//!
//! Protocol numbers are integers (amounts, timestamps, record types), so
//! the model carries `i64` and the parser rejects fractions and exponents.
//! Unicode escapes (`\uXXXX`) in inbound text are likewise rejected as
//! malformed; raw UTF-8 passes through unchanged.

use vstd::prelude::*;

use crate::hexstr::HEX_CHARS;

verus! {

/// A JSON value as built and consumed by the protocol code.
pub enum Json {
    Null,
    Bool(bool),
    Int(i64),
    UInt(u64),
    Text(Vec<char>),
    Arr(Vec<Json>),
    Obj(Vec<(Vec<char>, Json)>),
}

/// The mathematical twin of `Json`, over sequences.
#[verifier::ext_equal]
pub enum JsonV {
    Null,
    Bool(bool),
    Int(i64),
    UInt(u64),
    Text(Seq<char>),
    Arr(Seq<JsonV>),
    Obj(Seq<(Seq<char>, JsonV)>),
}

impl View for Json {
    type V = JsonV;

    open spec fn view(&self) -> JsonV
        decreases self,
    {
        match self {
            Json::Null => JsonV::Null,
            Json::Bool(b) => JsonV::Bool(*b),
            Json::Int(n) => JsonV::Int(*n),
            Json::UInt(n) => JsonV::UInt(*n),
            Json::Text(s) => JsonV::Text(s@),
            Json::Arr(items) => JsonV::Arr(arr_view(items@)),
            Json::Obj(fields) => JsonV::Obj(obj_view(fields@)),
        }
    }
}

/// The models of a sequence of values.
pub open spec fn arr_view(items: Seq<Json>) -> Seq<JsonV>
    decreases items,
{
    Seq::new(
        items.len(),
        |i: int|
            if 0 <= i < items.len() {
                items[i]@
            } else {
                JsonV::Null
            },
    )
}

/// The models of a sequence of fields.
pub open spec fn obj_view(fields: Seq<(Vec<char>, Json)>) -> Seq<(Seq<char>, JsonV)>
    decreases fields,
{
    Seq::new(
        fields.len(),
        |i: int|
            if 0 <= i < fields.len() {
                (fields[i].0@, fields[i].1@)
            } else {
                (Seq::empty(), JsonV::Null)
            },
    )
}

/// First field value under this key, walking fields in order.
pub open spec fn obj_get(fields: Seq<(Seq<char>, JsonV)>, key: Seq<char>) -> Option<JsonV>
    decreases fields.len(),
{
    if fields.len() == 0 {
        Option::None
    } else if fields.first().0 == key {
        Option::Some(fields.first().1)
    } else {
        obj_get(fields.drop_first(), key)
    }
}

// ------------------------------------------------------------------
// Serialization: decimal integers
// ------------------------------------------------------------------
/// Decimal digits of a non-negative number, most significant first.
pub open spec fn dec_digits(n: nat) -> Seq<char>
    decreases n,
{
    if n < 10 {
        seq![HEX_CHARS@[n as int]]
    } else {
        dec_digits(n / 10).push(HEX_CHARS@[(n % 10) as int])
    }
}

/// Decimal text of an integer, with a sign for negative values.
pub open spec fn dec_int(n: int) -> Seq<char> {
    if n < 0 {
        seq!['-'] + dec_digits((-n) as nat)
    } else {
        dec_digits(n as nat)
    }
}

fn push_u64_dec(out: &mut Vec<char>, n: u64)
    ensures
        final(out)@ == old(out)@ + dec_digits(n as nat),
    decreases n,
{
    if n < 10 {
        out.push(HEX_CHARS[n as usize]);
    } else {
        push_u64_dec(out, n / 10);
        out.push(HEX_CHARS[(n % 10) as usize]);
    }
}

fn push_i64_dec(out: &mut Vec<char>, n: i64)
    ensures
        final(out)@ == old(out)@ + dec_int(n as int),
{
    if n < 0 {
        out.push('-');
        let m: u64 = if n == i64::MIN {
            9223372036854775808u64
        } else {
            (-n) as u64
        };
        proof {
            assert(m as nat == (-(n as int)) as nat);
        }
        push_u64_dec(out, m);
    } else {
        push_u64_dec(out, n as u64);
    }
}

// ------------------------------------------------------------------
// Serialization: string escaping
// ------------------------------------------------------------------
/// The characters standing for one text character inside quotes.
pub open spec fn esc_char(c: char) -> Seq<char> {
    if c == '"' {
        seq!['\\', '"']
    } else if c == '\\' {
        seq!['\\', '\\']
    } else if c == '\n' {
        seq!['\\', 'n']
    } else if c == '\r' {
        seq!['\\', 'r']
    } else if c == '\t' {
        seq!['\\', 't']
    } else if (c as u32) < 0x20 {
        seq!['\\', 'u', '0', '0', HEX_CHARS@[c as u32 as int / 16], HEX_CHARS@[c as u32 as int % 16]]
    } else {
        seq![c]
    }
}

/// Escaped form of the text from position `i` on.
pub open spec fn esc_text_from(s: Seq<char>, i: int) -> Seq<char>
    decreases s.len() - i,
{
    if i < 0 || i >= s.len() {
        Seq::empty()
    } else {
        esc_char(s[i]) + esc_text_from(s, i + 1)
    }
}

fn push_esc(out: &mut Vec<char>, c: char)
    ensures
        final(out)@ == old(out)@ + esc_char(c),
{
    if c == '"' {
        out.push('\\');
        out.push('"');
    } else if c == '\\' {
        out.push('\\');
        out.push('\\');
    } else if c == '\n' {
        out.push('\\');
        out.push('n');
    } else if c == '\r' {
        out.push('\\');
        out.push('r');
    } else if c == '\t' {
        out.push('\\');
        out.push('t');
    } else if (c as u32) < 0x20 {
        let v = c as u32;
        out.push('\\');
        out.push('u');
        out.push('0');
        out.push('0');
        out.push(HEX_CHARS[(v / 16) as usize]);
        out.push(HEX_CHARS[(v % 16) as usize]);
    } else {
        out.push(c);
    }
}

fn push_quoted(out: &mut Vec<char>, s: &Vec<char>)
    ensures
        final(out)@ == old(out)@ + seq!['"'] + esc_text_from(s@, 0) + seq!['"'],
{
    out.push('"');
    let ghost mid = out@;
    let mut i: usize = 0;
    while i < s.len()
        invariant
            i <= s@.len(),
            out@ + esc_text_from(s@, i as int) == mid + esc_text_from(s@, 0),
        decreases s@.len() - i,
    {
        proof {
            lemma_esc_split(s@, i as int);
        }
        push_esc(out, s[i]);
        i = i + 1;
    }
    out.push('"');
}

proof fn lemma_esc_split(s: Seq<char>, i: int)
    requires
        0 <= i < s.len(),
    ensures
        esc_text_from(s, i) == esc_char(s[i]) + esc_text_from(s, i + 1),
{
}

// ------------------------------------------------------------------
// Serialization: values
// ------------------------------------------------------------------
/// The canonical text of a JSON value: no inter-token spacing, fields in
/// the order the value carries them.
pub open spec fn text_of(v: JsonV) -> Seq<char>
    decreases v, 1int,
{
    match v {
        JsonV::Null => seq!['n', 'u', 'l', 'l'],
        JsonV::Bool(b) => if b {
            seq!['t', 'r', 'u', 'e']
        } else {
            seq!['f', 'a', 'l', 's', 'e']
        },
        JsonV::Int(n) => dec_int(n as int),
        JsonV::UInt(n) => dec_digits(n as nat),
        JsonV::Text(s) => seq!['"'] + esc_text_from(s, 0) + seq!['"'],
        JsonV::Arr(items) => seq!['['] + items_text_from(items, 0) + seq![']'],
        JsonV::Obj(fields) => seq!['{'] + fields_text_from(fields, 0) + seq!['}'],
    }
}

/// Comma-joined texts of the items from position `i` on.
pub open spec fn items_text_from(items: Seq<JsonV>, i: int) -> Seq<char>
    decreases items, items.len() - i,
{
    if i < 0 || i >= items.len() {
        Seq::empty()
    } else if i == items.len() - 1 {
        text_of(items[i])
    } else {
        text_of(items[i]) + seq![','] + items_text_from(items, i + 1)
    }
}

/// Comma-joined `"key":value` texts of the fields from position `i` on.
pub open spec fn fields_text_from(fields: Seq<(Seq<char>, JsonV)>, i: int) -> Seq<char>
    decreases fields, fields.len() - i,
{
    if i < 0 || i >= fields.len() {
        Seq::empty()
    } else {
        let one = seq!['"'] + esc_text_from(fields[i].0, 0) + seq!['"', ':'] + text_of(
            fields[i].1,
        );
        if i == fields.len() - 1 {
            one
        } else {
            one + seq![','] + fields_text_from(fields, i + 1)
        }
    }
}

/// Serializes a value; the result is exactly `text_of` of its model.
pub fn to_text(v: &Json) -> (r: Vec<char>)
    ensures
        r@ == text_of(v@),
    decreases v, 0int,
{
    match v {
        Json::Null => {
            let mut out: Vec<char> = Vec::new();
            out.push('n');
            out.push('u');
            out.push('l');
            out.push('l');
            proof {
                assert(out@ =~= text_of(v@));
            }
            out
        },
        Json::Bool(b) => {
            let mut out: Vec<char> = Vec::new();
            if *b {
                out.push('t');
                out.push('r');
                out.push('u');
                out.push('e');
            } else {
                out.push('f');
                out.push('a');
                out.push('l');
                out.push('s');
                out.push('e');
            }
            proof {
                assert(out@ =~= text_of(v@));
            }
            out
        },
        Json::Int(n) => {
            let mut out: Vec<char> = Vec::new();
            push_i64_dec(&mut out, *n);
            proof {
                assert(out@ =~= text_of(v@));
            }
            out
        },
        Json::UInt(n) => {
            let mut out: Vec<char> = Vec::new();
            push_u64_dec(&mut out, *n);
            proof {
                assert(out@ =~= text_of(v@));
            }
            out
        },
        Json::Text(s) => {
            let mut out: Vec<char> = Vec::new();
            push_quoted(&mut out, s);
            proof {
                assert(out@ =~= text_of(v@));
            }
            out
        },
        Json::Arr(items) => {
            let mut out: Vec<char> = Vec::new();
            out.push('[');
            push_items_text(items, 0, &mut out);
            out.push(']');
            proof {
                assert(out@ =~= text_of(v@));
            }
            out
        },
        Json::Obj(fields) => {
            let mut out: Vec<char> = Vec::new();
            out.push('{');
            push_fields_text(fields, 0, &mut out);
            out.push('}');
            proof {
                assert(out@ =~= text_of(v@));
            }
            out
        },
    }
}

fn push_items_text(items: &Vec<Json>, i: usize, out: &mut Vec<char>)
    ensures
        final(out)@ == old(out)@ + items_text_from(arr_view(items@), i as int),
    decreases items, items@.len() - i,
{
    if i >= items.len() {
        proof {
            assert(out@ =~= old(out)@ + items_text_from(arr_view(items@), i as int));
        }
        return ;
    }
    let mut piece = to_text(&items[i]);
    out.append(&mut piece);
    if i + 1 < items.len() {
        out.push(',');
        push_items_text(items, i + 1, out);
    }
    proof {
        assert(arr_view(items@)[i as int] == items@[i as int]@);
        assert(out@ =~= old(out)@ + items_text_from(arr_view(items@), i as int));
    }
}

fn push_fields_text(fields: &Vec<(Vec<char>, Json)>, i: usize, out: &mut Vec<char>)
    ensures
        final(out)@ == old(out)@ + fields_text_from(obj_view(fields@), i as int),
    decreases fields, fields@.len() - i,
{
    if i >= fields.len() {
        proof {
            assert(out@ =~= old(out)@ + fields_text_from(obj_view(fields@), i as int));
        }
        return ;
    }
    let (key, val) = &fields[i];
    push_quoted(out, key);
    out.push(':');
    let mut piece = to_text(val);
    out.append(&mut piece);
    if i + 1 < fields.len() {
        out.push(',');
        push_fields_text(fields, i + 1, out);
    }
    proof {
        assert(obj_view(fields@)[i as int].0 == fields@[i as int].0@);
        assert(obj_view(fields@)[i as int].1 == fields@[i as int].1@);
        assert(out@ =~= old(out)@ + fields_text_from(obj_view(fields@), i as int));
    }
}

} // verus!
