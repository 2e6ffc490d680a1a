//! Lower-case hexadecimal encoding and decoding over character sequences.
//! Identity keys, payment hashes and preimages all travel as hex strings,
//! so their structural validation lives here.

use vstd::prelude::*;

verus! {

pub const HEX_CHARS: [char; 16] = [
    '0', '1', '2', '3', '4', '5', '6', '7', '8', '9', 'a', 'b', 'c', 'd', 'e', 'f',
];

/// The two lower-case hex characters of one byte.
pub open spec fn hex_pair(b: u8) -> Seq<char> {
    seq![HEX_CHARS@[b as int / 16], HEX_CHARS@[b as int % 16]]
}

/// Lower-case hex text of a byte sequence, two characters per byte.
pub open spec fn hex_of(data: Seq<u8>) -> Seq<char>
    decreases data.len(),
{
    if data.len() == 0 {
        Seq::empty()
    } else {
        hex_pair(data.first()) + hex_of(data.drop_first())
    }
}

pub proof fn lemma_hex_of_len(data: Seq<u8>)
    ensures
        hex_of(data).len() == 2 * data.len(),
    decreases data.len(),
{
    if data.len() > 0 {
        lemma_hex_of_len(data.drop_first());
    }
}

proof fn lemma_hex_of_snoc(data: Seq<u8>, b: u8)
    ensures
        hex_of(data.push(b)) == hex_of(data) + hex_pair(b),
    decreases data.len(),
{
    if data.len() == 0 {
        assert(data.push(b).drop_first() =~= data);
        assert(hex_of(data.push(b)) =~= hex_of(data) + hex_pair(b));
    } else {
        assert(data.push(b).drop_first() =~= data.drop_first().push(b));
        assert(data.push(b).first() == data.first());
        lemma_hex_of_snoc(data.drop_first(), b);
        assert(hex_of(data.push(b)) =~= hex_of(data) + hex_pair(b));
    }
}

/// Hex encoding as text, the form certificates and macaroons are handed
/// to the payment-node connection in.
pub fn buffer_as_hex(bytes: Vec<u8>) -> (r: String)
    ensures
        r@ == hex_of(bytes@),
{
    let mut out = String::new();
    let mut i: usize = 0;
    while i < bytes.len()
        invariant
            i <= bytes@.len(),
            out@ == hex_of(bytes@.subrange(0, i as int)),
        decreases bytes@.len() - i,
    {
        let b = bytes[i];
        out.push(HEX_CHARS[(b / 16) as usize]);
        out.push(HEX_CHARS[(b % 16) as usize]);
        i = i + 1;
        proof {
            let prefix = bytes@.subrange(0, i - 1);
            assert(bytes@.subrange(0, i as int) =~= prefix.push(b));
            lemma_hex_of_snoc(prefix, b);
            assert(out@ =~= hex_of(bytes@.subrange(0, i as int)));
        }
    }
    proof {
        assert(bytes@.subrange(0, bytes@.len() as int) =~= bytes@);
    }
    out
}

/// Numeric value of one hex character, or 16 when it is not a hex digit.
pub open spec fn hex_val(c: char) -> int {
    if '0' <= c && c <= '9' {
        c as int - '0' as int
    } else if 'a' <= c && c <= 'f' {
        c as int - 'a' as int + 10
    } else if 'A' <= c && c <= 'F' {
        c as int - 'A' as int + 10
    } else {
        16
    }
}

pub open spec fn is_hex_char(c: char) -> bool {
    hex_val(c) < 16
}

/// A well-formed hex string: even length, all hex digits.
pub open spec fn is_hex_seq(s: Seq<char>) -> bool {
    s.len() % 2 == 0 && forall|i: int| 0 <= i < s.len() ==> is_hex_char(#[trigger] s[i])
}

/// The bytes denoted by a well-formed hex string.
pub open spec fn bytes_of_hex(s: Seq<char>) -> Seq<u8>
    decreases s.len(),
{
    if s.len() < 2 {
        Seq::empty()
    } else {
        seq![(hex_val(s[0]) * 16 + hex_val(s[1])) as u8] + bytes_of_hex(s.skip(2))
    }
}

/// Exec test for a hex digit.
pub fn hex_char_value(c: char) -> (r: u8)
    ensures
        r as int == if hex_val(c) < 16 { hex_val(c) } else { 16int },
{
    if '0' <= c && c <= '9' {
        (c as u8) - ('0' as u8)
    } else if 'a' <= c && c <= 'f' {
        (c as u8) - ('a' as u8) + 10
    } else if 'A' <= c && c <= 'F' {
        (c as u8) - ('A' as u8) + 10
    } else {
        16
    }
}

/// Checks that a character slice is well-formed hex of exactly `bytes` bytes.
pub fn is_hex_of_len(s: &[char], bytes: usize) -> (r: bool)
    requires
        bytes <= usize::MAX / 2,
    ensures
        r == (is_hex_seq(s@) && s@.len() == 2 * bytes),
{
    if s.len() != 2 * bytes {
        return false;
    }
    let mut i: usize = 0;
    while i < s.len()
        invariant
            i <= s@.len(),
            forall|j: int| 0 <= j < i ==> is_hex_char(#[trigger] s@[j]),
        decreases s@.len() - i,
    {
        if hex_char_value(s[i]) == 16 {
            return false;
        }
        i = i + 1;
    }
    true
}

/// Decodes a well-formed hex character slice into bytes.
pub fn decode_hex(s: &[char]) -> (r: Vec<u8>)
    requires
        is_hex_seq(s@),
    ensures
        r@ == bytes_of_hex(s@),
        r@.len() * 2 == s@.len(),
{
    let mut out: Vec<u8> = Vec::new();
    let mut i: usize = 0;
    proof {
        lemma_bytes_of_hex_len(s@);
        assert(s@.skip(0) =~= s@);
    }
    while i + 1 < s.len()
        invariant
            is_hex_seq(s@),
            i % 2 == 0,
            i <= s@.len(),
            out@.len() * 2 == i,
            bytes_of_hex(s@) == out@ + bytes_of_hex(s@.skip(i as int)),
        decreases s@.len() - i,
    {
        let hi = hex_char_value(s[i]);
        let lo = hex_char_value(s[i + 1]);
        proof {
            assert(is_hex_char(s@[i as int]));
            assert(is_hex_char(s@[i + 1]));
        }
        out.push(hi * 16 + lo);
        proof {
            assert(s@.skip(i as int).skip(2) =~= s@.skip(i + 2));
            assert(s@.skip(i as int)[0] == s@[i as int]);
            assert(s@.skip(i as int)[1] == s@[i + 1]);
        }
        i = i + 2;
    }
    proof {
        assert(s@.skip(i as int).len() < 2);
        assert(bytes_of_hex(s@.skip(i as int)) =~= Seq::<u8>::empty());
        assert(out@ =~= bytes_of_hex(s@));
        lemma_bytes_of_hex_len(s@);
    }
    out
}

proof fn lemma_bytes_of_hex_len(s: Seq<char>)
    ensures
        s.len() % 2 == 0 ==> bytes_of_hex(s).len() * 2 == s.len(),
    decreases s.len(),
{
    if s.len() >= 2 {
        lemma_bytes_of_hex_len(s.skip(2));
    }
}

/// Round trip: decoding the hex text of a byte sequence yields it back.
pub proof fn lemma_hex_round_trip(data: Seq<u8>)
    ensures
        is_hex_seq(hex_of(data)),
        bytes_of_hex(hex_of(data)) == data,
    decreases data.len(),
{
    lemma_hex_of_len(data);
    if data.len() == 0 {
    } else {
        let b = data.first();
        lemma_hex_round_trip(data.drop_first());
        lemma_hex_of_len(data.drop_first());
        assert(0 <= b as int / 16 < 16);
        assert(0 <= b as int % 16 < 16);
        let s = hex_of(data);
        assert(s[0] == HEX_CHARS@[b as int / 16]);
        assert(s[1] == HEX_CHARS@[b as int % 16]);
        lemma_hex_char_val(b as int / 16);
        lemma_hex_char_val(b as int % 16);
        assert(s.skip(2) =~= hex_of(data.drop_first()));
        assert(forall|i: int| 0 <= i < s.len() ==> is_hex_char(#[trigger] s[i])) by {
            assert(forall|i: int| 2 <= i < s.len() ==> s[i] == #[trigger] s.skip(2)[i - 2]);
        }
        assert(hex_val(s[0]) * 16 + hex_val(s[1]) == b as int);
        assert(bytes_of_hex(s) =~= seq![b] + bytes_of_hex(s.skip(2)));
        assert(bytes_of_hex(hex_of(data)) =~= data);
    }
}

proof fn lemma_hex_char_val(v: int)
    requires
        0 <= v < 16,
    ensures
        hex_val(HEX_CHARS@[v]) == v,
{
}

} // verus!
