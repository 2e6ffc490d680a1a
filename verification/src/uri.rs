//! Capability URIs: the string a client holds, carrying the service
//! identity key, the relay set and the shared secret. Built on issue,
//! parsed back at startup to materialize the wallet sessions.

use vstd::prelude::*;

use crate::hexstr::{hex_of, is_hex_seq, lemma_hex_round_trip, lemma_hex_of_len, hex_val, is_hex_char};
use crate::session::WalletSession;
use crate::strops::{chars_of, string_of};

verus! {

/// What `urlencoding::encode` returns for a text: a function of the text
/// alone.
pub uninterp spec fn urlencoded_of(s: Seq<char>) -> Seq<char>;

/// A character the encoder can emit: the unreserved set it keeps, the
/// percent sign, or a hex digit of an escape (those are alphanumeric).
pub open spec fn urlencoded_char(c: char) -> bool {
    ('0' <= c && c <= '9') || ('a' <= c && c <= 'z') || ('A' <= c && c <= 'Z') || c == '-' || c
        == '.' || c == '_' || c == '~' || c == '%'
}

/// Text of ASCII characters only.
pub open spec fn ascii_seq(s: Seq<char>) -> bool {
    forall|i: int| #![trigger s[i]] 0 <= i < s.len() ==> (s[i] as u32) < 128
}

/// Relies on `urlencoding::encode`: keeps alphanumerics and `-`, `.`,
/// `_`, `~`, and writes every other byte as `%` and two upper-case hex
/// digits. So the result holds only characters of that alphabet, and for
/// ASCII input percent-decoding gives the input back.
#[verifier::external_body]
fn urlencode(s: &str) -> (r: String)
    ensures
        r@ == urlencoded_of(s@),
        forall|i: int| 0 <= i < r@.len() ==> urlencoded_char(#[trigger] r@[i]),
        ascii_seq(s@) ==> pct_decode(r@, 0) == Option::Some(s@),
{
    urlencoding::encode(s).into_owned()
}

/// Relies on `hex::encode`: two lower-case hex digits per byte, exactly
/// the encoding `hex_of` states.
#[verifier::external_body]
fn hex_encode(b: &Vec<u8>) -> (r: String)
    ensures
        r@ == hex_of(b@),
{
    hex::encode(b.as_slice())
}

/// Draws a fresh shared secret: 32 random bytes as their 64 lower-case
/// hex characters.
pub fn generate_secret() -> (r: Option<String>)
    ensures
        r matches Some(s) ==> s@.len() == 64 && is_hex_seq(s@) && exists|b: Seq<u8>|
            b.len() == 32 && s@ == hex_of(b),
{
    match crate::dispatch::random_32() {
        None => None,
        Some(bytes) => {
            let s = hex_encode(&bytes);
            proof {
                lemma_hex_round_trip(bytes@);
                lemma_hex_of_len(bytes@);
            }
            Some(s)
        },
    }
}

/// Builds a capability URI for one client: the service identity, the
/// percent-encoded relay, and a fresh shared secret of 32 random bytes
/// in lower-case hex. For a hex identity key and an ASCII relay, parsing
/// the result recovers exactly those parts.
pub fn create_uri(pubkey_hex: &str, relay: &str) -> (r: Option<String>)
    ensures
        r matches Some(u) ==> exists|b: Seq<u8>|
            {
                &&& b.len() == 32
                &&& u@ == "nostr+walletconnect://"@ + pubkey_hex@ + "?relay="@ + urlencoded_of(
                    relay@,
                ) + "&secret="@ + hex_of(b)
                &&& ((is_hex_seq(pubkey_hex@) && ascii_seq(relay@)) ==> uri_parts_of(u@)
                    == Option::Some((pubkey_hex@, seq![relay@], hex_of(b))))
            },
{
    let secret = match generate_secret() {
        None => {
            return None;
        },
        Some(s) => s,
    };
    let mut out = String::new();
    out.append("nostr+walletconnect://");
    out.append(pubkey_hex);
    out.append("?relay=");
    let enc = urlencode(relay);
    out.append(enc.as_str());
    out.append("&secret=");
    out.append(secret.as_str());
    proof {
        assert(out@ =~= "nostr+walletconnect://"@ + pubkey_hex@ + "?relay="@ + urlencoded_of(
            relay@,
        ) + "&secret="@ + secret@);
        let b = choose|b: Seq<u8>| b.len() == 32 && secret@ == hex_of(b);
        if is_hex_seq(pubkey_hex@) && ascii_seq(relay@) {
            lemma_uri_round_trip(pubkey_hex@, enc@, relay@, secret@);
        }
    }
    Some(out)
}

// ------------------------------------------------------------------
// Parsing a capability URI
// ------------------------------------------------------------------
/// First position at or after `i` holding `c`, or the length.
pub open spec fn index_of(s: Seq<char>, i: int, c: char) -> int
    decreases s.len() - i,
{
    if i < 0 || i >= s.len() {
        s.len() as int
    } else if s[i] == c {
        i
    } else {
        index_of(s, i + 1, c)
    }
}

pub proof fn lemma_index_of(s: Seq<char>, i: int, c: char)
    requires
        0 <= i <= s.len(),
    ensures
        i <= index_of(s, i, c) <= s.len(),
    decreases s.len() - i,
{
    if i < s.len() && s[i] != c {
        lemma_index_of(s, i + 1, c);
    }
}

/// Percent-decoding over characters; only ASCII escapes are accepted.
pub open spec fn pct_decode(s: Seq<char>, i: int) -> Option<Seq<char>>
    decreases s.len() - i,
{
    if i < 0 || i >= s.len() {
        Option::Some(Seq::empty())
    } else if s[i] == '%' {
        if i + 2 >= s.len() {
            Option::None
        } else if is_hex_char(s[i + 1]) && is_hex_char(s[i + 2]) && hex_val(s[i + 1]) * 16
            + hex_val(s[i + 2]) < 128 {
            match pct_decode(s, i + 3) {
                Option::None => Option::None,
                Option::Some(rest) => Option::Some(
                    seq![((hex_val(s[i + 1]) * 16 + hex_val(s[i + 2])) as u8) as char] + rest,
                ),
            }
        } else {
            Option::None
        }
    } else {
        match pct_decode(s, i + 1) {
            Option::None => Option::None,
            Option::Some(rest) => Option::Some(seq![s[i]] + rest),
        }
    }
}

pub open spec fn starts_with(s: Seq<char>, prefix: Seq<char>) -> bool {
    s.len() >= prefix.len() && s.subrange(0, prefix.len() as int) == prefix
}

/// The query parameters from position `i` on: the decoded relay list in
/// order, and the first secret, if one is given. Unknown parameters are
/// ignored; an undecodable relay makes the URI invalid.
pub open spec fn parse_params(s: Seq<char>, i: int) -> Option<(Seq<Seq<char>>, Option<Seq<char>>)>
    decreases s.len() - i
        when 0 <= i <= s.len()
{
    if i >= s.len() {
        Option::Some((Seq::empty(), Option::None))
    } else {
        let amp = index_of(s, i, '&');
        proof {
            lemma_index_of(s, i, '&');
        }
        let piece = s.subrange(i, amp);
        let rest = if amp < s.len() {
            parse_params(s, amp + 1)
        } else {
            Option::Some((Seq::empty(), Option::None))
        };
        match rest {
            Option::None => Option::None,
            Option::Some((relays, secret)) => {
                if starts_with(piece, "relay="@) {
                    match pct_decode(piece, "relay="@.len() as int) {
                        Option::None => Option::None,
                        Option::Some(url) => Option::Some((seq![url] + relays, secret)),
                    }
                } else if starts_with(piece, "secret="@) {
                    Option::Some(
                        (relays, Option::Some(piece.skip("secret="@.len() as int))),
                    )
                } else {
                    Option::Some((relays, secret))
                }
            },
        }
    }
}

/// The parts denoted by a capability URI: the identity key text, at
/// least one relay, and the shared secret.
pub open spec fn uri_parts_of(s: Seq<char>) -> Option<(Seq<char>, Seq<Seq<char>>, Seq<char>)> {
    let scheme = "nostr+walletconnect://"@;
    if !starts_with(s, scheme) {
        Option::None
    } else {
        let q = index_of(s, scheme.len() as int, '?');
        let pubkey = s.subrange(scheme.len() as int, q);
        if q >= s.len() {
            Option::None
        } else {
            match parse_params(s, q + 1) {
                Option::None => Option::None,
                Option::Some((relays, secret)) => match secret {
                    Option::Some(sec) => if relays.len() > 0 {
                        Option::Some((pubkey, relays, sec))
                    } else {
                        Option::None
                    },
                    Option::None => Option::None,
                },
            }
        }
    }
}

proof fn lemma_index_of_is(s: Seq<char>, i: int, j: int, c: char)
    requires
        0 <= i <= j < s.len(),
        s[j] == c,
        forall|k: int| i <= k < j ==> s[k] != c,
    ensures
        index_of(s, i, c) == j,
    decreases j - i,
{
    if i < j {
        lemma_index_of_is(s, i + 1, j, c);
    }
}

proof fn lemma_index_of_absent(s: Seq<char>, i: int, c: char)
    requires
        0 <= i <= s.len(),
        forall|k: int| i <= k < s.len() ==> s[k] != c,
    ensures
        index_of(s, i, c) == s.len(),
    decreases s.len() - i,
{
    if i < s.len() {
        lemma_index_of_absent(s, i + 1, c);
    }
}

/// Percent-decoding reads only the text from its position on.
proof fn lemma_pct_decode_suffix(s1: Seq<char>, i1: int, s2: Seq<char>, i2: int)
    requires
        0 <= i1 <= s1.len(),
        0 <= i2 <= s2.len(),
        s1.skip(i1) == s2.skip(i2),
    ensures
        pct_decode(s1, i1) == pct_decode(s2, i2),
    decreases s1.len() - i1,
{
    assert(s1.skip(i1).len() == s1.len() - i1);
    assert(s2.skip(i2).len() == s2.len() - i2);
    assert(s1.len() - i1 == s2.len() - i2);
    if i1 < s1.len() {
        assert(i2 < s2.len());
        assert(s1[i1] == s2[i2]) by {
            assert(s1.skip(i1)[0] == s1[i1]);
            assert(s2.skip(i2)[0] == s2[i2]);
        }
        assert(s1.skip(i1 + 1) =~= s2.skip(i2 + 1)) by {
            assert(s1.skip(i1 + 1).len() == s2.skip(i2 + 1).len());
            assert forall|k: int| 0 <= k < s1.skip(i1 + 1).len() implies #[trigger] s1.skip(
                i1 + 1,
            )[k] == s2.skip(i2 + 1)[k] by {
                assert(s1.skip(i1 + 1)[k] == s1[i1 + 1 + k]);
                assert(s2.skip(i2 + 1)[k] == s2[i2 + 1 + k]);
                assert(s1.skip(i1)[1 + k] == s1[i1 + 1 + k]);
                assert(s2.skip(i2)[1 + k] == s2[i2 + 1 + k]);
            }
        }
        lemma_pct_decode_suffix(s1, i1 + 1, s2, i2 + 1);
        if i1 + 2 < s1.len() {
            assert(s1[i1 + 1] == s2[i2 + 1]) by {
                assert(s1.skip(i1)[1] == s1[i1 + 1]);
                assert(s2.skip(i2)[1] == s2[i2 + 1]);
            }
            assert(s1[i1 + 2] == s2[i2 + 2]) by {
                assert(s1.skip(i1)[2] == s1[i1 + 2]);
                assert(s2.skip(i2)[2] == s2[i2 + 2]);
            }
            assert(s1.skip(i1 + 3) =~= s2.skip(i2 + 3)) by {
                assert(s1.skip(i1 + 3).len() == s2.skip(i2 + 3).len());
                assert forall|k: int| 0 <= k < s1.skip(i1 + 3).len() implies #[trigger] s1.skip(
                    i1 + 3,
                )[k] == s2.skip(i2 + 3)[k] by {
                    assert(s1.skip(i1 + 3)[k] == s1[i1 + 3 + k]);
                    assert(s2.skip(i2 + 3)[k] == s2[i2 + 3 + k]);
                    assert(s1.skip(i1)[3 + k] == s1[i1 + 3 + k]);
                    assert(s2.skip(i2)[3 + k] == s2[i2 + 3 + k]);
                }
            }
            lemma_pct_decode_suffix(s1, i1 + 3, s2, i2 + 3);
        }
    }
}

/// The URI grammar inverts the builder: a URI assembled from a hex
/// identity key, a relay text of the encoder's alphabet that
/// percent-decodes, and a hex secret parses back to exactly those
/// parts.
pub proof fn lemma_uri_round_trip(
    pubkey: Seq<char>,
    enc: Seq<char>,
    relay: Seq<char>,
    sec: Seq<char>,
)
    requires
        is_hex_seq(pubkey),
        forall|i: int| 0 <= i < enc.len() ==> urlencoded_char(#[trigger] enc[i]),
        pct_decode(enc, 0) == Option::Some(relay),
        is_hex_seq(sec),
    ensures
        uri_parts_of("nostr+walletconnect://"@ + pubkey + "?relay="@ + enc + "&secret="@ + sec)
            == Option::Some((pubkey, seq![relay], sec)),
{
    reveal_strlit("nostr+walletconnect://");
    reveal_strlit("?relay=");
    reveal_strlit("&secret=");
    reveal_strlit("relay=");
    reveal_strlit("secret=");
    let scheme = "nostr+walletconnect://"@;
    let q1 = "?relay="@;
    let a1 = "&secret="@;
    let s = scheme + pubkey + q1 + enc + a1 + sec;
    let pk = pubkey.len() as int;
    let e = enc.len() as int;
    assert(scheme.len() == 22);
    assert(q1.len() == 7);
    assert(a1.len() == 8);

    // Where each character of the whole text comes from.
    assert(s.subrange(0, 22) =~= scheme);
    assert(s.subrange(22, 22 + pk) =~= pubkey);
    assert(s.subrange(22 + pk, 29 + pk) =~= q1);
    assert(s.subrange(29 + pk, 29 + pk + e) =~= enc);
    assert(s.subrange(29 + pk + e, 37 + pk + e) =~= a1);
    assert(s.subrange(37 + pk + e, s.len() as int) =~= sec);

    assert(starts_with(s, scheme));

    // The question mark is first found right after the identity key.
    let q = 22 + pk;
    assert(s[q] == '?') by {
        assert(q1[0] == '?');
        assert(s.subrange(22 + pk, 29 + pk)[0] == s[22 + pk]);
    }
    assert(!is_hex_char('?'));
    assert forall|k: int| 22 <= k < q implies s[k] != '?' by {
        assert(s.subrange(22, 22 + pk)[k - 22] == s[k]);
        assert(is_hex_char(pubkey[k - 22]));
    }
    lemma_index_of_is(s, 22, q, '?');
    assert(s.subrange(22, q) =~= pubkey);
    assert(q < s.len());

    // The relay pair runs to the ampersand that opens the secret pair.
    let i1 = q + 1;
    let amp = 29 + pk + e;
    assert(s[amp] == '&') by {
        assert(a1[0] == '&');
        assert(s.subrange(29 + pk + e, 37 + pk + e)[0] == s[amp]);
    }
    assert(!urlencoded_char('&'));
    assert forall|k: int| i1 <= k < amp implies s[k] != '&' by {
        if k < 29 + pk {
            assert(s.subrange(22 + pk, 29 + pk)[k - (22 + pk)] == s[k]);
            assert(s[k] == q1[k - (22 + pk)]);
        } else {
            assert(s.subrange(29 + pk, 29 + pk + e)[k - (29 + pk)] == s[k]);
            assert(urlencoded_char(enc[k - (29 + pk)]));
        }
    }
    lemma_index_of_is(s, i1, amp, '&');
    let piece = s.subrange(i1, amp);
    assert(q1.subrange(1, 7) =~= "relay="@);
    assert(piece =~= "relay="@ + enc);
    assert(starts_with(piece, "relay="@)) by {
        assert(piece.subrange(0, 6) =~= "relay="@);
    }
    assert(piece.skip(6) =~= enc.skip(0));
    lemma_pct_decode_suffix(piece, 6, enc, 0);
    assert(pct_decode(piece, "relay="@.len() as int) == Option::Some(relay));

    // The secret pair ends the text: no further ampersand.
    let i2 = amp + 1;
    assert(!is_hex_char('&'));
    assert forall|k: int| i2 <= k < s.len() implies s[k] != '&' by {
        if k < 37 + pk + e {
            assert(s.subrange(29 + pk + e, 37 + pk + e)[k - (29 + pk + e)] == s[k]);
            assert(s[k] == a1[k - (29 + pk + e)]);
        } else {
            assert(s.subrange(37 + pk + e, s.len() as int)[k - (37 + pk + e)] == s[k]);
            assert(is_hex_char(sec[k - (37 + pk + e)]));
        }
    }
    lemma_index_of_absent(s, i2, '&');
    let piece2 = s.subrange(i2, s.len() as int);
    assert(a1.subrange(1, 8) =~= "secret="@);
    assert(piece2 =~= "secret="@ + sec);
    assert(!starts_with(piece2, "relay="@)) by {
        if starts_with(piece2, "relay="@) {
            assert(piece2.subrange(0, 6)[0] == piece2[0]);
            assert(piece2[0] == 's');
        }
    }
    assert(starts_with(piece2, "secret="@)) by {
        assert(piece2.subrange(0, 7) =~= "secret="@);
    }
    assert(piece2.skip("secret="@.len() as int) =~= sec);
    assert(parse_params(s, i2) == Option::Some(
        (Seq::<Seq<char>>::empty(), Option::Some(sec)),
    ));

    assert(seq![relay] + Seq::<Seq<char>>::empty() =~= seq![relay]);
    assert(parse_params(s, i1) == Option::Some((seq![relay], Option::Some(sec))));

    assert(uri_parts_of(s) == Option::Some((pubkey, seq![relay], sec)));
}

pub struct WalletUriParts {
    pub pubkey: String,
    pub relays: Vec<String>,
    pub secret: String,
}

fn index_of_x(s: &Vec<char>, i: usize, c: char) -> (r: usize)
    requires
        i <= s@.len(),
    ensures
        r as int == index_of(s@, i as int, c),
        i <= r <= s@.len(),
{
    let mut j = i;
    while j < s.len() && s[j] != c
        invariant
            i <= j <= s@.len(),
            index_of(s@, i as int, c) == index_of(s@, j as int, c),
        decreases s@.len() - j,
    {
        j = j + 1;
    }
    j
}

fn pct_decode_x(s: &Vec<char>, i: usize) -> (r: Option<Vec<char>>)
    requires
        i <= s@.len(),
    ensures
        match (r, pct_decode(s@, i as int)) {
            (Some(t), Some(st)) => t@ == st,
            (None, None) => true,
            _ => false,
        },
    decreases s@.len() - i,
{
    if i >= s.len() {
        return Some(Vec::new());
    }
    let c = s[i];
    if c == '%' {
        if s.len() - i < 3 {
            return None;
        }
        let hi = crate::hexstr::hex_char_value(s[i + 1]);
        let lo = crate::hexstr::hex_char_value(s[i + 2]);
        if hi == 16 || lo == 16 {
            return None;
        }
        let v: u8 = hi * 16 + lo;
        if v >= 128 {
            return None;
        }
        match pct_decode_x(s, i + 3) {
            None => None,
            Some(rest) => {
                let mut t = rest;
                t.insert(0, v as char);
                proof {
                    assert(t@ =~= seq![((hex_val(s@[i + 1]) * 16 + hex_val(s@[i + 2])) as u8) as char]
                        + t@.drop_first());
                }
                Some(t)
            },
        }
    } else {
        match pct_decode_x(s, i + 1) {
            None => None,
            Some(rest) => {
                let mut t = rest;
                t.insert(0, c);
                proof {
                    assert(t@ =~= seq![s@[i as int]] + t@.drop_first());
                }
                Some(t)
            },
        }
    }
}

fn starts_with_x(s: &Vec<char>, i: usize, prefix: &str) -> (r: bool)
    requires
        i <= s@.len(),
    ensures
        r == starts_with(s@.skip(i as int), prefix@),
{
    let n = prefix.unicode_len();
    if s.len() - i < n {
        return false;
    }
    let mut j: usize = 0;
    while j < n
        invariant
            n == prefix@.len(),
            i + n <= s@.len(),
            s@.len() <= usize::MAX,
            j <= n,
            forall|k: int| 0 <= k < j ==> s@[i + k] == prefix@[k],
        decreases n - j,
    {
        if s[i + j] != prefix.get_char(j) {
            proof {
                assert(s@.skip(i as int).subrange(0, prefix@.len() as int)[j as int] != prefix@[j as int]);
            }
            return false;
        }
        j = j + 1;
    }
    proof {
        assert(s@.skip(i as int).subrange(0, prefix@.len() as int) =~= prefix@);
    }
    true
}

/// Parses one capability URI into its parts; the result is exactly what
/// the URI grammar says of the text.
pub fn parse_wallet_uri(s: &str) -> (r: Option<WalletUriParts>)
    ensures
        match (r, uri_parts_of(s@)) {
            (Some(p), Some(sp)) => p.pubkey@ == sp.0 && p.relays.deep_view() == sp.1 && p.secret@
                == sp.2,
            (None, None) => true,
            _ => false,
        },
{
    let chars = chars_of(s);
    if !starts_with_x(&chars, 0, "nostr+walletconnect://") {
        proof {
            assert(chars@.skip(0) =~= chars@);
        }
        return None;
    }
    proof {
        assert(chars@.skip(0) =~= chars@);
        reveal_strlit("nostr+walletconnect://");
    }
    let scheme_len: usize = 22;
    let q = index_of_x(&chars, scheme_len, '?');
    let mut pubkey_chars: Vec<char> = Vec::new();
    let mut k = scheme_len;
    while k < q
        invariant
            scheme_len <= k <= q,
            q <= chars@.len(),
            pubkey_chars@ == chars@.subrange(scheme_len as int, k as int),
        decreases q - k,
    {
        pubkey_chars.push(chars[k]);
        k = k + 1;
        proof {
            assert(pubkey_chars@ =~= chars@.subrange(scheme_len as int, k as int));
        }
    }
    if q >= chars.len() {
        return None;
    }
    match parse_params_x(&chars, q + 1) {
        None => None,
        Some((relays, secret)) => match secret {
            Some(sec) => {
                if relays.len() > 0 {
                    Some(
                        WalletUriParts {
                            pubkey: string_of(&pubkey_chars),
                            relays,
                            secret: sec,
                        },
                    )
                } else {
                    None
                }
            },
            None => None,
        },
    }
}

fn parse_params_x(s: &Vec<char>, i: usize) -> (r: Option<(Vec<String>, Option<String>)>)
    requires
        i <= s@.len(),
    ensures
        match (r, parse_params(s@, i as int)) {
            (Some((relays, secret)), Some(sp)) => relays.deep_view() == sp.0 && (match (
                secret,
                sp.1,
            ) {
                (Some(a), Option::Some(b)) => a@ == b,
                (None, Option::None) => true,
                _ => false,
            }),
            (None, None) => true,
            _ => false,
        },
    decreases s@.len() - i,
{
    if i >= s.len() {
        let relays: Vec<String> = Vec::new();
        proof {
            assert(relays.deep_view() =~= Seq::<Seq<char>>::empty());
        }
        return Some((relays, None));
    }
    let amp = index_of_x(s, i, '&');
    let mut piece: Vec<char> = Vec::new();
    let mut k = i;
    while k < amp
        invariant
            i <= k <= amp,
            amp <= s@.len(),
            piece@ == s@.subrange(i as int, k as int),
        decreases amp - k,
    {
        piece.push(s[k]);
        k = k + 1;
        proof {
            assert(piece@ =~= s@.subrange(i as int, k as int));
        }
    }
    let rest: Option<(Vec<String>, Option<String>)> = if amp < s.len() {
        parse_params_x(s, amp + 1)
    } else {
        let relays: Vec<String> = Vec::new();
        proof {
            assert(relays.deep_view() =~= Seq::<Seq<char>>::empty());
        }
        Some((relays, None))
    };
    match rest {
        None => None,
        Some((relays, secret)) => {
            proof {
                assert(piece@.skip(0) =~= piece@);
                reveal_strlit("relay=");
                reveal_strlit("secret=");
            }
            if starts_with_x(&piece, 0, "relay=") {
                match pct_decode_x(&piece, 6) {
                    None => None,
                    Some(url) => {
                        let mut relays2 = relays;
                        relays2.insert(0, string_of(&url));
                        proof {
                            let sp = parse_params(s@, i as int)->Some_0;
                            assert(relays2.deep_view() =~= sp.0);
                        }
                        Some((relays2, secret))
                    },
                }
            } else if starts_with_x(&piece, 0, "secret=") {
                proof {
                    assert(starts_with(piece@, "secret="@));
                    assert(piece@.len() >= 7);
                }
                let mut sec_chars: Vec<char> = Vec::new();
                let mut m: usize = 7;
                while m < piece.len()
                    invariant
                        7 <= m <= piece@.len(),
                        sec_chars@ == piece@.subrange(7, m as int),
                    decreases piece@.len() - m,
                {
                    sec_chars.push(piece[m]);
                    m = m + 1;
                    proof {
                        assert(sec_chars@ =~= piece@.subrange(7, m as int));
                    }
                }
                proof {
                    assert(sec_chars@ =~= piece@.skip(7));
                }
                Some((relays, Some(string_of(&sec_chars))))
            } else {
                Some((relays, secret))
            }
        },
    }
}

/// Materializes a session from one capability URI: a session comes back
/// exactly when the URI parses and its key material derives an
/// encryption key.
pub fn session_from_uri(s: &str) -> (r: Option<WalletSession>)
    ensures
        r is Some <==> (uri_parts_of(s@) matches Option::Some(p) && crate::codec::nip04_keys_ok(
            p.2,
            p.0,
        )),
        r matches Some(sess) ==> uri_parts_of(s@) matches Option::Some(p) && sess@.pubkey == p.0
            && sess@.relays == p.1 && sess@.secret == p.2,
{
    match parse_wallet_uri(s) {
        None => None,
        Some(parts) => WalletSession::new(parts.pubkey, parts.secret, parts.relays),
    }
}

} // verus!

