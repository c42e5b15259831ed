//! Content hashing (SHA-256, lower-case hex) and standard Base64.
use vstd::prelude::*;

use base64::Engine;
use sha2::Digest;

use crate::text::string_from_chars;

verus! {

/// SHA-256 digest of the given bytes.
pub uninterp spec fn sha256(data: Seq<u8>) -> Seq<u8>;

/// `sha2::Sha256::digest`: the 32-byte SHA-256 digest of `data`. The
/// contract names the digest and states its length; it says nothing else of it.
#[verifier::external_body]
fn sha256_digest(data: &[u8]) -> (d: Vec<u8>)
    ensures
        d@ == sha256(data@),
        d@.len() == 32,
{
    sha2::Sha256::digest(data).to_vec()
}

/// Lower-case hex digit for `v < 16`.
pub open spec fn hex_digit(v: int) -> char {
    if v < 10 {
        ((v + 48) as u32) as char
    } else {
        ((v - 10 + 97) as u32) as char
    }
}

/// Lower-case hex encoding, two digits per byte.
pub open spec fn hex_lower(b: Seq<u8>) -> Seq<char>
    decreases b.len(),
{
    if b.len() == 0 {
        Seq::empty()
    } else {
        hex_lower(b.drop_last()) + seq![hex_digit((b.last() / 16) as int), hex_digit((b.last() % 16) as int)]
    }
}

/// Hex encoding doubles the length.
pub proof fn lemma_hex_len(b: Seq<u8>)
    ensures
        hex_lower(b).len() == 2 * b.len(),
    decreases b.len(),
{
    if b.len() > 0 {
        lemma_hex_len(b.drop_last());
    }
}

fn hex_char(v: u8) -> (c: char)
    requires
        v < 16,
    ensures
        c == hex_digit(v as int),
{
    if v < 10 {
        (48 + v) as char
    } else {
        (v - 10 + 97) as char
    }
}

/// Lower-case hex encoding of `b`.
pub fn to_hex_lower(b: &[u8]) -> (r: Vec<char>)
    ensures
        r@ == hex_lower(b@),
        r@.len() == 2 * b@.len(),
{
    let mut r: Vec<char> = Vec::new();
    let mut i: usize = 0;
    while i < b.len()
        invariant
            i <= b@.len(),
            r@ == hex_lower(b@.take(i as int)),
        decreases b@.len() - i,
    {
        let x = b[i];
        r.push(hex_char(x / 16));
        r.push(hex_char(x % 16));
        assert(b@.take(i + 1).drop_last() =~= b@.take(i as int));
        assert(r@ =~= hex_lower(b@.take(i + 1)));
        i = i + 1;
    }
    assert(b@.take(b@.len() as int) =~= b@);
    proof {
        lemma_hex_len(b@);
    }
    r
}

/// SHA-256 hex digest of arbitrary data: 64 lower-case hex digits.
pub fn content_hash(data: &[u8]) -> (r: String)
    ensures
        r@ == hex_lower(sha256(data@)),
        r@.len() == 64,
{
    let d = sha256_digest(data);
    let h = to_hex_lower(d.as_slice());
    string_from_chars(h.as_slice())
}

/// The character of the standard Base64 alphabet for `v < 64`.
pub open spec fn b64_char(v: int) -> char {
    if v < 26 {
        ((v + 65) as u32) as char
    } else if v < 52 {
        ((v - 26 + 97) as u32) as char
    } else if v < 62 {
        ((v - 52 + 48) as u32) as char
    } else if v == 62 {
        '+'
    } else {
        '/'
    }
}

/// Standard Base64 (RFC 4648 alphabet, `=` padding) of `d`.
pub open spec fn b64_encode_spec(d: Seq<u8>) -> Seq<char>
    decreases d.len(),
{
    if d.len() == 0 {
        Seq::empty()
    } else if d.len() == 1 {
        seq![b64_char((d[0] / 4) as int), b64_char((d[0] % 4) * 16), '=', '=']
    } else if d.len() == 2 {
        seq![
            b64_char((d[0] / 4) as int),
            b64_char((d[0] % 4) * 16 + d[1] / 16),
            b64_char((d[1] % 16) * 4),
            '=',
        ]
    } else {
        seq![
            b64_char((d[0] / 4) as int),
            b64_char((d[0] % 4) * 16 + d[1] / 16),
            b64_char((d[1] % 16) * 4 + d[2] / 64),
            b64_char((d[2] % 64) as int),
        ] + b64_encode_spec(d.skip(3))
    }
}

/// `base64::engine::general_purpose::STANDARD.encode`: standard Base64 with padding.
#[verifier::external_body]
fn standard_encode(data: &[u8]) -> (s: String)
    ensures
        s@ == b64_encode_spec(data@),
{
    base64::engine::general_purpose::STANDARD.encode(data)
}

/// What decoding `s` may give: a value only when it encodes to exactly `s`,
/// and a value whenever some byte string encodes to `s`.
pub open spec fn b64_decoded(s: Seq<char>, r: Option<Seq<u8>>) -> bool {
    &&& (r matches Some(v) ==> b64_encode_spec(v) == s)
    &&& (forall|v: Seq<u8>| b64_encode_spec(v) == s ==> r == Some(v))
}

/// `base64::engine::general_purpose::STANDARD.decode(s).ok()`: the STANDARD
/// engine requires canonical padding and zero trailing bits, so it accepts
/// exactly the canonical encodings and gives back the bytes they encode.
#[verifier::external_body]
fn standard_decode(s: &str) -> (r: Option<Vec<u8>>)
    ensures
        b64_decoded(
            s@,
            match r {
                Some(v) => Some(v@),
                None => None,
            },
        ),
{
    base64::engine::general_purpose::STANDARD.decode(s).ok()
}

/// Base64-encodes bytes with the standard alphabet and padding.
pub fn b64_encode(data: &[u8]) -> (s: String)
    ensures
        s@ == b64_encode_spec(data@),
{
    standard_encode(data)
}

/// Base64-decodes a string with the standard alphabet; `None` when it is not
/// a canonical standard encoding.
pub fn b64_decode(s: &str) -> (r: Option<Vec<u8>>)
    ensures
        b64_decoded(
            s@,
            match r {
                Some(v) => Some(v@),
                None => None,
            },
        ),
{
    standard_decode(s)
}

proof fn lemma_b64_char(x: int, y: int)
    requires
        0 <= x < 64,
        0 <= y < 64,
    ensures
        b64_char(x) == b64_char(y) ==> x == y,
        b64_char(x) != '=',
{
}

proof fn lemma_b64_len(d: Seq<u8>)
    ensures
        b64_encode_spec(d).len() == if d.len() == 0 {
            0
        } else {
            4 * ((d.len() + 2) / 3)
        },
    decreases d.len(),
{
    if d.len() >= 3 {
        lemma_b64_len(d.skip(3));
    }
}

proof fn lemma_byte_pair(x0: u8, y0: u8, x1: u8, y1: u8)
    requires
        x0 / 4 == y0 / 4,
        (x0 % 4) * 16 + x1 / 16 == (y0 % 4) * 16 + y1 / 16,
    ensures
        x0 == y0,
        x1 / 16 == y1 / 16,
{
}

proof fn lemma_byte_triple(x1: u8, y1: u8, x2: u8, y2: u8)
    requires
        x1 / 16 == y1 / 16,
        (x1 % 16) * 4 + x2 / 64 == (y1 % 16) * 4 + y2 / 64,
        x2 % 64 == y2 % 64,
    ensures
        x1 == y1,
        x2 == y2,
{
}

/// Standard Base64 is injective: distinct byte strings have distinct encodings.
pub proof fn lemma_b64_injective(a: Seq<u8>, b: Seq<u8>)
    requires
        b64_encode_spec(a) == b64_encode_spec(b),
    ensures
        a == b,
    decreases a.len(),
{
    lemma_b64_len(a);
    lemma_b64_len(b);
    let ea = b64_encode_spec(a);
    let eb = b64_encode_spec(b);
    if a.len() == 0 || b.len() == 0 {
        assert(a.len() == 0 && b.len() == 0);
        assert(a =~= b);
        return;
    }
    // first group
    assert(ea[0] == eb[0] && ea[1] == eb[1] && ea[2] == eb[2] && ea[3] == eb[3]);
    lemma_b64_char((a[0] / 4) as int, (b[0] / 4) as int);
    if a.len() == 1 {
        lemma_b64_char((a[0] % 4) * 16, 0);
        if b.len() >= 2 {
            lemma_b64_char((b[1] % 16) * 4 + if b.len() >= 3 { b[2] / 64 } else { 0 }, 0);
        }
        assert(b.len() == 1);
        lemma_b64_char((a[0] % 4) * 16, (b[0] % 4) * 16);
        assert(a[0] == b[0]);
        assert(a =~= b);
        return;
    }
    if b.len() == 1 {
        lemma_b64_char((a[1] % 16) * 4 + if a.len() >= 3 { a[2] / 64 } else { 0 }, 0);
        assert(false);
        return;
    }
    if a.len() >= 3 && b.len() >= 3 {
        let ga = seq![
            b64_char((a[0] / 4) as int),
            b64_char((a[0] % 4) * 16 + a[1] / 16),
            b64_char((a[1] % 16) * 4 + a[2] / 64),
            b64_char((a[2] % 64) as int),
        ];
        let gb = seq![
            b64_char((b[0] / 4) as int),
            b64_char((b[0] % 4) * 16 + b[1] / 16),
            b64_char((b[1] % 16) * 4 + b[2] / 64),
            b64_char((b[2] % 64) as int),
        ];
        assert(ea == ga + b64_encode_spec(a.skip(3)));
        assert(eb == gb + b64_encode_spec(b.skip(3)));
        assert(ea[0] == ga[0] && ea[1] == ga[1] && ea[2] == ga[2] && ea[3] == ga[3]);
        assert(eb[0] == gb[0] && eb[1] == gb[1] && eb[2] == gb[2] && eb[3] == gb[3]);
        lemma_b64_char((a[0] / 4) as int, (b[0] / 4) as int);
        lemma_b64_char((a[0] % 4) * 16 + a[1] / 16, (b[0] % 4) * 16 + b[1] / 16);
        lemma_b64_char((a[1] % 16) * 4 + a[2] / 64, (b[1] % 16) * 4 + b[2] / 64);
        lemma_b64_char((a[2] % 64) as int, (b[2] % 64) as int);
        lemma_byte_pair(a[0], b[0], a[1], b[1]);
        lemma_byte_triple(a[1], b[1], a[2], b[2]);
        assert(ea.skip(4) =~= b64_encode_spec(a.skip(3)));
        assert(eb.skip(4) =~= b64_encode_spec(b.skip(3)));
        lemma_b64_injective(a.skip(3), b.skip(3));
        assert(a =~= seq![a[0], a[1], a[2]] + a.skip(3));
        assert(b =~= seq![b[0], b[1], b[2]] + b.skip(3));
        return;
    }
    lemma_b64_char((a[0] % 4) * 16 + a[1] / 16, (b[0] % 4) * 16 + b[1] / 16);
    lemma_byte_pair(a[0], b[0], a[1], b[1]);
    if a.len() == 2 {
        if b.len() >= 3 {
            lemma_b64_char((b[2] % 64) as int, 0);
        }
        assert(b.len() == 2);
        lemma_b64_char((a[1] % 16) * 4, (b[1] % 16) * 4);
        assert(a[1] == b[1]);
        assert(a =~= b);
        return;
    }
    if b.len() == 2 {
        lemma_b64_char((a[2] % 64) as int, 0);
        assert(false);
    }
}

/// The bytes a Base64 text encodes, or no bytes when it encodes none.
pub open spec fn decoded_or_empty(s: Seq<char>) -> Seq<u8> {
    if exists|v: Seq<u8>| b64_encode_spec(v) == s {
        choose|v: Seq<u8>| b64_encode_spec(v) == s
    } else {
        Seq::empty()
    }
}

/// Base64-decodes, giving no bytes for a text that is not a canonical
/// standard encoding (`b64_decode(s).unwrap_or_default()`).
pub fn b64_decode_or_empty(s: &str) -> (r: Vec<u8>)
    ensures
        r@ == decoded_or_empty(s@),
{
    let decoded = b64_decode(s);
    let ghost dec_view = match &decoded {
        Some(a) => Some(a@),
        None => None,
    };
    let audio = match decoded {
        Some(a) => a,
        None => Vec::new(),
    };
    proof {
        if exists|v: Seq<u8>| b64_encode_spec(v) == s@ {
            let w = choose|v: Seq<u8>| b64_encode_spec(v) == s@;
            if let Some(a) = dec_view {
                lemma_b64_injective(w, a);
            }
        }
    }
    audio
}

/// Decoding an encoding gives the encoded bytes back.
pub proof fn lemma_b64_roundtrip(data: Seq<u8>, decoded: Option<Seq<u8>>)
    requires
        b64_decoded(b64_encode_spec(data), decoded),
    ensures
        decoded == Some(data),
{
}

} // verus!
