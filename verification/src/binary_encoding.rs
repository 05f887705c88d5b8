//! Inline binary payloads and the standard (RFC 4648) base64 codec used for them.
use vstd::prelude::*;

use crate::schemas::JsonError;
use crate::text::push_char;
use vstd::string::StringSliceAdditionalSpecFns;

verus! {

/// How binary media is carried in a JSON view.
#[derive(Debug, Clone, Copy, PartialEq, Eq)]
pub enum InlineBinaryPolicy {
    ByReference,
    InlineBase64,
}

impl InlineBinaryPolicy {
    /// The default policy keeps media out of the JSON payload.
    pub fn default() -> (p: Self)
        ensures
            p == InlineBinaryPolicy::ByReference,
    {
        InlineBinaryPolicy::ByReference
    }
}

/// A base64-encoded binary payload with its content type.
#[derive(Debug, Clone, PartialEq, Eq)]
pub struct InlineBinaryPayload {
    pub encoding: String,
    pub content_type: String,
    pub data: String,
}

// ---------------------------------------------------------------------------
// Alphabet
// ---------------------------------------------------------------------------

/// The ASCII byte of the base64 alphabet for a six-bit value.
pub open spec fn sextet_byte(v: u8) -> u8 {
    if v < 26 {
        (65 + v) as u8
    } else if v < 52 {
        (97 + (v - 26)) as u8
    } else if v < 62 {
        (48 + (v - 52)) as u8
    } else if v == 62 {
        43u8
    } else {
        47u8
    }
}

/// The alphabet character for a six-bit value.
pub open spec fn sextet_char(v: u8) -> char {
    sextet_byte(v) as char
}

/// The six-bit value of an alphabet byte, or `None` for any other byte.
pub open spec fn sextet_value(b: u8) -> Option<u8> {
    if 65 <= b && b <= 90 {
        Some((b - 65) as u8)
    } else if 97 <= b && b <= 122 {
        Some((b - 97 + 26) as u8)
    } else if 48 <= b && b <= 57 {
        Some((b - 48 + 52) as u8)
    } else if b == 43 {
        Some(62u8)
    } else if b == 47 {
        Some(63u8)
    } else {
        None
    }
}

/// The padding byte `=`.
pub open spec fn pad_byte() -> u8 {
    61u8
}

pub proof fn lemma_sextet_roundtrip(v: u8)
    requires
        v < 64,
    ensures
        sextet_value(sextet_byte(v)) == Some(v),
        sextet_byte(v) != pad_byte(),
        sextet_byte(v) < 128,
{
}

// ---------------------------------------------------------------------------
// Encoding
// ---------------------------------------------------------------------------

/// The four characters that encode one group of up to three bytes.
/// `n` is the number of meaningful bytes in the group; missing bytes are zero.
pub open spec fn encode_group(b0: u8, b1: u8, b2: u8, n: int) -> Seq<char> {
    let s0 = b0 >> 2u8;
    let s1 = ((b0 & 3u8) << 4u8) | (b1 >> 4u8);
    let s2 = ((b1 & 15u8) << 2u8) | (b2 >> 6u8);
    let s3 = b2 & 63u8;
    seq![
        sextet_char(s0),
        sextet_char(s1),
        if n > 1 { sextet_char(s2) } else { '=' },
        if n > 2 { sextet_char(s3) } else { '=' },
    ]
}

/// Standard padded base64 encoding of a byte sequence.
pub open spec fn spec_encode_base64(b: Seq<u8>) -> Seq<char>
    decreases b.len(),
{
    if b.len() == 0 {
        Seq::empty()
    } else if b.len() <= 3 {
        encode_group(b[0], if b.len() > 1 { b[1] } else { 0u8 }, if b.len() > 2 { b[2] } else { 0u8 }, b.len() as int)
    } else {
        encode_group(b[0], b[1], b[2], 3) + spec_encode_base64(b.skip(3))
    }
}

/// The ASCII bytes of a character sequence whose characters are all ASCII.
pub open spec fn ascii_bytes(s: Seq<char>) -> Seq<u8> {
    s.map_values(|c: char| c as u8)
}

proof fn lemma_group_sextets(b0: u8, b1: u8, b2: u8)
    ensures
        b0 >> 2u8 < 64,
        ((b0 & 3u8) << 4u8) | (b1 >> 4u8) < 64,
        ((b1 & 15u8) << 2u8) | (b2 >> 6u8) < 64,
        b2 & 63u8 < 64,
{
    assert(b0 >> 2u8 < 64) by (bit_vector);
    assert(((b0 & 3u8) << 4u8) | (b1 >> 4u8) < 64) by (bit_vector);
    assert(((b1 & 15u8) << 2u8) | (b2 >> 6u8) < 64) by (bit_vector);
    assert(b2 & 63u8 < 64) by (bit_vector);
}

fn sextet_to_char(v: u8) -> (c: char)
    requires
        v < 64,
    ensures
        c == sextet_char(v),
{
    if v < 26 {
        (65u8 + v) as char
    } else if v < 52 {
        (97u8 + (v - 26)) as char
    } else if v < 62 {
        (48u8 + (v - 52)) as char
    } else if v == 62 {
        '+'
    } else {
        '/'
    }
}

/// Encodes bytes as standard padded base64.
pub fn encode_base64(bytes: &[u8]) -> (out: String)
    ensures
        out@ == spec_encode_base64(bytes@),
{
    let mut out = String::new();
    let n = bytes.len();
    let mut i: usize = 0;
    assert(bytes@.skip(0) =~= bytes@);
    while i < n
        invariant
            i <= n,
            n == bytes@.len(),
            spec_encode_base64(bytes@) == out@ + spec_encode_base64(bytes@.skip(i as int)),
        decreases n - i,
    {
        let rem = n - i;
        let b0 = bytes[i];
        let b1 = if rem > 1 { bytes[i + 1] } else { 0u8 };
        let b2 = if rem > 2 { bytes[i + 2] } else { 0u8 };
        proof {
            lemma_group_sextets(b0, b1, b2);
        }
        let s0 = b0 >> 2u8;
        let s1 = ((b0 & 3u8) << 4u8) | (b1 >> 4u8);
        let s2 = ((b1 & 15u8) << 2u8) | (b2 >> 6u8);
        let s3 = b2 & 63u8;
        let ghost before = out@;
        let ghost rest = bytes@.skip(i as int);
        push_char(&mut out, sextet_to_char(s0));
        push_char(&mut out, sextet_to_char(s1));
        if rem > 1 {
            push_char(&mut out, sextet_to_char(s2));
        } else {
            push_char(&mut out, '=');
        }
        if rem > 2 {
            push_char(&mut out, sextet_to_char(s3));
        } else {
            push_char(&mut out, '=');
        }
        let step: usize = if rem > 3 { 3 } else { rem };
        proof {
            let g = encode_group(b0, b1, b2, if rem > 3 { 3int } else { rem as int });
            assert(out@ =~= before + g);
            assert(rest[0] == b0);
            if rem > 1 {
                assert(rest[1] == b1);
            }
            if rem > 2 {
                assert(rest[2] == b2);
            }
            if rem > 3 {
                assert(rest.skip(3) =~= bytes@.skip(i + 3));
                assert(spec_encode_base64(rest) == g + spec_encode_base64(rest.skip(3)));
            } else {
                assert(bytes@.skip(n as int) =~= Seq::<u8>::empty());
                assert(spec_encode_base64(rest) == g);
            }
            assert(out@ + spec_encode_base64(bytes@.skip(i + step)) =~= before + spec_encode_base64(rest));
        }
        i = i + step;
    }
    assert(bytes@.skip(n as int) =~= Seq::<u8>::empty());
    assert(out@ =~= spec_encode_base64(bytes@));
    out
}

// ---------------------------------------------------------------------------
// Decoding
// ---------------------------------------------------------------------------

/// Number of trailing padding bytes in a quartet.
pub open spec fn trailing_pad(c0: u8, c1: u8, c2: u8, c3: u8) -> nat {
    if c3 != pad_byte() {
        0
    } else if c2 != pad_byte() {
        1
    } else if c1 != pad_byte() {
        2
    } else if c0 != pad_byte() {
        3
    } else {
        4
    }
}

/// The bytes a padded quartet decodes to, given its sextet values
/// (a padding position contributes zero bits).
pub open spec fn quartet_bytes(d0: u8, d1: u8, d2: u8, d3: u8, has2: bool, has3: bool) -> Seq<u8> {
    seq![((d0 << 2u8) | (d1 >> 4u8)) as u8]
        + (if has2 { seq![(((d1 & 15u8) << 4u8) | (d2 >> 2u8)) as u8] } else { Seq::empty() })
        + (if has3 { seq![(((d2 & 3u8) << 6u8) | d3) as u8] } else { Seq::empty() })
}

/// Decodes one quartet of a strictly padded base64 text; padding is only
/// accepted in the final quartet (`last`), at most two `=`, and contiguous.
pub open spec fn decode_quartet(c0: u8, c1: u8, c2: u8, c3: u8, last: bool) -> Option<Seq<u8>> {
    let pad = trailing_pad(c0, c1, c2, c3);
    if pad > 2 {
        None
    } else if pad > 0 && !last {
        None
    } else if sextet_value(c0) is None || sextet_value(c1) is None {
        None
    } else if c2 != pad_byte() && sextet_value(c2) is None {
        None
    } else if c3 != pad_byte() && sextet_value(c3) is None {
        None
    } else if c2 == pad_byte() && c3 != pad_byte() {
        None
    } else {
        let d0 = sextet_value(c0).unwrap();
        let d1 = sextet_value(c1).unwrap();
        let d2 = if c2 == pad_byte() { 0u8 } else { sextet_value(c2).unwrap() };
        let d3 = if c3 == pad_byte() { 0u8 } else { sextet_value(c3).unwrap() };
        Some(quartet_bytes(d0, d1, d2, d3, c2 != pad_byte(), c3 != pad_byte()))
    }
}

/// Decodes a sequence of whole quartets.
pub open spec fn decode_quartets(s: Seq<u8>) -> Option<Seq<u8>>
    decreases s.len(),
{
    if s.len() < 4 {
        if s.len() == 0 {
            Some(Seq::empty())
        } else {
            None
        }
    } else {
        match decode_quartet(s[0], s[1], s[2], s[3], s.len() == 4) {
            None => None,
            Some(g) => match decode_quartets(s.skip(4)) {
                None => None,
                Some(r) => Some(g + r),
            },
        }
    }
}

/// Strict standard base64 decoding: `None` exactly when the text is rejected.
pub open spec fn spec_decode_base64(s: Seq<u8>) -> Option<Seq<u8>> {
    if s.len() % 4 != 0 {
        None
    } else {
        decode_quartets(s)
    }
}

fn malformed(message: &str) -> (e: JsonError)
    ensures
        e matches JsonError::MalformedLegacyEnvelope(m) && m@ == message@,
{
    JsonError::MalformedLegacyEnvelope(message.to_owned())
}

/// Decodes one alphabet byte.
fn decode_base64_byte(byte: u8) -> (r: Result<u8, JsonError>)
    ensures
        match r {
            Ok(v) => sextet_value(byte) == Some(v),
            Err(e) => sextet_value(byte) is None && e is MalformedLegacyEnvelope,
        },
{
    if 65 <= byte && byte <= 90 {
        Ok(byte - 65)
    } else if 97 <= byte && byte <= 122 {
        Ok(byte - 97 + 26)
    } else if 48 <= byte && byte <= 57 {
        Ok(byte - 48 + 52)
    } else if byte == 43 {
        Ok(62)
    } else if byte == 47 {
        Ok(63)
    } else {
        Err(malformed("Base64 data contains a non-base64 character."))
    }
}

proof fn lemma_reject(s: Seq<u8>, rest: Seq<u8>, i: int)
    requires
        s.len() % 4 == 0,
        rest == s.skip(i),
        decode_quartets(rest) is None,
        decode_quartets(rest) is None ==> decode_quartets(s) is None,
    ensures
        spec_decode_base64(s) is None,
{
}

/// Decodes strictly padded standard base64.
pub fn decode_base64(encoded: &str) -> (r: Result<Vec<u8>, JsonError>)
    ensures
        match r {
            Ok(v) => spec_decode_base64(encoded.spec_bytes()) == Some(v@),
            Err(e) => spec_decode_base64(encoded.spec_bytes()) is None && e is MalformedLegacyEnvelope,
        },
{
    let bytes = encoded.as_bytes();
    let n = bytes.len();
    if n % 4 != 0 {
        return Err(malformed("Base64 data length must be a multiple of four."));
    }
    let ghost s = bytes@;
    let mut out: Vec<u8> = Vec::new();
    let mut i: usize = 0;
    assert(s.skip(0) =~= s);
    while i < n
        invariant
            i <= n,
            n == s.len(),
            s == bytes@,
            s == encoded.spec_bytes(),
            n % 4 == 0,
            i % 4 == 0,
            decode_quartets(s.skip(i as int)) matches Some(rest) ==> decode_quartets(s) == Some(out@ + rest),
            decode_quartets(s.skip(i as int)) is None ==> decode_quartets(s) is None,
        decreases n - i,
    {
        let c0 = bytes[i];
        let c1 = bytes[i + 1];
        let c2 = bytes[i + 2];
        let c3 = bytes[i + 3];
        let last = i + 4 == n;
        let ghost rest = s.skip(i as int);
        proof {
            assert(rest[0] == c0 && rest[1] == c1 && rest[2] == c2 && rest[3] == c3);
            assert(rest.skip(4) =~= s.skip(i + 4));
            assert(decode_quartets(rest) == (match decode_quartet(c0, c1, c2, c3, last) {
                None => None,
                Some(g) => match decode_quartets(s.skip(i + 4)) {
                    None => None,
                    Some(r) => Some(g + r),
                },
            }));
        }
        let pad: usize = if c3 != 61 {
            0
        } else if c2 != 61 {
            1
        } else if c1 != 61 {
            2
        } else if c0 != 61 {
            3
        } else {
            4
        };
        assert(pad == trailing_pad(c0, c1, c2, c3));
        if pad > 2 {
            proof {
                lemma_reject(s, rest, i as int);
            }
            return Err(malformed("Base64 data contains too much padding."));
        }
        if pad > 0 && !last {
            proof {
                lemma_reject(s, rest, i as int);
            }
            return Err(malformed("Base64 padding is only valid in the final quartet."));
        }
        let d0 = match decode_base64_byte(c0) {
            Ok(v) => v,
            Err(e) => {
                proof {
                    lemma_reject(s, rest, i as int);
                }
                return Err(e);
            },
        };
        let d1 = match decode_base64_byte(c1) {
            Ok(v) => v,
            Err(e) => {
                proof {
                    lemma_reject(s, rest, i as int);
                }
                return Err(e);
            },
        };
        let d2 = if c2 == 61 {
            0u8
        } else {
            match decode_base64_byte(c2) {
                Ok(v) => v,
                Err(e) => {
                proof {
                    lemma_reject(s, rest, i as int);
                }
                return Err(e);
            },
            }
        };
        let d3 = if c3 == 61 {
            0u8
        } else {
            match decode_base64_byte(c3) {
                Ok(v) => v,
                Err(e) => {
                proof {
                    lemma_reject(s, rest, i as int);
                }
                return Err(e);
            },
            }
        };
        if c2 == 61 && c3 != 61 {
            proof {
                lemma_reject(s, rest, i as int);
            }
            return Err(malformed("Base64 padding must be contiguous."));
        }
        let ghost before = out@;
        out.push((d0 << 2u8) | (d1 >> 4u8));
        if c2 != 61 {
            out.push(((d1 & 15u8) << 4u8) | (d2 >> 2u8));
        }
        if c3 != 61 {
            out.push(((d2 & 3u8) << 6u8) | d3);
        }
        proof {
            assert(out@ =~= before + quartet_bytes(d0, d1, d2, d3, c2 != 61, c3 != 61));
            assert(decode_quartet(c0, c1, c2, c3, rest.len() == 4) == Some(quartet_bytes(d0, d1, d2, d3, c2 != 61, c3 != 61)));
            match decode_quartets(s.skip(i + 4)) {
                Some(r) => {
                    assert(before + quartet_bytes(d0, d1, d2, d3, c2 != 61, c3 != 61) + r =~= before + (quartet_bytes(d0, d1, d2, d3, c2 != 61, c3 != 61) + r));
                }
                None => {}
            }
        }
        i = i + 4;
    }
    proof {
        assert(s.skip(n as int) =~= Seq::<u8>::empty());
        assert(out@ + Seq::<u8>::empty() =~= out@);
    }
    Ok(out)
}

// ---------------------------------------------------------------------------
// Laws
// ---------------------------------------------------------------------------

/// The encoding is always ASCII and four characters per started group of three bytes.
pub proof fn lemma_encode_shape(b: Seq<u8>)
    ensures
        spec_encode_base64(b).len() == 4 * ((b.len() + 2) / 3),
        vstd::utf8::is_ascii_chars(spec_encode_base64(b)),
    decreases b.len(),
{
    let b1: u8 = if b.len() > 1 { b[1] } else { 0u8 };
    let b2: u8 = if b.len() > 2 { b[2] } else { 0u8 };
    if b.len() > 0 {
        lemma_group_sextets(b[0], b1, b2);
        let s0 = b[0] >> 2u8;
        let s1 = ((b[0] & 3u8) << 4u8) | (b1 >> 4u8);
        let s2 = ((b1 & 15u8) << 2u8) | (b2 >> 6u8);
        let s3 = b2 & 63u8;
        lemma_sextet_roundtrip(s0);
        lemma_sextet_roundtrip(s1);
        lemma_sextet_roundtrip(s2);
        lemma_sextet_roundtrip(s3);
        if b.len() > 3 {
            lemma_encode_shape(b.skip(3));
            let g = encode_group(b[0], b1, b2, 3);
            let t = spec_encode_base64(b.skip(3));
            assert forall|k: int| 0 <= k < (g + t).len() implies '\0' <= #[trigger] (g + t)[k] <= '\u{7f}' by {
                if k >= 4 {
                    assert((g + t)[k] == t[k - 4]);
                }
            }
        }
    }
}

proof fn lemma_group_roundtrip(b0: u8, b1: u8, b2: u8, n: int)
    requires
        1 <= n <= 3,
        n < 2 ==> b1 == 0,
        n < 3 ==> b2 == 0,
    ensures
        ({
            let g = ascii_bytes(encode_group(b0, b1, b2, n));
            decode_quartet(g[0], g[1], g[2], g[3], true)
                == Some(if n == 1 { seq![b0] } else if n == 2 { seq![b0, b1] } else { seq![b0, b1, b2] })
        }),
        n == 3 ==> ({
            let g = ascii_bytes(encode_group(b0, b1, b2, n));
            decode_quartet(g[0], g[1], g[2], g[3], false) == Some(seq![b0, b1, b2])
        }),
{
    lemma_group_sextets(b0, b1, b2);
    let s0 = b0 >> 2u8;
    let s1 = ((b0 & 3u8) << 4u8) | (b1 >> 4u8);
    let s2 = ((b1 & 15u8) << 2u8) | (b2 >> 6u8);
    let s3 = b2 & 63u8;
    lemma_sextet_roundtrip(s0);
    lemma_sextet_roundtrip(s1);
    lemma_sextet_roundtrip(s2);
    lemma_sextet_roundtrip(s3);
    let g = ascii_bytes(encode_group(b0, b1, b2, n));
    assert(g[0] == sextet_byte(s0));
    assert(g[1] == sextet_byte(s1));
    assert(((s0 << 2u8) | (s1 >> 4u8)) == b0) by (bit_vector)
        requires
            s0 == b0 >> 2u8,
            s1 == ((b0 & 3u8) << 4u8) | (b1 >> 4u8),
    ;
    assert((((s1 & 15u8) << 4u8) | (s2 >> 2u8)) == b1) by (bit_vector)
        requires
            s1 == ((b0 & 3u8) << 4u8) | (b1 >> 4u8),
            s2 == ((b1 & 15u8) << 2u8) | (b2 >> 6u8),
    ;
    assert((((s2 & 3u8) << 6u8) | s3) == b2) by (bit_vector)
        requires
            s2 == ((b1 & 15u8) << 2u8) | (b2 >> 6u8),
            s3 == b2 & 63u8,
    ;
    if n == 1 {
        assert(g[2] == pad_byte() && g[3] == pad_byte());
        assert(quartet_bytes(s0, s1, 0u8, 0u8, false, false) =~= seq![b0]);
    } else if n == 2 {
        assert(g[2] == sextet_byte(s2) && g[3] == pad_byte());
        assert(quartet_bytes(s0, s1, s2, 0u8, true, false) =~= seq![b0, b1]);
    } else {
        assert(g[2] == sextet_byte(s2) && g[3] == sextet_byte(s3));
        assert(quartet_bytes(s0, s1, s2, s3, true, true) =~= seq![b0, b1, b2]);
    }
}

/// Decoding the encoding of any byte sequence gives back that sequence.
pub proof fn lemma_base64_roundtrip(b: Seq<u8>)
    ensures
        spec_decode_base64(ascii_bytes(spec_encode_base64(b))) == Some(b),
    decreases b.len(),
{
    lemma_encode_shape(b);
    lemma_decode_quartets_roundtrip(b);
    assert(ascii_bytes(spec_encode_base64(b)).len() % 4 == 0) by (nonlinear_arith)
        requires
            ascii_bytes(spec_encode_base64(b)).len() == 4 * ((b.len() + 2) / 3),
    ;
}

proof fn lemma_decode_last_group(b: Seq<u8>)
    requires
        1 <= b.len() <= 3,
    ensures
        decode_quartets(ascii_bytes(spec_encode_base64(b))) == Some(b),
{
    let b1: u8 = if b.len() > 1 { b[1] } else { 0u8 };
    let b2: u8 = if b.len() > 2 { b[2] } else { 0u8 };
    lemma_group_roundtrip(b[0], b1, b2, b.len() as int);
    let e = ascii_bytes(spec_encode_base64(b));
    assert(e.len() == 4);
    assert(e.skip(4) =~= Seq::<u8>::empty());
    let expected = if b.len() == 1 { seq![b[0]] } else if b.len() == 2 { seq![b[0], b1] } else { seq![b[0], b1, b2] };
    assert(expected =~= b);
    assert(expected + Seq::<u8>::empty() =~= expected);
    assert(decode_quartet(e[0], e[1], e[2], e[3], true) == Some(expected));
    assert(decode_quartets(e.skip(4)) == Some(Seq::<u8>::empty()));
    assert(decode_quartets(e) == Some(expected + Seq::<u8>::empty()));
}

proof fn lemma_ascii_bytes_concat(g: Seq<char>, t: Seq<char>)
    ensures
        ascii_bytes(g + t) =~= ascii_bytes(g) + ascii_bytes(t),
{
}

proof fn lemma_decode_quartets_roundtrip(b: Seq<u8>)
    ensures
        decode_quartets(ascii_bytes(spec_encode_base64(b))) == Some(b),
    decreases b.len(),
{
    if b.len() == 0 {
        assert(ascii_bytes(spec_encode_base64(b)) =~= Seq::<u8>::empty());
    } else if b.len() <= 3 {
        lemma_decode_last_group(b);
    } else {
        lemma_group_roundtrip(b[0], b[1], b[2], 3);
        lemma_decode_quartets_roundtrip(b.skip(3));
        lemma_encode_shape(b.skip(3));
        let g = encode_group(b[0], b[1], b[2], 3);
        let t = spec_encode_base64(b.skip(3));
        let e = ascii_bytes(spec_encode_base64(b));
        assert(spec_encode_base64(b) == g + t);
        lemma_ascii_bytes_concat(g, t);
        let ge = ascii_bytes(g);
        assert(e.skip(4) =~= ascii_bytes(t));
        assert(e.len() > 4);
        assert(e[0] == ge[0] && e[1] == ge[1] && e[2] == ge[2] && e[3] == ge[3]);
        assert(decode_quartet(ge[0], ge[1], ge[2], ge[3], false) == Some(seq![b[0], b[1], b[2]]));
        assert(seq![b[0], b[1], b[2]] + b.skip(3) =~= b);
    }
}

// ---------------------------------------------------------------------------
// Payloads
// ---------------------------------------------------------------------------

/// Builds an inline payload for the given policy: `None` by reference, otherwise
/// the base64 encoding of the bytes with its content type.
pub fn inline_payload(policy: InlineBinaryPolicy, content_type: &str, bytes: &[u8]) -> (r: Option<InlineBinaryPayload>)
    ensures
        policy == InlineBinaryPolicy::ByReference ==> r is None,
        policy == InlineBinaryPolicy::InlineBase64 ==> (r matches Some(p) && p.encoding@ == "base64"@
            && p.content_type@ == content_type@ && p.data@ == spec_encode_base64(bytes@)),
{
    match policy {
        InlineBinaryPolicy::ByReference => None,
        InlineBinaryPolicy::InlineBase64 => Some(
            InlineBinaryPayload {
                encoding: "base64".to_owned(),
                content_type: content_type.to_owned(),
                data: encode_base64(bytes),
            },
        ),
    }
}

} // verus!
