//! Page limits and opaque, scope-bound cursors for paged agent views.
use sha2::Digest;
use vstd::prelude::*;
use vstd::string::StringSliceAdditionalSpecFns;
use vstd::utf8::*;

use crate::binary_encoding::{
    ascii_bytes, encode_base64, lemma_encode_shape, pad_byte, quartet_bytes, sextet_value,
    spec_encode_base64,
};
use crate::schemas::JsonError;
use crate::text::{ascii_chars, bytes_of, owned, push_char, push_str, str_eq};

verus! {

/// Paging metadata attached to a view.
#[derive(Debug, Clone, PartialEq, Eq)]
pub struct ViewMeta {
    pub mode: String,
    pub limit: u32,
    pub next_cursor: Option<String>,
    pub truncated: bool,
}

/// The default page size of a view mode.
#[derive(Debug, Clone, PartialEq, Eq)]
pub struct DefaultLimit {
    pub mode: String,
    pub limit: u32,
}

/// The largest page any view may request.
pub const MAX_PAGE_LIMIT: u32 = 100;

/// What a cursor is bound to: a document revision, a view mode and an
/// optional collection inside that view.
#[derive(Debug, Clone, Copy, PartialEq, Eq)]
pub struct CursorScope<'a> {
    pub document_id: &'a str,
    pub revision: u32,
    pub mode: &'a str,
    pub collection: Option<&'a str>,
}

/// A decoded cursor: the next offset and the salt of the scope it was issued for.
#[derive(Debug, Clone, PartialEq, Eq)]
pub struct Cursor {
    pub offset: u32,
    pub salt: String,
}

// ---------------------------------------------------------------------------
// Limits
// ---------------------------------------------------------------------------

/// The table of default page sizes: each view mode and its page size.
pub open spec fn default_limit_table() -> Seq<(Seq<char>, u32)> {
    seq![
        ("deck_summary"@, 1u32),
        ("slide_page"@, 20u32),
        ("slide_detail"@, 50u32),
        ("element_detail"@, 1u32),
        ("media_metadata"@, 50u32),
        ("validation_report"@, 50u32),
        ("find_text"@, 50u32),
    ]
}

/// The limit of the first entry of a table for a mode, from entry `i` on.
pub open spec fn table_lookup(table: Seq<(Seq<char>, u32)>, mode: Seq<char>, i: int) -> Option<u32>
    decreases table.len() - i,
{
    if i < 0 || i >= table.len() {
        None
    } else if table[i].0 == mode {
        Some(table[i].1)
    } else {
        table_lookup(table, mode, i + 1)
    }
}

/// The default page size of each view mode.
pub open spec fn spec_default_limit(mode: Seq<char>) -> Option<u32> {
    if mode == "deck_summary"@ {
        Some(1u32)
    } else if mode == "slide_page"@ {
        Some(20u32)
    } else if mode == "slide_detail"@ {
        Some(50u32)
    } else if mode == "element_detail"@ {
        Some(1u32)
    } else if mode == "media_metadata"@ {
        Some(50u32)
    } else if mode == "validation_report"@ {
        Some(50u32)
    } else if mode == "find_text"@ {
        Some(50u32)
    } else {
        None
    }
}

/// The table of default page sizes.
pub fn default_limits() -> (table: Vec<DefaultLimit>)
    ensures
        table@.len() == 7,
        table@[0].mode@ == "deck_summary"@ && table@[0].limit == 1,
        table@[1].mode@ == "slide_page"@ && table@[1].limit == 20,
        table@[2].mode@ == "slide_detail"@ && table@[2].limit == 50,
        table@[3].mode@ == "element_detail"@ && table@[3].limit == 1,
        table@[4].mode@ == "media_metadata"@ && table@[4].limit == 50,
        table@[5].mode@ == "validation_report"@ && table@[5].limit == 50,
        table@[6].mode@ == "find_text"@ && table@[6].limit == 50,
        table@.len() == default_limit_table().len(),
        forall|i: int| 0 <= i < table@.len() ==> (#[trigger] table@[i]).mode@ == default_limit_table()[i].0
            && table@[i].limit == default_limit_table()[i].1,
{
    vec![
        DefaultLimit { mode: owned("deck_summary"), limit: 1 },
        DefaultLimit { mode: owned("slide_page"), limit: 20 },
        DefaultLimit { mode: owned("slide_detail"), limit: 50 },
        DefaultLimit { mode: owned("element_detail"), limit: 1 },
        DefaultLimit { mode: owned("media_metadata"), limit: 50 },
        DefaultLimit { mode: owned("validation_report"), limit: 50 },
        DefaultLimit { mode: owned("find_text"), limit: 50 },
    ]
}

/// The default page size of a view mode, if it has one.
pub fn default_limit(mode: &str) -> (r: Option<u32>)
    ensures
        r == spec_default_limit(mode@),
{
    if str_eq(mode, "deck_summary") {
        Some(1)
    } else if str_eq(mode, "slide_page") {
        Some(20)
    } else if str_eq(mode, "slide_detail") {
        Some(50)
    } else if str_eq(mode, "element_detail") {
        Some(1)
    } else if str_eq(mode, "media_metadata") {
        Some(50)
    } else if str_eq(mode, "validation_report") {
        Some(50)
    } else if str_eq(mode, "find_text") {
        Some(50)
    } else {
        None
    }
}

/// The page size a request gets: the requested one, else the mode default,
/// else the maximum; `None` when it is outside `1..=MAX_PAGE_LIMIT`.
pub open spec fn spec_bounded_limit(mode: Seq<char>, requested: Option<u32>) -> Option<u32> {
    let limit = match requested {
        Some(l) => l,
        None => match spec_default_limit(mode) {
            Some(d) => d,
            None => MAX_PAGE_LIMIT,
        },
    };
    if limit == 0 || limit > MAX_PAGE_LIMIT {
        None
    } else {
        Some(limit)
    }
}

/// Resolves the page size of a request, rejecting limits outside `1..=MAX_PAGE_LIMIT`.
pub fn bounded_limit(mode: &str, requested: Option<u32>) -> (r: Result<u32, JsonError>)
    ensures
        match r {
            Ok(l) => spec_bounded_limit(mode@, requested) == Some(l),
            Err(e) => spec_bounded_limit(mode@, requested) is None && e is ResourceLimitExceeded,
        },
{
    let limit = match requested {
        Some(l) => l,
        None => match default_limit(mode) {
            Some(d) => d,
            None => MAX_PAGE_LIMIT,
        },
    };
    if limit == 0 || limit > MAX_PAGE_LIMIT {
        let mut message = owned(mode);
        push_str(&mut message, " limit must be between 1 and 100.");
        return Err(JsonError::ResourceLimitExceeded(message));
    }
    Ok(limit)
}

// ---------------------------------------------------------------------------
// Scope salt
// ---------------------------------------------------------------------------

/// The SHA-256 digest of a byte sequence.
pub uninterp spec fn sha256(data: Seq<u8>) -> Seq<u8>;

/// Trusted: calls `sha2::Sha256::digest` (from the `Digest` trait), which
/// returns the 32-byte SHA-256 digest of its input; the digest is named, not described.
#[verifier::external_body]
fn sha256_digest(data: &[u8]) -> (r: Vec<u8>)
    ensures
        r@ == sha256(data@),
        r@.len() == 32,
{
    sha2::Sha256::digest(data).to_vec()
}

/// Big-endian bytes of a 32-bit integer.
pub open spec fn be32(x: u32) -> Seq<u8> {
    seq![(x >> 24u32) as u8, (x >> 16u32) as u8, (x >> 8u32) as u8, x as u8]
}

/// The bytes hashed for a scope: document id, revision, mode and collection,
/// separated by zero bytes.
pub open spec fn salt_preimage(scope: CursorScope) -> Seq<u8> {
    scope.document_id.spec_bytes() + seq![0u8] + be32(scope.revision) + seq![0u8]
        + scope.mode.spec_bytes() + seq![0u8] + match scope.collection {
        Some(c) => c.spec_bytes(),
        None => Seq::empty(),
    }
}

/// Lower-case hex digit of a nibble.
pub open spec fn hex_nibble(n: u8) -> u8 {
    if n < 10 {
        (48 + n) as u8
    } else {
        (97 + (n - 10)) as u8
    }
}

/// Lower-case hex encoding of bytes.
pub open spec fn hex_lower(d: Seq<u8>) -> Seq<u8>
    decreases d.len(),
{
    if d.len() == 0 {
        Seq::empty()
    } else {
        hex_lower(d.drop_last()) + seq![hex_nibble(d.last() >> 4u8), hex_nibble(d.last() & 15u8)]
    }
}

/// The salt bytes of a scope: the hex SHA-256 of its preimage.
pub open spec fn scope_salt(scope: CursorScope) -> Seq<u8> {
    hex_lower(sha256(salt_preimage(scope)))
}

/// The salt of a scope given by the texts it names: the same as
/// `scope_salt` of a scope with those texts.
pub open spec fn view_salt(document_id: Seq<char>, revision: u32, mode: Seq<char>, collection: Option<Seq<char>>) -> Seq<u8> {
    hex_lower(sha256(encode_utf8(document_id) + seq![0u8] + be32(revision) + seq![0u8] + encode_utf8(mode) + seq![0u8]
        + match collection {
        Some(c) => encode_utf8(c),
        None => Seq::empty(),
    }))
}

proof fn lemma_hex_lower_shape(d: Seq<u8>)
    ensures
        hex_lower(d).len() == 2 * d.len(),
        forall|k: int| 0 <= k < hex_lower(d).len() ==> hex_lower(d)[k] < 128,
    decreases d.len(),
{
    if d.len() > 0 {
        lemma_hex_lower_shape(d.drop_last());
        let x = d.last();
        assert(x >> 4u8 < 16) by (bit_vector);
        assert(x & 15u8 < 16) by (bit_vector);
    }
}

fn hex_digit(nibble: u8) -> (c: u8)
    requires
        nibble < 16,
    ensures
        c == hex_nibble(nibble),
{
    if nibble < 10 {
        48 + nibble
    } else {
        97 + (nibble - 10)
    }
}

fn push_bytes(out: &mut Vec<u8>, b: &[u8])
    ensures
        final(out)@ == old(out)@ + b@,
{
    let n = b.len();
    let mut i: usize = 0;
    while i < n
        invariant
            i <= n,
            n == b@.len(),
            out@ == old(out)@ + b@.take(i as int),
        decreases n - i,
    {
        out.push(b[i]);
        i = i + 1;
        assert(b@.take(i as int) =~= b@.take(i - 1).push(b@[i - 1]));
    }
    assert(b@.take(n as int) =~= b@);
}

fn salt_bytes(scope: CursorScope<'_>) -> (r: Vec<u8>)
    ensures
        r@ == scope_salt(scope),
{
    let mut pre: Vec<u8> = Vec::new();
    push_bytes(&mut pre, scope.document_id.as_bytes());
    pre.push(0);
    let rev = scope.revision;
    pre.push((rev >> 24u32) as u8);
    pre.push((rev >> 16u32) as u8);
    pre.push((rev >> 8u32) as u8);
    pre.push(rev as u8);
    pre.push(0);
    push_bytes(&mut pre, scope.mode.as_bytes());
    pre.push(0);
    match scope.collection {
        Some(c) => push_bytes(&mut pre, c.as_bytes()),
        None => {},
    }
    assert(pre@ =~= salt_preimage(scope));
    let digest = sha256_digest(pre.as_slice());
    let mut out: Vec<u8> = Vec::new();
    let mut i: usize = 0;
    while i < digest.len()
        invariant
            i <= digest@.len(),
            out@ == hex_lower(digest@.take(i as int)),
        decreases digest@.len() - i,
    {
        let byte = digest[i];
        assert(byte >> 4u8 < 16) by (bit_vector);
        assert(byte & 15u8 < 16) by (bit_vector);
        out.push(hex_digit(byte >> 4u8));
        out.push(hex_digit(byte & 15u8));
        i = i + 1;
        assert(digest@.take(i as int).drop_last() =~= digest@.take(i - 1));
        assert(out@ =~= hex_lower(digest@.take(i as int)));
    }
    assert(digest@.take(digest@.len() as int) =~= digest@);
    out
}

/// The salt string that binds cursors to a scope.
fn cursor_salt(scope: CursorScope<'_>) -> (r: String)
    ensures
        r@ == ascii_chars(scope_salt(scope)),
{
    let b = salt_bytes(scope);
    proof {
        lemma_hex_lower_shape(sha256(salt_preimage(scope)));
    }
    crate::text::ascii_string(b.as_slice())
}

// ---------------------------------------------------------------------------
// Cursor text
// ---------------------------------------------------------------------------

/// `{"offset":`
pub open spec fn offset_key() -> Seq<u8> {
    seq![123u8, 34, 111, 102, 102, 115, 101, 116, 34, 58]
}

/// `,"salt":"`
pub open spec fn salt_key() -> Seq<u8> {
    seq![44u8, 34, 115, 97, 108, 116, 34, 58, 34]
}

/// `"}`
pub open spec fn json_close() -> Seq<u8> {
    seq![34u8, 125]
}

/// Shortest decimal digits of a natural number.
pub open spec fn decimal(n: nat) -> Seq<u8>
    decreases n,
{
    if n < 10 {
        seq![(48 + n) as u8]
    } else {
        decimal(n / 10) + seq![(48 + n % 10) as u8]
    }
}

/// The value of a string of decimal digits.
pub open spec fn decimal_value(d: Seq<u8>) -> nat
    decreases d.len(),
{
    if d.len() == 0 {
        0
    } else {
        decimal_value(d.drop_last()) * 10 + (d.last() - 48) as nat
    }
}

/// A non-empty digit string without a superfluous leading zero.
pub open spec fn canonical_decimal(d: Seq<u8>) -> bool {
    &&& d.len() >= 1
    &&& forall|k: int| 0 <= k < d.len() ==> 48 <= #[trigger] d[k] <= 57
    &&& (d.len() == 1 || d[0] != 48)
}

/// The JSON text of a cursor: `{"offset":N,"salt":"S"}`.
pub open spec fn cursor_json(offset: u32, salt: Seq<u8>) -> Seq<u8> {
    offset_key() + decimal(offset as nat) + salt_key() + salt + json_close()
}

/// The offset of a cursor JSON text issued for `salt`, or `None` when the text
/// is not such a cursor.
pub open spec fn parse_cursor_json(b: Seq<u8>, salt: Seq<u8>) -> Option<u32> {
    let tail = salt_key() + salt + json_close();
    if b.len() < offset_key().len() + tail.len() {
        None
    } else {
        let digits = b.subrange(offset_key().len() as int, b.len() - tail.len());
        if b.take(offset_key().len() as int) == offset_key() && b.skip(b.len() - tail.len()) == tail
            && canonical_decimal(digits) && decimal_value(digits) <= u32::MAX {
            Some(decimal_value(digits) as u32)
        } else {
            None
        }
    }
}

/// Base64 quartet decoding for cursors: padding may appear in any quartet,
/// but a padded third position requires a padded fourth.
pub open spec fn decode_quartet_lax(c0: u8, c1: u8, c2: u8, c3: u8) -> Option<Seq<u8>> {
    if sextet_value(c0) is None || sextet_value(c1) is None {
        None
    } else if c2 != pad_byte() && sextet_value(c2) is None {
        None
    } else if c3 != pad_byte() && sextet_value(c3) is None {
        None
    } else if c2 == pad_byte() && c3 != pad_byte() {
        None
    } else {
        let d0 = sextet_value(c0).unwrap();
        let d1 = sextet_value(c1).unwrap();
        let d2 = if c2 == pad_byte() { 0u8 } else { sextet_value(c2).unwrap() };
        let d3 = if c3 == pad_byte() { 0u8 } else { sextet_value(c3).unwrap() };
        Some(quartet_bytes(d0, d1, d2, d3, c2 != pad_byte(), c3 != pad_byte()))
    }
}

pub open spec fn decode_quartets_lax(s: Seq<u8>) -> Option<Seq<u8>>
    decreases s.len(),
{
    if s.len() < 4 {
        if s.len() == 0 {
            Some(Seq::empty())
        } else {
            None
        }
    } else {
        match decode_quartet_lax(s[0], s[1], s[2], s[3]) {
            None => None,
            Some(g) => match decode_quartets_lax(s.skip(4)) {
                None => None,
                Some(r) => Some(g + r),
            },
        }
    }
}

/// Why one quartet of a cursor token is not base64, if it is not: a byte
/// outside the alphabet (padding allowed in the last two places), then a
/// padded third place before an unpadded fourth.
pub open spec fn quartet_fault(c0: u8, c1: u8, c2: u8, c3: u8) -> Option<Seq<char>> {
    if sextet_value(c0) is None || sextet_value(c1) is None || (c2 != pad_byte() && sextet_value(c2) is None)
        || (c3 != pad_byte() && sextet_value(c3) is None) {
        Some("Cursor contains invalid base64 characters."@)
    } else if c2 == pad_byte() && c3 != pad_byte() {
        Some("Cursor has invalid base64 padding."@)
    } else {
        None
    }
}

/// The fault of the first faulty quartet of a token, if any.
pub open spec fn quartets_fault(s: Seq<u8>) -> Option<Seq<char>>
    decreases s.len(),
{
    if s.len() < 4 {
        None
    } else {
        match quartet_fault(s[0], s[1], s[2], s[3]) {
            Some(m) => Some(m),
            None => quartets_fault(s.skip(4)),
        }
    }
}

/// Why a cursor token is not base64, if it is not: empty or not whole
/// quartets, else the first faulty quartet.
pub open spec fn base64_fault(s: Seq<u8>) -> Option<Seq<char>> {
    if s.len() == 0 || s.len() % 4 != 0 {
        Some("Cursor is not valid base64."@)
    } else {
        quartets_fault(s)
    }
}

/// The message of the error a rejected cursor token gets: its base64 fault,
/// or, when it decodes, that it was not issued for the scope.
pub open spec fn cursor_error(token: Seq<u8>) -> Seq<char> {
    match base64_fault(token) {
        Some(m) => m,
        None => "Cursor does not match the requested document, revision, or view mode."@,
    }
}

/// Base64 decoding of a cursor token; empty tokens are rejected.
pub open spec fn spec_decode_cursor_base64(s: Seq<u8>) -> Option<Seq<u8>> {
    if s.len() == 0 || s.len() % 4 != 0 {
        None
    } else {
        decode_quartets_lax(s)
    }
}

/// The offset a cursor token carries for a scope salt, or `None` when the token
/// is rejected (not base64, not a cursor, or issued for another scope).
pub open spec fn spec_cursor_offset(token: Seq<u8>, salt: Seq<u8>) -> Option<u32> {
    match spec_decode_cursor_base64(token) {
        None => None,
        Some(b) => parse_cursor_json(b, salt),
    }
}

/// The characters of the cursor token issued for `offset` under `salt`.
pub open spec fn cursor_token(offset: u32, salt: Seq<u8>) -> Seq<char> {
    spec_encode_base64(cursor_json(offset, salt))
}

fn push_decimal(out: &mut Vec<u8>, n: u32)
    ensures
        final(out)@ == old(out)@ + decimal(n as nat),
    decreases n,
{
    if n >= 10 {
        push_decimal(out, n / 10);
    }
    out.push(48u8 + (n % 10) as u8);
    proof {
        if n >= 10 {
            assert(decimal(n as nat) == decimal((n / 10) as nat) + seq![(48 + n % 10) as u8]);
        }
    }
}

fn cursor_json_bytes(offset: u32, salt: &[u8]) -> (r: Vec<u8>)
    ensures
        r@ == cursor_json(offset, salt@),
{
    let mut out: Vec<u8> = Vec::new();
    let open: [u8; 10] = [123u8, 34, 111, 102, 102, 115, 101, 116, 34, 58];
    let key: [u8; 9] = [44u8, 34, 115, 97, 108, 116, 34, 58, 34];
    let close: [u8; 2] = [34u8, 125];
    assert(open@ =~= offset_key());
    assert(key@ =~= salt_key());
    assert(close@ =~= json_close());
    push_bytes(&mut out, open.as_slice());
    push_decimal(&mut out, offset);
    push_bytes(&mut out, key.as_slice());
    push_bytes(&mut out, salt);
    push_bytes(&mut out, close.as_slice());
    out
}

fn invalid_cursor(message: &str) -> (e: JsonError)
    ensures
        e matches JsonError::InvalidCursor(m) && m@ == message@,
{
    JsonError::InvalidCursor(owned(message))
}

fn decode_cursor_byte(byte: u8) -> (r: Result<u8, JsonError>)
    ensures
        match r {
            Ok(v) => sextet_value(byte) == Some(v),
            Err(e) => sextet_value(byte) is None
                && (e matches JsonError::InvalidCursor(m) && m@ == "Cursor contains invalid base64 characters."@),
        },
{
    if 65 <= byte && byte <= 90 {
        Ok(byte - 65)
    } else if 97 <= byte && byte <= 122 {
        Ok(byte - 97 + 26)
    } else if 48 <= byte && byte <= 57 {
        Ok(byte - 48 + 52)
    } else if byte == 43 {
        Ok(62)
    } else if byte == 47 {
        Ok(63)
    } else {
        Err(invalid_cursor("Cursor contains invalid base64 characters."))
    }
}

proof fn lemma_lax_reject(s: Seq<u8>, rest: Seq<u8>, i: int)
    requires
        s.len() % 4 == 0,
        s.len() > 0,
        rest == s.skip(i),
        decode_quartets_lax(rest) is None,
        decode_quartets_lax(rest) is None ==> decode_quartets_lax(s) is None,
    ensures
        spec_decode_cursor_base64(s) is None,
{
}

fn decode_cursor_base64(encoded: &str) -> (r: Result<Vec<u8>, JsonError>)
    ensures
        match r {
            Ok(v) => spec_decode_cursor_base64(encoded.spec_bytes()) == Some(v@)
                && base64_fault(encoded.spec_bytes()) is None,
            Err(e) => spec_decode_cursor_base64(encoded.spec_bytes()) is None
                && (base64_fault(encoded.spec_bytes()) matches Some(msg)
                && (e matches JsonError::InvalidCursor(m) && m@ == msg)),
        },
{
    let bytes = encoded.as_bytes();
    let n = bytes.len();
    if n == 0 || n % 4 != 0 {
        return Err(invalid_cursor("Cursor is not valid base64."));
    }
    let ghost s = bytes@;
    let mut out: Vec<u8> = Vec::new();
    let mut i: usize = 0;
    assert(s.skip(0) =~= s);
    while i < n
        invariant
            i <= n,
            n == s.len(),
            n > 0,
            s == bytes@,
            s == encoded.spec_bytes(),
            n % 4 == 0,
            i % 4 == 0,
            decode_quartets_lax(s.skip(i as int)) matches Some(rest) ==> decode_quartets_lax(s) == Some(out@ + rest),
            decode_quartets_lax(s.skip(i as int)) is None ==> decode_quartets_lax(s) is None,
            quartets_fault(s.skip(i as int)) == quartets_fault(s),
        decreases n - i,
    {
        let c0 = bytes[i];
        let c1 = bytes[i + 1];
        let c2 = bytes[i + 2];
        let c3 = bytes[i + 3];
        let ghost rest = s.skip(i as int);
        proof {
            assert(rest[0] == c0 && rest[1] == c1 && rest[2] == c2 && rest[3] == c3);
            assert(rest.skip(4) =~= s.skip(i + 4));
            assert(quartets_fault(rest) == (match quartet_fault(c0, c1, c2, c3) {
                Some(m) => Some(m),
                None => quartets_fault(s.skip(i + 4)),
            }));
            assert(decode_quartets_lax(rest) == (match decode_quartet_lax(c0, c1, c2, c3) {
                None => None,
                Some(g) => match decode_quartets_lax(s.skip(i + 4)) {
                    None => None,
                    Some(r) => Some(g + r),
                },
            }));
        }
        let d0 = match decode_cursor_byte(c0) {
            Ok(v) => v,
            Err(e) => {
                proof {
                    lemma_lax_reject(s, rest, i as int);
                }
                return Err(e);
            },
        };
        let d1 = match decode_cursor_byte(c1) {
            Ok(v) => v,
            Err(e) => {
                proof {
                    lemma_lax_reject(s, rest, i as int);
                }
                return Err(e);
            },
        };
        let d2 = if c2 == 61 {
            0u8
        } else {
            match decode_cursor_byte(c2) {
                Ok(v) => v,
                Err(e) => {
                    proof {
                        lemma_lax_reject(s, rest, i as int);
                    }
                    return Err(e);
                },
            }
        };
        let d3 = if c3 == 61 {
            0u8
        } else {
            match decode_cursor_byte(c3) {
                Ok(v) => v,
                Err(e) => {
                    proof {
                        lemma_lax_reject(s, rest, i as int);
                    }
                    return Err(e);
                },
            }
        };
        if c2 == 61 && c3 != 61 {
            proof {
                lemma_lax_reject(s, rest, i as int);
            }
            return Err(invalid_cursor("Cursor has invalid base64 padding."));
        }
        let ghost before = out@;
        out.push((d0 << 2u8) | (d1 >> 4u8));
        if c2 != 61 {
            out.push(((d1 & 15u8) << 4u8) | (d2 >> 2u8));
            if c3 != 61 {
                out.push(((d2 & 3u8) << 6u8) | d3);
            }
        }
        proof {
            assert(out@ =~= before + quartet_bytes(d0, d1, d2, d3, c2 != 61, c3 != 61));
            assert(decode_quartet_lax(c0, c1, c2, c3) == Some(quartet_bytes(d0, d1, d2, d3, c2 != 61, c3 != 61)));
            match decode_quartets_lax(s.skip(i + 4)) {
                Some(r) => {
                    assert(before + quartet_bytes(d0, d1, d2, d3, c2 != 61, c3 != 61) + r =~= before + (quartet_bytes(d0, d1, d2, d3, c2 != 61, c3 != 61) + r));
                }
                None => {}
            }
        }
        i = i + 4;
    }
    proof {
        assert(s.skip(n as int) =~= Seq::<u8>::empty());
        assert(out@ + Seq::<u8>::empty() =~= out@);
    }
    Ok(out)
}

fn parse_cursor_bytes(b: &[u8], salt: &[u8]) -> (r: Option<u32>)
    ensures
        r == parse_cursor_json(b@, salt@),
{
    let ghost tail = salt_key() + salt@ + json_close();
    if salt.len() > usize::MAX - 21 {
        assert(b@.len() == b.len());
        return None;
    }
    let tail_len: usize = salt.len() + 11;
    if b.len() < 10 + tail_len {
        return None;
    }
    let n = b.len();
    let open: [u8; 10] = [123u8, 34, 111, 102, 102, 115, 101, 116, 34, 58];
    assert(open@ =~= offset_key());
    let mut i: usize = 0;
    while i < 10
        invariant
            i <= 10,
            n == b@.len(),
            n >= 10,
            forall|k: int| 0 <= k < i ==> b@[k] == offset_key()[k],
            open@ == offset_key(),
        decreases 10 - i,
    {
        if b[i] != open[i] {
            assert(b@.take(10)[i as int] != offset_key()[i as int]);
            return None;
        }
        i = i + 1;
    }
    assert(b@.take(10) =~= offset_key());
    let mut tail_bytes: Vec<u8> = Vec::new();
    let key: [u8; 9] = [44u8, 34, 115, 97, 108, 116, 34, 58, 34];
    let close: [u8; 2] = [34u8, 125];
    assert(key@ =~= salt_key());
    assert(close@ =~= json_close());
    push_bytes(&mut tail_bytes, key.as_slice());
    push_bytes(&mut tail_bytes, salt);
    push_bytes(&mut tail_bytes, close.as_slice());
    assert(tail_bytes@ =~= tail);
    let start = n - tail_len;
    let mut j: usize = 0;
    while j < tail_len
        invariant
            j <= tail_len,
            tail_len == tail_bytes@.len(),
            n == b@.len(),
            start == n - tail_len,
            forall|k: int| 0 <= k < j ==> b@[start + k] == tail_bytes@[k],
            tail_bytes@ == tail,
            tail == salt_key() + salt@ + json_close(),
            n >= 10 + tail_len,
        decreases tail_len - j,
    {
        if b[start + j] != tail_bytes[j] {
            assert(b@.skip(start as int)[j as int] != tail_bytes@[j as int]);
            return None;
        }
        j = j + 1;
    }
    assert(b@.skip(start as int) =~= tail);
    let ghost digits = b@.subrange(10, start as int);
    if start <= 10 {
        return None;
    }
    if start - 10 > 1 && b[10] == 48 {
        return None;
    }
    let mut value: u64 = 0;
    let mut p: usize = 10;
    while p < start
        invariant
            10 <= p <= start,
            start <= n,
            n == b@.len(),
            digits == b@.subrange(10, start as int),
            value == decimal_value(digits.take(p - 10)),
            value <= u32::MAX,
            forall|k: int| 0 <= k < p - 10 ==> 48 <= #[trigger] digits[k] <= 57,
            b@.take(10) == offset_key(),
            b@.skip(start as int) == tail,
            tail == salt_key() + salt@ + json_close(),
            start == n - tail.len(),
            start > 10,
            n >= 10 + tail.len(),
            digits.len() > 1 ==> digits[0] != 48,
        decreases start - p,
    {
        let c = b[p];
        if c < 48 || c > 57 {
            assert(digits[p - 10] == c);
            return None;
        }
        let next = value * 10 + (c - 48) as u64;
        proof {
            assert(digits.take(p - 10 + 1).drop_last() =~= digits.take(p - 10));
            assert(digits.take(p - 10 + 1).last() == c);
        }
        if next > 4294967295u64 {
            proof {
                if forall|k: int| 0 <= k < digits.len() ==> 48 <= #[trigger] digits[k] <= 57 {
                    lemma_decimal_value_prefix_bound(digits, p - 10 + 1);
                } else {
                    assert(!canonical_decimal(digits));
                }
            }
            return None;
        }
        value = next;
        p = p + 1;
    }
    assert(digits.take(digits.len() as int) =~= digits);
    Some(value as u32)
}

proof fn lemma_decimal_value_prefix_bound(d: Seq<u8>, i: int)
    requires
        0 <= i <= d.len(),
        forall|k: int| 0 <= k < d.len() ==> 48 <= #[trigger] d[k] <= 57,
    ensures
        decimal_value(d) >= decimal_value(d.take(i)),
    decreases d.len() - i,
{
    if i < d.len() {
        lemma_decimal_value_prefix_bound(d, i + 1);
        assert(d.take(i + 1).drop_last() =~= d.take(i));
        assert(decimal_value(d.take(i + 1)) >= decimal_value(d.take(i))) by (nonlinear_arith)
            requires
                decimal_value(d.take(i + 1)) == decimal_value(d.take(i)) * 10 + (d.take(i + 1).last() - 48) as nat,
        ;
    } else {
        assert(d.take(i) =~= d);
    }
}

impl Cursor {
    /// Issues the cursor token for an offset in a scope.
    pub fn encode(offset: u32, scope: CursorScope<'_>) -> (r: Result<String, JsonError>)
        ensures
            r matches Ok(t) && t@ == cursor_token(offset, scope_salt(scope)),
    {
        let salt = salt_bytes(scope);
        let json = cursor_json_bytes(offset, salt.as_slice());
        Ok(encode_base64(json.as_slice()))
    }

    /// Decodes a cursor token, accepting it only when it was issued for `scope`.
    pub fn decode(encoded: &str, scope: CursorScope<'_>) -> (r: Result<Cursor, JsonError>)
        ensures
            match r {
                Ok(c) => spec_cursor_offset(encoded.spec_bytes(), scope_salt(scope)) == Some(c.offset)
                    && c.salt@ == ascii_chars(scope_salt(scope)),
                Err(e) => spec_cursor_offset(encoded.spec_bytes(), scope_salt(scope)) is None
                    && (e matches JsonError::InvalidCursor(m) && m@ == cursor_error(encoded.spec_bytes())),
            },
    {
        let bytes = match decode_cursor_base64(encoded) {
            Ok(b) => b,
            Err(e) => return Err(e),
        };
        let salt = salt_bytes(scope);
        match parse_cursor_bytes(bytes.as_slice(), salt.as_slice()) {
            Some(offset) => Ok(Cursor { offset, salt: cursor_salt(scope) }),
            None => Err(invalid_cursor("Cursor does not match the requested document, revision, or view mode.")),
        }
    }
}

/// The start offset a request resumes from: zero without a cursor.
pub open spec fn spec_start_offset(cursor: Option<Seq<u8>>, salt: Seq<u8>) -> Option<u32> {
    match cursor {
        None => Some(0u32),
        Some(t) => spec_cursor_offset(t, salt),
    }
}

/// The bytes of an optional cursor token.
pub open spec fn token_bytes(cursor: Option<&str>) -> Option<Seq<u8>> {
    match cursor {
        None => None,
        Some(t) => Some(t.spec_bytes()),
    }
}

/// The offset a request resumes from.
pub fn cursor_offset(cursor: Option<&str>, scope: CursorScope<'_>) -> (r: Result<u32, JsonError>)
    ensures
        match r {
            Ok(o) => spec_start_offset(token_bytes(cursor), scope_salt(scope)) == Some(o),
            Err(e) => spec_start_offset(token_bytes(cursor), scope_salt(scope)) is None
                && (cursor matches Some(t) && (e matches JsonError::InvalidCursor(m) && m@ == cursor_error(t.spec_bytes()))),
        },
{
    match cursor {
        Some(encoded) => match Cursor::decode(encoded, scope) {
            Ok(c) => Ok(c.offset),
            Err(e) => Err(e),
        },
        None => Ok(0),
    }
}

// ---------------------------------------------------------------------------
// Paging
// ---------------------------------------------------------------------------

/// End of the page that starts at `start`.
pub open spec fn page_end(start: int, limit: int, len: int) -> int {
    if start + limit < len {
        start + limit
    } else {
        len
    }
}

/// Whether a page request succeeds: the start lies in the collection, a next
/// cursor (when needed) can carry the end offset, and the omitted count fits.
pub open spec fn page_ok(start: int, limit: int, len: int) -> bool {
    let end = page_end(start, limit, len);
    &&& start <= len
    &&& (end < len ==> end <= u32::MAX)
    &&& len - end <= u32::MAX
}

/// Cuts one page out of a collection.
pub fn paginate<'a, T>(
    items: &'a [T],
    limit: u32,
    cursor: Option<&str>,
    scope: CursorScope<'_>,
) -> (r: Result<(Vec<&'a T>, ViewMeta, u32), JsonError>)
    ensures
        match spec_start_offset(token_bytes(cursor), scope_salt(scope)) {
            None => r matches Err(e) && e is InvalidCursor,
            Some(start) => {
                let len = items@.len() as int;
                let end = page_end(start as int, limit as int, len);
                if !page_ok(start as int, limit as int, len) {
                    r matches Err(e) && e is InvalidCursor
                } else {
                    r matches Ok((page, meta, omitted)) && {
                        &&& page@.len() == end - start
                        &&& forall|k: int| 0 <= k < page@.len() ==> *page@[k] == items@[start + k]
                        &&& meta.mode@ == scope.mode@
                        &&& meta.limit == limit
                        &&& meta.truncated == (end < len)
                        &&& (meta.next_cursor matches Some(c) <==> end < len)
                        &&& (meta.next_cursor matches Some(c) ==> c@ == cursor_token(end as u32, scope_salt(scope)))
                        &&& omitted == len - end
                    }
                }
            },
        },
{
    let start = match cursor_offset(cursor, scope) {
        Ok(s) => s,
        Err(e) => return Err(e),
    };
    let start = start as usize;
    let len = items.len();
    if start > len {
        return Err(invalid_cursor("Cursor offset is outside the requested collection."));
    }
    let limit_usize = limit as usize;
    let end = if limit_usize <= len - start { start + limit_usize } else { len };
    let mut page: Vec<&'a T> = Vec::new();
    let mut k: usize = start;
    while k < end
        invariant
            start <= k <= end,
            end <= len,
            len == items@.len(),
            page@.len() == k - start,
            forall|j: int| 0 <= j < page@.len() ==> *page@[j] == items@[start + j],
        decreases end - k,
    {
        page.push(&items[k]);
        k = k + 1;
    }
    let remaining = len - end;
    let truncated = remaining > 0;
    let next_cursor = if truncated {
        if end > 4294967295usize {
            return Err(invalid_cursor("Cursor offset does not fit the cursor range."));
        }
        match Cursor::encode(end as u32, scope) {
            Ok(c) => Some(c),
            Err(e) => return Err(e),
        }
    } else {
        None
    };
    if remaining > 4294967295usize {
        return Err(invalid_cursor("Omitted item count does not fit the report range."));
    }
    let meta = ViewMeta { mode: owned(scope.mode), limit, next_cursor, truncated };
    Ok((page, meta, remaining as u32))
}

// ---------------------------------------------------------------------------
// Laws
// ---------------------------------------------------------------------------

proof fn lemma_decimal(n: nat)
    ensures
        canonical_decimal(decimal(n)),
        decimal_value(decimal(n)) == n,
        decimal(n)[0] != 48 || n == 0,
    decreases n,
{
    if n < 10 {
        let d = decimal(n);
        assert(d.drop_last() =~= Seq::<u8>::empty());
        assert(decimal_value(d) == decimal_value(d.drop_last()) * 10 + (d.last() - 48) as nat);
    } else {
        lemma_decimal(n / 10);
        let d = decimal(n);
        let h = decimal(n / 10);
        assert(d == h + seq![(48 + n % 10) as u8]);
        assert(d.drop_last() =~= h);
        assert(d.last() == (48 + n % 10) as u8);
        assert((d.last() - 48) as nat == n % 10);
        assert(decimal_value(d) == decimal_value(h) * 10 + n % 10);
        vstd::arithmetic::div_mod::lemma_fundamental_div_mod(n as int, 10);
        assert(d[0] == h[0]);
        assert forall|k: int| 0 <= k < d.len() implies 48 <= #[trigger] d[k] <= 57 by {
            if k < h.len() {
                assert(d[k] == h[k]);
            }
        }
    }
}

proof fn lemma_parse_cursor_json(offset: u32, salt: Seq<u8>)
    ensures
        parse_cursor_json(cursor_json(offset, salt), salt) == Some(offset),
{
    lemma_decimal(offset as nat);
    let b = cursor_json(offset, salt);
    let d = decimal(offset as nat);
    let tail = salt_key() + salt + json_close();
    assert(b =~= offset_key() + d + tail);
    assert(b.take(10) =~= offset_key());
    assert(b.skip(b.len() - tail.len()) =~= tail);
    assert(b.subrange(10, b.len() - tail.len()) =~= d);
}

proof fn lemma_strict_is_lax(s: Seq<u8>)
    ensures
        crate::binary_encoding::decode_quartets(s) matches Some(v) ==> decode_quartets_lax(s) == Some(v),
    decreases s.len(),
{
    if s.len() >= 4 {
        lemma_strict_is_lax(s.skip(4));
    }
}

/// A cursor token decodes, in the scope it was issued for, to the offset it was
/// issued with.
pub proof fn lemma_cursor_roundtrip(offset: u32, salt: Seq<u8>)
    ensures
        spec_cursor_offset(encode_utf8(cursor_token(offset, salt)), salt) == Some(offset),
{
    let json = cursor_json(offset, salt);
    let chars = spec_encode_base64(json);
    lemma_encode_shape(json);
    crate::binary_encoding::lemma_base64_roundtrip(json);
    assert(is_ascii_chars(chars));
    is_ascii_chars_encode_utf8(chars);
    assert(encode_utf8(chars) =~= ascii_bytes(chars));
    lemma_strict_is_lax(ascii_bytes(chars));
    assert(json.len() > 0);
    assert(chars.len() > 0) by (nonlinear_arith)
        requires
            chars.len() == 4 * ((json.len() + 2) / 3),
            json.len() > 0,
    ;
    assert(chars.len() % 4 == 0) by (nonlinear_arith)
        requires
            chars.len() == 4 * ((json.len() + 2) / 3),
    ;
    lemma_parse_cursor_json(offset, salt);
}

/// A cursor token issued under one salt is rejected under any other salt of the
/// same length (scope salts are all 64 hex digits long).
pub proof fn lemma_cursor_foreign_scope(offset: u32, salt: Seq<u8>, other: Seq<u8>)
    requires
        other.len() == salt.len(),
        other != salt,
    ensures
        spec_cursor_offset(encode_utf8(cursor_token(offset, salt)), other) is None,
{
    lemma_cursor_roundtrip(offset, salt);
    let json = cursor_json(offset, salt);
    let tail = salt_key() + salt + json_close();
    let tail2 = salt_key() + other + json_close();
    assert(json.skip(json.len() - tail.len()) =~= tail);
    if json.len() >= offset_key().len() + tail2.len() {
        if json.skip(json.len() - tail2.len()) == tail2 {
            assert forall|k: int| 0 <= k < salt.len() implies salt[k] == other[k] by {
                assert(tail[9 + k] == salt[k]);
                assert(tail2[9 + k] == other[k]);
                assert(json.skip(json.len() - tail.len())[9 + k] == json.skip(json.len() - tail2.len())[9 + k]);
            }
            assert(salt =~= other);
        }
    }
}


// ---------------------------------------------------------------------------
// Walking a collection
// ---------------------------------------------------------------------------

/// The pages a client gets walking a collection from `start`: the page
/// `paginate` cuts there, then, while that page issues a next cursor (its
/// end lies before the collection's end), the pages from where the cursor
/// resumes, which is that end (`lemma_cursor_roundtrip`).
pub open spec fn walk_pages<T>(items: Seq<T>, limit: int, start: int) -> Seq<Seq<T>>
    decreases items.len() - start,
{
    let end = page_end(start, limit, items.len() as int);
    let page = items.subrange(start, end);
    if limit >= 1 && start < end && end < items.len() {
        seq![page] + walk_pages(items, limit, end)
    } else {
        seq![page]
    }
}

/// The items of a walk's pages, page after page.
pub open spec fn walk_items<T>(pages: Seq<Seq<T>>) -> Seq<T>
    decreases pages.len(),
{
    if pages.len() == 0 {
        Seq::empty()
    } else {
        pages[0] + walk_items(pages.skip(1))
    }
}

/// Walking a collection with a positive limit from the first page, passing
/// each page's next cursor to the following request, returns every item
/// exactly once and in order; every page but the last holds `limit` items;
/// and the walk makes `max(1, ceil(len / limit))` requests.
pub proof fn lemma_page_walk<T>(items: Seq<T>, limit: int, start: int)
    requires
        limit >= 1,
        0 <= start <= items.len(),
    ensures
        walk_items(walk_pages(items, limit, start)) == items.skip(start),
        forall|k: int| 0 <= k < walk_pages(items, limit, start).len() - 1
            ==> (#[trigger] walk_pages(items, limit, start)[k]).len() == limit,
        walk_pages(items, limit, start).len() == (if start == items.len() {
            1
        } else {
            (items.len() - start + limit - 1) / limit
        }),
    decreases items.len() - start,
{
    let len = items.len() as int;
    let end = page_end(start, limit, len);
    let page = items.subrange(start, end);
    let pages = walk_pages(items, limit, start);
    if start < end && end < len {
        lemma_page_walk(items, limit, end);
        let rest = walk_pages(items, limit, end);
        assert(pages == seq![page] + rest);
        assert(pages.skip(1) =~= rest);
        assert(pages[0] == page);
        assert(page + items.skip(end) =~= items.skip(start));
        assert forall|k: int| 0 <= k < pages.len() - 1 implies (#[trigger] pages[k]).len() == limit by {
            if k > 0 {
                assert(pages[k] == rest[k - 1]);
            }
        }
        let x = len - start + limit - 1;
        assert(end == start + limit);
        assert((x - limit) / limit + 1 == x / limit) by (nonlinear_arith)
            requires
                x >= limit,
                limit >= 1,
        {
            vstd::arithmetic::div_mod::lemma_div_plus_one(x - limit, limit);
        }
    } else {
        assert(pages == seq![page]);
        assert(pages.skip(1) =~= Seq::<Seq<T>>::empty());
        assert(walk_items(pages.skip(1)) =~= Seq::<T>::empty());
        assert(end == len);
        assert(page + Seq::<T>::empty() =~= items.skip(start));
        if start < len {
            let x = len - start + limit - 1;
            assert(x / limit == 1) by (nonlinear_arith)
                requires
                    limit <= x,
                    x < 2 * limit,
            {
            }
        }
    }
}

/// The default page size of a mode is the one the table of defaults lists
/// for it, and a mode the table does not list has none.
pub proof fn lemma_default_limit_is_table_lookup(mode: Seq<char>)
    ensures
        spec_default_limit(mode) == table_lookup(default_limit_table(), mode, 0),
{
    reveal_strlit("deck_summary");
    reveal_strlit("slide_page");
    reveal_strlit("slide_detail");
    reveal_strlit("element_detail");
    reveal_strlit("media_metadata");
    reveal_strlit("validation_report");
    reveal_strlit("find_text");
    let t = default_limit_table();
    assert(t.len() == 7);
    assert(table_lookup(t, mode, 7) is None);
    assert(table_lookup(t, mode, 6) == (if mode == "find_text"@ { Some(50u32) } else { None }));
    assert(table_lookup(t, mode, 5) == (if mode == "validation_report"@ { Some(50u32) } else { table_lookup(t, mode, 6) }));
    assert(table_lookup(t, mode, 4) == (if mode == "media_metadata"@ { Some(50u32) } else { table_lookup(t, mode, 5) }));
    assert(table_lookup(t, mode, 3) == (if mode == "element_detail"@ { Some(1u32) } else { table_lookup(t, mode, 4) }));
    assert(table_lookup(t, mode, 2) == (if mode == "slide_detail"@ { Some(50u32) } else { table_lookup(t, mode, 3) }));
    assert(table_lookup(t, mode, 1) == (if mode == "slide_page"@ { Some(20u32) } else { table_lookup(t, mode, 2) }));
    assert(table_lookup(t, mode, 0) == (if mode == "deck_summary"@ { Some(1u32) } else { table_lookup(t, mode, 1) }));
}
} // verus!
