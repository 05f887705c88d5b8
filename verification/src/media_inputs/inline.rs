//! Decoding of inline base64 media: ASCII whitespace anywhere is ignored,
//! padding may only end the data, and the data must be whole quartets.
use vstd::prelude::*;
use vstd::string::StringSliceAdditionalSpecFns;
use crate::binary_encoding::sextet_value;
use crate::error::EditError;
use crate::schemas::ErrorCode;
use crate::text::owned;

verus! {

/// ASCII whitespace: space, tab, line feed, form feed, carriage return.
pub open spec fn is_ascii_ws(b: u8) -> bool {
    b == 32 || b == 9 || b == 10 || b == 12 || b == 13
}

/// The bytes without ASCII whitespace.
pub open spec fn stripped(s: Seq<u8>) -> Seq<u8>
    decreases s.len(),
{
    if s.len() == 0 {
        Seq::empty()
    } else if is_ascii_ws(s.last()) {
        stripped(s.drop_last())
    } else {
        stripped(s.drop_last()).push(s.last())
    }
}

/// The value of a base64 byte, 64 standing for padding.
pub open spec fn inline_value(b: u8) -> Option<u8> {
    match sextet_value(b) {
        Some(v) => Some(v),
        None => if b == 61 {
            Some(64u8)
        } else {
            None
        },
    }
}

/// The values of base64 bytes; `None` when one is outside the alphabet.
pub open spec fn inline_values(t: Seq<u8>) -> Option<Seq<u8>>
    decreases t.len(),
{
    if t.len() == 0 {
        Some(Seq::empty())
    } else {
        match (inline_values(t.drop_last()), inline_value(t.last())) {
            (Some(v), Some(x)) => Some(v.push(x)),
            _ => None,
        }
    }
}

/// Padding, once started, continues to the end.
pub open spec fn pads_trail(v: Seq<u8>) -> bool {
    forall|i: int, j: int| 0 <= i < j < v.len() && #[trigger] v[i] == 64 ==> #[trigger] v[j] == 64
}

/// A quartet may pad only its last one or two places.
pub open spec fn quartet_ok(a: u8, b: u8, c: u8, d: u8) -> bool {
    a != 64 && b != 64 && !(c == 64 && d != 64)
}

/// The bytes a valid quartet stands for.
pub open spec fn quartet_out(a: u8, b: u8, c: u8, d: u8) -> Seq<u8> {
    seq![((a << 2u8) | (b >> 4u8)) as u8]
        + (if c != 64 { seq![((b << 4u8) | (c >> 2u8)) as u8] } else { Seq::empty() })
        + (if d != 64 { seq![((c << 6u8) | d) as u8] } else { Seq::empty() })
}

/// The bytes of whole quartets of values; `None` for a partial quartet or a
/// badly padded one.
pub open spec fn inline_quartets(v: Seq<u8>) -> Option<Seq<u8>>
    decreases v.len(),
{
    if v.len() == 0 {
        Some(Seq::empty())
    } else if v.len() < 4 {
        None
    } else {
        let n = v.len() as int;
        match inline_quartets(v.take(n - 4)) {
            Some(o) => if quartet_ok(v[n - 4], v[n - 3], v[n - 2], v[n - 1]) {
                Some(o + quartet_out(v[n - 4], v[n - 3], v[n - 2], v[n - 1]))
            } else {
                None
            },
            None => None,
        }
    }
}

/// The bytes that inline base64 text stands for, if it is valid.
pub open spec fn spec_decode_inline(s: Seq<u8>) -> Option<Seq<u8>> {
    match inline_values(stripped(s)) {
        None => None,
        Some(v) => if pads_trail(v) {
            inline_quartets(v)
        } else {
            None
        },
    }
}

proof fn lemma_stripped_append(a: Seq<u8>, b: Seq<u8>)
    ensures
        stripped(a + b) == stripped(a) + stripped(b),
    decreases b.len(),
{
    if b.len() == 0 {
        assert(a + b =~= a);
        assert(stripped(a) + stripped(b) =~= stripped(a));
    } else {
        lemma_stripped_append(a, b.drop_last());
        assert((a + b).drop_last() =~= a + b.drop_last());
        assert((a + b).last() == b.last());
        if !is_ascii_ws(b.last()) {
            assert(stripped(a) + stripped(b.drop_last()).push(b.last()) =~= (stripped(a) + stripped(b.drop_last())).push(b.last()));
        }
    }
}

proof fn lemma_values_append(a: Seq<u8>, b: Seq<u8>)
    ensures
        inline_values(a + b) == (match (inline_values(a), inline_values(b)) {
            (Some(x), Some(y)) => Some(x + y),
            _ => None,
        }),
    decreases b.len(),
{
    if b.len() == 0 {
        assert(a + b =~= a);
        match inline_values(a) {
            Some(x) => {
                assert(x + Seq::<u8>::empty() =~= x);
            },
            None => {},
        }
    } else {
        lemma_values_append(a, b.drop_last());
        assert((a + b).drop_last() =~= a + b.drop_last());
        assert((a + b).last() == b.last());
        match (inline_values(a), inline_values(b.drop_last()), inline_value(b.last())) {
            (Some(x), Some(y), Some(z)) => {
                assert((x + y).push(z) =~= x + y.push(z));
            },
            _ => {},
        }
    }
}

proof fn lemma_quartets_len(v: Seq<u8>)
    ensures
        v.len() % 4 != 0 ==> inline_quartets(v) is None,
    decreases v.len(),
{
    if v.len() >= 4 {
        lemma_quartets_len(v.take(v.len() - 4));
    }
}

/// Taking a whole number of quartets off the front of valid values leaves
/// valid values.
proof fn lemma_quartets_prefix(v: Seq<u8>, m: int)
    requires
        0 <= m,
        4 * m <= v.len(),
        inline_quartets(v) is Some,
    ensures
        inline_quartets(v.take(4 * m)) is Some,
    decreases v.len(),
{
    lemma_quartets_len(v);
    if 4 * m < v.len() {
        let n = v.len() as int;
        assert(n >= 4);
        lemma_quartets_prefix(v.take(n - 4), m);
        assert(v.take(n - 4).take(4 * m) =~= v.take(4 * m));
    } else {
        assert(v.take(4 * m) =~= v);
    }
}

fn byte_value(b: u8) -> (r: Option<u8>)
    ensures
        r == inline_value(b),
{
    if 65 <= b && b <= 90 {
        Some(b - 65)
    } else if 97 <= b && b <= 122 {
        Some(b - 97 + 26)
    } else if 48 <= b && b <= 57 {
        Some(b - 48 + 52)
    } else if b == 43 {
        Some(62)
    } else if b == 47 {
        Some(63)
    } else if b == 61 {
        Some(64)
    } else {
        None
    }
}

fn invalid_inline(message: &str) -> (e: EditError)
    ensures
        e.code == ErrorCode::InvalidInput,
        e.message@ == message@,
        crate::error::is_blank(e.location),
{
    EditError::new(ErrorCode::InvalidInput, owned(message))
}

/// Decodes inline base64 media text: whitespace is skipped, padding may only
/// end the data, and the data must be whole quartets.
pub fn decode_inline_base64(encoded: &str) -> (r: Result<Vec<u8>, EditError>)
    ensures
        match spec_decode_inline(encoded.spec_bytes()) {
            Some(b) => r matches Ok(v) && v@ == b,
            None => r matches Err(e) && e.code == ErrorCode::InvalidInput,
        },
{
    let bytes = encoded.as_bytes();
    let ghost s = encoded.spec_bytes();
    let n = bytes.len();
    let mut out: Vec<u8> = Vec::new();
    let mut quartet: Vec<u8> = Vec::new();
    let mut saw_padding = false;
    let ghost mut vals: Seq<u8> = Seq::empty();
    let mut i: usize = 0;
    while i < n
        invariant
            i <= n,
            n == s.len(),
            bytes@ == s,
            s == encoded.spec_bytes(),
            inline_values(stripped(s.take(i as int))) == Some(vals),
            pads_trail(vals),
            saw_padding == (exists|k: int| 0 <= k < vals.len() && vals[k] == 64),
            quartet@.len() < 4,
            quartet@.len() == vals.len() % 4,
            quartet@ == vals.skip(vals.len() - quartet@.len()),
            inline_quartets(vals.take(vals.len() - quartet@.len())) == Some(out@),
        decreases n - i,
    {
        let b = bytes[i];
        proof {
            lemma_stripped_append(s.take(i as int), seq![b]);
            assert(s.take(i + 1) =~= s.take(i as int) + seq![b]);
            assert(stripped(seq![b]) == (if is_ascii_ws(b) { Seq::<u8>::empty() } else { seq![b] })) by {
                assert(seq![b].drop_last() =~= Seq::<u8>::empty());
                assert(seq![b].last() == b);
                assert(stripped(Seq::<u8>::empty()) == Seq::<u8>::empty());
                assert(Seq::<u8>::empty().push(b) =~= seq![b]);
            }
        }
        if b == 32 || b == 9 || b == 10 || b == 12 || b == 13 {
            proof {
                assert(stripped(s.take(i + 1)) =~= stripped(s.take(i as int)));
            }
            i = i + 1;
            continue;
        }
        let value = match byte_value(b) {
            Some(v) => v,
            None => {
                proof {
                    assert(stripped(s.take(i + 1)) =~= stripped(s.take(i as int)).push(b));
                    assert(stripped(s.take(i as int)).push(b).drop_last() =~= stripped(s.take(i as int)));
                    assert(inline_values(stripped(s.take(i + 1))) is None);
                    lemma_values_append(stripped(s.take(i + 1)), stripped(s.skip(i + 1)));
                    lemma_stripped_append(s.take(i + 1), s.skip(i + 1));
                    assert(s.take(i + 1) + s.skip(i + 1) =~= s);
                    assert(inline_values(stripped(s)) is None);
                    assert(spec_decode_inline(s) is None);
                }
                return Err(invalid_inline("Inline media contains invalid base64 characters."));
            },
        };
        proof {
            assert(stripped(s.take(i + 1)) =~= stripped(s.take(i as int)).push(b));
            assert(stripped(s.take(i as int)).push(b).drop_last() =~= stripped(s.take(i as int)));
            assert(inline_values(stripped(s.take(i + 1))) == Some(vals.push(value)));
        }
        if saw_padding && value != 64 {
            proof {
                let k = choose|k: int| 0 <= k < vals.len() && vals[k] == 64;
                let v2 = vals.push(value);
                lemma_values_append(stripped(s.take(i + 1)), stripped(s.skip(i + 1)));
                lemma_stripped_append(s.take(i + 1), s.skip(i + 1));
                assert(s.take(i + 1) + s.skip(i + 1) =~= s);
                match inline_values(stripped(s)) {
                    Some(w) => {
                        assert(w.take(v2.len() as int) =~= v2);
                        assert(w[k] == 64);
                        assert(w[vals.len() as int] == value);
                    },
                    None => {},
                }
            }
            return Err(invalid_inline("Inline media contains invalid base64 padding."));
        }
        let ghost old_vals = vals;
        proof {
            vals = vals.push(value);
            assert forall|a: int, c: int| 0 <= a < c < vals.len() && #[trigger] vals[a] == 64 implies #[trigger] vals[c] == 64 by {
                if c < old_vals.len() {
                    assert(old_vals[a] == 64);
                } else if a < old_vals.len() {
                    assert(old_vals[a] == 64);
                }
            }
        }
        if value == 64 {
            saw_padding = true;
        }
        proof {
            if value != 64 {
                assert forall|k: int| 0 <= k < vals.len() && vals[k] == 64 implies k < old_vals.len() && old_vals[k] == 64 by {}
            } else {
                assert(vals[old_vals.len() as int] == 64);
            }
        }
        quartet.push(value);
        proof {
            assert(quartet@ =~= vals.skip(vals.len() - quartet@.len()));
            assert(vals.take(vals.len() - quartet@.len()) =~= old_vals.take(old_vals.len() - (quartet@.len() - 1)));
        }
        if quartet.len() == 4 {
            let q0 = quartet[0];
            let q1 = quartet[1];
            let q2 = quartet[2];
            let q3 = quartet[3];
            let ghost len = vals.len() as int;
            proof {
                assert(vals.take(len - 4) =~= old_vals.take(old_vals.len() - 3));
                assert(vals.take(len).take(len - 4) =~= vals.take(len - 4));
                assert(vals.take(len) =~= vals);
                assert(q0 == vals[len - 4] && q1 == vals[len - 3] && q2 == vals[len - 2] && q3 == vals[len - 1]);
            }
            if q0 == 64 || q1 == 64 || (q2 == 64 && q3 != 64) {
                proof {
                    assert(inline_quartets(vals) is None);
                    lemma_bad_prefix_rejects(s, i + 1, vals);
                }
                return Err(invalid_inline("Inline media contains invalid base64 padding."));
            }
            out.push((q0 << 2u8) | (q1 >> 4u8));
            if q2 != 64 {
                out.push((q1 << 4u8) | (q2 >> 2u8));
            }
            if q3 != 64 {
                out.push((q2 << 6u8) | q3);
            }
            quartet = Vec::new();
            proof {
                assert(out@ =~= inline_quartets(vals.take(len - 4))->0 + quartet_out(q0, q1, q2, q3));
                assert(vals.skip(len) =~= Seq::<u8>::empty());
            }
        }
        i = i + 1;
    }
    proof {
        assert(s.take(n as int) =~= s);
    }
    if quartet.len() != 0 {
        proof {
            lemma_quartets_len(vals);
        }
        return Err(invalid_inline("Inline media contains incomplete base64 data."));
    }
    proof {
        assert(vals.take(vals.len() as int) =~= vals);
    }
    Ok(out)
}

/// When the values read so far already end in a bad quartet, the whole text
/// is rejected.
proof fn lemma_bad_prefix_rejects(s: Seq<u8>, i: int, vals: Seq<u8>)
    requires
        0 <= i <= s.len(),
        inline_values(stripped(s.take(i))) == Some(vals),
        vals.len() % 4 == 0,
        inline_quartets(vals) is None,
    ensures
        spec_decode_inline(s) is None,
{
    lemma_values_append(stripped(s.take(i)), stripped(s.skip(i)));
    lemma_stripped_append(s.take(i), s.skip(i));
    assert(s.take(i) + s.skip(i) =~= s);
    match inline_values(stripped(s)) {
        Some(w) => {
            if pads_trail(w) && inline_quartets(w) is Some {
                lemma_quartets_prefix(w, (vals.len() / 4) as int);
                assert(w.take(vals.len() as int) =~= vals);
            }
        },
        None => {},
    }
}

} // verus!
