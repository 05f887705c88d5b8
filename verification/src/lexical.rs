//! Lexicographic order on strings and sorted, duplicate-free string lists.
use vstd::prelude::*;
use crate::text::{chars_of, views};

verus! {

/// Strict lexicographic order by code point, shorter prefix first; for
/// UTF-8 strings this is the order of their bytes.
pub open spec fn lex_lt(a: Seq<char>, b: Seq<char>) -> bool
    decreases a.len(),
{
    if a.len() == 0 {
        b.len() > 0
    } else if b.len() == 0 {
        false
    } else if a[0] != b[0] {
        (a[0] as int) < (b[0] as int)
    } else {
        lex_lt(a.drop_first(), b.drop_first())
    }
}

/// No string is below itself.
pub proof fn lemma_lex_irreflexive(a: Seq<char>)
    ensures
        !lex_lt(a, a),
    decreases a.len(),
{
    if a.len() > 0 {
        lemma_lex_irreflexive(a.drop_first());
    }
}

/// Two different strings are ordered one way or the other.
pub proof fn lemma_lex_total(a: Seq<char>, b: Seq<char>)
    ensures
        a != b ==> (lex_lt(a, b) || lex_lt(b, a)),
    decreases a.len(),
{
    if a.len() > 0 && b.len() > 0 && a[0] == b[0] {
        lemma_lex_total(a.drop_first(), b.drop_first());
        if a.drop_first() == b.drop_first() {
            assert(a =~= seq![a[0]] + a.drop_first());
            assert(b =~= seq![b[0]] + b.drop_first());
        }
    }
    if a.len() == 0 && b.len() == 0 {
        assert(a =~= b);
    }
}

/// The order is asymmetric.
pub proof fn lemma_lex_asymmetric(a: Seq<char>, b: Seq<char>)
    ensures
        lex_lt(a, b) ==> !lex_lt(b, a),
    decreases a.len(),
{
    if a.len() > 0 && b.len() > 0 && a[0] == b[0] {
        lemma_lex_asymmetric(a.drop_first(), b.drop_first());
    }
}

/// The order is transitive.
pub proof fn lemma_lex_transitive(a: Seq<char>, b: Seq<char>, c: Seq<char>)
    requires
        lex_lt(a, b),
        lex_lt(b, c),
    ensures
        lex_lt(a, c),
    decreases a.len(),
{
    if a.len() > 0 && b.len() > 0 && c.len() > 0 && a[0] == b[0] && b[0] == c[0] {
        lemma_lex_transitive(a.drop_first(), b.drop_first(), c.drop_first());
    }
}

/// Skipping a common prefix keeps the order.
proof fn lemma_lex_skip(a: Seq<char>, b: Seq<char>, i: int)
    requires
        0 <= i <= a.len(),
        i <= b.len(),
        a.take(i) == b.take(i),
    ensures
        lex_lt(a, b) == lex_lt(a.skip(i), b.skip(i)),
    decreases i,
{
    if i > 0 {
        assert(a[0] == a.take(i)[0]);
        assert(b[0] == b.take(i)[0]);
        assert(a.drop_first().take(i - 1) =~= a.take(i).drop_first());
        assert(b.drop_first().take(i - 1) =~= b.take(i).drop_first());
        lemma_lex_skip(a.drop_first(), b.drop_first(), i - 1);
        assert(a.drop_first().skip(i - 1) =~= a.skip(i));
        assert(b.drop_first().skip(i - 1) =~= b.skip(i));
    } else {
        assert(a.skip(0) =~= a);
        assert(b.skip(0) =~= b);
    }
}

/// Whether `a` sorts strictly before `b`.
pub fn str_lt(a: &str, b: &str) -> (r: bool)
    ensures
        r == lex_lt(a@, b@),
{
    let x = chars_of(a);
    let y = chars_of(b);
    let n = x.len();
    let m = y.len();
    let mut i: usize = 0;
    while i < n && i < m
        invariant
            i <= n,
            i <= m,
            n == x@.len(),
            m == y@.len(),
            x@ == a@,
            y@ == b@,
            x@.take(i as int) == y@.take(i as int),
        decreases n - i,
    {
        if x[i] != y[i] {
            proof {
                lemma_lex_skip(a@, b@, i as int);
                assert(a@.skip(i as int)[0] == x@[i as int]);
                assert(b@.skip(i as int)[0] == y@[i as int]);
            }
            let xc: char = x[i];
            let yc: char = y[i];
            return xc < yc;
        }
        proof {
            assert(x@.take(i + 1) =~= x@.take(i as int).push(x@[i as int]));
            assert(y@.take(i + 1) =~= y@.take(i as int).push(y@[i as int]));
        }
        i = i + 1;
    }
    proof {
        lemma_lex_skip(a@, b@, i as int);
    }
    i < m && i >= n
}

/// The elements of a sequence with one more pushed are the old elements and
/// the new one.
pub proof fn lemma_push_to_set<A>(s: Seq<A>, x: A)
    ensures
        s.push(x).to_set() == s.to_set().insert(x),
{
    assert forall|y: A| s.push(x).to_set().contains(y) <==> #[trigger] s.to_set().insert(x).contains(y) by {
        if s.push(x).to_set().contains(y) {
            let t = choose|t: int| 0 <= t < s.push(x).len() && s.push(x)[t] == y;
            if t < s.len() {
                assert(s[t] == y);
            }
        }
        if s.to_set().contains(y) {
            let t = choose|t: int| 0 <= t < s.len() && s[t] == y;
            assert(s.push(x)[t] == y);
        }
        if y == x {
            assert(s.push(x)[s.len() as int] == y);
        }
    }
    assert(s.push(x).to_set() =~= s.to_set().insert(x));
}

/// Whether a list is strictly increasing.
pub open spec fn strictly_sorted(s: Seq<Seq<char>>) -> bool {
    forall|i: int, j: int| 0 <= i < j < s.len() ==> lex_lt(#[trigger] s[i], #[trigger] s[j])
}

/// The strings of a list, sorted ascending with duplicates removed.
pub fn sorted_unique(parts: &Vec<String>) -> (r: Vec<String>)
    ensures
        strictly_sorted(views(r@)),
        views(r@).to_set() == views(parts@).to_set(),
{
    let mut out: Vec<String> = Vec::new();
    let n = parts.len();
    let mut i: usize = 0;
    while i < n
        invariant
            i <= n,
            n == parts@.len(),
            strictly_sorted(views(out@)),
            views(out@).to_set() == views(parts@.take(i as int)).to_set(),
        decreases n - i,
    {
        let x = parts[i].as_str();
        let len = out.len();
        let mut k: usize = 0;
        while k < len && str_lt(out[k].as_str(), x)
            invariant
                k <= len,
                len == out@.len(),
                forall|t: int| 0 <= t < k ==> lex_lt(#[trigger] out@[t]@, x@),
            decreases len - k,
        {
            k = k + 1;
        }
        let ghost before = out@;
        proof {
            assert(views(parts@.take(i + 1)) =~= views(parts@.take(i as int)).push(x@));
        }
        if k < len && crate::text::str_eq(out[k].as_str(), x) {
            proof {
                assert(views(out@)[k as int] == x@);
                assert(views(out@).to_set().insert(x@) =~= views(out@).to_set());
            }
        } else {
            proof {
                if k < len {
                    lemma_lex_total(out@[k as int]@, x@);
                    assert(lex_lt(x@, out@[k as int]@));
                }
            }
            out.insert(k, crate::text::owned(x));
            proof {
                assert(views(out@) =~= views(before).take(k as int).push(x@) + views(before).skip(k as int));
                assert forall|a: int, b: int| 0 <= a < b < views(out@).len() implies lex_lt(#[trigger] views(out@)[a], #[trigger] views(out@)[b]) by {
                    let vb = views(before);
                    if b < k {
                        assert(views(out@)[a] == vb[a]);
                        assert(views(out@)[b] == vb[b]);
                    } else if b == k {
                        assert(views(out@)[a] == vb[a]);
                        assert(views(out@)[b] == x@);
                        assert(lex_lt(before[a]@, x@));
                    } else if a == k {
                        assert(views(out@)[a] == x@);
                        assert(views(out@)[b] == vb[b - 1]);
                        if b - 1 > k {
                            assert(lex_lt(vb[k as int], vb[b - 1]));
                            lemma_lex_transitive(x@, vb[k as int], vb[b - 1]);
                        }
                    } else if a < k {
                        assert(views(out@)[a] == vb[a]);
                        assert(views(out@)[b] == vb[b - 1]);
                    } else {
                        assert(views(out@)[a] == vb[a - 1]);
                        assert(views(out@)[b] == vb[b - 1]);
                    }
                }
                assert forall|y: Seq<char>| views(out@).to_set().contains(y) <==> #[trigger] views(before).to_set().insert(x@).contains(y) by {
                    if views(out@).to_set().contains(y) {
                        let t = choose|t: int| 0 <= t < views(out@).len() && views(out@)[t] == y;
                        if t < k {
                            assert(views(before)[t] == y);
                        } else if t > k {
                            assert(views(before)[t - 1] == y);
                        }
                    }
                    if views(before).to_set().contains(y) && y != x@ {
                        let t = choose|t: int| 0 <= t < views(before).len() && views(before)[t] == y;
                        if t < k {
                            assert(views(out@)[t] == y);
                        } else {
                            assert(views(out@)[t + 1] == y);
                        }
                    }
                    if y == x@ {
                        assert(views(out@)[k as int] == y);
                    }
                }
                assert(views(out@).to_set() =~= views(before).to_set().insert(x@));
            }
        }
        proof {
            lemma_push_to_set(views(parts@.take(i as int)), x@);
        }
        i = i + 1;
    }
    assert(parts@.take(n as int) =~= parts@);
    out
}

} // verus!
