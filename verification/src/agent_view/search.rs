//! Text search over projected element text: match spans, preview truncation,
//! and mapping a match back to the runs it covers.
use vstd::prelude::*;

use crate::agent_view::pagination::{cursor_token, scope_salt, Cursor, CursorScope, ViewMeta};
use crate::agent_view::{
    ElementKind, ElementView, FindTextRunSelector, FindTextScope, Paragraph, Run, TextSpan,
    TextView, TruncationMarker,
};
use crate::schemas::JsonError;
use crate::text::{chars_of, owned, push_str, string_from_chars};

verus! {

// ---------------------------------------------------------------------------
// Query spans
// ---------------------------------------------------------------------------

/// Whether `q` occurs in `t` starting at character `i`.
pub open spec fn matches_at(t: Seq<char>, q: Seq<char>, i: int) -> bool {
    0 <= i && i + q.len() <= t.len() && t.subrange(i, i + q.len()) == q
}

/// The leftmost occurrence of `q` in `t` at or after `from`.
pub open spec fn first_match(t: Seq<char>, q: Seq<char>, from: int) -> Option<int>
    decreases t.len() - from,
{
    if from < 0 || from + q.len() > t.len() {
        None
    } else if matches_at(t, q, from) {
        Some(from)
    } else if from >= t.len() {
        None
    } else {
        first_match(t, q, from + 1)
    }
}

/// The non-overlapping, leftmost-first occurrences of a non-empty `q` in `t`
/// at or after `from`, as character ranges.
pub open spec fn query_spans(t: Seq<char>, q: Seq<char>, from: int) -> Seq<(int, int)>
    decreases t.len() - from,
{
    if q.len() == 0 || from < 0 || from + q.len() > t.len() {
        Seq::empty()
    } else if matches_at(t, q, from) {
        seq![(from, from + q.len())] + query_spans(t, q, from + q.len())
    } else {
        query_spans(t, q, from + 1)
    }
}

fn matches_at_exec(t: &Vec<char>, q: &Vec<char>, i: usize) -> (r: bool)
    requires
        i + q@.len() <= t@.len(),
    ensures
        r == matches_at(t@, q@, i as int),
{
    let m = q.len();
    let mut k: usize = 0;
    while k < m
        invariant
            k <= m,
            m == q@.len(),
            i + m <= t@.len(),
            i + m <= t.len(),
            forall|j: int| 0 <= j < k ==> t@[i + j] == q@[j],
        decreases m - k,
    {
        if t[i + k] != q[k] {
            assert(t@.subrange(i as int, i + m)[k as int] != q@[k as int]);
            return false;
        }
        k = k + 1;
    }
    assert(t@.subrange(i as int, i + m) =~= q@);
    true
}

/// Whether some span ends beyond the `u32` range.
pub open spec fn spans_overflow(sp: Seq<(int, int)>) -> bool {
    exists|k: int| 0 <= k < sp.len() && #[trigger] sp[k].1 > u32::MAX
}

/// Every span a search reports covers text equal to the query, and the
/// spans come left to right without overlapping.
pub proof fn lemma_spans_are_matches(t: Seq<char>, q: Seq<char>, from: int)
    requires
        q.len() > 0,
        from >= 0,
    ensures
        forall|k: int| 0 <= k < query_spans(t, q, from).len()
            ==> t.subrange(#[trigger] query_spans(t, q, from)[k].0, query_spans(t, q, from)[k].1) == q,
        forall|k: int, j: int| 0 <= k < j < query_spans(t, q, from).len()
            ==> #[trigger] query_spans(t, q, from)[k].1 <= #[trigger] query_spans(t, q, from)[j].0,
    decreases t.len() - from,
{
    lemma_query_spans_shape(t, q, from);
    if from + q.len() > t.len() {
    } else if matches_at(t, q, from) {
        lemma_spans_are_matches(t, q, from + q.len());
        let rest = query_spans(t, q, from + q.len());
        let all = query_spans(t, q, from);
        assert(all == seq![(from, from + q.len())] + rest);
        assert forall|k: int| 0 <= k < all.len() implies t.subrange(#[trigger] all[k].0, all[k].1) == q by {
            if k > 0 {
                assert(all[k] == rest[k - 1]);
            } else {
                assert(all[0] == (from, from + q.len()));
            }
        }
    } else {
        lemma_spans_are_matches(t, q, from + 1);
        assert(query_spans(t, q, from) == query_spans(t, q, from + 1));
    }
}

proof fn lemma_query_spans_shape(t: Seq<char>, q: Seq<char>, from: int)
    requires
        q.len() > 0,
        from >= 0,
    ensures
        forall|k: int| 0 <= k < query_spans(t, q, from).len() ==> from <= #[trigger] query_spans(t, q, from)[k].0
            && query_spans(t, q, from)[k].0 < query_spans(t, q, from)[k].1
            && query_spans(t, q, from)[k].1 <= t.len()
            && query_spans(t, q, from)[k].1 - query_spans(t, q, from)[k].0 == q.len(),
        forall|k: int, j: int| 0 <= k < j < query_spans(t, q, from).len()
            ==> #[trigger] query_spans(t, q, from)[k].1 <= #[trigger] query_spans(t, q, from)[j].0,
    decreases t.len() - from,
{
    if from + q.len() > t.len() {
    } else if matches_at(t, q, from) {
        lemma_query_spans_shape(t, q, from + q.len());
        let rest = query_spans(t, q, from + q.len());
        let all = query_spans(t, q, from);
        assert(all == seq![(from, from + q.len())] + rest);
        assert forall|k: int, j: int| 0 <= k < j < all.len() implies #[trigger] all[k].1 <= #[trigger] all[j].0 by {
            if k > 0 {
                assert(all[k] == rest[k - 1]);
            }
            assert(all[j] == rest[j - 1]);
        }
        assert forall|k: int| 0 <= k < all.len() implies from <= #[trigger] all[k].0 && all[k].0 < all[k].1
            && all[k].1 <= t.len() && all[k].1 - all[k].0 == q.len() by {
            if k > 0 {
                assert(all[k] == rest[k - 1]);
            }
        }
    } else {
        lemma_query_spans_shape(t, q, from + 1);
        assert(query_spans(t, q, from) == query_spans(t, q, from + 1));
    }
}

/// The character spans of every non-overlapping occurrence of `query` in
/// `text`, leftmost first.
pub fn find_query_spans(text: &str, query: &str) -> (r: Result<Vec<TextSpan>, JsonError>)
    requires
        query@.len() > 0,
    ensures
        match r {
            Ok(v) => !spans_overflow(query_spans(text@, query@, 0)) && v@.len() == query_spans(text@, query@, 0).len()
                && forall|k: int| 0 <= k < v@.len() ==> #[trigger] v@[k].start == query_spans(text@, query@, 0)[k].0
                    && v@[k].end == query_spans(text@, query@, 0)[k].1,
            Err(e) => spans_overflow(query_spans(text@, query@, 0)) && e is Projection,
        },
{
    let t = chars_of(text);
    let q = chars_of(query);
    let n = t.len();
    let m = q.len();
    let ghost all = query_spans(t@, q@, 0);
    let mut spans: Vec<TextSpan> = Vec::new();
    let mut pos: usize = 0;
    proof {
        lemma_query_spans_shape(t@, q@, 0);
    }
    while m <= n - pos
        invariant
            n == t@.len(),
            m == q@.len(),
            m > 0,
            pos <= n,
            all == query_spans(t@, q@, 0),
            t@ == text@,
            q@ == query@,
            all == spans@.map_values(|s: TextSpan| (s.start as int, s.end as int)) + query_spans(t@, q@, pos as int),
        decreases n - pos,
    {
        let ghost before = spans@;
        if matches_at_exec(&t, &q, pos) {
            let end = pos + m;
            proof {
                assert(query_spans(t@, q@, pos as int) == seq![(pos as int, end as int)] + query_spans(t@, q@, end as int));
            }
            if end > 4294967295usize {
                proof {
                    let k = before.len() as int;
                    assert(all[k] == (pos as int, end as int));
                    assert(all[k].1 > u32::MAX);
                    assert(spans_overflow(all));
                }
                return Err(JsonError::Projection(owned("Text offset exceeds the span range.")));
            }
            spans.push(TextSpan { start: pos as u32, end: end as u32 });
            proof {
                assert(spans@.map_values(|s: TextSpan| (s.start as int, s.end as int)) =~= before.map_values(|s: TextSpan| (s.start as int, s.end as int)) + seq![(pos as int, end as int)]);
            }
            pos = end;
        } else {
            pos = pos + 1;
        }
    }
    proof {
        assert(query_spans(t@, q@, pos as int) =~= Seq::<(int, int)>::empty());
        let mapped = spans@.map_values(|s: TextSpan| (s.start as int, s.end as int));
        assert(all =~= mapped);
        assert forall|k: int| 0 <= k < all.len() implies !(#[trigger] all[k].1 > u32::MAX) by {
            assert(mapped[k] == (spans@[k].start as int, spans@[k].end as int));
        }
        assert forall|k: int| 0 <= k < spans@.len() implies #[trigger] spans@[k].start == all[k].0 && spans@[k].end == all[k].1 by {
            assert(mapped[k] == (spans@[k].start as int, spans@[k].end as int));
        }
    }
    Ok(spans)
}

// ---------------------------------------------------------------------------
// Substrings and previews
// ---------------------------------------------------------------------------

/// The characters `skip(start).take(end - start)` of a text (empty when `end <= start`).
pub open spec fn char_span_text(t: Seq<char>, start: int, end: int) -> Seq<char> {
    let s = if start < t.len() { start } else { t.len() as int };
    let n = if end > start { end - start } else { 0 };
    let e = if s + n < t.len() { s + n } else { t.len() as int };
    t.subrange(s, e)
}

/// The text covered by a character span.
pub fn substring_by_char_span(text: &str, span: TextSpan) -> (r: String)
    ensures
        r@ == char_span_text(text@, span.start as int, span.end as int),
{
    let t = chars_of(text);
    let len = t.len();
    let s: usize = if (span.start as usize) < len { span.start as usize } else { len };
    let n: usize = if span.end > span.start { (span.end - span.start) as usize } else { 0 };
    let e: usize = if n < len - s { s + n } else { len };
    let mut out: Vec<char> = Vec::new();
    let mut k: usize = s;
    while k < e
        invariant
            s <= k <= e,
            e <= len,
            len == t@.len(),
            out@ =~= t@.subrange(s as int, k as int),
        decreases e - k,
    {
        out.push(t[k]);
        k = k + 1;
    }
    string_from_chars(out.as_slice())
}

/// The first `limit` characters of a text and, when characters were dropped,
/// a marker with the original and shown counts (each capped at `u32::MAX`).
pub fn truncate_text(text: String, limit: usize, detail: &str) -> (r: (String, Option<TruncationMarker>))
    ensures
        text@.len() <= limit ==> r.0@ == text@ && r.1 is None,
        text@.len() > limit ==> r.0@ == text@.take(limit as int) && (r.1 matches Some(m)
            && m.original_chars as int == (if text@.len() <= u32::MAX { text@.len() as int } else { u32::MAX as int })
            && m.shown_chars as int == (if limit <= u32::MAX { limit as int } else { u32::MAX as int })
            && m.detail@ == detail@),
{
    let t = chars_of(text.as_str());
    let count = t.len();
    if count <= limit {
        return (text, None);
    }
    let mut out: Vec<char> = Vec::new();
    let mut k: usize = 0;
    while k < limit
        invariant
            k <= limit,
            limit < count,
            count == t@.len(),
            out@ =~= t@.take(k as int),
        decreases limit - k,
    {
        out.push(t[k]);
        k = k + 1;
    }
    let original: u32 = if count <= 4294967295usize { count as u32 } else { 4294967295u32 };
    let shown: u32 = if limit <= 4294967295usize { limit as u32 } else { 4294967295u32 };
    (string_from_chars(out.as_slice()), Some(TruncationMarker { original_chars: original, shown_chars: shown, detail: owned(detail) }))
}

fn clone_marker(m: &TruncationMarker) -> (r: TruncationMarker)
    ensures
        r == *m,
{
    TruncationMarker { original_chars: m.original_chars, shown_chars: m.shown_chars, detail: m.detail.clone() }
}

/// The plain-text marker if there is one, else the normalized-text marker.
pub fn merge_truncation(plain: &Option<TruncationMarker>, normalized: &Option<TruncationMarker>) -> (r: Option<TruncationMarker>)
    ensures
        r == (match plain {
            Some(m) => Some(*m),
            None => *normalized,
        }),
{
    match plain {
        Some(m) => Some(clone_marker(m)),
        None => match normalized {
            Some(m) => Some(clone_marker(m)),
            None => None,
        },
    }
}

/// The text searched for an element: the full text when it is present.
pub open spec fn search_text(full: Seq<char>, preview: Seq<char>) -> Seq<char> {
    if full.len() == 0 {
        preview
    } else {
        full
    }
}

/// The element text searched by find-text.
pub fn search_plain_text(text: &TextView) -> (r: &str)
    ensures
        r@ == search_text(text.full_plain@, text.plain@),
{
    if text.full_plain.as_str().is_empty() {
        text.plain.as_str()
    } else {
        text.full_plain.as_str()
    }
}

/// The paragraph text searched by find-text.
pub fn search_paragraph_text(paragraph: &Paragraph) -> (r: &str)
    ensures
        r@ == search_text(paragraph.full_text@, paragraph.text@),
{
    if paragraph.full_text.as_str().is_empty() {
        paragraph.text.as_str()
    } else {
        paragraph.full_text.as_str()
    }
}

/// The run text searched by find-text.
pub fn search_run_text(run: &Run) -> (r: &str)
    ensures
        r@ == search_text(run.full_text@, run.text@),
{
    if run.full_text.as_str().is_empty() {
        run.text.as_str()
    } else {
        run.full_text.as_str()
    }
}

/// Chart and diagram text can only be edited through a run selector.
pub fn related_text_requires_run_selector(kind: ElementKind) -> (r: bool)
    ensures
        r == (kind == ElementKind::Chart || kind == ElementKind::Diagram),
{
    match kind {
        ElementKind::Chart | ElementKind::Diagram => true,
        _ => false,
    }
}

/// Whether an element is the speaker-notes pseudo element of its slide
/// (its id is the slide id followed by `:notes`).
pub fn is_notes_element(element: &ElementView) -> (r: bool)
    ensures
        r == (element.id@ == element.slide_id@ + ":notes"@),
{
    let mut expected = owned(element.slide_id.as_str());
    push_str(&mut expected, ":notes");
    crate::text::str_eq(element.id.as_str(), expected.as_str())
}

// ---------------------------------------------------------------------------
// Match pages
// ---------------------------------------------------------------------------

/// Cuts a page of matches collected from `start`: keeps at most `limit`
/// matches and issues a cursor at `start + limit` (saturating) when more exist.
pub fn match_page<T>(matches: Vec<T>, limit: u32, start: u32, scope: CursorScope<'_>) -> (r: Result<(Vec<T>, ViewMeta, u32), JsonError>)
    ensures
        r matches Ok((page, meta, omitted)) && {
            let truncated = matches@.len() > limit;
            &&& page@ == (if truncated { matches@.take(limit as int) } else { matches@ })
            &&& meta.mode@ == scope.mode@
            &&& meta.limit == limit
            &&& meta.truncated == truncated
            &&& (meta.next_cursor matches Some(c) <==> truncated)
            &&& (meta.next_cursor matches Some(c) ==> c@ == cursor_token(
                if start as int + limit as int <= u32::MAX { (start + limit) as u32 } else { u32::MAX },
                scope_salt(scope)))
            &&& omitted == (if truncated { 1u32 } else { 0u32 })
        },
{
    let mut matches = matches;
    let truncated = matches.len() > limit as usize;
    if truncated {
        matches.truncate(limit as usize);
    }
    let next_cursor = if truncated {
        match Cursor::encode(start.saturating_add(limit), scope) {
            Ok(c) => Some(c),
            Err(e) => return Err(e),
        }
    } else {
        None
    };
    let meta = ViewMeta { mode: owned(scope.mode), limit, next_cursor, truncated };
    Ok((matches, meta, if truncated { 1 } else { 0 }))
}

// ---------------------------------------------------------------------------
// Run selection for a span
// ---------------------------------------------------------------------------

/// The leftmost occurrence of `q` in `t` at or after `from`.
fn find_from(t: &Vec<char>, q: &Vec<char>, from: usize) -> (r: Option<usize>)
    requires
        from <= t@.len(),
    ensures
        r is None <==> first_match(t@, q@, from as int) is None,
        r matches Some(i) ==> first_match(t@, q@, from as int) == Some(i as int) && from <= i && i + q@.len() <= t@.len(),
{
    let n = t.len();
    let m = q.len();
    let mut pos = from;
    while m <= n - pos
        invariant
            from <= pos <= n,
            n == t@.len(),
            m == q@.len(),
            first_match(t@, q@, from as int) == first_match(t@, q@, pos as int),
        decreases n - pos,
    {
        if matches_at_exec(t, q, pos) {
            return Some(pos);
        }
        if pos >= n {
            return None;
        }
        pos = pos + 1;
    }
    None
}

/// The text of a run as searched.
pub open spec fn run_search_text(run: Run) -> Seq<char> {
    search_text(run.full_text@, run.text@)
}

/// The text of a paragraph as searched.
pub open spec fn paragraph_search_text(p: Paragraph) -> Seq<char> {
    search_text(p.full_text@, p.text@)
}

/// Absolute character ranges of runs `r..` of a paragraph whose text starts at
/// absolute offset `base`: each run is located as the leftmost occurrence of its
/// text at or after the end of the previous run. `None` when a run text is not
/// found or an index or offset leaves the `u32` range.
pub open spec fn run_ranges(ptext: Seq<char>, runs: Seq<Run>, base: int, search_start: int, r: int) -> Option<Seq<(int, int)>>
    decreases runs.len() - r,
{
    if r < 0 || r >= runs.len() {
        Some(Seq::empty())
    } else if r > u32::MAX {
        None
    } else {
        let rt = run_search_text(runs[r]);
        match first_match(ptext, rt, search_start) {
            None => None,
            Some(b) => {
                let e = b + rt.len();
                if base + e > u32::MAX {
                    None
                } else {
                    match run_ranges(ptext, runs, base, e, r + 1) {
                        None => None,
                        Some(rest) => Some(seq![(base + b, base + e)] + rest),
                    }
                }
            },
        }
    }
}

/// The first range index at or after `k` whose start (`use_end == false`) or
/// end (`use_end == true`) equals `v`.
pub open spec fn first_range(ranges: Seq<(int, int)>, v: int, use_end: bool, k: int) -> Option<int>
    decreases ranges.len() - k,
{
    if k < 0 || k >= ranges.len() {
        None
    } else if (if use_end { ranges[k].1 } else { ranges[k].0 }) == v {
        Some(k)
    } else {
        first_range(ranges, v, use_end, k + 1)
    }
}

/// The paragraph and run indices (and paragraph start) a span selects, walking
/// paragraphs from `p` whose text starts at absolute offset `pstart`;
/// paragraphs are separated by one character.
pub open spec fn select_runs(paras: Seq<Paragraph>, s: int, e: int, p: int, pstart: int) -> Option<(int, int, int, int)>
    decreases paras.len() - p,
{
    if p < 0 || p >= paras.len() {
        None
    } else if p > u32::MAX {
        None
    } else {
        let pt = paragraph_search_text(paras[p]);
        match run_ranges(pt, paras[p].runs@, pstart, 0, 0) {
            None => None,
            Some(ranges) => {
                let pend = pstart + pt.len();
                if pend > u32::MAX {
                    None
                } else if s >= pstart && e <= pend {
                    match (first_range(ranges, s, false, 0), first_range(ranges, e, true, 0)) {
                        (Some(k), Some(j)) => if k > j {
                            None
                        } else {
                            Some((p, k, j, pstart))
                        },
                        _ => None,
                    }
                } else {
                    let next = if p + 1 < paras.len() { pend + 1 } else { pend };
                    if next > u32::MAX {
                        None
                    } else {
                        select_runs(paras, s, e, p + 1, next)
                    }
                }
            },
        }
    }
}

fn locate_runs(ptext: &Vec<char>, runs: &Vec<Run>, base: u32) -> (r: Option<Vec<(u32, u32)>>)
    ensures
        match r {
            Some(v) => run_ranges(ptext@, runs@, base as int, 0, 0) matches Some(rr) && rr == v@.map_values(|x: (u32, u32)| (x.0 as int, x.1 as int)),
            None => run_ranges(ptext@, runs@, base as int, 0, 0) is None,
        },
        r matches Some(v) ==> v@.len() == runs@.len() && runs@.len() <= 4294967296,
{
    let mut out: Vec<(u32, u32)> = Vec::new();
    let mut search_start: usize = 0;
    let mut r: usize = 0;
    let nr = runs.len();
    let ghost full = run_ranges(ptext@, runs@, base as int, 0, 0);
    while r < nr
        invariant
            r <= nr,
            nr == runs@.len(),
            search_start <= ptext@.len(),
            out@.len() == r,
            r <= 4294967296,
            full == run_ranges(ptext@, runs@, base as int, 0, 0),
            run_ranges(ptext@, runs@, base as int, search_start as int, r as int) matches Some(rest)
                ==> full == Some(out@.map_values(|x: (u32, u32)| (x.0 as int, x.1 as int)) + rest),
            run_ranges(ptext@, runs@, base as int, search_start as int, r as int) is None ==> full is None,
        decreases nr - r,
    {
        if r > 4294967295usize {
            return None;
        }
        let rt = chars_of(search_run_text(&runs[r]));
        let b = match find_from(ptext, &rt, search_start) {
            Some(b) => b,
            None => return None,
        };
        let plen = ptext.len();
        assert(b + rt@.len() <= plen);
        let e = b + rt.len();
        if (e as u64) > 4294967295u64 - (base as u64) {
            return None;
        }
        let ghost before = out@;
        out.push(((base as usize + b) as u32, (base as usize + e) as u32));
        proof {
            let mapped = |x: (u32, u32)| (x.0 as int, x.1 as int);
            assert(out@.map_values(mapped) =~= before.map_values(mapped) + seq![(base + b, base + e)]);
            match run_ranges(ptext@, runs@, base as int, e as int, r + 1) {
                Some(rest) => {
                    assert(before.map_values(mapped) + (seq![(base + b, base + e)] + rest) =~= out@.map_values(mapped) + rest);
                },
                None => {},
            }
        }
        search_start = e;
        r = r + 1;
    }
    proof {
        assert(run_ranges(ptext@, runs@, base as int, search_start as int, r as int) == Some(Seq::<(int, int)>::empty()));
        assert(out@.map_values(|x: (u32, u32)| (x.0 as int, x.1 as int)) + Seq::<(int, int)>::empty() =~= out@.map_values(|x: (u32, u32)| (x.0 as int, x.1 as int)));
    }
    Some(out)
}

fn find_range(ranges: &Vec<(u32, u32)>, v: u32, use_end: bool) -> (r: Option<usize>)
    ensures
        r is None <==> first_range(ranges@.map_values(|x: (u32, u32)| (x.0 as int, x.1 as int)), v as int, use_end, 0) is None,
        r matches Some(k) ==> k < ranges@.len() && first_range(ranges@.map_values(|x: (u32, u32)| (x.0 as int, x.1 as int)), v as int, use_end, 0) == Some(k as int),
{
    let ghost mapped = ranges@.map_values(|x: (u32, u32)| (x.0 as int, x.1 as int));
    let n = ranges.len();
    let mut k: usize = 0;
    while k < n
        invariant
            k <= n,
            n == ranges@.len(),
            mapped == ranges@.map_values(|x: (u32, u32)| (x.0 as int, x.1 as int)),
            first_range(mapped, v as int, use_end, 0) == first_range(mapped, v as int, use_end, k as int),
        decreases n - k,
    {
        let x = ranges[k];
        let hit = if use_end { x.1 == v } else { x.0 == v };
        assert(mapped[k as int] == (x.0 as int, x.1 as int));
        if hit {
            return Some(k);
        }
        k = k + 1;
    }
    None
}

/// The runs a span of element text selects: the paragraph containing the span,
/// the first run starting at the span start and the first run ending at the
/// span end; `None` when the span is empty, crosses a paragraph boundary, or
/// does not start and end on run boundaries. Alongside the selector (whose
/// `text_hash` is left for the caller to fill in) comes the selected text.
pub fn run_selector_for_span(text: &TextView, span: TextSpan) -> (r: Option<(FindTextRunSelector, String)>)
    ensures
        span.start >= span.end ==> r is None,
        span.start < span.end ==> match select_runs(text.paragraphs@, span.start as int, span.end as int, 0, 0) {
            None => r is None,
            Some((p, k, j, pstart)) => r matches Some((sel, selected)) && {
                &&& sel.paragraph_index == p
                &&& sel.run_index == k
                &&& sel.run_end_index == (if j > k { Some(j as u32) } else { None::<u32> })
                &&& sel.text_hash is None
                &&& selected@ == char_span_text(paragraph_search_text(text.paragraphs@[p]), span.start - pstart, span.end - pstart)
            },
        },
{
    if span.start >= span.end {
        return None;
    }
    let paras = &text.paragraphs;
    let np = paras.len();
    let mut p: usize = 0;
    let mut pstart: u32 = 0;
    let ghost target = select_runs(paras@, span.start as int, span.end as int, 0, 0);
    while p < np
        invariant
            p <= np,
            np == paras@.len(),
            paras@ == text.paragraphs@,
            span.start < span.end,
            target == select_runs(paras@, span.start as int, span.end as int, 0, 0),
            target == select_runs(paras@, span.start as int, span.end as int, p as int, pstart as int),
        decreases np - p,
    {
        if p > 4294967295usize {
            return None;
        }
        let ptext_str = search_paragraph_text(&paras[p]);
        let pt = chars_of(ptext_str);
        let ranges = match locate_runs(&pt, &paras[p].runs, pstart) {
            Some(v) => v,
            None => return None,
        };
        if (pt.len() as u64) > 4294967295u64 - (pstart as u64) {
            return None;
        }
        let pend = (pstart as usize + pt.len()) as u32;
        if span.start >= pstart && span.end <= pend {
            let k = match find_range(&ranges, span.start, false) {
                Some(k) => k,
                None => return None,
            };
            let j = match find_range(&ranges, span.end, true) {
                Some(j) => j,
                None => return None,
            };
            if k > j {
                return None;
            }
            let rel = TextSpan { start: span.start - pstart, end: span.end - pstart };
            let selected = substring_by_char_span(ptext_str, rel);
            let sel = FindTextRunSelector {
                paragraph_index: p as u32,
                run_index: k as u32,
                run_end_index: if j > k { Some(j as u32) } else { None },
                text_hash: None,
            };
            return Some((sel, selected));
        }
        let next: u64 = if p + 1 < np { pend as u64 + 1 } else { pend as u64 };
        if next > 4294967295u64 {
            return None;
        }
        pstart = next as u32;
        p = p + 1;
    }
    None
}

} // verus!