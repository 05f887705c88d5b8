//! Relationship targets and relationship part names derived from part names.
use vstd::prelude::*;
use crate::text::{joined, owned, push_str, split_slash, trim_slashes, views, lemma_split_nonempty};

verus! {

/// How many leading segments of `a` from `k` on equal those of `b`, plus `k`.
pub open spec fn common_from(a: Seq<Seq<char>>, b: Seq<Seq<char>>, k: int) -> int
    decreases a.len() - k,
{
    if 0 <= k && k < a.len() && k < b.len() && a[k] == b[k] {
        common_from(a, b, k + 1)
    } else {
        k
    }
}

/// The relative reference from the directory of `source` to `target`:
/// `..` for each directory to leave, then the rest of the target path.
pub open spec fn relative_reference(source: Seq<char>, target: Seq<char>) -> Seq<char> {
    let src = split_slash(trim_slashes(source));
    let tgt = split_slash(trim_slashes(target));
    let dir = src.take(src.len() - 1);
    let c = common_from(dir, tgt, 0);
    joined(Seq::new((dir.len() - c) as nat, |i: int| ".."@) + tgt.skip(c), "/"@)
}

proof fn lemma_common_range(a: Seq<Seq<char>>, b: Seq<Seq<char>>, k: int)
    requires
        0 <= k <= a.len(),
        k <= b.len(),
    ensures
        k <= common_from(a, b, k) <= a.len(),
        common_from(a, b, k) <= b.len(),
    decreases a.len() - k,
{
    if k < a.len() && k < b.len() && a[k] == b[k] {
        lemma_common_range(a, b, k + 1);
    }
}

/// The relationship target by which `source_part` refers to `target_part`.
pub fn relative_target(source_part: &str, target_part: &str) -> (r: String)
    ensures
        r@ == relative_reference(source_part@, target_part@),
{
    let src_trim = crate::text::trim_leading_slashes(source_part);
    let tgt_trim = crate::text::trim_leading_slashes(target_part);
    let src = crate::text::split_on_slash(src_trim.as_str());
    let tgt = crate::text::split_on_slash(tgt_trim.as_str());
    proof {
        lemma_split_nonempty(trim_slashes(source_part@));
        lemma_split_nonempty(trim_slashes(target_part@));
    }
    let dir_len = src.len() - 1;
    let ghost dir = views(src@).take(dir_len as int);
    let ghost tv = views(tgt@);
    let mut common: usize = 0;
    proof {
        lemma_common_range(dir, tv, 0);
    }
    while common < dir_len && common < tgt.len() && crate::text::str_eq(src[common].as_str(), tgt[common].as_str())
        invariant
            common <= dir_len,
            common <= tgt@.len(),
            dir_len + 1 == src@.len(),
            dir == views(src@).take(dir_len as int),
            tv == views(tgt@),
            common_from(dir, tv, 0) == common_from(dir, tv, common as int),
        decreases dir_len - common,
    {
        proof {
            assert(dir[common as int] == src@[common as int]@);
            assert(tv[common as int] == tgt@[common as int]@);
        }
        common = common + 1;
    }
    proof {
        if common < dir_len && common < tgt@.len() {
            assert(dir[common as int] == src@[common as int]@);
            assert(tv[common as int] == tgt@[common as int]@);
        }
    }
    let mut parts: Vec<String> = Vec::new();
    let ups = dir_len - common;
    let mut k: usize = 0;
    while k < ups
        invariant
            k <= ups,
            views(parts@) == Seq::new(k as nat, |i: int| ".."@),
        decreases ups - k,
    {
        let ghost pre = views(parts@);
        parts.push(owned(".."));
        proof {
            assert(views(parts@) =~= pre.push(".."@));
            assert(views(parts@) =~= Seq::new((k + 1) as nat, |i: int| ".."@));
        }
        k = k + 1;
    }
    let mut t: usize = common;
    let nt = tgt.len();
    while t < nt
        invariant
            common <= t <= nt,
            nt == tgt@.len(),
            tv == views(tgt@),
            views(parts@) == Seq::new(ups as nat, |i: int| ".."@) + tv.subrange(common as int, t as int),
        decreases nt - t,
    {
        let ghost pre = views(parts@);
        parts.push(owned(tgt[t].as_str()));
        proof {
            assert(views(parts@) =~= pre.push(tgt@[t as int]@));
            assert(tv.subrange(common as int, t + 1) =~= tv.subrange(common as int, t as int).push(tv[t as int]));
            assert(views(parts@) =~= Seq::new(ups as nat, |i: int| ".."@) + tv.subrange(common as int, t + 1));
        }
        t = t + 1;
    }
    proof {
        assert(tv.subrange(common as int, nt as int) =~= tv.skip(common as int));
    }
    crate::text::join_strings(&parts, "/")
}

/// The position of the last `/` in a string.
pub open spec fn last_slash(s: Seq<char>) -> Option<int>
    decreases s.len(),
{
    if s.len() == 0 {
        None
    } else if s.last() == '/' {
        Some(s.len() - 1)
    } else {
        last_slash(s.drop_last())
    }
}

/// The relationships part name of a part: `_rels/<file>.rels` beside it.
pub open spec fn rels_part_name(path: Seq<char>) -> Seq<char> {
    match last_slash(path) {
        None => "/_rels/"@ + path + ".rels"@,
        Some(k) => {
            let directory = path.take(k);
            let file_name = path.skip(k + 1);
            if directory.len() == 0 {
                "/_rels/"@ + file_name + ".rels"@
            } else {
                directory + "/_rels/"@ + file_name + ".rels"@
            }
        },
    }
}

proof fn lemma_last_slash_range(s: Seq<char>)
    ensures
        last_slash(s) matches Some(k) ==> 0 <= k < s.len() && s[k] == '/',
    decreases s.len(),
{
    if s.len() > 0 && s.last() != '/' {
        lemma_last_slash_range(s.drop_last());
    }
}

/// The name of the relationships part that belongs to a part.
pub fn rels_part_name_for(part_name: &str) -> (r: String)
    ensures
        r@ == rels_part_name(part_name@),
{
    let chars = crate::text::chars_of(part_name);
    let n = chars.len();
    let mut k = n;
    assert(part_name@.take(n as int) =~= part_name@);
    while k > 0 && chars[k - 1] != '/'
        invariant
            k <= n,
            n == chars@.len(),
            chars@ == part_name@,
            last_slash(part_name@) == last_slash(part_name@.take(k as int)),
        decreases k,
    {
        proof {
            assert(part_name@.take(k as int).drop_last() =~= part_name@.take(k - 1));
        }
        k = k - 1;
    }
    proof {
        if k > 0 {
            assert(part_name@.take(k as int).last() == '/');
        } else {
            assert(part_name@.take(0) =~= Seq::<char>::empty());
        }
        lemma_last_slash_range(part_name@);
    }
    if k == 0 {
        let mut r = owned("/_rels/");
        push_str(&mut r, part_name);
        push_str(&mut r, ".rels");
        return r;
    }
    let directory = crate::text::string_from_chars(&chars.as_slice()[0..k - 1]);
    let file_name = crate::text::string_from_chars(&chars.as_slice()[k..n]);
    proof {
        assert(directory@ =~= part_name@.take(k - 1));
        assert(file_name@ =~= part_name@.skip(k as int));
    }
    let mut r = if k == 1 { owned("/_rels/") } else {
        let mut d = directory;
        push_str(&mut d, "/_rels/");
        d
    };
    push_str(&mut r, file_name.as_str());
    push_str(&mut r, ".rels");
    r
}

} // verus!
