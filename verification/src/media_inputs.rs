//! Media inputs that patches refer to by `media_ref`: where their bytes come
//! from, which references are bound, and the checks their bytes must pass.
use vstd::prelude::*;
use crate::error::EditError;
use crate::schemas::ErrorCode;
use crate::text::{owned, push_str, sview, views, split_slash, lemma_split_nonempty};
use vstd::string::StrSliceExecFns;

pub mod inline;
pub mod limits;
pub mod manifest;
pub mod sniff;

use crate::media_inputs::limits::{MediaLimits, check_size};
use crate::media_inputs::manifest::{ManifestMediaBinding, MediaManifest};

verus! {

/// Where the bytes of a media input come from.
#[derive(Clone, Debug, Eq, PartialEq)]
pub enum MediaSource {
    Path(String),
    Bytes(Vec<u8>),
    InlineBase64(String),
}

/// A media input bound to a `media_ref`.
#[derive(Clone, Debug, Eq, PartialEq)]
pub struct MediaBinding {
    pub content_type: String,
    pub declared_sha256: Option<String>,
    pub declared_byte_length: Option<u64>,
    pub source: MediaSource,
}

/// The bytes of a media input and their content type.
#[derive(Clone, Debug, Eq, PartialEq)]
pub struct ResolvedMedia {
    pub content_type: String,
    pub bytes: Vec<u8>,
}

/// The media inputs of a patch run: bindings with distinct `media_ref`s,
/// and the limits their bytes must respect.
#[derive(Clone, Debug, Eq, PartialEq)]
pub struct MediaInputs {
    pub bindings: Vec<(String, MediaBinding)>,
    pub limits: MediaLimits,
}

/// What to do with a binding that no operation refers to.
#[derive(Clone, Copy, Debug, Eq, PartialEq)]
pub enum ExtraBindingPolicy {
    Warn,
    Strict,
}

/// A binding that no operation refers to.
#[derive(Clone, Debug, Eq, PartialEq)]
pub struct MediaInputWarning {
    pub media_ref: String,
    pub message: String,
}

/// The outcome of checking the references of a patch against the bindings.
#[derive(Clone, Debug, Default, Eq, PartialEq)]
pub struct MediaInputReport {
    pub warnings: Vec<MediaInputWarning>,
}

/// The `media_ref`s of a list of bindings.
pub open spec fn binding_refs(b: Seq<(String, MediaBinding)>) -> Seq<Seq<char>> {
    b.map_values(|e: (String, MediaBinding)| e.0@)
}

/// Whether no `media_ref` is bound twice.
pub open spec fn refs_distinct(b: Seq<(String, MediaBinding)>) -> bool {
    forall|i: int, j: int| 0 <= i < j < b.len() ==> (#[trigger] b[i]).0@ != (#[trigger] b[j]).0@
}

/// The position of the binding of a `media_ref`.
pub open spec fn binding_index(b: Seq<(String, MediaBinding)>, media_ref: Seq<char>) -> Option<int> {
    if exists|i: int| 0 <= i < b.len() && (#[trigger] b[i]).0@ == media_ref {
        Some(choose|i: int| 0 <= i < b.len() && (#[trigger] b[i]).0@ == media_ref)
    } else {
        None
    }
}

/// The message for a `media_ref` that no input is bound to.
pub open spec fn missing_ref_message(media_ref: Seq<char>) -> Seq<char> {
    "No media input is bound for media_ref `"@ + media_ref + "`."@
}

fn missing_media_ref(media_ref: &str) -> (e: EditError)
    ensures
        e.code == ErrorCode::MissingMediaRef,
        e.message@ == missing_ref_message(media_ref@),
{
    let mut m = owned("No media input is bound for media_ref `");
    push_str(&mut m, media_ref);
    push_str(&mut m, "`.");
    EditError::new(ErrorCode::MissingMediaRef, m)
}

/// The first binding of a `media_ref`.
fn find_binding(bindings: &Vec<(String, MediaBinding)>, media_ref: &str) -> (r: Option<usize>)
    ensures
        r matches Some(i) ==> i < bindings@.len() && bindings@[i as int].0@ == media_ref@,
        r is None ==> forall|i: int| 0 <= i < bindings@.len() ==> (#[trigger] bindings@[i]).0@ != media_ref@,
{
    let n = bindings.len();
    let mut i: usize = 0;
    while i < n
        invariant
            i <= n,
            n == bindings@.len(),
            forall|k: int| 0 <= k < i ==> (#[trigger] bindings@[k]).0@ != media_ref@,
        decreases n - i,
    {
        if crate::text::str_eq(bindings[i].0.as_str(), media_ref) {
            return Some(i);
        }
        i = i + 1;
    }
    None
}

/// The outcome owed for media bytes of a binding: within the limit first,
/// then of the declared content type.
pub open spec fn checked_bytes(r: Result<ResolvedMedia, EditError>, media_ref: Seq<char>, b: MediaBinding, bytes: Seq<u8>, limits: MediaLimits) -> bool {
    if bytes.len() > limits.max_media_bytes {
        r matches Err(e) && e.code == ErrorCode::ResourceLimitExceeded
            && e.message@ == crate::media_inputs::limits::oversize_message(media_ref, bytes.len(), limits.max_media_bytes as nat)
    } else if crate::media_inputs::sniff::sniffed(bytes) != Some(b.content_type@) {
        r matches Err(e) && e.code == ErrorCode::UnsupportedMediaType
    } else {
        r matches Ok(m) && m.content_type@ == b.content_type@ && m.bytes@ == bytes
    }
}

impl MediaInputs {
    /// Media inputs with the default limits.
    pub fn new(bindings: Vec<(String, MediaBinding)>) -> (r: MediaInputs)
        requires
            refs_distinct(bindings@),
        ensures
            r.bindings@ == bindings@,
            r.limits.max_media_bytes == crate::media_inputs::limits::DEFAULT_MAX_MEDIA_BYTES,
    {
        MediaInputs { bindings, limits: MediaLimits { max_media_bytes: crate::media_inputs::limits::DEFAULT_MAX_MEDIA_BYTES } }
    }

    /// Media inputs with the given limits.
    pub fn with_limits(bindings: Vec<(String, MediaBinding)>, limits: MediaLimits) -> (r: MediaInputs)
        requires
            refs_distinct(bindings@),
        ensures
            r.bindings@ == bindings@,
            r.limits == limits,
    {
        MediaInputs { bindings, limits }
    }

    /// The binding of a `media_ref`.
    pub fn binding(&self, media_ref: &str) -> (r: Result<&MediaBinding, EditError>)
        ensures
            match binding_index(self.bindings@, media_ref@) {
                Some(i) => refs_distinct(self.bindings@) ==> r == Ok::<&MediaBinding, EditError>(&self.bindings@[i].1),
                None => r matches Err(e) && e.code == ErrorCode::MissingMediaRef && e.message@ == missing_ref_message(media_ref@),
            },
            r matches Ok(b) ==> exists|i: int| 0 <= i < self.bindings@.len() && self.bindings@[i].0@ == media_ref@ && *b == self.bindings@[i].1,
    {
        match find_binding(&self.bindings, media_ref) {
            Some(i) => {
                proof {
                    assert(self.bindings@[i as int].0@ == media_ref@);
                    let k = binding_index(self.bindings@, media_ref@)->0;
                    if refs_distinct(self.bindings@) && k != i {
                        if k < i {
                            assert(self.bindings@[k].0@ != self.bindings@[i as int].0@);
                        } else {
                            assert(self.bindings@[i as int].0@ != self.bindings@[k].0@);
                        }
                    }
                }
                Ok(&self.bindings[i].1)
            },
            None => Err(missing_media_ref(media_ref)),
        }
    }

    /// Checks bytes read for a binding: within the limit, and a supported
    /// raster image of the declared content type.
    pub fn check_bytes(&self, media_ref: &str, binding: &MediaBinding, bytes: Vec<u8>) -> (r: Result<ResolvedMedia, EditError>)
        ensures
            checked_bytes(r, media_ref@, *binding, bytes@, self.limits),
    {
        let len = bytes.len() as u64;
        if let Err(e) = check_size(media_ref, len, &self.limits) {
            return Err(e);
        }
        if let Err(e) = crate::media_inputs::sniff::verify_declared(binding.content_type.as_str(), bytes.as_slice()) {
            return Err(e);
        }
        Ok(ResolvedMedia { content_type: owned(binding.content_type.as_str()), bytes })
    }

    /// The bytes of the input bound to a `media_ref`, checked. Inline data is
    /// decoded here; a path is read by `read_path`, whose error is passed on.
    pub fn resolve<F: Fn(&str) -> Result<Vec<u8>, EditError>>(&self, media_ref: &str, read_path: F) -> (r: Result<ResolvedMedia, EditError>)
        requires
            refs_distinct(self.bindings@),
            forall|p: &str| #[trigger] read_path.requires((p,)),
        ensures
            match binding_index(self.bindings@, media_ref@) {
                None => r matches Err(e) && e.code == ErrorCode::MissingMediaRef && e.message@ == missing_ref_message(media_ref@),
                Some(i) => {
                    let b = self.bindings@[i].1;
                    match b.source {
                        MediaSource::Bytes(v) => checked_bytes(r, media_ref@, b, v@, self.limits),
                        MediaSource::InlineBase64(text) => match crate::media_inputs::inline::spec_decode_inline(vstd::utf8::encode_utf8(text@)) {
                            None => r matches Err(e) && e.code == ErrorCode::InvalidInput,
                            Some(bytes) => checked_bytes(r, media_ref@, b, bytes, self.limits),
                        },
                        MediaSource::Path(p) => exists|q: &str, ret: Result<Vec<u8>, EditError>| {
                            &&& q@ == p@
                            &&& read_path.ensures((q,), ret)
                            &&& match ret {
                                Err(e) => r == Err::<ResolvedMedia, EditError>(e),
                                Ok(v) => checked_bytes(r, media_ref@, b, v@, self.limits),
                            }
                        },
                    }
                },
            },
    {
        let binding = match self.binding(media_ref) {
            Ok(b) => b,
            Err(e) => return Err(e),
        };
        let bytes = match &binding.source {
            MediaSource::Path(path) => match read_path(path.as_str()) {
                Ok(b) => b,
                Err(e) => return Err(e),
            },
            MediaSource::Bytes(bytes) => bytes.clone(),
            MediaSource::InlineBase64(encoded) => match crate::media_inputs::inline::decode_inline_base64(encoded.as_str()) {
                Ok(b) => b,
                Err(e) => return Err(e),
            },
        };
        self.check_bytes(media_ref, binding, bytes)
    }
}

// ---------------------------------------------------------------------------
// Manifest paths
// ---------------------------------------------------------------------------

/// Whether a segment names a directory step rather than staying put.
pub open spec fn kept_segment(seg: Seq<char>) -> bool {
    seg.len() > 0 && seg != "."@
}

/// The segments that name directories or files: empty and `.` ones dropped.
pub open spec fn kept(segs: Seq<Seq<char>>) -> Seq<Seq<char>>
    decreases segs.len(),
{
    if segs.len() == 0 {
        Seq::empty()
    } else if kept_segment(segs.last()) {
        kept(segs.drop_last()).push(segs.last())
    } else {
        kept(segs.drop_last())
    }
}

/// Whether some segment climbs to the parent directory.
pub open spec fn climbs(segs: Seq<Seq<char>>) -> bool {
    exists|k: int| 0 <= k < segs.len() && segs[k] == ".."@
}

/// A relative path joined onto a root directory.
pub open spec fn join_root(root: Seq<char>, rel: Seq<char>) -> Seq<char> {
    if root.len() == 0 {
        rel
    } else if root.last() == '/' {
        root + rel
    } else {
        root + "/"@ + rel
    }
}

/// Where a manifest path points under the media root, or the message when
/// it is absolute or climbs out of the root.
pub open spec fn media_path(root: Seq<char>, path: Seq<char>) -> Result<Seq<char>, Seq<char>> {
    if path.len() > 0 && path[0] == '/' {
        Err("Manifest media paths must be relative to media_root."@)
    } else if climbs(split_slash(path)) {
        Err("Manifest media paths must not escape media_root."@)
    } else {
        Ok(join_root(root, crate::text::joined(kept(split_slash(path)), "/"@)))
    }
}

proof fn lemma_kept_push(segs: Seq<Seq<char>>, seg: Seq<char>)
    ensures
        kept(segs.push(seg)) == if kept_segment(seg) { kept(segs).push(seg) } else { kept(segs) },
{
    assert(segs.push(seg).drop_last() =~= segs);
}

/// Adds a finished path segment to the kept ones; `true`, adding nothing,
/// when the segment climbs to the parent directory.
fn push_segment(safe: &mut Vec<String>, seg: String) -> (climbed: bool)
    ensures
        climbed == (seg@ == ".."@),
        climbed ==> final(safe)@ == old(safe)@,
        !climbed ==> views(final(safe)@) == (if kept_segment(seg@) { views(old(safe)@).push(seg@) } else { views(old(safe)@) }),
{
    if crate::text::str_eq(seg.as_str(), "..") {
        return true;
    }
    let keep = seg.as_str().unicode_len() > 0 && !crate::text::str_eq(seg.as_str(), ".");
    let ghost pre = safe@;
    let ghost sv = seg@;
    if keep {
        safe.push(seg);
        proof {
            assert(views(safe@) =~= views(pre).push(sv));
        }
    }
    false
}

/// Resolves a manifest path under the media root. Absolute paths and paths
/// with a `..` segment are refused, so the result always stays under the
/// root; empty and `.` segments are dropped.
pub fn resolve_media_path(media_root: &str, manifest_path: &str) -> (r: Result<String, EditError>)
    ensures
        match media_path(media_root@, manifest_path@) {
            Ok(p) => r matches Ok(v) && v@ == p,
            Err(m) => r matches Err(e) && e.code == ErrorCode::UnsafePath && e.message@ == m,
        },
        r is Ok ==> forall|k: int| 0 <= k < kept(split_slash(manifest_path@)).len() ==> {
            let seg = #[trigger] kept(split_slash(manifest_path@))[k];
            seg != ".."@ && kept_segment(seg)
        },
{
    let chars = crate::text::chars_of(manifest_path);
    let n = chars.len();
    if n > 0 && chars[0] == '/' {
        return Err(EditError::new(ErrorCode::UnsafePath, owned("Manifest media paths must be relative to media_root.")));
    }
    let ghost path = manifest_path@;
    let mut safe: Vec<String> = Vec::new();
    let mut cur = String::new();
    let mut i: usize = 0;
    while i < n
        invariant
            i <= n,
            n == chars@.len(),
            chars@ == path,
            path == manifest_path@,
            !(path.len() > 0 && path[0] == '/'),
            split_slash(path.take(i as int)).last() == cur@,
            views(safe@) == kept(split_slash(path.take(i as int)).drop_last()),
            !climbs(split_slash(path.take(i as int)).drop_last()),
        decreases n - i,
    {
        proof {
            lemma_split_nonempty(path.take(i as int));
        }
        if chars[i] == '/' {
            let ghost segs = split_slash(path.take(i as int));
            let ghost last = cur@;
            let climbed = push_segment(&mut safe, cur);
            if climbed {
                proof {
                    lemma_split_prefix_climbs(path, i as int);
                }
                return Err(EditError::new(ErrorCode::UnsafePath, owned("Manifest media paths must not escape media_root.")));
            }
            proof {
                assert(segs =~= segs.drop_last().push(last));
                lemma_kept_push(segs.drop_last(), last);
                assert forall|k: int| 0 <= k < segs.len() implies segs[k] != ".."@ by {
                    if k < segs.len() - 1 {
                        assert(segs[k] == segs.drop_last()[k]);
                    }
                }
                assert(path.take(i + 1).drop_last() =~= path.take(i as int));
                assert(path.take(i + 1).last() == '/');
                assert(split_slash(path.take(i + 1)).drop_last() =~= segs);
            }
            cur = String::new();
        } else {
            let c = chars[i];
            crate::text::push_char(&mut cur, c);
            proof {
                let prev = split_slash(path.take(i as int));
                assert(path.take(i + 1).drop_last() =~= path.take(i as int));
                assert(path.take(i + 1).last() == c);
                let next = split_slash(path.take(i + 1));
                assert(next == prev.update(prev.len() - 1, prev.last().push(c)));
                assert(next.drop_last() =~= prev.drop_last());
            }
        }
        i = i + 1;
    }
    proof {
        assert(path.take(n as int) =~= path);
        lemma_split_nonempty(path);
    }
    let ghost segs = split_slash(path);
    let ghost last = cur@;
    if push_segment(&mut safe, cur) {
        proof {
            assert(segs[segs.len() - 1] == ".."@);
        }
        return Err(EditError::new(ErrorCode::UnsafePath, owned("Manifest media paths must not escape media_root.")));
    }
    proof {
        assert(segs =~= segs.drop_last().push(last));
        lemma_kept_push(segs.drop_last(), last);
        assert forall|k: int| 0 <= k < segs.len() implies segs[k] != ".."@ by {
            if k < segs.len() - 1 {
                assert(segs[k] == segs.drop_last()[k]);
            }
        }
    }
    let rel = crate::text::join_strings(&safe, "/");
    let root_chars = crate::text::chars_of(media_root);
    let m = root_chars.len();
    let mut full = owned(media_root);
    if m > 0 && root_chars[m - 1] != '/' {
        push_str(&mut full, "/");
    }
    push_str(&mut full, rel.as_str());
    proof {
        assert forall|k: int| 0 <= k < kept(split_slash(path)).len() implies {
            let seg = #[trigger] kept(split_slash(path))[k];
            seg != ".."@ && kept_segment(seg)
        } by {
            lemma_kept_members(split_slash(path), k);
        }
    }
    Ok(full)
}

proof fn lemma_kept_members(segs: Seq<Seq<char>>, k: int)
    requires
        !climbs(segs),
        0 <= k < kept(segs).len(),
    ensures
        kept(segs)[k] != ".."@,
        kept_segment(kept(segs)[k]),
    decreases segs.len(),
{
    if segs.len() > 0 {
        let d = segs.drop_last();
        assert(!climbs(d)) by {
            if climbs(d) {
                let w = choose|w: int| 0 <= w < d.len() && d[w] == ".."@;
                assert(segs[w] == ".."@);
            }
        }
        if kept_segment(segs.last()) && k == kept(d).len() {
            assert(segs[segs.len() - 1] != ".."@);
        } else {
            lemma_kept_members(d, k);
        }
    }
}

/// A `..` segment finished before position `i` makes the whole path climb.
proof fn lemma_split_prefix_climbs(path: Seq<char>, i: int)
    requires
        0 <= i < path.len(),
        path[i] == '/',
        split_slash(path.take(i)).last() == ".."@,
    ensures
        climbs(split_slash(path)),
{
    lemma_split_nonempty(path.take(i));
    let segs = split_slash(path.take(i));
    lemma_split_keeps_finished(path, i + 1, path.len() as int);
    assert(path.take(i + 1).drop_last() =~= path.take(i));
    let s1 = split_slash(path.take(i + 1));
    assert(s1 == segs.push(Seq::empty()));
    assert(s1[segs.len() - 1] == ".."@);
    assert(path.take(path.len() as int) =~= path);
    assert(split_slash(path)[segs.len() - 1] == ".."@);
}

/// Segments finished by a `/` are never changed by later characters.
proof fn lemma_split_keeps_finished(path: Seq<char>, i: int, j: int)
    requires
        0 < i <= j <= path.len(),
        path[i - 1] == '/',
    ensures
        split_slash(path.take(j)).len() >= split_slash(path.take(i)).len(),
        forall|k: int| 0 <= k < split_slash(path.take(i)).len() - 1 ==> #[trigger] split_slash(path.take(j))[k] == split_slash(path.take(i))[k],
    decreases j - i,
{
    lemma_split_nonempty(path.take(i));
    if j > i {
        lemma_split_keeps_finished(path, i, j - 1);
        lemma_split_nonempty(path.take(j - 1));
        assert(path.take(j).drop_last() =~= path.take(j - 1));
    }
}

// ---------------------------------------------------------------------------
// Bindings from a manifest
// ---------------------------------------------------------------------------

/// Whether a binding carries a manifest entry's declared checksum and length.
pub open spec fn carries_declarations(b: MediaBinding, m: ManifestMediaBinding) -> bool {
    sview(b.declared_sha256) == sview(m.sha256) && b.declared_byte_length == m.byte_length
}

/// The outcome owed for the binding of one manifest entry: inline data
/// must be base64; otherwise a path and a content type are needed and the
/// path must stay under the media root.
pub open spec fn manifest_binding_result(r: Result<MediaBinding, EditError>, m: ManifestMediaBinding, root: Seq<char>) -> bool {
    match m.inline {
        Some(inline) => if inline.encoding@ != "base64"@ {
            r matches Err(e) && e.code == ErrorCode::InvalidInput && e.message@ == "Inline media encoding must be `base64`."@
        } else {
            r matches Ok(b) && b.content_type@ == inline.content_type@ && carries_declarations(b, m)
                && (b.source matches MediaSource::InlineBase64(data) && data@ == inline.data@)
        },
        None => match m.path {
            None => r matches Err(e) && e.code == ErrorCode::InvalidInput
                && e.message@ == "Manifest media binding must contain either `path` or `inline`."@,
            Some(path) => match m.content_type {
                None => r matches Err(e) && e.code == ErrorCode::InvalidInput
                    && e.message@ == "Manifest path media binding must declare `content_type`."@,
                Some(ct) => match media_path(root, path@) {
                    Err(msg) => r matches Err(e) && e.code == ErrorCode::UnsafePath && e.message@ == msg,
                    Ok(full) => r matches Ok(b) && b.content_type@ == ct@ && carries_declarations(b, m)
                        && (b.source matches MediaSource::Path(p) && p@ == full),
                },
            },
        },
    }
}

fn clone_str_opt(o: &Option<String>) -> (r: Option<String>)
    ensures
        sview(r) == sview(*o),
{
    match o {
        Some(x) => Some(owned(x.as_str())),
        None => None,
    }
}

/// The binding of one manifest entry.
pub fn manifest_binding(binding: &ManifestMediaBinding, media_root: &str) -> (r: Result<MediaBinding, EditError>)
    ensures
        manifest_binding_result(r, *binding, media_root@),
{
    match &binding.inline {
        Some(inline) => {
            if !crate::text::str_eq(inline.encoding.as_str(), "base64") {
                return Err(EditError::new(ErrorCode::InvalidInput, owned("Inline media encoding must be `base64`.")));
            }
            Ok(MediaBinding {
                content_type: owned(inline.content_type.as_str()),
                declared_sha256: clone_str_opt(&binding.sha256),
                declared_byte_length: binding.byte_length,
                source: MediaSource::InlineBase64(owned(inline.data.as_str())),
            })
        },
        None => {
            let relative_path = match &binding.path {
                Some(p) => p,
                None => {
                    return Err(EditError::new(
                        ErrorCode::InvalidInput,
                        owned("Manifest media binding must contain either `path` or `inline`."),
                    ));
                },
            };
            let content_type = match &binding.content_type {
                Some(c) => c,
                None => {
                    return Err(EditError::new(
                        ErrorCode::InvalidInput,
                        owned("Manifest path media binding must declare `content_type`."),
                    ));
                },
            };
            let full = match resolve_media_path(media_root, relative_path.as_str()) {
                Ok(f) => f,
                Err(e) => return Err(e),
            };
            Ok(MediaBinding {
                content_type: owned(content_type.as_str()),
                declared_sha256: clone_str_opt(&binding.sha256),
                declared_byte_length: binding.byte_length,
                source: MediaSource::Path(full),
            })
        },
    }
}

/// Whether the manifest binds some `media_ref` twice.
pub open spec fn manifest_has_duplicate(m: Seq<crate::media_inputs::manifest::MediaManifestEntry>) -> bool {
    exists|i: int, j: int| 0 <= i < j < m.len() && (#[trigger] m[i]).media_ref@ == (#[trigger] m[j]).media_ref@
}

/// Why the binding of one manifest entry fails, if it does, with the error
/// code and message `manifest_binding` gives.
pub open spec fn binding_error(m: ManifestMediaBinding, root: Seq<char>) -> Option<(ErrorCode, Seq<char>)> {
    match m.inline {
        Some(inline) => if inline.encoding@ != "base64"@ {
            Some((ErrorCode::InvalidInput, "Inline media encoding must be `base64`."@))
        } else {
            None
        },
        None => match m.path {
            None => Some((ErrorCode::InvalidInput, "Manifest media binding must contain either `path` or `inline`."@)),
            Some(path) => match m.content_type {
                None => Some((ErrorCode::InvalidInput, "Manifest path media binding must declare `content_type`."@)),
                Some(_) => match media_path(root, path@) {
                    Err(msg) => Some((ErrorCode::UnsafePath, msg)),
                    Ok(_) => None,
                },
            },
        },
    }
}

/// Whether entry `k` repeats the `media_ref` of an earlier entry.
pub open spec fn repeats_earlier(m: Seq<crate::media_inputs::manifest::MediaManifestEntry>, k: int) -> bool {
    exists|a: int| 0 <= a < k && (#[trigger] m[a]).media_ref@ == m[k].media_ref@
}

/// Why entry `k` of a manifest is refused, if it is: it repeats an earlier
/// `media_ref`, or its binding fails.
pub open spec fn entry_error(m: Seq<crate::media_inputs::manifest::MediaManifestEntry>, k: int, root: Seq<char>) -> Option<(ErrorCode, Seq<char>)> {
    if repeats_earlier(m, k) {
        Some((ErrorCode::InvalidInput, "Media manifest contains duplicate media_ref `"@ + m[k].media_ref@ + "`."@))
    } else {
        binding_error(m[k].binding, root)
    }
}

/// The error of the first refused entry from `k` on, if any.
pub open spec fn manifest_error(m: Seq<crate::media_inputs::manifest::MediaManifestEntry>, root: Seq<char>, k: int) -> Option<(ErrorCode, Seq<char>)>
    decreases m.len() - k,
{
    if k < 0 || k >= m.len() {
        None
    } else {
        match entry_error(m, k, root) {
            Some(x) => Some(x),
            None => manifest_error(m, root, k + 1),
        }
    }
}

proof fn lemma_binding_error(r: Result<MediaBinding, EditError>, m: ManifestMediaBinding, root: Seq<char>)
    requires
        manifest_binding_result(r, m, root),
    ensures
        match binding_error(m, root) {
            None => r is Ok,
            Some((code, msg)) => r matches Err(e) && e.code == code && e.message@ == msg,
        },
{
}

impl MediaInputs {
    /// The media inputs a manifest binds, with the default limits. A
    /// `media_ref` bound twice is refused, as is any entry that cannot be bound.
    pub fn from_manifest(manifest: &MediaManifest, media_root: &str) -> (r: Result<MediaInputs, EditError>)
        ensures
            r is Ok <==> !manifest_has_duplicate(manifest.media@) && forall|k: int| 0 <= k < manifest.media@.len()
                ==> (exists|b: MediaBinding| manifest_binding_result(Ok::<MediaBinding, EditError>(b), #[trigger] manifest.media@[k].binding, media_root@)),
            match manifest_error(manifest.media@, media_root@, 0) {
                None => r is Ok,
                Some((code, msg)) => r matches Err(e) && e.code == code && e.message@ == msg,
            },
            r matches Ok(inputs) ==> {
                &&& inputs.bindings@.len() == manifest.media@.len()
                &&& refs_distinct(inputs.bindings@)
                &&& inputs.limits.max_media_bytes == crate::media_inputs::limits::DEFAULT_MAX_MEDIA_BYTES
                &&& forall|k: int| 0 <= k < manifest.media@.len() ==> {
                    &&& (#[trigger] inputs.bindings@[k]).0@ == manifest.media@[k].media_ref@
                    &&& manifest_binding_result(Ok::<MediaBinding, EditError>(inputs.bindings@[k].1), manifest.media@[k].binding, media_root@)
                }
            },
    {
        let entries = &manifest.media;
        let n = entries.len();
        let mut bindings: Vec<(String, MediaBinding)> = Vec::new();
        let mut i: usize = 0;
        while i < n
            invariant
                i <= n,
                n == entries@.len(),
                entries@ == manifest.media@,
                bindings@.len() == i,
                manifest_error(entries@, media_root@, 0) == manifest_error(entries@, media_root@, i as int),
                forall|a: int, b: int| 0 <= a < b < i ==> (#[trigger] entries@[a]).media_ref@ != (#[trigger] entries@[b]).media_ref@,
                forall|k: int| 0 <= k < i ==> {
                    &&& (#[trigger] bindings@[k]).0@ == entries@[k].media_ref@
                    &&& manifest_binding_result(Ok::<MediaBinding, EditError>(bindings@[k].1), entries@[k].binding, media_root@)
                },
            decreases n - i,
        {
            let entry = &entries[i];
            match find_binding(&bindings, entry.media_ref.as_str()) {
                Some(k) => {
                    proof {
                        assert(entries@[k as int].media_ref@ == entries@[i as int].media_ref@);
                        assert(repeats_earlier(entries@, i as int));
                    }
                    let mut m = owned("Media manifest contains duplicate media_ref `");
                    push_str(&mut m, entry.media_ref.as_str());
                    push_str(&mut m, "`.");
                    return Err(EditError::new(ErrorCode::InvalidInput, m));
                },
                None => {},
            }
            proof {
                assert(!repeats_earlier(entries@, i as int)) by {
                    if repeats_earlier(entries@, i as int) {
                        let a = choose|a: int| 0 <= a < i && (#[trigger] entries@[a]).media_ref@ == entries@[i as int].media_ref@;
                        assert(bindings@[a].0@ == entries@[a].media_ref@);
                    }
                }
            }
            let binding = match manifest_binding(&entry.binding, media_root) {
                Ok(b) => b,
                Err(e) => {
                    proof {
                        lemma_binding_error(Err(e), entries@[i as int].binding, media_root@);
                        assert forall|b: MediaBinding| !manifest_binding_result(Ok::<MediaBinding, EditError>(b), entries@[i as int].binding, media_root@) by {}
                    }
                    return Err(e);
                },
            };
            proof {
                lemma_binding_error(Ok::<MediaBinding, EditError>(binding), entries@[i as int].binding, media_root@);
            }
            bindings.push((owned(entry.media_ref.as_str()), binding));
            proof {
                assert forall|a: int, b: int| 0 <= a < b < i + 1 implies (#[trigger] entries@[a]).media_ref@ != (#[trigger] entries@[b]).media_ref@ by {
                    if b == i {
                        assert(bindings@[a].0@ == entries@[a].media_ref@);
                    }
                }
            }
            i = i + 1;
        }
        proof {
            assert forall|k: int| 0 <= k < n implies (exists|b: MediaBinding| manifest_binding_result(Ok::<MediaBinding, EditError>(b), #[trigger] manifest.media@[k].binding, media_root@)) by {
                assert(manifest_binding_result(Ok::<MediaBinding, EditError>(bindings@[k].1), manifest.media@[k].binding, media_root@));
            }
            assert forall|a: int, b: int| 0 <= a < b < bindings@.len() implies (#[trigger] bindings@[a]).0@ != (#[trigger] bindings@[b]).0@ by {
                assert(entries@[a].media_ref@ != entries@[b].media_ref@);
            }
        }
        Ok(MediaInputs {
            bindings,
            limits: MediaLimits { max_media_bytes: crate::media_inputs::limits::DEFAULT_MAX_MEDIA_BYTES },
        })
    }

    /// Checks the media references of a patch against the bindings: every
    /// reference must be bound; a binding no reference uses is an error under
    /// the strict policy and a warning otherwise.
    pub fn check_references(&self, referenced_media: &[&str], extra_policy: ExtraBindingPolicy) -> (r: Result<MediaInputReport, EditError>)
        ensures
            ({
                let refs = referenced_media@;
                let bound = binding_refs(self.bindings@);
                let missing = exists|i: int| 0 <= i < refs.len() && !bound.contains((#[trigger] refs[i])@);
                let extra = exists|j: int| 0 <= j < bound.len() && !is_referenced(refs, #[trigger] bound[j]);
                &&& missing ==> (r matches Err(e) && e.code == ErrorCode::MissingMediaRef)
                &&& !missing && extra && extra_policy == ExtraBindingPolicy::Strict ==> (r matches Err(e) && e.code == ErrorCode::InvalidInput)
                &&& r is Ok <==> !missing && (!extra || extra_policy == ExtraBindingPolicy::Warn)
                &&& r matches Ok(report) ==> views(warned_refs(report.warnings@)) == unreferenced(bound, refs)
            }),
    {
        let refs = referenced_media;
        let nr = refs.len();
        let mut i: usize = 0;
        while i < nr
            invariant
                i <= nr,
                nr == refs@.len(),
                refs@ == referenced_media@,
                forall|k: int| 0 <= k < i ==> binding_refs(self.bindings@).contains((#[trigger] refs@[k])@),
            decreases nr - i,
        {
            let r = refs[i];
            match find_binding(&self.bindings, r) {
                Some(k) => {
                    proof {
                        assert(binding_refs(self.bindings@)[k as int] == r@);
                    }
                },
                None => {
                    proof {
                        assert(!binding_refs(self.bindings@).contains(r@)) by {
                            if binding_refs(self.bindings@).contains(r@) {
                                let t = choose|t: int| 0 <= t < binding_refs(self.bindings@).len() && binding_refs(self.bindings@)[t] == r@;
                                assert(self.bindings@[t].0@ == r@);
                            }
                        }
                        assert(!binding_refs(self.bindings@).contains(refs@[i as int]@));
                        assert(exists|k: int| 0 <= k < referenced_media@.len() && !binding_refs(self.bindings@).contains((#[trigger] referenced_media@[k])@));
                    }
                    return Err(missing_media_ref(r));
                },
            }
            i = i + 1;
        }
        let nb = self.bindings.len();
        let mut warnings: Vec<MediaInputWarning> = Vec::new();
        let mut j: usize = 0;
        let ghost bound = binding_refs(self.bindings@);
        while j < nb
            invariant
                j <= nb,
                nb == self.bindings@.len(),
                bound == binding_refs(self.bindings@),
                nr == refs@.len(),
                refs@ == referenced_media@,
                forall|k: int| 0 <= k < nr ==> bound.contains((#[trigger] refs@[k])@),
                extra_policy == ExtraBindingPolicy::Strict ==> forall|k: int| 0 <= k < j ==> is_referenced(refs@, #[trigger] bound[k]),
                views(warned_refs(warnings@)) == unreferenced(bound.take(j as int), refs@),
            decreases nb - j,
        {
            let media_ref = self.bindings[j].0.as_str();
            let used = referenced_in(refs, media_ref);
            proof {
                assert(bound[j as int] == media_ref@);
                assert(bound.take(j + 1).drop_last() =~= bound.take(j as int));
                assert(bound.take(j + 1).last() == media_ref@);
            }
            if !used {
                let mut m = owned("Media input `");
                push_str(&mut m, media_ref);
                push_str(&mut m, "` is bound but not referenced.");
                if matches!(extra_policy, ExtraBindingPolicy::Strict) {
                    proof {
                        assert(!is_referenced(refs@, bound[j as int]));
                        assert(exists|k: int| 0 <= k < bound.len() && !is_referenced(referenced_media@, #[trigger] bound[k]));
                        assert(!(exists|k: int| 0 <= k < referenced_media@.len() && !binding_refs(self.bindings@).contains((#[trigger] referenced_media@[k])@)));
                        assert(forall|i: int| 0 <= i < refs@.len() ==> bound.contains((#[trigger] refs@[i])@));
                    }
                    return Err(EditError::new(ErrorCode::InvalidInput, m));
                }
                let ghost pre = warnings@;
                warnings.push(MediaInputWarning { media_ref: owned(media_ref), message: m });
                proof {
                    assert(warned_refs(warnings@) =~= warned_refs(pre).push(warnings@.last().media_ref));
                    assert(views(warned_refs(warnings@)) =~= views(warned_refs(pre)).push(media_ref@));
                }
            }
            j = j + 1;
        }
        proof {
            assert(bound.take(nb as int) =~= bound);
        }
        Ok(MediaInputReport { warnings })
    }
}

/// Whether a `media_ref` is among the references.
pub open spec fn is_referenced(refs: Seq<&str>, media_ref: Seq<char>) -> bool {
    exists|i: int| 0 <= i < refs.len() && (#[trigger] refs[i])@ == media_ref
}

/// The bound references that no reference uses, in binding order.
pub open spec fn unreferenced(bound: Seq<Seq<char>>, refs: Seq<&str>) -> Seq<Seq<char>>
    decreases bound.len(),
{
    if bound.len() == 0 {
        Seq::empty()
    } else if is_referenced(refs, bound.last()) {
        unreferenced(bound.drop_last(), refs)
    } else {
        unreferenced(bound.drop_last(), refs).push(bound.last())
    }
}

/// The `media_ref`s of warnings.
pub open spec fn warned_refs(w: Seq<MediaInputWarning>) -> Seq<String> {
    w.map_values(|x: MediaInputWarning| x.media_ref)
}

fn referenced_in(refs: &[&str], media_ref: &str) -> (r: bool)
    ensures
        r == is_referenced(refs@, media_ref@),
{
    let n = refs.len();
    let mut i: usize = 0;
    while i < n
        invariant
            i <= n,
            n == refs@.len(),
            forall|k: int| 0 <= k < i ==> (#[trigger] refs@[k])@ != media_ref@,
        decreases n - i,
    {
        if crate::text::str_eq(refs[i], media_ref) {
            return true;
        }
        i = i + 1;
    }
    false
}

} // verus!
