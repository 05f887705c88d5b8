//! Media manifests: the bindings of media references to files or inline data.
use vstd::prelude::*;

verus! {

/// The schema name of a media manifest.
pub const MEDIA_MANIFEST_SCHEMA: &'static str = "pptx-compose.media_manifest.v1";

/// The version of a media manifest.
pub const MEDIA_MANIFEST_VERSION: u32 = 1;

/// A media manifest, entries in the order they appear (duplicates kept, so
/// that binding can reject them).
#[derive(Clone, Debug, Eq, PartialEq)]
pub struct MediaManifest {
    pub schema: String,
    pub version: u32,
    pub media: Vec<MediaManifestEntry>,
}

/// One entry of a manifest.
#[derive(Clone, Debug, Eq, PartialEq)]
pub struct MediaManifestEntry {
    pub media_ref: String,
    pub binding: ManifestMediaBinding,
}

/// How a manifest binds one media reference: a path relative to the media
/// root, or inline data.
#[derive(Clone, Debug, Eq, PartialEq)]
pub struct ManifestMediaBinding {
    pub path: Option<String>,
    pub content_type: Option<String>,
    pub inline: Option<InlineMedia>,
    pub sha256: Option<String>,
    pub byte_length: Option<u64>,
}

/// Inline media data.
#[derive(Clone, Debug, Eq, PartialEq)]
pub struct InlineMedia {
    pub encoding: String,
    pub content_type: String,
    pub data: String,
}

} // verus!
