//! The lyrics document model (format 1.x).

use crate::text::text_is;
use vstd::prelude::*;

verus! {

pub const WAVORA_LYRICS_FORMAT: &'static str = "wavora-lyrics";

pub const WAVORA_LYRICS_VERSION: &'static str = "1.0";

/// Largest integer that every JSON implementation represents exactly.
pub const JSON_SAFE_INTEGER_MAX: u64 = 9_007_199_254_740_991;

pub const MAX_LYRIC_TRACKS: usize = 64;

pub const MAX_LYRIC_CUES: usize = 20_000;

pub const MAX_LYRIC_TEXTS_PER_CUE: usize = 16;

pub const MAX_LYRIC_SEGMENTS_PER_TEXT: usize = 2_000;

#[derive(Debug, Clone, PartialEq, Eq)]
pub struct LyricsDocument {
    pub schema: Option<String>,
    pub format: String,
    pub version: String,
    pub required_features: Vec<String>,
    pub offset_ms: i64,
    pub media: Option<LyricsMedia>,
    pub metadata: LyricsMetadata,
    pub tracks: Vec<LyricTrack>,
    pub cues: Vec<LyricCue>,
}

#[derive(Debug, Clone, PartialEq, Eq)]
pub struct LyricsMetadata {
    pub title: Option<String>,
    pub artist: Option<String>,
    pub album: Option<String>,
    pub contributors: Vec<LyricsContributor>,
    pub source: Option<LyricsSource>,
    pub rights: Option<LyricsRights>,
}

#[derive(Debug, Clone, PartialEq, Eq)]
pub struct LyricsContributor {
    pub name: String,
    pub role: String,
}

#[derive(Debug, Clone, PartialEq, Eq)]
pub struct LyricsSource {
    pub name: Option<String>,
    pub uri: Option<String>,
}

#[derive(Debug, Clone, PartialEq, Eq)]
pub struct LyricsRights {
    pub copyright: Option<String>,
    pub license: Option<String>,
    pub license_uri: Option<String>,
}

#[derive(Debug, Clone, PartialEq, Eq)]
pub struct LyricsMedia {
    pub duration_ms: Option<u64>,
    pub fingerprints: Vec<LyricsFingerprint>,
}

#[derive(Debug, Clone, PartialEq, Eq)]
pub struct LyricsFingerprint {
    pub algorithm: String,
    pub value: String,
}

#[derive(Debug, Clone, PartialEq, Eq)]
pub struct LyricTrack {
    pub id: String,
    pub role: String,
    pub label: Option<String>,
    pub language: Option<String>,
    pub direction: Option<String>,
}

#[derive(Debug, Clone, PartialEq, Eq)]
pub struct LyricCue {
    pub id: String,
    pub track_id: String,
    pub start_ms: u64,
    pub end_ms: Option<u64>,
    pub texts: Vec<LyricText>,
}

#[derive(Debug, Clone, PartialEq, Eq)]
pub struct LyricText {
    pub kind: String,
    pub language: Option<String>,
    pub direction: Option<String>,
    pub text: String,
    pub segments: Vec<LyricSegment>,
}

#[derive(Debug, Clone, PartialEq, Eq)]
pub struct LyricSegment {
    pub start_ms: u64,
    pub end_ms: u64,
    pub text: String,
}

/// Why a document cannot be interpreted deterministically.
#[derive(Debug, Clone, PartialEq, Eq)]
pub struct LyricsValidationError(pub String);

impl LyricsValidationError {
    /// The field-specific explanation.
    pub fn to_string(&self) -> (text: String)
        ensures
            text@ == self.0@,
    {
        self.0.clone()
    }
}

impl Default for LyricsMetadata {
    fn default() -> (metadata: LyricsMetadata)
        ensures
            metadata.title is None,
            metadata.artist is None,
            metadata.album is None,
            metadata.contributors@.len() == 0,
            metadata.source is None,
            metadata.rights is None,
    {
        LyricsMetadata {
            title: None,
            artist: None,
            album: None,
            contributors: Vec::new(),
            source: None,
            rights: None,
        }
    }
}

impl Default for LyricsSource {
    fn default() -> (source: LyricsSource)
        ensures
            source.name is None,
            source.uri is None,
    {
        LyricsSource { name: None, uri: None }
    }
}

impl Default for LyricsRights {
    fn default() -> (rights: LyricsRights)
        ensures
            rights.copyright is None,
            rights.license is None,
            rights.license_uri is None,
    {
        LyricsRights { copyright: None, license: None, license_uri: None }
    }
}

impl Default for LyricsMedia {
    fn default() -> (media: LyricsMedia)
        ensures
            media.duration_ms is None,
            media.fingerprints@.len() == 0,
    {
        LyricsMedia { duration_ms: None, fingerprints: Vec::new() }
    }
}

/// Whether a text variant is the cue's original text.
pub open spec fn is_original(text: LyricText) -> bool {
    text.kind@ == "original"@
}

/// The index of the first original text among `texts`.
pub open spec fn first_original(texts: Seq<LyricText>) -> Option<int> {
    if exists|i: int| 0 <= i < texts.len() && is_original(#[trigger] texts[i]) {
        Some(
            choose|i: int|
                0 <= i < texts.len() && is_original(texts[i]) && forall|j: int|
                    0 <= j < i ==> !is_original(#[trigger] texts[j]),
        )
    } else {
        None
    }
}

impl LyricCue {
    /// The cue's original text (the first one of kind `original`).
    pub fn original_text(&self) -> (text: Option<&LyricText>)
        ensures
            match first_original(self.texts@) {
                Some(i) => text == Some(&self.texts@[i]),
                None => text is None,
            },
    {
        let mut i: usize = 0;
        while i < self.texts.len()
            invariant
                i <= self.texts@.len(),
                forall|j: int| 0 <= j < i ==> !is_original(#[trigger] self.texts@[j]),
            decreases self.texts@.len() - i,
        {
            if text_is(self.texts[i].kind.as_str(), "original") {
                proof {
                    assert(is_original(self.texts@[i as int]));
                    let k = choose|k: int|
                        0 <= k < self.texts@.len() && is_original(self.texts@[k]) && forall|j: int|
                            0 <= j < k ==> !is_original(#[trigger] self.texts@[j]);
                    if k < i {
                    } else if k > i {
                        assert(!is_original(self.texts@[i as int]));
                    }
                }
                return Some(&self.texts[i]);
            }
            i = i + 1;
        }
        None
    }
}

} // verus!
