//! Discovery of lyrics sidecars next to an audio file.

use crate::lyrics::document::{LyricsDocument, LyricsValidationError};
use crate::lyrics::legacy::{upgraded, LegacyLyricsDocument};
use crate::lyrics::validate::document_valid;
use crate::paths::{
    file_name, path_equals, path_file_name, path_with_extension, path_with_file_name, paths_equal,
    with_extension, with_file_name,
};
use crate::text::append_str;
use vstd::prelude::*;

verus! {

/// A validated document together with the sidecar it came from.
#[derive(Debug, Clone)]
pub struct LoadedLyrics {
    pub document: LyricsDocument,
    pub path: String,
}

/// The sidecar candidates for `audio`, in precedence order: the canonical
/// `<audio-filename>.wlyric.json`, then `<stem>.wlyric.json` unless it is
/// the same path (compared as paths, component by component).
pub open spec fn sidecar_paths(audio: Seq<char>) -> Seq<Seq<char>> {
    let canonical = match path_file_name(audio) {
        Some(name) => seq![path_with_file_name(audio, name + ".wlyric.json"@)],
        None => Seq::empty(),
    };
    let fallback = path_with_extension(audio, "wlyric.json"@);
    if canonical.len() == 1 && path_equals(canonical[0], fallback) {
        canonical
    } else {
        canonical.push(fallback)
    }
}

pub fn lyric_sidecar_paths(audio_path: &str) -> (candidates: Vec<String>)
    ensures
        candidates@.len() == sidecar_paths(audio_path@).len(),
        forall|i: int| 0 <= i < candidates@.len() ==> #[trigger] candidates@[i]@ == sidecar_paths(audio_path@)[i],
{
    let mut candidates: Vec<String> = Vec::new();
    let ghost canonical: Seq<Seq<char>> = Seq::empty();
    if let Some(name) = file_name(audio_path) {
        let mut sidecar_name = name.clone();
        append_str(&mut sidecar_name, ".wlyric.json");
        candidates.push(with_file_name(audio_path, sidecar_name.as_str()));
        proof {
            canonical = seq![candidates@[0]@];
        }
    }
    assert(canonical == match path_file_name(audio_path@) {
        Some(name) => seq![path_with_file_name(audio_path@, name + ".wlyric.json"@)],
        None => Seq::<Seq<char>>::empty(),
    });
    assert(candidates@.len() == canonical.len());
    assert(candidates@.len() == 1 ==> candidates@[0]@ == canonical[0]);
    proof {
        reveal_strlit("wlyric.json");
    }
    let fallback = with_extension(audio_path, "wlyric.json");
    let duplicate = candidates.len() == 1 && paths_equal(candidates[0].as_str(), fallback.as_str());
    if !duplicate {
        candidates.push(fallback);
    }
    candidates
}


/// Largest sidecar (bytes) that is read.
pub const MAX_LYRICS_FILE_BYTES: u64 = 4_194_304;

/// Why the lyrics of a track could not be loaded.
#[derive(Debug, Clone)]
pub enum LyricsLoadError {
    /// The track URI does not name a local file.
    InvalidUri,
    /// The sidecar could not be read.
    Io { path: String, message: String },
    /// The sidecar exceeds 4 MiB.
    TooLarge { path: String },
    /// The sidecar is not UTF-8.
    Utf8 { path: String, message: String },
    /// The sidecar is not JSON of either format.
    Json { path: String, message: String },
    /// The document breaks the format's rules.
    Validation { path: String, source: LyricsValidationError },
}

/// A sidecar decoded as one of the two formats: a document with `lines`
/// is the legacy draft.
#[derive(Debug, Clone)]
pub enum ParsedLyrics {
    Current(LyricsDocument),
    Legacy(LegacyLyricsDocument),
}

/// A sidecar of `length` bytes may be decoded: at most 4 MiB.
pub fn check_lyrics_size(path: &String, length: u64) -> (r: Result<(), LyricsLoadError>)
    ensures
        r is Ok <==> length <= MAX_LYRICS_FILE_BYTES,
        r matches Err(e) ==> e matches LyricsLoadError::TooLarge { path: p } && p@ == path@,
{
    if length > MAX_LYRICS_FILE_BYTES {
        Err(LyricsLoadError::TooLarge { path: path.clone() })
    } else {
        Ok(())
    }
}

/// The lyrics a decoded sidecar yields: a current document as it is, a
/// legacy draft upgraded; either must then be valid.
pub fn accept_sidecar(path: String, parsed: ParsedLyrics) -> (r: Result<LoadedLyrics, LyricsLoadError>)
    ensures
        r matches Ok(loaded) ==> loaded.path@ == path@ && document_valid(loaded.document),
        r matches Err(e) ==> e matches LyricsLoadError::Validation { path: p, .. } && p@ == path@,
        match parsed {
            ParsedLyrics::Current(d) => {
                &&& r is Ok <==> document_valid(d)
                &&& r matches Ok(loaded) ==> loaded.document == d
            },
            ParsedLyrics::Legacy(l) => {
                &&& !(l.format@ == "wavora-lyrics"@ && l.version == 1) ==> r is Err
                &&& (l.format@ == "wavora-lyrics"@ && l.version == 1) ==> exists|d: LyricsDocument|
                    {
                        &&& #[trigger] upgraded(l, d)
                        &&& (r is Ok <==> document_valid(d))
                        &&& (r matches Ok(loaded) ==> loaded.document == d)
                    }
            },
        },
{
    let document = match parsed {
        ParsedLyrics::Current(d) => d,
        ParsedLyrics::Legacy(l) => {
            match l.upgrade() {
                Ok(d) => d,
                Err(source) => return Err(LyricsLoadError::Validation { path, source }),
            }
        },
    };
    match document.validate() {
        Ok(()) => Ok(LoadedLyrics { document, path }),
        Err(source) => Err(LyricsLoadError::Validation { path, source }),
    }
}

} // verus!
