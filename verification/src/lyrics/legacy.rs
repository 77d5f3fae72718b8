//! The earlier line-based draft of the lyrics format (numeric `version: 1`
//! with `lines`, `translation` and `words`), upgraded in memory to the 1.x
//! model: one `main` track, text variants and timed segments.

use crate::lyrics::document::{
    LyricCue, LyricSegment, LyricText, LyricTrack, LyricsContributor, LyricsDocument,
    LyricsMetadata, LyricsRights, LyricsSource, LyricsValidationError, WAVORA_LYRICS_FORMAT,
    WAVORA_LYRICS_VERSION,
};
use crate::text::{append_str, decimal, decimal_text, push_char, text_is};
use vstd::prelude::*;

verus! {

#[derive(Debug, Clone, PartialEq, Eq)]
pub struct LegacyLyricsDocument {
    pub format: String,
    pub version: u32,
    pub offset_ms: i64,
    pub metadata: LegacyLyricsMetadata,
    pub lines: Vec<LegacyLyricLine>,
}

#[derive(Debug, Clone, PartialEq, Eq)]
pub struct LegacyLyricsMetadata {
    pub title: Option<String>,
    pub artist: Option<String>,
    pub album: Option<String>,
    pub language: Option<String>,
    pub author: Option<String>,
    pub source: Option<String>,
    pub copyright: Option<String>,
}

#[derive(Debug, Clone, PartialEq, Eq)]
pub struct LegacyLyricLine {
    pub start_ms: u64,
    pub end_ms: Option<u64>,
    pub text: String,
    pub translation: Option<String>,
    pub words: Vec<LegacyLyricWord>,
}

#[derive(Debug, Clone, PartialEq, Eq)]
pub struct LegacyLyricWord {
    pub start_ms: u64,
    pub end_ms: u64,
    pub text: String,
}

impl Default for LegacyLyricsMetadata {
    fn default() -> (metadata: LegacyLyricsMetadata)
        ensures
            metadata.title is None && metadata.artist is None && metadata.album is None,
            metadata.language is None && metadata.author is None,
            metadata.source is None && metadata.copyright is None,
    {
        LegacyLyricsMetadata {
            title: None,
            artist: None,
            album: None,
            language: None,
            author: None,
            source: None,
            copyright: None,
        }
    }
}

/// `s` left-padded with `0` to at least `width` characters.
pub open spec fn zero_padded(s: Seq<char>, width: nat) -> Seq<char> {
    if s.len() >= width {
        s
    } else {
        Seq::new((width - s.len()) as nat, |i: int| '0') + s
    }
}

/// The identifier that the upgrade gives the cue of line `index`.
pub open spec fn legacy_cue_id(index: nat) -> Seq<char> {
    "legacy-"@ + zero_padded(decimal(index), 5)
}

/// The text view of an optional string.
pub open spec fn opt_text(o: Option<String>) -> Option<Seq<char>> {
    match o {
        Some(s) => Some(s@),
        None => None,
    }
}

/// The segment that a legacy word becomes.
pub open spec fn segment_of(word: LegacyLyricWord, segment: LyricSegment) -> bool {
    segment.start_ms == word.start_ms && segment.end_ms == word.end_ms && segment.text@
        == word.text@
}

/// The cue that a legacy line becomes.
pub open spec fn cue_of(line: LegacyLyricLine, index: nat, cue: LyricCue) -> bool {
    let texts = cue.texts@;
    let original = texts[0];
    &&& cue.id@ == legacy_cue_id(index)
    &&& cue.track_id@ == "main"@
    &&& cue.start_ms == line.start_ms
    &&& cue.end_ms == line.end_ms
    &&& texts.len() == if line.translation is Some {
        2nat
    } else {
        1nat
    }
    &&& original.kind@ == "original"@
    &&& original.language is None
    &&& original.direction is None
    &&& original.text@ == line.text@
    &&& original.segments@.len() == line.words@.len()
    &&& forall|w: int|
        0 <= w < line.words@.len() ==> #[trigger] segment_of(
            line.words@[w],
            original.segments@[w],
        )
    &&& (line.translation matches Some(t) ==> {
        let translation = texts[1];
        &&& translation.kind@ == "translation"@
        &&& opt_text(translation.language) == Some("und"@)
        &&& translation.direction is None
        &&& translation.text@ == t@
        &&& translation.segments@.len() == 0
    })
}

/// The full result of upgrading `legacy`.
pub open spec fn upgraded(legacy: LegacyLyricsDocument, d: LyricsDocument) -> bool {
    let m = d.metadata;
    let lm = legacy.metadata;
    let track = d.tracks@[0];
    &&& d.schema is None
    &&& d.format@ == WAVORA_LYRICS_FORMAT@
    &&& d.version@ == WAVORA_LYRICS_VERSION@
    &&& d.required_features@.len() == 0
    &&& d.offset_ms == legacy.offset_ms
    &&& d.media is None
    &&& opt_text(m.title) == opt_text(lm.title)
    &&& opt_text(m.artist) == opt_text(lm.artist)
    &&& opt_text(m.album) == opt_text(lm.album)
    &&& m.contributors@.len() == if lm.author is Some {
        1nat
    } else {
        0nat
    }
    &&& (lm.author matches Some(a) ==> m.contributors@[0].name@ == a@
        && m.contributors@[0].role@ == "transcriber"@)
    &&& (match lm.source {
        Some(s) => m.source matches Some(src) && opt_text(src.name) == Some(s@) && src.uri is None,
        None => m.source is None,
    })
    &&& (match lm.copyright {
        Some(c) => m.rights matches Some(r) && opt_text(r.copyright) == Some(c@) && r.license is None
            && r.license_uri is None,
        None => m.rights is None,
    })
    &&& d.tracks@.len() == 1
    &&& track.id@ == "main"@
    &&& track.role@ == "main"@
    &&& track.label is None
    &&& opt_text(track.language) == Some(
        match lm.language {
            Some(l) => l@,
            None => "und"@,
        },
    )
    &&& track.direction is None
    &&& d.cues@.len() == legacy.lines@.len()
    &&& forall|i: int|
        0 <= i < legacy.lines@.len() ==> #[trigger] cue_of(legacy.lines@[i], i as nat, d.cues@[i])
}

/// An owned copy of a literal.
fn owned(literal: &str) -> (s: String)
    ensures
        s@ == literal@,
{
    let mut s = String::new();
    append_str(&mut s, literal);
    s
}

/// The cue identifier for line `index`.
fn cue_id(index: usize) -> (id: String)
    ensures
        id@ == legacy_cue_id(index as nat),
{
    let digits = decimal_text(index as u64);
    let mut id = owned("legacy-");
    let ghost prefix = id@;
    let mut padding: usize = if digits.as_str().unicode_len() < 5 {
        5 - digits.as_str().unicode_len()
    } else {
        0
    };
    let ghost zeros = Seq::new(padding as nat, |i: int| '0');
    let mut written: usize = 0;
    while written < padding
        invariant
            written <= padding,
            zeros == Seq::new(padding as nat, |i: int| '0'),
            id@ == prefix + zeros.take(written as int),
        decreases padding - written,
    {
        push_char(&mut id, '0');
        assert(zeros.take(written + 1) == zeros.take(written as int).push('0'));
        written = written + 1;
    }
    assert(zeros.take(padding as int) == zeros);
    append_str(&mut id, digits.as_str());
    proof {
        assert(digits@ == decimal(index as nat));
        if decimal(index as nat).len() >= 5 {
            assert(zeros =~= Seq::<char>::empty());
        }
        assert(id@ =~= "legacy-"@ + zero_padded(decimal(index as nat), 5));
    }
    id
}

fn clone_opt(o: &Option<String>) -> (c: Option<String>)
    ensures
        opt_text(c) == opt_text(*o),
{
    match o {
        Some(s) => Some(s.clone()),
        None => None,
    }
}

fn upgrade_line(line: &LegacyLyricLine, index: usize) -> (cue: LyricCue)
    ensures
        cue_of(*line, index as nat, cue),
{
    let mut segments: Vec<LyricSegment> = Vec::new();
    let mut w: usize = 0;
    while w < line.words.len()
        invariant
            w <= line.words@.len(),
            segments@.len() == w,
            forall|v: int| 0 <= v < w ==> #[trigger] segment_of(line.words@[v], segments@[v]),
        decreases line.words@.len() - w,
    {
        let word = &line.words[w];
        segments.push(
            LyricSegment { start_ms: word.start_ms, end_ms: word.end_ms, text: word.text.clone() },
        );
        w = w + 1;
    }
    let mut texts: Vec<LyricText> = Vec::new();
    texts.push(
        LyricText {
            kind: owned("original"),
            language: None,
            direction: None,
            text: line.text.clone(),
            segments,
        },
    );
    if let Some(translation) = &line.translation {
        texts.push(
            LyricText {
                kind: owned("translation"),
                language: Some(owned("und")),
                direction: None,
                text: translation.clone(),
                segments: Vec::new(),
            },
        );
    }
    LyricCue {
        id: cue_id(index),
        track_id: owned("main"),
        start_ms: line.start_ms,
        end_ms: line.end_ms,
        texts,
    }
}

impl LegacyLyricsDocument {
    /// Upgrades the draft to a 1.x document. Only the draft's own format
    /// name with version 1 is accepted.
    pub fn upgrade(self) -> (r: Result<LyricsDocument, LyricsValidationError>)
        ensures
            r is Ok <==> (self.format@ == WAVORA_LYRICS_FORMAT@ && self.version == 1),
            r matches Ok(d) ==> upgraded(self, d),
    {
        if !text_is(self.format.as_str(), WAVORA_LYRICS_FORMAT) || self.version != 1 {
            return Err(
                LyricsValidationError(
                    owned("legacy lyrics must use format \"wavora-lyrics\" and version 1"),
                ),
            );
        }
        let language = match &self.metadata.language {
            Some(l) => l.clone(),
            None => owned("und"),
        };
        let mut contributors: Vec<LyricsContributor> = Vec::new();
        if let Some(author) = &self.metadata.author {
            contributors.push(LyricsContributor { name: author.clone(), role: owned("transcriber") });
        }
        let source = match &self.metadata.source {
            Some(name) => Some(LyricsSource { name: Some(name.clone()), uri: None }),
            None => None,
        };
        let rights = match &self.metadata.copyright {
            Some(copyright) => Some(
                LyricsRights { copyright: Some(copyright.clone()), license: None, license_uri: None },
            ),
            None => None,
        };
        let mut cues: Vec<LyricCue> = Vec::new();
        let mut i: usize = 0;
        while i < self.lines.len()
            invariant
                i <= self.lines@.len(),
                cues@.len() == i,
                forall|k: int| 0 <= k < i ==> #[trigger] cue_of(self.lines@[k], k as nat, cues@[k]),
            decreases self.lines@.len() - i,
        {
            cues.push(upgrade_line(&self.lines[i], i));
            i = i + 1;
        }
        let mut tracks: Vec<LyricTrack> = Vec::new();
        tracks.push(
            LyricTrack {
                id: owned("main"),
                role: owned("main"),
                label: None,
                language: Some(language),
                direction: None,
            },
        );
        let document = LyricsDocument {
            schema: None,
            format: owned(WAVORA_LYRICS_FORMAT),
            version: owned(WAVORA_LYRICS_VERSION),
            required_features: Vec::new(),
            offset_ms: self.offset_ms,
            media: None,
            metadata: LyricsMetadata {
                title: clone_opt(&self.metadata.title),
                artist: clone_opt(&self.metadata.artist),
                album: clone_opt(&self.metadata.album),
                contributors,
                source,
                rights,
            },
            tracks,
            cues,
        };
        Ok(document)
    }
}

} // verus!
