//! Document-level validation of the lyrics format: feature negotiation,
//! metadata, media binding, tracks, cue ordering and overlap, text variants
//! and timed segments.

use crate::lyrics::document::{
    is_original, JSON_SAFE_INTEGER_MAX, LyricCue, LyricSegment, LyricText, LyricTrack,
    LyricsContributor, LyricsDocument, LyricsFingerprint, LyricsMedia, LyricsMetadata,
    LyricsRights, LyricsSource, LyricsValidationError, MAX_LYRIC_CUES, MAX_LYRIC_SEGMENTS_PER_TEXT,
    MAX_LYRIC_TEXTS_PER_CUE, MAX_LYRIC_TRACKS, WAVORA_LYRICS_FORMAT,
};
use crate::lyrics::fields::{
    debug_quoted, either, error_of, identifier_error, opt_direction_error, opt_language_error,
    opt_text_error, opt_uri_error, text_error, timestamp_error, uri_error, version_error,
    field_at, lyrics_error, opt_direction_ok, opt_language_ok, opt_text_ok, opt_uri_ok, opt_view,
    quoted, timestamp_ok, valid_identifier, valid_text, valid_version, validate_absolute_uri,
    validate_identifier, validate_optional_direction, validate_optional_language,
    validate_optional_text, validate_optional_uri, validate_text, validate_timestamp,
    validate_version,
};
use crate::text::{char_is_hex_digit, chars_of, decimal, is_hex_digit, text_is};
use vstd::prelude::*;

verus! {

// ---------------------------------------------------------------------------
// The rules, stated over the document's values.
// ---------------------------------------------------------------------------

/// The feature identifiers that this reader understands.
pub open spec fn supported_feature(f: Seq<char>) -> bool {
    ||| f == "media-binding"@
    ||| f == "multi-track"@
    ||| f == "text-variants"@
    ||| f == "timed-segments"@
}

/// Required features are identifiers, supported, and listed once each.
pub open spec fn features_ok(fs: Seq<String>) -> bool {
    &&& forall|i: int|
        0 <= i < fs.len() ==> valid_identifier(#[trigger] fs[i]@) && supported_feature(fs[i]@)
    &&& forall|i: int, j: int| 0 <= i < j < fs.len() ==> #[trigger] fs[i]@ != #[trigger] fs[j]@
}

pub open spec fn contributor_ok(c: LyricsContributor) -> bool {
    valid_text(c.name@, false) && valid_identifier(c.role@)
}

pub open spec fn source_ok(s: Option<LyricsSource>) -> bool {
    match s {
        Some(s) => (s.name is Some || s.uri is Some) && opt_text_ok(s.name) && opt_uri_ok(s.uri),
        None => true,
    }
}

pub open spec fn rights_ok(r: Option<LyricsRights>) -> bool {
    match r {
        Some(r) => (r.copyright is Some || r.license is Some || r.license_uri is Some)
            && opt_text_ok(r.copyright) && opt_text_ok(r.license) && opt_uri_ok(r.license_uri),
        None => true,
    }
}

pub open spec fn metadata_ok(m: LyricsMetadata) -> bool {
    &&& opt_text_ok(m.title)
    &&& opt_text_ok(m.artist)
    &&& opt_text_ok(m.album)
    &&& forall|i: int|
        0 <= i < m.contributors@.len() ==> #[trigger] contributor_ok(m.contributors@[i])
    &&& source_ok(m.source)
    &&& rights_ok(m.rights)
}

/// Every character is a hexadecimal digit.
pub open spec fn all_hex(s: Seq<char>) -> bool {
    forall|i: int| 0 <= i < s.len() ==> #[trigger] is_hex_digit(s[i])
}

pub open spec fn fingerprint_ok(f: LyricsFingerprint) -> bool {
    &&& valid_identifier(f.algorithm@)
    &&& valid_text(f.value@, false)
    &&& f.algorithm@ == "wavora-pcm-signature-v1"@ ==> f.value@.len() == 64 && all_hex(f.value@)
}

pub open spec fn media_ok(m: LyricsMedia) -> bool {
    &&& (m.duration_ms matches Some(d) ==> timestamp_ok(d))
    &&& m.fingerprints@.len() <= 16
    &&& forall|i: int|
        0 <= i < m.fingerprints@.len() ==> #[trigger] fingerprint_ok(m.fingerprints@[i])
    &&& forall|i: int, j: int|
        0 <= i < j < m.fingerprints@.len() ==> #[trigger] m.fingerprints@[i].algorithm@
            != #[trigger] m.fingerprints@[j].algorithm@
}

pub open spec fn track_ok(t: LyricTrack) -> bool {
    &&& valid_identifier(t.id@)
    &&& valid_identifier(t.role@)
    &&& opt_text_ok(t.label)
    &&& opt_language_ok(t.language)
    &&& opt_direction_ok(t.direction)
}

/// Between 1 and 64 tracks with valid fields and unique ids.
pub open spec fn tracks_ok(ts: Seq<LyricTrack>) -> bool {
    &&& 1 <= ts.len() <= MAX_LYRIC_TRACKS
    &&& forall|i: int| 0 <= i < ts.len() ==> #[trigger] track_ok(ts[i])
    &&& forall|i: int, j: int| 0 <= i < j < ts.len() ==> #[trigger] ts[i].id@ != #[trigger] ts[j].id@
}

/// The index of the first track with identifier `id`.
pub open spec fn track_index(ts: Seq<LyricTrack>, id: Seq<char>) -> Option<int> {
    if exists|t: int| 0 <= t < ts.len() && #[trigger] ts[t].id@ == id {
        Some(
            choose|t: int|
                0 <= t < ts.len() && ts[t].id@ == id && forall|u: int|
                    0 <= u < t ==> #[trigger] ts[u].id@ != id,
        )
    } else {
        None
    }
}

/// The latest cue before index `i` on the track named `id`.
pub open spec fn last_on_track(cues: Seq<LyricCue>, i: int, id: Seq<char>) -> Option<int>
    decreases i,
{
    if i <= 0 {
        None
    } else if cues[i - 1].track_id@ == id {
        Some(i - 1)
    } else {
        last_on_track(cues, i - 1, id)
    }
}

/// The media duration that cues and segments must fit into, if declared.
pub open spec fn media_duration(d: LyricsDocument) -> Option<u64> {
    match d.media {
        Some(m) => m.duration_ms,
        None => None,
    }
}

/// The end that bounds a cue's segments: the cue's own end, or else the
/// media duration.
pub open spec fn cue_bound(cue: LyricCue, md: Option<u64>) -> Option<u64> {
    match cue.end_ms {
        Some(e) => Some(e),
        None => md,
    }
}

pub open spec fn segment_ok(segments: Seq<LyricSegment>, s: int, cue: LyricCue, md: Option<u64>) -> bool {
    let seg = segments[s];
    &&& valid_text(seg.text@, true)
    &&& timestamp_ok(seg.start_ms)
    &&& timestamp_ok(seg.end_ms)
    &&& seg.start_ms >= cue.start_ms
    &&& seg.end_ms > seg.start_ms
    &&& (cue_bound(cue, md) matches Some(b) ==> seg.end_ms <= b)
    &&& (s > 0 ==> segments[s - 1].end_ms <= seg.start_ms)
}

/// At most 2,000 segments, each inside its cue and after the previous one.
pub open spec fn segments_ok(segments: Seq<LyricSegment>, cue: LyricCue, md: Option<u64>) -> bool {
    &&& segments.len() <= MAX_LYRIC_SEGMENTS_PER_TEXT
    &&& forall|s: int| 0 <= s < segments.len() ==> #[trigger] segment_ok(segments, s, cue, md)
}

pub open spec fn text_ok(text: LyricText, cue: LyricCue, track_has_language: bool, md: Option<u64>) -> bool {
    &&& valid_identifier(text.kind@)
    &&& opt_language_ok(text.language)
    &&& opt_direction_ok(text.direction)
    &&& valid_text(text.text@, false)
    &&& is_original(text) ==> (text.language is Some || track_has_language)
    &&& !is_original(text) ==> text.language is Some
    &&& segments_ok(text.segments@, cue, md)
}

/// The number of original texts.
pub open spec fn count_originals(texts: Seq<LyricText>) -> nat
    decreases texts.len(),
{
    if texts.len() == 0 {
        0
    } else {
        count_originals(texts.drop_last()) + if is_original(texts.last()) {
            1nat
        } else {
            0nat
        }
    }
}

/// Two text variants share kind and language.
pub open spec fn same_variant(a: LyricText, b: LyricText) -> bool {
    a.kind@ == b.kind@ && opt_view(a.language) == opt_view(b.language)
}

/// Between 1 and 16 valid, distinct variants, exactly one of them original.
pub open spec fn texts_ok(cue: LyricCue, track_has_language: bool, md: Option<u64>) -> bool {
    let texts = cue.texts@;
    &&& 1 <= texts.len() <= MAX_LYRIC_TEXTS_PER_CUE
    &&& forall|k: int|
        0 <= k < texts.len() ==> #[trigger] text_ok(texts[k], cue, track_has_language, md)
    &&& forall|k: int, l: int|
        0 <= k < l < texts.len() ==> !same_variant(#[trigger] texts[k], #[trigger] texts[l])
    &&& count_originals(texts) == 1
}

/// No segment of `prev` reaches past `start`.
pub open spec fn segments_end_by(prev: LyricCue, start: u64) -> bool {
    forall|k: int, s: int|
        0 <= k < prev.texts@.len() && 0 <= s < prev.texts@[k].segments@.len()
            ==> #[trigger] prev.texts@[k].segments@[s].end_ms <= start
}

/// `cue` starts strictly after `prev` on the same track, after its explicit
/// end and after all of its segments.
pub open spec fn follows_on_track(prev: LyricCue, cue: LyricCue) -> bool {
    &&& prev.start_ms < cue.start_ms
    &&& (prev.end_ms matches Some(e) ==> e <= cue.start_ms)
    &&& segments_end_by(prev, cue.start_ms)
}

/// The cue fits into the declared media duration.
pub open spec fn within_media(cue: LyricCue, md: Option<u64>) -> bool {
    md matches Some(d) ==> cue.start_ms <= d && (cue.end_ms matches Some(e) ==> e <= d)
}

pub open spec fn track_has_language(d: LyricsDocument, cue: LyricCue) -> bool {
    match track_index(d.tracks@, cue.track_id@) {
        Some(t) => d.tracks@[t].language is Some,
        None => false,
    }
}

/// The rules for the cue at index `i`.
pub open spec fn cue_ok(d: LyricsDocument, i: int) -> bool {
    let cue = d.cues@[i];
    &&& valid_identifier(cue.id@)
    &&& track_index(d.tracks@, cue.track_id@) is Some
    &&& timestamp_ok(cue.start_ms)
    &&& (cue.end_ms matches Some(e) ==> timestamp_ok(e) && e > cue.start_ms)
    &&& (i > 0 ==> d.cues@[i - 1].start_ms <= cue.start_ms)
    &&& (last_on_track(d.cues@, i, cue.track_id@) matches Some(j) ==> follows_on_track(
        d.cues@[j],
        cue,
    ))
    &&& within_media(cue, media_duration(d))
    &&& texts_ok(cue, track_has_language(d, cue), media_duration(d))
}

/// Between 1 and 20,000 valid cues with unique ids.
pub open spec fn cues_ok(d: LyricsDocument) -> bool {
    &&& 1 <= d.cues@.len() <= MAX_LYRIC_CUES
    &&& forall|i: int| 0 <= i < d.cues@.len() ==> #[trigger] cue_ok(d, i)
    &&& forall|i: int, j: int|
        0 <= i < j < d.cues@.len() ==> #[trigger] d.cues@[i].id@ != #[trigger] d.cues@[j].id@
}

/// Every constraint of the format.
pub open spec fn document_valid(d: LyricsDocument) -> bool {
    &&& d.format@ == WAVORA_LYRICS_FORMAT@
    &&& valid_version(d.version@)
    &&& features_ok(d.required_features@)
    &&& opt_uri_ok(d.schema)
    &&& -(JSON_SAFE_INTEGER_MAX as int) <= d.offset_ms <= JSON_SAFE_INTEGER_MAX as int
    &&& metadata_ok(d.metadata)
    &&& (d.media matches Some(m) ==> media_ok(m))
    &&& tracks_ok(d.tracks@)
    &&& cues_ok(d)
}

// ---------------------------------------------------------------------------
// The error each rule gives, in the order the validator checks them.
// ---------------------------------------------------------------------------

/// `prefix<i>suffix`.
pub open spec fn indexed(prefix: Seq<char>, i: int, suffix: Seq<char>) -> Seq<char> {
    prefix + decimal(i as nat) + suffix
}

/// The error of required feature `i`.
pub open spec fn feature_error(fs: Seq<String>, i: int) -> Option<Seq<char>> {
    let f = fs[i]@;
    either(
        identifier_error(f, indexed("required_features["@, i, "]"@)),
        if exists|j: int| 0 <= j < i && #[trigger] fs[j]@ == f {
            Some("required_features contains duplicate "@ + debug_quoted(f))
        } else if !supported_feature(f) {
            Some("required feature "@ + debug_quoted(f) + " is not supported"@)
        } else {
            None
        },
    )
}

/// The first error among required features `i` onwards.
pub open spec fn features_error_from(fs: Seq<String>, i: int) -> Option<Seq<char>>
    decreases fs.len() - i,
{
    if i < 0 || i >= fs.len() {
        None
    } else {
        either(feature_error(fs, i), features_error_from(fs, i + 1))
    }
}

/// The error of contributor `i`.
pub open spec fn contributor_error(cs: Seq<LyricsContributor>, i: int) -> Option<Seq<char>> {
    either(
        text_error(cs[i].name@, indexed("metadata.contributors["@, i, "].name"@), false),
        identifier_error(cs[i].role@, indexed("metadata.contributors["@, i, "].role"@)),
    )
}

/// The first error among contributors `i` onwards.
pub open spec fn contributors_error_from(cs: Seq<LyricsContributor>, i: int) -> Option<Seq<char>>
    decreases cs.len() - i,
{
    if i < 0 || i >= cs.len() {
        None
    } else {
        either(contributor_error(cs, i), contributors_error_from(cs, i + 1))
    }
}

pub open spec fn source_error(source: Option<LyricsSource>) -> Option<Seq<char>> {
    match source {
        Some(s) => if s.name is None && s.uri is None {
            Some("metadata.source must contain name or uri"@)
        } else {
            either(
                opt_text_error(s.name, "metadata.source.name"@),
                opt_uri_error(s.uri, "metadata.source.uri"@),
            )
        },
        None => None,
    }
}

pub open spec fn rights_error(rights: Option<LyricsRights>) -> Option<Seq<char>> {
    match rights {
        Some(r) => if r.copyright is None && r.license is None && r.license_uri is None {
            Some("metadata.rights must contain copyright, license, or license_uri"@)
        } else {
            either(
                opt_text_error(r.copyright, "metadata.rights.copyright"@),
                either(
                    opt_text_error(r.license, "metadata.rights.license"@),
                    opt_uri_error(r.license_uri, "metadata.rights.license_uri"@),
                ),
            )
        },
        None => None,
    }
}

pub open spec fn metadata_error(m: LyricsMetadata) -> Option<Seq<char>> {
    either(
        opt_text_error(m.title, "metadata.title"@),
        either(
            opt_text_error(m.artist, "metadata.artist"@),
            either(
                opt_text_error(m.album, "metadata.album"@),
                either(
                    contributors_error_from(m.contributors@, 0),
                    either(source_error(m.source), rights_error(m.rights)),
                ),
            ),
        ),
    )
}

/// The error of fingerprint `i`.
pub open spec fn fingerprint_error(fps: Seq<LyricsFingerprint>, i: int) -> Option<Seq<char>> {
    let f = fps[i];
    either(
        identifier_error(f.algorithm@, indexed("media.fingerprints["@, i, "].algorithm"@)),
        either(
            text_error(f.value@, indexed("media.fingerprints["@, i, "].value"@), false),
            if exists|j: int| 0 <= j < i && #[trigger] fps[j].algorithm@ == f.algorithm@ {
                Some("media.fingerprints contains duplicate algorithm "@ + debug_quoted(f.algorithm@))
            } else if f.algorithm@ == "wavora-pcm-signature-v1"@ && !(f.value@.len() == 64 && all_hex(
                f.value@,
            )) {
                Some("wavora-pcm-signature-v1 must be exactly 64 hexadecimal characters"@)
            } else {
                None
            },
        ),
    )
}

/// The first error among fingerprints `i` onwards.
pub open spec fn fingerprints_error_from(fps: Seq<LyricsFingerprint>, i: int) -> Option<Seq<char>>
    decreases fps.len() - i,
{
    if i < 0 || i >= fps.len() {
        None
    } else {
        either(fingerprint_error(fps, i), fingerprints_error_from(fps, i + 1))
    }
}

pub open spec fn media_error(m: LyricsMedia) -> Option<Seq<char>> {
    if m.duration_ms matches Some(d) && !timestamp_ok(d) {
        Some("media.duration_ms exceeds the JSON safe-integer range"@)
    } else if m.fingerprints@.len() > 16 {
        Some("media.fingerprints must not exceed 16 entries"@)
    } else {
        fingerprints_error_from(m.fingerprints@, 0)
    }
}

/// The error of the fields of track `i`.
pub open spec fn track_fields_error(t: LyricTrack, i: int) -> Option<Seq<char>> {
    either(
        identifier_error(t.id@, indexed("tracks["@, i, "].id"@)),
        either(
            identifier_error(t.role@, indexed("tracks["@, i, "].role"@)),
            either(
                opt_text_error(t.label, indexed("tracks["@, i, "].label"@)),
                either(
                    opt_language_error(t.language, indexed("tracks["@, i, "].language"@)),
                    opt_direction_error(t.direction, indexed("tracks["@, i, "].direction"@)),
                ),
            ),
        ),
    )
}

/// The error of track `i`.
pub open spec fn track_error(ts: Seq<LyricTrack>, i: int) -> Option<Seq<char>> {
    either(
        track_fields_error(ts[i], i),
        if exists|j: int| 0 <= j < i && #[trigger] ts[j].id@ == ts[i].id@ {
            Some("tracks contains duplicate id "@ + debug_quoted(ts[i].id@))
        } else {
            None
        },
    )
}

/// The first error among tracks `i` onwards.
pub open spec fn tracks_error_from(ts: Seq<LyricTrack>, i: int) -> Option<Seq<char>>
    decreases ts.len() - i,
{
    if i < 0 || i >= ts.len() {
        None
    } else {
        either(track_error(ts, i), tracks_error_from(ts, i + 1))
    }
}

pub open spec fn tracks_error(ts: Seq<LyricTrack>) -> Option<Seq<char>> {
    if ts.len() == 0 || ts.len() > MAX_LYRIC_TRACKS {
        Some("tracks must contain between 1 and 64 entries"@)
    } else {
        tracks_error_from(ts, 0)
    }
}

/// The path of segment `s` of the text at `field`.
pub open spec fn segment_field(field: Seq<char>, s: int) -> Seq<char> {
    field + ".segments["@ + decimal(s as nat) + "]"@
}

/// The error of segment `s`.
pub open spec fn segment_error(
    segments: Seq<LyricSegment>,
    s: int,
    cue: LyricCue,
    md: Option<u64>,
    field: Seq<char>,
) -> Option<Seq<char>> {
    let g = segments[s];
    let item = segment_field(field, s);
    either(
        text_error(g.text@, item + ".text"@, true),
        either(
            timestamp_error(g.start_ms, item + ".start_ms"@),
            either(
                timestamp_error(g.end_ms, item + ".end_ms"@),
                if g.start_ms < cue.start_ms || g.end_ms <= g.start_ms {
                    Some(item + " has invalid timing"@)
                } else if cue_bound(cue, md) matches Some(end) && g.end_ms > end {
                    Some(item + " extends past its cue"@)
                } else if s > 0 && segments[s - 1].end_ms > g.start_ms {
                    Some(item + " overlaps the previous segment"@)
                } else {
                    None
                },
            ),
        ),
    )
}

/// The first error among segments `s` onwards.
pub open spec fn segments_error_from(
    segments: Seq<LyricSegment>,
    s: int,
    cue: LyricCue,
    md: Option<u64>,
    field: Seq<char>,
) -> Option<Seq<char>>
    decreases segments.len() - s,
{
    if s < 0 || s >= segments.len() {
        None
    } else {
        either(
            segment_error(segments, s, cue, md, field),
            segments_error_from(segments, s + 1, cue, md, field),
        )
    }
}

/// The error of the segments of the text at `field`.
pub open spec fn segments_error(text: LyricText, cue: LyricCue, md: Option<u64>, field: Seq<char>) -> Option<Seq<char>> {
    if text.segments@.len() > MAX_LYRIC_SEGMENTS_PER_TEXT {
        Some(field + ".segments exceeds 2000 entries"@)
    } else {
        segments_error_from(text.segments@, 0, cue, md, field)
    }
}

/// The path of text `k` of cue `c`.
pub open spec fn text_path(c: int, k: int) -> Seq<char> {
    "cues["@ + decimal(c as nat) + "].texts["@ + decimal(k as nat) + "]"@
}

/// The error of the original/language rule for a text at `f`.
pub open spec fn language_rule_error(t: LyricText, has_language: bool, f: Seq<char>) -> Option<Seq<char>> {
    if is_original(t) {
        if t.language is None && !has_language {
            Some(f + " needs language because its track has no language"@)
        } else {
            None
        }
    } else if t.language is None {
        Some(f + ".language is required for non-original text"@)
    } else {
        None
    }
}

/// The error for text `k` repeating an earlier kind/language variant.
pub open spec fn variant_error(texts: Seq<LyricText>, k: int, f: Seq<char>) -> Option<Seq<char>> {
    if exists|l: int| 0 <= l < k && same_variant(#[trigger] texts[l], texts[k]) {
        Some(f + " duplicates a kind/language variant"@)
    } else {
        None
    }
}

/// The error of text `k` of the cue at index `c`.
pub open spec fn text_entry_error(cue: LyricCue, has_language: bool, md: Option<u64>, c: int, k: int) -> Option<Seq<char>> {
    let texts = cue.texts@;
    let t = texts[k];
    let f = text_path(c, k);
    either(
        identifier_error(t.kind@, f + ".kind"@),
        either(
            opt_language_error(t.language, f + ".language"@),
            either(
                opt_direction_error(t.direction, f + ".direction"@),
                either(
                    text_error(t.text@, f + ".text"@, false),
                    either(
                        language_rule_error(t, has_language, f),
                        either(variant_error(texts, k, f), segments_error(t, cue, md, f)),
                    ),
                ),
            ),
        ),
    )
}

/// The first error among the texts of the cue from `k` onwards.
pub open spec fn texts_error_from(cue: LyricCue, has_language: bool, md: Option<u64>, c: int, k: int) -> Option<Seq<char>>
    decreases cue.texts@.len() - k,
{
    if k < 0 || k >= cue.texts@.len() {
        None
    } else {
        either(
            text_entry_error(cue, has_language, md, c, k),
            texts_error_from(cue, has_language, md, c, k + 1),
        )
    }
}

/// The error of the texts of the cue at index `c`.
pub open spec fn texts_error(cue: LyricCue, has_language: bool, md: Option<u64>, c: int) -> Option<Seq<char>> {
    if cue.texts@.len() == 0 || cue.texts@.len() > MAX_LYRIC_TEXTS_PER_CUE {
        Some(indexed("cues["@, c, "].texts must contain between 1 and 16 entries"@))
    } else {
        either(
            texts_error_from(cue, has_language, md, c, 0),
            if count_originals(cue.texts@) != 1 {
                Some(indexed("cues["@, c, "] must contain exactly one original text"@))
            } else {
                None
            },
        )
    }
}

/// The error of cue `i` against the previous cue `p` on its track.
pub open spec fn previous_cue_error(prev: LyricCue, p: int, cue: LyricCue, i: int) -> Option<Seq<char>> {
    if prev.start_ms >= cue.start_ms {
        Some(
            indexed("cues["@, i, "] must start after the previous cue on track "@) + debug_quoted(
                cue.track_id@,
            ),
        )
    } else if prev.end_ms matches Some(e) && e > cue.start_ms {
        Some(
            indexed("cues["@, p, "] overlaps "@) + indexed("cues["@, i, "] on track "@)
                + debug_quoted(cue.track_id@),
        )
    } else if !segments_end_by(prev, cue.start_ms) {
        Some(indexed("a segment in cues["@, p, "] extends past its implicit end"@))
    } else {
        None
    }
}

/// The errors of a cue's own timing: its start, its end, and its place
/// after the cue before it.
pub open spec fn cue_timing_error(cues: Seq<LyricCue>, i: int) -> Option<Seq<char>> {
    let cue = cues[i];
    either(
        timestamp_error(cue.start_ms, indexed("cues["@, i, "].start_ms"@)),
        either(
            match cue.end_ms {
                Some(e) => either(
                    timestamp_error(e, indexed("cues["@, i, "].end_ms"@)),
                    if e <= cue.start_ms {
                        Some(indexed("cues["@, i, "].end_ms must be greater than start_ms"@))
                    } else {
                        None
                    },
                ),
                None => None,
            },
            if i > 0 && cues[i - 1].start_ms > cue.start_ms {
                Some(indexed("cues["@, i, "].start_ms must not be earlier than the previous cue"@))
            } else {
                None
            },
        ),
    )
}

/// The error for a cue that reaches past the media duration.
pub open spec fn cue_media_error(cue: LyricCue, md: Option<u64>, i: int) -> Option<Seq<char>> {
    match md {
        Some(duration) => if cue.start_ms > duration || (cue.end_ms matches Some(e) && e > duration) {
            Some(indexed("cues["@, i, "] extends past media.duration_ms"@))
        } else {
            None
        },
        None => None,
    }
}

/// The error of cue `i`.
pub open spec fn cue_error(d: LyricsDocument, i: int) -> Option<Seq<char>> {
    let cues = d.cues@;
    let cue = cues[i];
    either(
        identifier_error(cue.id@, indexed("cues["@, i, "].id"@)),
        either(
            if exists|j: int| 0 <= j < i && #[trigger] cues[j].id@ == cue.id@ {
                Some("cues contains duplicate id "@ + debug_quoted(cue.id@))
            } else {
                None
            },
            either(
                if track_index(d.tracks@, cue.track_id@) is None {
                    Some(
                        indexed("cues["@, i, "].track_id references unknown track "@)
                            + debug_quoted(cue.track_id@),
                    )
                } else {
                    None
                },
                either(
                    cue_timing_error(cues, i),
                    either(
                        match last_on_track(cues, i, cue.track_id@) {
                            Some(p) => previous_cue_error(cues[p], p, cue, i),
                            None => None,
                        },
                        either(
                            cue_media_error(cue, media_duration(d), i),
                            texts_error(cue, track_has_language(d, cue), media_duration(d), i),
                        ),
                    ),
                ),
            ),
        ),
    )
}

/// The first error among cues `i` onwards.
pub open spec fn cues_error_from(d: LyricsDocument, i: int) -> Option<Seq<char>>
    decreases d.cues@.len() - i,
{
    if i < 0 || i >= d.cues@.len() {
        None
    } else {
        either(cue_error(d, i), cues_error_from(d, i + 1))
    }
}

pub open spec fn cues_error(d: LyricsDocument) -> Option<Seq<char>> {
    if d.cues@.len() == 0 || d.cues@.len() > MAX_LYRIC_CUES {
        Some("cues must contain between 1 and 20000 entries"@)
    } else {
        cues_error_from(d, 0)
    }
}

/// The error a document gives: that of the first rule it breaks, in the
/// order format, version, required features, `$schema`, offset, metadata,
/// media, tracks, cues.
pub open spec fn document_error(d: LyricsDocument) -> Option<Seq<char>> {
    if d.format@ != WAVORA_LYRICS_FORMAT@ {
        Some("format must be "@ + debug_quoted(WAVORA_LYRICS_FORMAT@))
    } else {
        either(
            version_error(d.version@),
            either(
                features_error_from(d.required_features@, 0),
                either(
                    match d.schema {
                        Some(schema) => uri_error(schema@, "$schema"@),
                        None => None,
                    },
                    either(
                        if -(JSON_SAFE_INTEGER_MAX as int) <= d.offset_ms <= JSON_SAFE_INTEGER_MAX as int {
                            None
                        } else {
                            Some("offset_ms exceeds the JSON safe-integer range"@)
                        },
                        either(
                            metadata_error(d.metadata),
                            either(
                                match d.media {
                                    Some(m) => media_error(m),
                                    None => None,
                                },
                                either(tracks_error(d.tracks@), cues_error(d)),
                            ),
                        ),
                    ),
                ),
            ),
        )
    }
}

/// Cues on one track may touch: a cue follows the previous cue on its track
/// exactly when it starts later, the previous cue ends (if it has an end) no
/// later than it starts, and no segment of the previous cue runs past its
/// start. Back-to-back lines, where one ends exactly as the next begins, are
/// accepted; the pair is refused with an error exactly when it does not
/// follow.
pub proof fn cues_on_a_track_may_abut(prev: LyricCue, p: int, cue: LyricCue, i: int)
    ensures
        follows_on_track(prev, cue) <==> (prev.start_ms < cue.start_ms && (prev.end_ms matches Some(
            e,
        ) ==> e <= cue.start_ms) && forall|k: int, s: int|
            0 <= k < prev.texts@.len() && 0 <= s < prev.texts@[k].segments@.len()
                ==> #[trigger] prev.texts@[k].segments@[s].end_ms <= cue.start_ms),
        previous_cue_error(prev, p, cue, i) is None <==> follows_on_track(prev, cue),
        prev.start_ms < cue.start_ms && prev.end_ms == Some(cue.start_ms) && (forall|k: int, s: int|
            0 <= k < prev.texts@.len() && 0 <= s < prev.texts@[k].segments@.len()
                ==> #[trigger] prev.texts@[k].segments@[s].end_ms <= cue.start_ms)
            ==> previous_cue_error(prev, p, cue, i) is None,
{
}

// ---------------------------------------------------------------------------
// The validator.
// ---------------------------------------------------------------------------

impl LyricsDocument {
    /// Validates the v1 format, identifiers, feature negotiation, and
    /// timelines. Returns a field-specific error when the document cannot be
    /// interpreted deterministically by this reader.
    pub fn validate(&self) -> (r: Result<(), LyricsValidationError>)
        ensures
            r is Ok <==> document_valid(*self),
            error_of(r) == document_error(*self),
    {
        if !text_is(self.format.as_str(), WAVORA_LYRICS_FORMAT) {
            let q = quoted(WAVORA_LYRICS_FORMAT);
            return Err(lyrics_error(&["format must be ", q.as_str()]));
        }
        validate_version(self.version.as_str())?;
        validate_required_features(&self.required_features)?;
        if let Some(schema) = &self.schema {
            validate_absolute_uri(schema.as_str(), "$schema")?;
        }
        if self.offset_ms < -9_007_199_254_740_991i64 || self.offset_ms > 9_007_199_254_740_991i64 {
            return Err(lyrics_error(&["offset_ms exceeds the JSON safe-integer range"]));
        }
        validate_metadata(&self.metadata)?;
        if let Some(media) = &self.media {
            validate_media(media)?;
        }
        validate_tracks(&self.tracks)?;
        validate_cues(self)
    }
}

fn is_supported_feature(feature: &str) -> (r: bool)
    ensures
        r == supported_feature(feature@),
{
    text_is(feature, "media-binding") || text_is(feature, "multi-track") || text_is(
        feature,
        "text-variants",
    ) || text_is(feature, "timed-segments")
}

#[verifier::loop_isolation(false)]
fn validate_required_features(features: &Vec<String>) -> (r: Result<(), LyricsValidationError>)
    ensures
        r is Ok <==> features_ok(features@),
        error_of(r) == features_error_from(features@, 0),
{
    let mut i: usize = 0;
    while i < features.len()
        invariant
            i <= features@.len(),
            forall|k: int|
                0 <= k < i ==> valid_identifier(#[trigger] features@[k]@) && supported_feature(
                    features@[k]@,
                ),
            forall|a: int, b: int|
                0 <= a < b < i ==> #[trigger] features@[a]@ != #[trigger] features@[b]@,
            features_error_from(features@, 0) == features_error_from(features@, i as int),
        decreases features@.len() - i,
    {
        let feature = &features[i];
        let field = field_at("required_features[", i, "]");
        validate_identifier(feature.as_str(), field.as_str())?;
        let mut j: usize = 0;
        while j < i
            invariant
                i < features@.len(),
                j <= i,
                *feature == features@[i as int],
                forall|a: int| 0 <= a < j ==> #[trigger] features@[a]@ != feature@,
            decreases i - j,
        {
            if features[j] == *feature {
                let q = quoted(feature.as_str());
                return Err(lyrics_error(&["required_features contains duplicate ", q.as_str()]));
            }
            j = j + 1;
        }
        if !is_supported_feature(feature.as_str()) {
            let q = quoted(feature.as_str());
            return Err(lyrics_error(&["required feature ", q.as_str(), " is not supported"]));
        }
        i = i + 1;
    }
    Ok(())
}

#[verifier::loop_isolation(false)]
fn validate_metadata(metadata: &LyricsMetadata) -> (r: Result<(), LyricsValidationError>)
    ensures
        r is Ok <==> metadata_ok(*metadata),
        error_of(r) == metadata_error(*metadata),
{
    if let Some(value) = &metadata.title {
        validate_text(value.as_str(), "metadata.title", false)?;
    }
    if let Some(value) = &metadata.artist {
        validate_text(value.as_str(), "metadata.artist", false)?;
    }
    if let Some(value) = &metadata.album {
        validate_text(value.as_str(), "metadata.album", false)?;
    }
    let mut i: usize = 0;
    while i < metadata.contributors.len()
        invariant
            i <= metadata.contributors@.len(),
            forall|k: int| 0 <= k < i ==> #[trigger] contributor_ok(metadata.contributors@[k]),
            contributors_error_from(metadata.contributors@, 0) == contributors_error_from(
                metadata.contributors@,
                i as int,
            ),
        decreases metadata.contributors@.len() - i,
    {
        let contributor = &metadata.contributors[i];
        let name_field = field_at("metadata.contributors[", i, "].name");
        if let Err(e) = validate_text(contributor.name.as_str(), name_field.as_str(), false) {
            assert(!contributor_ok(metadata.contributors@[i as int]));
            return Err(e);
        }
        let role_field = field_at("metadata.contributors[", i, "].role");
        if let Err(e) = validate_identifier(contributor.role.as_str(), role_field.as_str()) {
            assert(!contributor_ok(metadata.contributors@[i as int]));
            return Err(e);
        }
        i = i + 1;
    }
    if let Some(source) = &metadata.source {
        if source.name.is_none() && source.uri.is_none() {
            return Err(lyrics_error(&["metadata.source must contain name or uri"]));
        }
        validate_optional_text(&source.name, "metadata.source.name")?;
        validate_optional_uri(&source.uri, "metadata.source.uri")?;
    }
    if let Some(rights) = &metadata.rights {
        if rights.copyright.is_none() && rights.license.is_none() && rights.license_uri.is_none() {
            return Err(
                lyrics_error(&["metadata.rights must contain copyright, license, or license_uri"]),
            );
        }
        validate_optional_text(&rights.copyright, "metadata.rights.copyright")?;
        validate_optional_text(&rights.license, "metadata.rights.license")?;
        validate_optional_uri(&rights.license_uri, "metadata.rights.license_uri")?;
    }
    Ok(())
}

/// Whether every character is a hexadecimal digit.
fn all_hex_digits(value: &str) -> (r: bool)
    ensures
        r == all_hex(value@),
{
    let chars = chars_of(value);
    let mut i: usize = 0;
    while i < chars.len()
        invariant
            chars@ == value@,
            i <= chars@.len(),
            forall|j: int| 0 <= j < i ==> #[trigger] is_hex_digit(chars@[j]),
        decreases chars@.len() - i,
    {
        if !char_is_hex_digit(chars[i]) {
            return false;
        }
        i = i + 1;
    }
    true
}

#[verifier::loop_isolation(false)]
fn validate_media(media: &LyricsMedia) -> (r: Result<(), LyricsValidationError>)
    ensures
        r is Ok <==> media_ok(*media),
        error_of(r) == media_error(*media),
{
    if let Some(duration) = media.duration_ms {
        if duration > JSON_SAFE_INTEGER_MAX {
            return Err(lyrics_error(&["media.duration_ms exceeds the JSON safe-integer range"]));
        }
    }
    if media.fingerprints.len() > 16 {
        return Err(lyrics_error(&["media.fingerprints must not exceed 16 entries"]));
    }
    let mut i: usize = 0;
    while i < media.fingerprints.len()
        invariant
            i <= media.fingerprints@.len(),
            forall|k: int| 0 <= k < i ==> #[trigger] fingerprint_ok(media.fingerprints@[k]),
            forall|a: int, b: int|
                0 <= a < b < i ==> #[trigger] media.fingerprints@[a].algorithm@
                    != #[trigger] media.fingerprints@[b].algorithm@,
            fingerprints_error_from(media.fingerprints@, 0) == fingerprints_error_from(
                media.fingerprints@,
                i as int,
            ),
        decreases media.fingerprints@.len() - i,
    {
        let fingerprint = &media.fingerprints[i];
        let algorithm_field = field_at("media.fingerprints[", i, "].algorithm");
        if let Err(e) = validate_identifier(fingerprint.algorithm.as_str(), algorithm_field.as_str()) {
            assert(!fingerprint_ok(media.fingerprints@[i as int]));
            return Err(e);
        }
        let value_field = field_at("media.fingerprints[", i, "].value");
        if let Err(e) = validate_text(fingerprint.value.as_str(), value_field.as_str(), false) {
            assert(!fingerprint_ok(media.fingerprints@[i as int]));
            return Err(e);
        }
        let mut j: usize = 0;
        while j < i
            invariant
                i < media.fingerprints@.len(),
                j <= i,
                *fingerprint == media.fingerprints@[i as int],
                forall|a: int|
                    0 <= a < j ==> #[trigger] media.fingerprints@[a].algorithm@
                        != fingerprint.algorithm@,
            decreases i - j,
        {
            if media.fingerprints[j].algorithm == fingerprint.algorithm {
                assert(media.fingerprints@[j as int].algorithm@ != media.fingerprints@[i as int].algorithm@ ==> false);
                let q = quoted(fingerprint.algorithm.as_str());
                return Err(
                    lyrics_error(&["media.fingerprints contains duplicate algorithm ", q.as_str()]),
                );
            }
            j = j + 1;
        }
        if text_is(fingerprint.algorithm.as_str(), "wavora-pcm-signature-v1") {
            let value = chars_of(fingerprint.value.as_str());
            if value.len() != 64 || !all_hex_digits(fingerprint.value.as_str()) {
                assert(!fingerprint_ok(media.fingerprints@[i as int]));
                return Err(
                    lyrics_error(
                        &["wavora-pcm-signature-v1 must be exactly 64 hexadecimal characters"],
                    ),
                );
            }
        }
        i = i + 1;
    }
    Ok(())
}

#[verifier::loop_isolation(false)]
fn validate_tracks(tracks: &Vec<LyricTrack>) -> (r: Result<(), LyricsValidationError>)
    ensures
        r is Ok <==> tracks_ok(tracks@),
        error_of(r) == tracks_error(tracks@),
{
    if tracks.len() == 0 || tracks.len() > MAX_LYRIC_TRACKS {
        return Err(lyrics_error(&["tracks must contain between 1 and 64 entries"]));
    }
    let mut i: usize = 0;
    while i < tracks.len()
        invariant
            1 <= tracks@.len() <= MAX_LYRIC_TRACKS,
            i <= tracks@.len(),
            forall|k: int| 0 <= k < i ==> #[trigger] track_ok(tracks@[k]),
            forall|a: int, b: int|
                0 <= a < b < i ==> #[trigger] tracks@[a].id@ != #[trigger] tracks@[b].id@,
            tracks_error_from(tracks@, 0) == tracks_error_from(tracks@, i as int),
        decreases tracks@.len() - i,
    {
        let track = &tracks[i];
        if let Err(e) = validate_track_fields(track, i) {
            assert(!track_ok(tracks@[i as int]));
            return Err(e);
        }
        let mut j: usize = 0;
        while j < i
            invariant
                i < tracks@.len(),
                j <= i,
                *track == tracks@[i as int],
                forall|a: int| 0 <= a < j ==> #[trigger] tracks@[a].id@ != track.id@,
            decreases i - j,
        {
            if tracks[j].id == track.id {
                assert(tracks@[j as int].id@ == tracks@[i as int].id@);
                let q = quoted(track.id.as_str());
                return Err(lyrics_error(&["tracks contains duplicate id ", q.as_str()]));
            }
            j = j + 1;
        }
        i = i + 1;
    }
    Ok(())
}


/// The index form of an optional position.
pub open spec fn as_index(o: Option<usize>) -> Option<int> {
    match o {
        Some(p) => Some(p as int),
        None => None,
    }
}

/// The first track whose id equals `id`.
fn find_track(tracks: &Vec<LyricTrack>, id: &String) -> (t: Option<usize>)
    ensures
        as_index(t) == track_index(tracks@, id@),
        t matches Some(k) ==> k < tracks@.len(),
{
    let mut k: usize = 0;
    while k < tracks.len()
        invariant
            k <= tracks@.len(),
            forall|u: int| 0 <= u < k ==> #[trigger] tracks@[u].id@ != id@,
        decreases tracks@.len() - k,
    {
        if tracks[k].id == *id {
            proof {
                assert(tracks@[k as int].id@ == id@);
                let c = choose|c: int|
                    0 <= c < tracks@.len() && tracks@[c].id@ == id@ && forall|u: int|
                        0 <= u < c ==> #[trigger] tracks@[u].id@ != id@;
                if c < k {
                } else if c > k {
                    assert(tracks@[k as int].id@ != id@);
                }
            }
            return Some(k);
        }
        k = k + 1;
    }
    None
}

fn validate_track_fields(track: &LyricTrack, index: usize) -> (r: Result<(), LyricsValidationError>)
    ensures
        r is Ok <==> track_ok(*track),
        error_of(r) == track_fields_error(*track, index as int),
{
    let id_field = field_at("tracks[", index, "].id");
    validate_identifier(track.id.as_str(), id_field.as_str())?;
    let role_field = field_at("tracks[", index, "].role");
    validate_identifier(track.role.as_str(), role_field.as_str())?;
    let label_field = field_at("tracks[", index, "].label");
    validate_optional_text(&track.label, label_field.as_str())?;
    let language_field = field_at("tracks[", index, "].language");
    validate_optional_language(&track.language, language_field.as_str())?;
    let direction_field = field_at("tracks[", index, "].direction");
    validate_optional_direction(&track.direction, direction_field.as_str())?;
    Ok(())
}

/// Whether every segment of `prev` ends by `start`.
fn segments_end_before(prev: &LyricCue, start: u64) -> (r: bool)
    ensures
        r == segments_end_by(*prev, start),
{
    let mut k: usize = 0;
    while k < prev.texts.len()
        invariant
            k <= prev.texts@.len(),
            forall|a: int, s: int|
                0 <= a < k && 0 <= s < prev.texts@[a].segments@.len()
                    ==> #[trigger] prev.texts@[a].segments@[s].end_ms <= start,
        decreases prev.texts@.len() - k,
    {
        let text = &prev.texts[k];
        let mut s: usize = 0;
        while s < text.segments.len()
            invariant
                k < prev.texts@.len(),
                *text == prev.texts@[k as int],
                s <= text.segments@.len(),
                forall|b: int| 0 <= b < s ==> #[trigger] text.segments@[b].end_ms <= start,
            decreases text.segments@.len() - s,
        {
            if text.segments[s].end_ms > start {
                assert(prev.texts@[k as int].segments@[s as int].end_ms > start);
                return false;
            }
            s = s + 1;
        }
        k = k + 1;
    }
    true
}

#[verifier::loop_isolation(false)]
fn validate_cues(document: &LyricsDocument) -> (r: Result<(), LyricsValidationError>)
    requires
        tracks_ok(document.tracks@),
    ensures
        r is Ok <==> cues_ok(*document),
        error_of(r) == cues_error(*document),
{
    let cues = &document.cues;
    let tracks = &document.tracks;
    if cues.len() == 0 || cues.len() > MAX_LYRIC_CUES {
        return Err(lyrics_error(&["cues must contain between 1 and 20000 entries"]));
    }
    let media_duration: Option<u64> = match &document.media {
        Some(media) => media.duration_ms,
        None => None,
    };
    assert(media_duration == crate::lyrics::validate::media_duration(*document));
    let mut last: Vec<Option<usize>> = Vec::new();
    let mut t: usize = 0;
    while t < tracks.len()
        invariant
            t <= tracks@.len(),
            last@.len() == t,
            forall|u: int| 0 <= u < t ==> #[trigger] last@[u] is None,
        decreases tracks@.len() - t,
    {
        last.push(None);
        t = t + 1;
    }
    let mut i: usize = 0;
    while i < cues.len()
        invariant
            tracks_ok(document.tracks@),
            *cues == document.cues,
            *tracks == document.tracks,
            1 <= cues@.len() <= MAX_LYRIC_CUES,
            media_duration == crate::lyrics::validate::media_duration(*document),
            i <= cues@.len(),
            last@.len() == tracks@.len(),
            forall|u: int|
                0 <= u < tracks@.len() ==> as_index(#[trigger] last@[u]) == last_on_track(
                    cues@,
                    i as int,
                    tracks@[u].id@,
                ),
            forall|u: int| 0 <= u < tracks@.len() ==> (#[trigger] last@[u] matches Some(j) ==> j < i),
            forall|k: int| 0 <= k < i ==> #[trigger] cue_ok(*document, k),
            forall|a: int, b: int|
                0 <= a < b < i ==> #[trigger] cues@[a].id@ != #[trigger] cues@[b].id@,
            cues_error_from(*document, 0) == cues_error_from(*document, i as int),
        decreases cues@.len() - i,
    {
        let cue = &cues[i];
        let id_field = field_at("cues[", i, "].id");
        if let Err(e) = validate_identifier(cue.id.as_str(), id_field.as_str()) {
            assert(!cue_ok(*document, i as int));
            return Err(e);
        }
        let mut j: usize = 0;
        while j < i
            invariant
                i < cues@.len(),
                j <= i,
                *cue == cues@[i as int],
                forall|a: int| 0 <= a < j ==> #[trigger] cues@[a].id@ != cue.id@,
            decreases i - j,
        {
            if cues[j].id == cue.id {
                assert(cues@[j as int].id@ == cues@[i as int].id@);
                let q = quoted(cue.id.as_str());
                return Err(lyrics_error(&["cues contains duplicate id ", q.as_str()]));
            }
            j = j + 1;
        }
        let t = match find_track(tracks, &cue.track_id) {
            Some(t) => t,
            None => {
                assert(!cue_ok(*document, i as int));
                let prefix = field_at("cues[", i, "].track_id references unknown track ");
                let q = quoted(cue.track_id.as_str());
                assert(!cue_ok(*document, i as int));
                return Err(lyrics_error(&[prefix.as_str(), q.as_str()]));
            },
        };
        let start_field = field_at("cues[", i, "].start_ms");
        if let Err(e) = validate_timestamp(cue.start_ms, start_field.as_str()) {
            assert(!cue_ok(*document, i as int));
            return Err(e);
        }
        if let Some(end) = cue.end_ms {
            let end_field = field_at("cues[", i, "].end_ms");
            if let Err(e) = validate_timestamp(end, end_field.as_str()) {
                assert(!cue_ok(*document, i as int));
                return Err(e);
            }
            if end <= cue.start_ms {
                let message = field_at("cues[", i, "].end_ms must be greater than start_ms");
                assert(!cue_ok(*document, i as int));
                return Err(lyrics_error(&[message.as_str()]));
            }
        }
        if i > 0 && cues[i - 1].start_ms > cue.start_ms {
            let message = field_at(
                "cues[",
                i,
                "].start_ms must not be earlier than the previous cue",
            );
            assert(!cue_ok(*document, i as int));
            return Err(lyrics_error(&[message.as_str()]));
        }
        proof {
            assert(tracks@[t as int].id@ == cue.track_id@);
        }
        if let Some(previous) = last[t] {
            let prev = &cues[previous];
            if prev.start_ms >= cue.start_ms {
                let message = field_at("cues[", i, "] must start after the previous cue on track ");
                let q = quoted(cue.track_id.as_str());
                assert(!cue_ok(*document, i as int));
                return Err(lyrics_error(&[message.as_str(), q.as_str()]));
            }
            if let Some(end) = prev.end_ms {
                if end > cue.start_ms {
                    let first = field_at("cues[", previous, "] overlaps ");
                    let second = field_at("cues[", i, "] on track ");
                    let q = quoted(cue.track_id.as_str());
                    assert(!cue_ok(*document, i as int));
                    return Err(lyrics_error(&[first.as_str(), second.as_str(), q.as_str()]));
                }
            }
            if !segments_end_before(prev, cue.start_ms) {
                let message = field_at(
                    "a segment in cues[",
                    previous,
                    "] extends past its implicit end",
                );
                assert(!cue_ok(*document, i as int));
                return Err(lyrics_error(&[message.as_str()]));
            }
        }
        if let Some(duration) = media_duration {
            let past_end = match cue.end_ms {
                Some(end) => end > duration,
                None => false,
            };
            if cue.start_ms > duration || past_end {
                let message = field_at("cues[", i, "] extends past media.duration_ms");
                assert(!cue_ok(*document, i as int));
                return Err(lyrics_error(&[message.as_str()]));
            }
        }
        let has_language = tracks[t].language.is_some();
        if let Err(e) = validate_cue_texts(cue, has_language, media_duration, i) {
            assert(!cue_ok(*document, i as int));
            return Err(e);
        }
        proof {
            assert(has_language == track_has_language(*document, *cue));
            assert(cue_ok(*document, i as int));
        }
        let ghost old_last = last@;
        last.set(t, Some(i));
        proof {
            assert forall|u: int| 0 <= u < tracks@.len() implies as_index(#[trigger] last@[u])
                == last_on_track(cues@, i + 1, tracks@[u].id@) by {
                if u == t {
                } else {
                    assert(tracks@[u].id@ != tracks@[t as int].id@) by {
                        if u < t {
                            assert(tracks@[u].id@ != tracks@[t as int].id@);
                        } else {
                            assert(tracks@[t as int].id@ != tracks@[u].id@);
                        }
                    }
                    assert(last@[u] == old_last[u]);
                }
            }
        }
        i = i + 1;
    }
    Ok(())
}

/// Whether two optional languages are equal.
fn same_language(a: &Option<String>, b: &Option<String>) -> (r: bool)
    ensures
        r == (opt_view(*a) == opt_view(*b)),
{
    match (a, b) {
        (Some(x), Some(y)) => *x == *y,
        (None, None) => true,
        _ => false,
    }
}

/// The concatenation of two texts.
proof fn lemma_concat_two(a: Seq<char>, b: Seq<char>)
    ensures
        crate::text::concat_spec(seq![a, b]) == a + b,
{
    let parts = seq![a, b];
    assert(parts.drop_last() =~= seq![a]);
    assert(seq![a].drop_last() =~= Seq::<Seq<char>>::empty());
    assert(crate::text::concat_spec(seq![a].drop_last()) =~= Seq::<char>::empty());
    assert(seq![a].last() == a);
    assert(crate::text::concat_spec(seq![a]) =~= Seq::<char>::empty() + a);
    assert(Seq::<char>::empty() + a =~= a);
}

/// `cues[<cue>].texts[<text>]`.
fn text_field(cue_index: usize, text_index: usize) -> (field: String)
    ensures
        field@ == "cues["@ + decimal(cue_index as nat) + "].texts["@ + decimal(text_index as nat)
            + "]"@,
{
    let cue_part = field_at("cues[", cue_index, "].texts[");
    let text_part = field_at("", text_index, "]");
    let parts = [cue_part.as_str(), text_part.as_str()];
    let field = crate::text::concat(&parts);
    proof {
        assert(parts@.map_values(|p: &str| p@) =~= seq![cue_part@, text_part@]);
        lemma_concat_two(cue_part@, text_part@);
        assert(""@ + decimal(text_index as nat) + "]"@ =~= decimal(text_index as nat) + "]"@) by {
            reveal_strlit("");
        }
        assert(field@ =~= "cues["@ + decimal(cue_index as nat) + "].texts["@ + decimal(
            text_index as nat,
        ) + "]"@);
    }
    field
}

/// `<field><suffix>`.
fn subfield(field: &String, suffix: &str) -> (path: String)
    ensures
        path@ == field@ + suffix@,
{
    let parts = [field.as_str(), suffix];
    let path = crate::text::concat(&parts);
    proof {
        assert(parts@.map_values(|p: &str| p@) =~= seq![field@, suffix@]);
        lemma_concat_two(field@, suffix@);
    }
    path
}

#[verifier::loop_isolation(false)]
fn validate_cue_texts(
    cue: &LyricCue,
    track_has_language: bool,
    media_duration: Option<u64>,
    cue_index: usize,
) -> (r: Result<(), LyricsValidationError>)
    ensures
        r is Ok <==> texts_ok(*cue, track_has_language, media_duration),
        error_of(r) == texts_error(*cue, track_has_language, media_duration, cue_index as int),
{
    let texts = &cue.texts;
    if texts.len() == 0 || texts.len() > MAX_LYRIC_TEXTS_PER_CUE {
        let message = field_at(
            "cues[",
            cue_index,
            "].texts must contain between 1 and 16 entries",
        );
        return Err(lyrics_error(&[message.as_str()]));
    }
    let mut original_count: usize = 0;
    let mut k: usize = 0;
    while k < texts.len()
        invariant
            *texts == cue.texts,
            1 <= texts@.len() <= MAX_LYRIC_TEXTS_PER_CUE,
            k <= texts@.len(),
            original_count == count_originals(texts@.take(k as int)),
            original_count <= k,
            forall|a: int|
                0 <= a < k ==> #[trigger] text_ok(
                    texts@[a],
                    *cue,
                    track_has_language,
                    media_duration,
                ),
            forall|a: int, b: int|
                0 <= a < b < k ==> !same_variant(#[trigger] texts@[a], #[trigger] texts@[b]),
            texts_error_from(*cue, track_has_language, media_duration, cue_index as int, 0)
                == texts_error_from(
                *cue,
                track_has_language,
                media_duration,
                cue_index as int,
                k as int,
            ),
        decreases texts@.len() - k,
    {
        let text = &texts[k];
        let field = text_field(cue_index, k);
        let kind_field = subfield(&field, ".kind");
        if let Err(e) = validate_identifier(text.kind.as_str(), kind_field.as_str()) {
            assert(!text_ok(texts@[k as int], *cue, track_has_language, media_duration));
            return Err(e);
        }
        let language_field = subfield(&field, ".language");
        if let Err(e) = validate_optional_language(&text.language, language_field.as_str()) {
            assert(!text_ok(texts@[k as int], *cue, track_has_language, media_duration));
            return Err(e);
        }
        let direction_field = subfield(&field, ".direction");
        if let Err(e) = validate_optional_direction(&text.direction, direction_field.as_str()) {
            assert(!text_ok(texts@[k as int], *cue, track_has_language, media_duration));
            return Err(e);
        }
        let text_text_field = subfield(&field, ".text");
        if let Err(e) = validate_text(text.text.as_str(), text_text_field.as_str(), false) {
            assert(!text_ok(texts@[k as int], *cue, track_has_language, media_duration));
            return Err(e);
        }
        let original = text_is(text.kind.as_str(), "original");
        assert(texts@.take(k + 1).drop_last() == texts@.take(k as int));
        if original {
            original_count = original_count + 1;
            if text.language.is_none() && !track_has_language {
                let message = subfield(&field, " needs language because its track has no language");
                assert(!text_ok(texts@[k as int], *cue, track_has_language, media_duration));
                return Err(LyricsValidationError(message));
            }
        } else if text.language.is_none() {
            let message = subfield(&field, ".language is required for non-original text");
            assert(!text_ok(texts@[k as int], *cue, track_has_language, media_duration));
            return Err(LyricsValidationError(message));
        }
        let mut l: usize = 0;
        while l < k
            invariant
                k < texts@.len(),
                l <= k,
                *text == texts@[k as int],
                forall|a: int| 0 <= a < l ==> !same_variant(#[trigger] texts@[a], *text),
            decreases k - l,
        {
            if texts[l].kind == text.kind && same_language(&texts[l].language, &text.language) {
                let message = subfield(&field, " duplicates a kind/language variant");
                assert(same_variant(texts@[l as int], texts@[k as int]));
                return Err(LyricsValidationError(message));
            }
            l = l + 1;
        }
        if let Err(e) = validate_segments(text, cue, media_duration, &field) {
            assert(!text_ok(texts@[k as int], *cue, track_has_language, media_duration));
            return Err(e);
        }
        k = k + 1;
    }
    assert(texts@.take(texts@.len() as int) == texts@);
    if original_count != 1 {
        let message = field_at("cues[", cue_index, "] must contain exactly one original text");
        return Err(lyrics_error(&[message.as_str()]));
    }
    Ok(())
}

#[verifier::loop_isolation(false)]
fn validate_segments(
    text: &LyricText,
    cue: &LyricCue,
    media_duration: Option<u64>,
    field: &String,
) -> (r: Result<(), LyricsValidationError>)
    ensures
        r is Ok <==> segments_ok(text.segments@, *cue, media_duration),
        error_of(r) == segments_error(*text, *cue, media_duration, field@),
{
    let segments = &text.segments;
    if segments.len() > MAX_LYRIC_SEGMENTS_PER_TEXT {
        let message = subfield(field, ".segments exceeds 2000 entries");
        return Err(LyricsValidationError(message));
    }
    let bound: Option<u64> = match cue.end_ms {
        Some(end) => Some(end),
        None => media_duration,
    };
    let mut s: usize = 0;
    while s < segments.len()
        invariant
            *segments == text.segments,
            segments@.len() <= MAX_LYRIC_SEGMENTS_PER_TEXT,
            bound == cue_bound(*cue, media_duration),
            s <= segments@.len(),
            forall|a: int| 0 <= a < s ==> #[trigger] segment_ok(segments@, a, *cue, media_duration),
            segments_error_from(segments@, 0, *cue, media_duration, field@) == segments_error_from(
                segments@,
                s as int,
                *cue,
                media_duration,
                field@,
            ),
        decreases segments@.len() - s,
    {
        let segment = &segments[s];
        let prefix = subfield(field, ".segments[");
        let item = field_at(prefix.as_str(), s, "]");
        let text_field = subfield(&item, ".text");
        if let Err(e) = validate_text(segment.text.as_str(), text_field.as_str(), true) {
            assert(!segment_ok(segments@, s as int, *cue, media_duration));
            return Err(e);
        }
        let start_field = subfield(&item, ".start_ms");
        if let Err(e) = validate_timestamp(segment.start_ms, start_field.as_str()) {
            assert(!segment_ok(segments@, s as int, *cue, media_duration));
            return Err(e);
        }
        let end_field = subfield(&item, ".end_ms");
        if let Err(e) = validate_timestamp(segment.end_ms, end_field.as_str()) {
            assert(!segment_ok(segments@, s as int, *cue, media_duration));
            return Err(e);
        }
        if segment.start_ms < cue.start_ms || segment.end_ms <= segment.start_ms {
            let message = subfield(&item, " has invalid timing");
            assert(!segment_ok(segments@, s as int, *cue, media_duration));
            return Err(LyricsValidationError(message));
        }
        if let Some(end) = bound {
            if segment.end_ms > end {
                let message = subfield(&item, " extends past its cue");
                assert(!segment_ok(segments@, s as int, *cue, media_duration));
                return Err(LyricsValidationError(message));
            }
        }
        if s > 0 && segments[s - 1].end_ms > segment.start_ms {
            let message = subfield(&item, " overlaps the previous segment");
            assert(!segment_ok(segments@, s as int, *cue, media_duration));
            return Err(LyricsValidationError(message));
        }
        assert(segment_ok(segments@, s as int, *cue, media_duration));
        s = s + 1;
    }
    Ok(())
}

} // verus!
