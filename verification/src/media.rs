//! The pure rules of media scanning: supported formats, codec labels,
//! embedded-tag selection, audio-evidence caching and artwork sidecar
//! precedence.

use crate::paths::{extension, file_stem, opt_view, path_extension, path_file_stem};
use crate::text::{
    ascii_lower_text, chars_of, lemma_text_less_transitive, lower_chars, text_less, text_lt,
    trim_chars, trim_spec,
};
use crate::lyrics::language::is_chars;
use vstd::prelude::*;

verus! {

/// The fingerprint profile version that this scanner produces.
pub const ACOUSTIC_FINGERPRINT_ALGORITHM: u32 = 1;

/// A versioned Chromaprint fingerprint, used only for conservative fallback
/// reconciliation after exact identity evidence fails.
#[derive(Debug, PartialEq, Eq)]
pub struct AcousticFingerprint {
    algorithm: u32,
    items: Vec<u32>,
}

impl AcousticFingerprint {
    pub closed spec fn algorithm_view(&self) -> u32 {
        self.algorithm
    }

    pub closed spec fn items_view(&self) -> Seq<u32> {
        self.items@
    }

    pub fn from_parts(algorithm: u32, items: Vec<u32>) -> (fingerprint: AcousticFingerprint)
        ensures
            fingerprint.algorithm_view() == algorithm,
            fingerprint.items_view() == items@,
    {
        AcousticFingerprint { algorithm, items }
    }

    /// A fingerprint of the current profile.
    pub fn current(items: Vec<u32>) -> (fingerprint: AcousticFingerprint)
        ensures
            fingerprint.algorithm_view() == ACOUSTIC_FINGERPRINT_ALGORITHM,
            fingerprint.items_view() == items@,
    {
        AcousticFingerprint::from_parts(ACOUSTIC_FINGERPRINT_ALGORITHM, items)
    }

    pub fn algorithm(&self) -> (algorithm: u32)
        ensures
            algorithm == self.algorithm_view(),
    {
        self.algorithm
    }

    pub fn items(&self) -> (items: &[u32])
        ensures
            items@ == self.items_view(),
    {
        self.items.as_slice()
    }
}

impl Clone for AcousticFingerprint {
    fn clone(&self) -> (copy: AcousticFingerprint)
        ensures
            copy.algorithm_view() == self.algorithm_view(),
            copy.items_view() == self.items_view(),
    {
        let mut items: Vec<u32> = Vec::new();
        let mut i: usize = 0;
        while i < self.items.len()
            invariant
                i <= self.items@.len(),
                items@ == self.items@.take(i as int),
            decreases self.items@.len() - i,
        {
            items.push(self.items[i]);
            assert(self.items@.take(i + 1) == self.items@.take(i as int).push(self.items@[i as int]));
            i = i + 1;
        }
        assert(self.items@.take(self.items@.len() as int) == self.items@);
        AcousticFingerprint { algorithm: self.algorithm, items }
    }
}

/// Optional device and inode plus size and modification time of a file.
#[derive(Debug, Clone, Copy, PartialEq, Eq, Structural)]
pub struct FileIdentity {
    pub device: Option<u64>,
    pub inode: Option<u64>,
    pub size_bytes: u64,
    pub modified_ns: i64,
}

/// Audio evidence remembered from an earlier observation of a file.
#[derive(Debug, Clone)]
pub struct CachedAudioEvidence {
    pub path: String,
    pub file: FileIdentity,
    pub audio_signature: [u8; 32],
    /// `None` marks a record created before acoustic fingerprints existed;
    /// the next scan recomputes and backfills both forms of evidence.
    pub acoustic_fingerprint: Option<AcousticFingerprint>,
}

/// The cached observation describes the same, unchanged file: equal size
/// and modification time, and either the same path or the same nonempty
/// device/inode identity.
pub open spec fn same_observation(cached: CachedAudioEvidence, path: Seq<char>, identity: FileIdentity) -> bool {
    &&& cached.file.size_bytes == identity.size_bytes
    &&& cached.file.modified_ns == identity.modified_ns
    &&& (cached.path@ == path || (cached.file.device is Some && cached.file.device
        == identity.device && cached.file.inode == identity.inode))
}

/// The first cache entry that describes the same observation.
pub open spec fn first_observation(cache: Seq<CachedAudioEvidence>, path: Seq<char>, identity: FileIdentity) -> Option<int> {
    if exists|i: int| 0 <= i < cache.len() && #[trigger] same_observation(cache[i], path, identity) {
        Some(
            choose|i: int|
                0 <= i < cache.len() && same_observation(cache[i], path, identity) && forall|j: int|
                    0 <= j < i ==> !#[trigger] same_observation(cache[j], path, identity),
        )
    } else {
        None
    }
}

/// Reuses cached evidence only for an unchanged file observation whose
/// fingerprint has the current profile.
pub fn cached_audio_evidence(cache: &[CachedAudioEvidence], path: &str, identity: FileIdentity) -> (evidence: Option<([u8; 32], AcousticFingerprint)>)
    ensures
        match first_observation(cache@, path@, identity) {
            None => evidence is None,
            Some(i) => match cache@[i].acoustic_fingerprint {
                Some(fp) => if fp.algorithm_view() == ACOUSTIC_FINGERPRINT_ALGORITHM {
                    evidence matches Some((signature, copy)) && signature == cache@[i].audio_signature
                        && copy.algorithm_view() == fp.algorithm_view() && copy.items_view()
                        == fp.items_view()
                } else {
                    evidence is None
                },
                None => evidence is None,
            },
        },
{
    let mut i: usize = 0;
    while i < cache.len()
        invariant
            i <= cache@.len(),
            forall|j: int| 0 <= j < i ==> !#[trigger] same_observation(cache@[j], path@, identity),
        decreases cache@.len() - i,
    {
        let cached = &cache[i];
        let same_path = cached.path == path.to_owned();
        let same_device = match (cached.file.device, identity.device) {
            (Some(a), Some(b)) => a == b && cached.file.inode == identity.inode,
            _ => false,
        };
        if cached.file.size_bytes == identity.size_bytes && cached.file.modified_ns
            == identity.modified_ns && (same_path || same_device) {
            proof {
                assert(same_observation(cache@[i as int], path@, identity));
                let c = choose|c: int|
                    0 <= c < cache@.len() && same_observation(cache@[c], path@, identity) && forall|
                        j: int,
                    | 0 <= j < c ==> !#[trigger] same_observation(cache@[j], path@, identity);
                if c < i {
                } else if c > i {
                }
            }
            return match &cached.acoustic_fingerprint {
                Some(fingerprint) => if fingerprint.algorithm == ACOUSTIC_FINGERPRINT_ALGORITHM {
                    Some((cached.audio_signature, fingerprint.clone()))
                } else {
                    None
                },
                None => None,
            };
        }
        assert(!same_observation(cache@[i as int], path@, identity));
        i = i + 1;
    }
    None
}

/// The lowercase extensions of the supported audio formats.
pub open spec fn is_audio_extension(lower: Seq<char>) -> bool {
    ||| lower == "aac"@
    ||| lower == "flac"@
    ||| lower == "m4a"@
    ||| lower == "mp3"@
    ||| lower == "oga"@
    ||| lower == "ogg"@
    ||| lower == "wav"@
}

/// A file is supported exactly when its extension, ignoring ASCII case, is
/// one of aac, flac, m4a, mp3, oga, ogg and wav: `.mp3` files are scanned,
/// `.MP3` as well, and a `.txt` file is not.
pub proof fn supported_formats_are_the_listed_ones(path: Seq<char>)
    ensures
        (path_extension(path) matches Some(e) && is_audio_extension(ascii_lower_text(e))) <==> (
        path_extension(path) matches Some(e) && (ascii_lower_text(e) == seq!['a', 'a', 'c']
            || ascii_lower_text(e) == seq!['f', 'l', 'a', 'c'] || ascii_lower_text(e) == seq![
            'm',
            '4',
            'a',
        ] || ascii_lower_text(e) == seq!['m', 'p', '3'] || ascii_lower_text(e) == seq!['o', 'g', 'a']
            || ascii_lower_text(e) == seq!['o', 'g', 'g'] || ascii_lower_text(e) == seq![
            'w',
            'a',
            'v',
        ])),
{
    reveal_strlit("aac");
    reveal_strlit("flac");
    reveal_strlit("m4a");
    reveal_strlit("mp3");
    reveal_strlit("oga");
    reveal_strlit("ogg");
    reveal_strlit("wav");
    if let Some(e) = path_extension(path) {
        let l = ascii_lower_text(e);
        assert("aac"@ =~= seq!['a', 'a', 'c']);
        assert("flac"@ =~= seq!['f', 'l', 'a', 'c']);
        assert("m4a"@ =~= seq!['m', '4', 'a']);
        assert("mp3"@ =~= seq!['m', 'p', '3']);
        assert("oga"@ =~= seq!['o', 'g', 'a']);
        assert("ogg"@ =~= seq!['o', 'g', 'g']);
        assert("wav"@ =~= seq!['w', 'a', 'v']);
    }
}

/// Whether `path` has a supported audio extension, ignoring ASCII case.
pub fn is_supported_audio(path: &str) -> (supported: bool)
    ensures
        supported == (path_extension(path@) matches Some(e) && is_audio_extension(ascii_lower_text(e))),
{
    match extension(path) {
        Some(e) => {
            let chars = chars_of(e.as_str());
            let lower = lower_chars(chars.as_slice());
            let l = lower.as_slice();
            is_chars(l, "aac") || is_chars(l, "flac") || is_chars(l, "m4a") || is_chars(l, "mp3")
                || is_chars(l, "oga") || is_chars(l, "ogg") || is_chars(l, "wav")
        },
        None => false,
    }
}

/// The codec label for a lowercase extension.
pub open spec fn codec_for(lower: Option<Seq<char>>) -> Seq<char> {
    match lower {
        Some(e) => if e == "flac"@ {
            "FLAC"@
        } else if e == "mp3"@ {
            "MP3"@
        } else if e == "m4a"@ || e == "aac"@ {
            "AAC"@
        } else if e == "ogg"@ || e == "oga"@ {
            "Ogg Vorbis"@
        } else if e == "wav"@ {
            "WAV"@
        } else {
            "Audio"@
        },
        None => "Audio"@,
    }
}

/// The display label of the codec that the extension of `path` implies.
pub fn codec_label(path: &str) -> (label: &'static str)
    ensures
        label@ == codec_for(
            match path_extension(path@) {
                Some(e) => Some(ascii_lower_text(e)),
                None => None,
            },
        ),
{
    match extension(path) {
        Some(e) => {
            let chars = chars_of(e.as_str());
            let lower = lower_chars(chars.as_slice());
            let l = lower.as_slice();
            if is_chars(l, "flac") {
                "FLAC"
            } else if is_chars(l, "mp3") {
                "MP3"
            } else if is_chars(l, "m4a") || is_chars(l, "aac") {
                "AAC"
            } else if is_chars(l, "ogg") || is_chars(l, "oga") {
                "Ogg Vorbis"
            } else if is_chars(l, "wav") {
                "WAV"
            } else {
                "Audio"
            }
        },
        None => "Audio",
    }
}

/// A tag value with surrounding whitespace and NUL removed, if anything
/// remains.
pub open spec fn tag_text(value: Seq<char>) -> Option<Seq<char>> {
    let t = trim_spec(value, true);
    if t.len() == 0 {
        None
    } else {
        Some(t)
    }
}

pub fn non_empty_tag(value: &str) -> (text: Option<String>)
    ensures
        opt_view(text) == tag_text(value@),
{
    let chars = chars_of(value);
    let trimmed = trim_chars(chars.as_slice(), true);
    if trimmed.len() == 0 {
        None
    } else {
        Some(crate::text::string_from(trimmed.as_slice()))
    }
}

/// The standardized meaning of an embedded tag, where the container gives
/// one.
#[derive(Debug, Clone, Copy, PartialEq, Eq, Structural)]
pub enum StandardTag {
    TrackTitle,
    Artist,
    Album,
    Other,
}

/// One embedded metadata tag: its standardized key (if any), its raw key,
/// and its value when the value is text.
#[derive(Debug, Clone)]
pub struct MetadataTag {
    pub standard: Option<StandardTag>,
    pub key: String,
    pub text: Option<String>,
}

/// Title, artist and album found in embedded tags; the first usable value
/// of each wins.
#[derive(Debug, Clone)]
pub struct EmbeddedMetadata {
    pub title: Option<String>,
    pub artist: Option<String>,
    pub album: Option<String>,
}

/// Which field a raw tag key names (ASCII case and surrounding whitespace
/// ignored): 0 title, 1 artist, 2 album, 3 none.
pub open spec fn fallback_field(key: Seq<char>) -> int {
    let k = ascii_lower_text(trim_spec(key, false));
    if k == "title"@ || k == "inam"@ {
        0
    } else if k == "artist"@ || k == "iart"@ {
        1
    } else if k == "album"@ || k == "iprd"@ {
        2
    } else {
        3
    }
}

impl EmbeddedMetadata {
    pub open spec fn fields(&self) -> (Option<Seq<char>>, Option<Seq<char>>, Option<Seq<char>>) {
        (opt_view(self.title), opt_view(self.artist), opt_view(self.album))
    }

    pub fn new() -> (m: EmbeddedMetadata)
        ensures
            m.title is None && m.artist is None && m.album is None,
    {
        EmbeddedMetadata { title: None, artist: None, album: None }
    }

    /// Fills an empty field from a raw tag key.
    pub fn absorb_fallback_key(&mut self, key: &str, value: String)
        ensures
            final(self).fields() == fill_field(old(self).fields(), fallback_field(key@), value@),
    {
        proof {
            reveal_strlit("title");
            reveal_strlit("inam");
            reveal_strlit("artist");
            reveal_strlit("iart");
            reveal_strlit("album");
            reveal_strlit("iprd");
            assert("title"@.len() == 5 && "album"@.len() == 5 && "artist"@.len() == 6);
            assert("inam"@.len() == 4 && "iart"@.len() == 4 && "iprd"@.len() == 4);
            assert("title"@[0] != "album"@[0]);
            assert("inam"@[1] != "iart"@[1] && "inam"@[1] != "iprd"@[1] && "iart"@[1] != "iprd"@[1]);
        }
        let chars = chars_of(key);
        let trimmed = trim_chars(chars.as_slice(), false);
        let lower = lower_chars(trimmed.as_slice());
        let k = lower.as_slice();
        if (is_chars(k, "title") || is_chars(k, "inam")) && self.title.is_none() {
            self.title = Some(value);
        } else if (is_chars(k, "artist") || is_chars(k, "iart")) && self.artist.is_none() {
            self.artist = Some(value);
        } else if (is_chars(k, "album") || is_chars(k, "iprd")) && self.album.is_none() {
            self.album = Some(value);
        }
    }

    /// Absorbs one tag: a text value that is not blank fills the field that
    /// its standardized key names when that field is still empty, and is
    /// otherwise matched by its raw key.
    pub fn absorb_tag(&mut self, tag: &MetadataTag)
        ensures
            final(self).fields() == absorb_fields(old(self).fields(), *tag),
    {
        let raw = match &tag.text {
            Some(raw) => raw,
            None => return,
        };
        let value = match non_empty_tag(raw.as_str()) {
            Some(v) => v,
            None => return,
        };
        match tag.standard {
            Some(StandardTag::TrackTitle) if self.title.is_none() => {
                self.title = Some(value);
            },
            Some(StandardTag::Artist) if self.artist.is_none() => {
                self.artist = Some(value);
            },
            Some(StandardTag::Album) if self.album.is_none() => {
                self.album = Some(value);
            },
            _ => self.absorb_fallback_key(tag.key.as_str(), value),
        }
    }

    /// Absorbs the tags of one metadata revision in order.
    pub fn absorb(&mut self, tags: &[MetadataTag])
        ensures
            final(self).fields() == absorb_all(old(self).fields(), tags@),
    {
        let mut i: usize = 0;
        while i < tags.len()
            invariant
                i <= tags@.len(),
                self.fields() == absorb_all(old(self).fields(), tags@.take(i as int)),
            decreases tags@.len() - i,
        {
            let ghost before = self.fields();
            self.absorb_tag(&tags[i]);
            assert(tags@.take(i + 1).drop_last() == tags@.take(i as int));
            i = i + 1;
        }
        assert(tags@.take(tags@.len() as int) == tags@);
    }
}

/// The fields with field `f` set to `v` if it is empty.
pub open spec fn fill_field(
    fields: (Option<Seq<char>>, Option<Seq<char>>, Option<Seq<char>>),
    f: int,
    v: Seq<char>,
) -> (Option<Seq<char>>, Option<Seq<char>>, Option<Seq<char>>) {
    if f == 0 && fields.0 is None {
        (Some(v), fields.1, fields.2)
    } else if f == 1 && fields.1 is None {
        (fields.0, Some(v), fields.2)
    } else if f == 2 && fields.2 is None {
        (fields.0, fields.1, Some(v))
    } else {
        fields
    }
}

/// The fields after absorbing a tag, given the fields before.
pub open spec fn absorb_fields(fields: (Option<Seq<char>>, Option<Seq<char>>, Option<Seq<char>>), tag: MetadataTag) -> (Option<Seq<char>>, Option<Seq<char>>, Option<Seq<char>>) {
    let (title, artist, album) = fields;
    match tag.text {
        None => fields,
        Some(raw) => match tag_text(raw@) {
            None => fields,
            Some(v) => {
                let f = if tag.standard == Some(StandardTag::TrackTitle) && title is None {
                    0
                } else if tag.standard == Some(StandardTag::Artist) && artist is None {
                    1
                } else if tag.standard == Some(StandardTag::Album) && album is None {
                    2
                } else {
                    fallback_field(tag.key@)
                };
                fill_field(fields, f, v)
            },
        },
    }
}

/// The fields after absorbing `tags` in order.
pub open spec fn absorb_all(fields: (Option<Seq<char>>, Option<Seq<char>>, Option<Seq<char>>), tags: Seq<MetadataTag>) -> (Option<Seq<char>>, Option<Seq<char>>, Option<Seq<char>>)
    decreases tags.len(),
{
    if tags.len() == 0 {
        fields
    } else {
        absorb_fields(absorb_all(fields, tags.drop_last()), tags.last())
    }
}

/// The precedence of an artwork sidecar for a track whose lowercase stem is
/// `track`: `<track>.cover` 0, `<track>` 1, `cover` 2, `folder` 3, `front`
/// 4, `album` 5; other names and non-image extensions are not candidates.
pub open spec fn artwork_rank(track: Seq<char>, stem: Seq<char>, extension: Seq<char>) -> Option<nat> {
    if !(extension == "jpg"@ || extension == "jpeg"@ || extension == "png"@ || extension == "webp"@) {
        None
    } else if stem == track + ".cover"@ {
        Some(0)
    } else if stem == track {
        Some(1)
    } else if stem == "cover"@ {
        Some(2)
    } else if stem == "folder"@ {
        Some(3)
    } else if stem == "front"@ {
        Some(4)
    } else if stem == "album"@ {
        Some(5)
    } else {
        None
    }
}

/// The rank of a sidecar file, given the lowercase stem of the track and
/// the lowercase stem and extension of the file.
pub fn sidecar_rank(track_stem: &[char], stem: &[char], extension: &[char]) -> (rank: Option<u32>)
    ensures
        match artwork_rank(track_stem@, stem@, extension@) {
            Some(r) => rank == Some(r as u32),
            None => rank is None,
        },
{
    if !(is_chars(extension, "jpg") || is_chars(extension, "jpeg") || is_chars(extension, "png")
        || is_chars(extension, "webp")) {
        return None;
    }
    let mut cover_name: Vec<char> = Vec::new();
    let mut i: usize = 0;
    while i < track_stem.len()
        invariant
            i <= track_stem@.len(),
            cover_name@ == track_stem@.take(i as int),
        decreases track_stem@.len() - i,
    {
        cover_name.push(track_stem[i]);
        assert(track_stem@.take(i + 1) == track_stem@.take(i as int).push(track_stem@[i as int]));
        i = i + 1;
    }
    assert(track_stem@.take(track_stem@.len() as int) == track_stem@);
    let suffix = chars_of(".cover");
    let mut k: usize = 0;
    while k < suffix.len()
        invariant
            k <= suffix@.len(),
            suffix@ == ".cover"@,
            cover_name@ == track_stem@ + suffix@.take(k as int),
        decreases suffix@.len() - k,
    {
        cover_name.push(suffix[k]);
        assert(suffix@.take(k + 1) == suffix@.take(k as int).push(suffix@[k as int]));
        k = k + 1;
    }
    assert(suffix@.take(suffix@.len() as int) == suffix@);
    if crate::text::chars_equal(stem, cover_name.as_slice()) {
        Some(0)
    } else if crate::text::chars_equal(stem, track_stem) {
        Some(1)
    } else if is_chars(stem, "cover") {
        Some(2)
    } else if is_chars(stem, "folder") {
        Some(3)
    } else if is_chars(stem, "front") {
        Some(4)
    } else if is_chars(stem, "album") {
        Some(5)
    } else {
        None
    }
}


/// The precedence of a directory entry as artwork for a track whose
/// lowercase stem is `track`, by the entry's lowercase stem and extension.
pub open spec fn entry_rank(track: Seq<char>, path: Seq<char>) -> Option<nat> {
    match (path_file_stem(path), path_extension(path)) {
        (Some(stem), Some(ext)) => artwork_rank(track, ascii_lower_text(stem), ascii_lower_text(ext)),
        _ => None,
    }
}

/// The entries that are artwork candidates, each with its rank, in
/// directory order.
pub open spec fn ranked_entries(track: Seq<char>, entries: Seq<Seq<char>>) -> Seq<(nat, Seq<char>)>
    decreases entries.len(),
{
    if entries.len() == 0 {
        Seq::empty()
    } else {
        let rest = ranked_entries(track, entries.drop_last());
        match entry_rank(track, entries.last()) {
            Some(r) => rest.push((r, entries.last())),
            None => rest,
        }
    }
}

/// Candidate order: by rank, then by path.
pub open spec fn candidate_before(a: (nat, Seq<char>), b: (nat, Seq<char>)) -> bool {
    a.0 < b.0 || (a.0 == b.0 && text_less(a.1, b.1))
}

/// No candidate comes after a later one.
pub open spec fn candidates_sorted(s: Seq<(nat, Seq<char>)>) -> bool {
    forall|i: int, j: int| 0 <= i < j < s.len() ==> !#[trigger] candidate_before(s[j], s[i])
}

/// The ranked candidates of `entries` as stored while sorting.
pub open spec fn candidate_keys(s: Seq<(u32, String)>) -> Seq<(nat, Seq<char>)> {
    s.map_values(|e: (u32, String)| (e.0 as nat, e.1@))
}

proof fn lemma_candidate_before_transitive(a: (nat, Seq<char>), b: (nat, Seq<char>), c: (nat, Seq<char>))
    requires
        candidate_before(a, b),
        candidate_before(b, c),
    ensures
        candidate_before(a, c),
{
    if a.0 == b.0 && b.0 == c.0 {
        lemma_text_less_transitive(a.1, b.1, c.1);
    }
}

/// The artwork sidecars for a track among the entries of its directory:
/// image files named `<track>.cover`, `<track>`, `cover`, `folder`,
/// `front` or `album` (ASCII case ignored), best first, ties by path.
/// None without a track file stem.
pub fn sidecar_candidates(audio_path: &str, entries: &[String]) -> (candidates: Vec<String>)
    ensures
        match path_file_stem(audio_path@) {
            None => candidates@.len() == 0,
            Some(stem) => {
                let track = ascii_lower_text(stem);
                exists|keys: Seq<(nat, Seq<char>)>|
                    {
                        &&& keys.len() == candidates@.len()
                        &&& forall|i: int| 0 <= i < keys.len() ==> (#[trigger] keys[i]).1 == candidates@[i]@
                        &&& candidates_sorted(keys)
                        &&& keys.to_multiset() == ranked_entries(
                            track,
                            entries@.map_values(|e: String| e@),
                        ).to_multiset()
                    }
            },
        },
{
    let stem = match file_stem(audio_path) {
        Some(stem) => stem,
        None => return Vec::new(),
    };
    let stem_chars = chars_of(stem.as_str());
    let track = lower_chars(stem_chars.as_slice());
    let ghost views = entries@.map_values(|e: String| e@);
    let mut sorted: Vec<(u32, String)> = Vec::new();
    let mut i: usize = 0;
    assert(views.take(0) =~= Seq::<Seq<char>>::empty());
    assert(candidate_keys(sorted@) =~= Seq::<(nat, Seq<char>)>::empty());
    while i < entries.len()
        invariant
            i <= entries@.len(),
            track@ == ascii_lower_text(stem@),
            views == entries@.map_values(|e: String| e@),
            candidates_sorted(candidate_keys(sorted@)),
            candidate_keys(sorted@).to_multiset() == ranked_entries(track@, views.take(i as int)).to_multiset(),
        decreases entries@.len() - i,
    {
        let entry = &entries[i];
        assert(views.take(i + 1).drop_last() == views.take(i as int));
        assert(views.take(i + 1).last() == entry@);
        let rank = entry_rank_of(track.as_slice(), entry.as_str());
        if let Some(r) = rank {
            let ghost keys = candidate_keys(sorted@);
            let ghost x = (r as nat, entry@);
            let mut p: usize = 0;
            while p < sorted.len() && !key_before(r, entry.as_str(), sorted[p].0, sorted[p].1.as_str())
                invariant
                    p <= sorted@.len(),
                    keys == candidate_keys(sorted@),
                    x == (r as nat, entry@),
                    forall|k: int| 0 <= k < p ==> !candidate_before(x, #[trigger] keys[k]),
                decreases sorted@.len() - p,
            {
                assert(keys[p as int] == (sorted@[p as int].0 as nat, sorted@[p as int].1@));
                p = p + 1;
            }
            proof {
                assert forall|a: int, b: int| 0 <= a < b < keys.insert(p as int, x).len() implies
                    !#[trigger] candidate_before(keys.insert(p as int, x)[b], keys.insert(p as int, x)[a]) by {
                    let t = keys.insert(p as int, x);
                    if a < p && b == p {
                    } else if a == p {
                        // t[b] == keys[b - 1], with p <= b - 1.
                        assert(candidate_before(x, keys[p as int]));
                        if candidate_before(keys[b - 1], x) {
                            lemma_candidate_before_transitive(keys[b - 1], x, keys[p as int]);
                            if b - 1 > p {
                                assert(!candidate_before(keys[b - 1], keys[p as int]));
                            } else {
                                lemma_candidate_irreflexive(keys[p as int]);
                            }
                        }
                    } else if a < p && b > p {
                        assert(!candidate_before(keys[b - 1], keys[a]));
                    } else if a > p {
                        assert(!candidate_before(keys[b - 1], keys[a - 1]));
                    } else {
                        assert(!candidate_before(keys[b], keys[a]));
                    }
                }
                vstd::seq_lib::to_multiset_insert(keys, p as int, x);
                vstd::seq_lib::to_multiset_build(ranked_entries(track@, views.take(i as int)), x);
            }
            sorted.insert(p, (r, entry.clone()));
            assert(candidate_keys(sorted@) =~= keys.insert(p as int, x));
        }
        i = i + 1;
    }
    assert(views.take(entries@.len() as int) == views);
    let mut candidates: Vec<String> = Vec::new();
    let mut k: usize = 0;
    while k < sorted.len()
        invariant
            k <= sorted@.len(),
            candidates@.len() == k,
            forall|j: int| 0 <= j < k ==> (#[trigger] candidate_keys(sorted@)[j]).1 == candidates@[j]@,
        decreases sorted@.len() - k,
    {
        candidates.push(sorted[k].1.clone());
        k = k + 1;
    }
    assert(candidate_keys(sorted@).len() == candidates@.len());
    candidates
}

proof fn lemma_candidate_irreflexive(a: (nat, Seq<char>))
    ensures
        !candidate_before(a, a),
{
    crate::text::lemma_text_less_irreflexive(a.1);
}

/// Whether candidate `(r, path)` comes before candidate `(s, other)`.
fn key_before(r: u32, path: &str, s: u32, other: &str) -> (before: bool)
    ensures
        before == candidate_before((r as nat, path@), (s as nat, other@)),
{
    r < s || (r == s && text_lt(path, other))
}

/// The rank of one directory entry as artwork for `track`.
fn entry_rank_of(track: &[char], path: &str) -> (rank: Option<u32>)
    ensures
        match entry_rank(track@, path@) {
            Some(r) => rank == Some(r as u32) && r < 6,
            None => rank is None,
        },
{
    let stem = match file_stem(path) {
        Some(stem) => stem,
        None => return None,
    };
    let ext = match extension(path) {
        Some(ext) => ext,
        None => return None,
    };
    let stem_chars = chars_of(stem.as_str());
    let ext_chars = chars_of(ext.as_str());
    let lower_stem = lower_chars(stem_chars.as_slice());
    let lower_ext = lower_chars(ext_chars.as_slice());
    sidecar_rank(track, lower_stem.as_slice(), lower_ext.as_slice())
}

/// The media type implied by a lowercase image extension.
pub open spec fn image_media_type(extension: Seq<char>) -> Option<Seq<char>> {
    if extension == "jpg"@ || extension == "jpeg"@ {
        Some("image/jpeg"@)
    } else if extension == "png"@ {
        Some("image/png"@)
    } else if extension == "webp"@ {
        Some("image/webp"@)
    } else {
        None
    }
}

pub fn media_type_for_extension(extension: &[char]) -> (media_type: Option<&'static str>)
    ensures
        match image_media_type(extension@) {
            Some(t) => media_type matches Some(m) && m@ == t,
            None => media_type is None,
        },
{
    if is_chars(extension, "jpg") || is_chars(extension, "jpeg") {
        Some("image/jpeg")
    } else if is_chars(extension, "png") {
        Some("image/png")
    } else if is_chars(extension, "webp") {
        Some("image/webp")
    } else {
        None
    }
}

/// Encoded cover artwork discovered for one local audio file.
#[derive(Debug, Clone, PartialEq, Eq)]
pub struct ArtworkData {
    pub media_type: Option<String>,
    pub bytes: Vec<u8>,
}


/// Largest artwork (bytes) that is loaded.
pub const MAX_ARTWORK_BYTES: u64 = 25_165_824;

/// Artwork from an embedded picture: refused above 24 MiB; a blank media
/// type is dropped.
pub fn artwork_from_visual(media_type: String, data: Vec<u8>) -> (artwork: Option<ArtworkData>)
    ensures
        data@.len() > MAX_ARTWORK_BYTES ==> artwork is None,
        data@.len() <= MAX_ARTWORK_BYTES ==> (artwork matches Some(a) && a.bytes@ == data@ && opt_view(
            a.media_type,
        ) == (if crate::text::is_blank(media_type@) {
            None::<Seq<char>>
        } else {
            Some(media_type@)
        })),
{
    if data.len() as u64 > MAX_ARTWORK_BYTES {
        return None;
    }
    let chars = chars_of(media_type.as_str());
    let media_type = if crate::text::all_whitespace(chars.as_slice()) {
        None
    } else {
        Some(media_type)
    };
    Some(ArtworkData { media_type, bytes: data })
}

/// The picture to use among those of a metadata revision (given by whether
/// each is marked as the front cover): the first front cover, else the
/// first picture.
pub fn front_cover_or_first(is_front_cover: &[bool]) -> (index: Option<usize>)
    ensures
        is_front_cover@.len() == 0 ==> index is None,
        is_front_cover@.len() > 0 ==> (index matches Some(i) && i < is_front_cover@.len() && (
        is_front_cover@[i as int] || (i == 0 && forall|j: int|
            0 <= j < is_front_cover@.len() ==> !is_front_cover@[j])) && forall|j: int|
            0 <= j < i ==> !is_front_cover@[j]),
{
    let mut i: usize = 0;
    while i < is_front_cover.len()
        invariant
            i <= is_front_cover@.len(),
            forall|j: int| 0 <= j < i ==> !is_front_cover@[j],
        decreases is_front_cover@.len() - i,
    {
        if is_front_cover[i] {
            return Some(i);
        }
        i = i + 1;
    }
    if is_front_cover.len() == 0 {
        None
    } else {
        Some(0)
    }
}

/// A sidecar file is read only when it is a regular file of at most 24 MiB.
pub fn sidecar_artwork_readable(is_file: bool, length: u64) -> (readable: bool)
    ensures
        readable == (is_file && length <= MAX_ARTWORK_BYTES),
{
    is_file && length <= MAX_ARTWORK_BYTES
}

/// The media type of a sidecar image, from its extension (ASCII case
/// ignored).
pub fn sidecar_media_type(path: &str) -> (media_type: Option<String>)
    ensures
        opt_view(media_type) == (match path_extension(path@) {
            Some(ext) => image_media_type(ascii_lower_text(ext)),
            None => None,
        }),
{
    let ext = match extension(path) {
        Some(ext) => ext,
        None => return None,
    };
    let chars = chars_of(ext.as_str());
    let lower = lower_chars(chars.as_slice());
    match media_type_for_extension(lower.as_slice()) {
        Some(t) => Some(crate::text::string_from(chars_of(t).as_slice())),
        None => None,
    }
}


/// A picture embedded in one metadata revision of an audio file.
#[derive(Debug, Clone, PartialEq, Eq)]
pub struct EmbeddedVisual {
    /// Whether the file marks this picture as the front cover.
    pub front_cover: bool,
    pub media_type: String,
    pub data: Vec<u8>,
}

/// Artwork as plain values: its media type, where known, and its bytes.
pub open spec fn artwork_view(artwork: Option<ArtworkData>) -> Option<(Option<Seq<char>>, Seq<u8>)> {
    match artwork {
        Some(a) => Some((opt_view(a.media_type), a.bytes@)),
        None => None,
    }
}

/// The front-cover flags of a revision's pictures.
pub open spec fn front_cover_flags(visuals: Seq<EmbeddedVisual>) -> Seq<bool> {
    visuals.map_values(|v: EmbeddedVisual| v.front_cover)
}

/// Picture `i` is the one a revision offers: the first front cover, or the
/// first picture when none is marked.
pub open spec fn is_chosen_picture(flags: Seq<bool>, i: int) -> bool {
    &&& 0 <= i < flags.len()
    &&& flags[i] || (i == 0 && forall|j: int| 0 <= j < flags.len() ==> !#[trigger] flags[j])
    &&& forall|j: int| 0 <= j < i ==> !#[trigger] flags[j]
}

/// The picture a revision offers, if it has any.
pub open spec fn chosen_picture(flags: Seq<bool>) -> Option<int> {
    if flags.len() == 0 {
        None
    } else {
        Some(choose|i: int| is_chosen_picture(flags, i))
    }
}

/// What an embedded picture yields: nothing above 24 MiB; a blank media
/// type is dropped.
pub open spec fn visual_artwork(visual: EmbeddedVisual) -> Option<(Option<Seq<char>>, Seq<u8>)> {
    if visual.data@.len() > MAX_ARTWORK_BYTES {
        None
    } else {
        Some(
            (
                if crate::text::is_blank(visual.media_type@) {
                    None
                } else {
                    Some(visual.media_type@)
                },
                visual.data@,
            ),
        )
    }
}

/// The artwork of one metadata revision: that of its chosen picture.
pub open spec fn revision_artwork(visuals: Seq<EmbeddedVisual>) -> Option<(Option<Seq<char>>, Seq<u8>)> {
    match chosen_picture(front_cover_flags(visuals)) {
        Some(i) => visual_artwork(visuals[i]),
        None => None,
    }
}

/// A revision that is absent offers no artwork.
pub open spec fn optional_revision_artwork(revision: Option<Vec<EmbeddedVisual>>) -> Option<(Option<Seq<char>>, Seq<u8>)> {
    match revision {
        Some(v) => revision_artwork(v@),
        None => None,
    }
}

/// The chosen picture of a revision is unique.
proof fn lemma_chosen_picture(flags: Seq<bool>, i: int)
    requires
        is_chosen_picture(flags, i),
    ensures
        chosen_picture(flags) == Some(i),
{
    let k = choose|k: int| is_chosen_picture(flags, k);
    assert(is_chosen_picture(flags, k));
    if k < i {
        assert(!flags[k]);
        assert(!flags[i]);
    } else if i < k {
        assert(!flags[i]);
        assert(!flags[k]);
    }
}

/// The artwork of one metadata revision: its first front cover, else its
/// first picture, taken only within the size limit (a picture that is too
/// large yields nothing, and no other picture is tried).
pub fn artwork_from_revision(visuals: Vec<EmbeddedVisual>) -> (artwork: Option<ArtworkData>)
    ensures
        artwork_view(artwork) == revision_artwork(visuals@),
{
    let ghost original = visuals@;
    let mut flags: Vec<bool> = Vec::new();
    let mut k: usize = 0;
    while k < visuals.len()
        invariant
            k <= visuals@.len(),
            flags@ == front_cover_flags(visuals@).take(k as int),
        decreases visuals@.len() - k,
    {
        flags.push(visuals[k].front_cover);
        k = k + 1;
        assert(flags@ =~= front_cover_flags(visuals@).take(k as int));
    }
    assert(flags@ =~= front_cover_flags(visuals@));
    let mut visuals = visuals;
    match front_cover_or_first(flags.as_slice()) {
        None => None,
        Some(i) => {
            proof {
                lemma_chosen_picture(flags@, i as int);
            }
            let visual = visuals.remove(i);
            assert(visual == original[i as int]);
            artwork_from_visual(visual.media_type, visual.data)
        },
    }
}

/// The preferred artwork of a track. Embedded art wins: the container's
/// latest metadata revision first, then the stream's; only when neither
/// yields a picture is the first readable sidecar image (track-specific
/// files ahead of `cover`, `folder`, `front` and `album`) used.
pub fn load_artwork(
    container: Option<Vec<EmbeddedVisual>>,
    stream: Option<Vec<EmbeddedVisual>>,
    sidecar: Option<ArtworkData>,
) -> (artwork: Option<ArtworkData>)
    ensures
        artwork_view(artwork) == (if optional_revision_artwork(container) is Some {
            optional_revision_artwork(container)
        } else if optional_revision_artwork(stream) is Some {
            optional_revision_artwork(stream)
        } else {
            artwork_view(sidecar)
        }),
{
    if let Some(visuals) = container {
        if let Some(artwork) = artwork_from_revision(visuals) {
            return Some(artwork);
        }
    }
    if let Some(visuals) = stream {
        if let Some(artwork) = artwork_from_revision(visuals) {
            return Some(artwork);
        }
    }
    sidecar
}

/// A scanned track takes the embedded title, artist and album where the
/// file has them; the rest of the record is unchanged.
pub fn apply_embedded_metadata(embedded: EmbeddedMetadata, track: &mut crate::track::Track)
    ensures
        final(track).title == (match embedded.title {
            Some(t) => t,
            None => old(track).title,
        }),
        final(track).artist == (match embedded.artist {
            Some(a) => a,
            None => old(track).artist,
        }),
        final(track).album == (match embedded.album {
            Some(a) => a,
            None => old(track).album,
        }),
        final(track).id == old(track).id,
        final(track).uri == old(track).uri,
        final(track).duration_ms == old(track).duration_ms,
        final(track).codec == old(track).codec,
        final(track).favorite == old(track).favorite,
        final(track).available == old(track).available,
{
    if let Some(title) = embedded.title {
        track.title = title;
    }
    if let Some(artist) = embedded.artist {
        track.artist = artist;
    }
    if let Some(album) = embedded.album {
        track.album = album;
    }
}

/// The cache entries other than those for `path`, in order.
pub open spec fn other_paths(cache: Seq<CachedAudioEvidence>, path: Seq<char>) -> Seq<CachedAudioEvidence>
    decreases cache.len(),
{
    if cache.len() == 0 {
        Seq::empty()
    } else {
        let rest = other_paths(cache.drop_last(), path);
        if cache.last().path@ == path {
            rest
        } else {
            rest.push(cache.last())
        }
    }
}

/// Remembers the evidence of a scanned file: any earlier entry for the same
/// path is dropped and the new entry goes last.
pub fn remember_audio_evidence(cache: &mut Vec<CachedAudioEvidence>, entry: CachedAudioEvidence)
    ensures
        final(cache)@ == other_paths(old(cache)@, entry.path@).push(entry),
{
    let mut source: Vec<CachedAudioEvidence> = Vec::new();
    std::mem::swap(&mut source, cache);
    let ghost original = source@;
    let mut kept: Vec<CachedAudioEvidence> = Vec::new();
    let ghost done: Seq<CachedAudioEvidence> = Seq::empty();
    while source.len() > 0
        invariant
            original == done + source@,
            kept@ == other_paths(done, entry.path@),
        decreases source@.len(),
    {
        let item = source.remove(0);
        proof {
            assert(done.push(item) + source@ =~= original);
            assert(done.push(item).drop_last() =~= done);
        }
        let same = crate::text::text_is(item.path.as_str(), entry.path.as_str());
        if !same {
            kept.push(item);
        }
        proof {
            done = done.push(item);
        }
    }
    assert(done =~= original);
    kept.push(entry);
    *cache = kept;
}

} // verus!
