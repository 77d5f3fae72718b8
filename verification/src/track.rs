//! Catalog records as the application shows them, and their display text.

use crate::ids::{PlaylistId, TrackId};
use crate::paths::{file_stem, path_file_stem};
use crate::text::{chars_of, decimal, decimal_text, digit, digit_char, push_char, string_from, trim_chars, trim_spec};
use vstd::prelude::*;

verus! {

/// A playlist as the catalog lists it.
#[derive(Debug, Clone, PartialEq, Eq)]
pub struct Playlist {
    pub id: PlaylistId,
    pub name: String,
    pub system_kind: Option<String>,
    pub created_at_ms: i64,
    pub updated_at_ms: i64,
}

/// A track as the catalog lists it.
#[derive(Debug, Clone, PartialEq, Eq)]
pub struct Track {
    pub id: TrackId,
    pub uri: String,
    pub title: String,
    pub artist: String,
    pub album: String,
    pub duration_ms: u64,
    pub codec: String,
    pub favorite: bool,
    pub available: bool,
}

/// The index of the first occurrence of ` - ` in `s`.
pub open spec fn artist_separator(s: Seq<char>) -> Option<int> {
    if exists|i: int| 0 <= i && i + 3 <= s.len() && #[trigger] is_separator_at(s, i) {
        Some(
            choose|i: int|
                0 <= i && i + 3 <= s.len() && is_separator_at(s, i) && forall|j: int|
                    0 <= j < i ==> !#[trigger] is_separator_at(s, j),
        )
    } else {
        None
    }
}

/// ` - ` starts at index `i` of `s`.
pub open spec fn is_separator_at(s: Seq<char>, i: int) -> bool {
    i + 3 <= s.len() && s[i] == ' ' && s[i + 1] == '-' && s[i + 2] == ' '
}

/// The file stem a track is named after, `Unknown track` when the path
/// has none.
pub open spec fn track_stem(path: Seq<char>) -> Seq<char> {
    match path_file_stem(path) {
        Some(stem) => stem,
        None => "Unknown track"@,
    }
}

/// The artist a file name implies: the part before the first ` - `,
/// trimmed, or `Unknown artist`.
pub open spec fn filename_artist(stem: Seq<char>) -> Seq<char> {
    match artist_separator(stem) {
        Some(i) => trim_spec(stem.take(i), false),
        None => "Unknown artist"@,
    }
}

/// The title a file name implies: the part after the first ` - `, or the
/// whole stem, trimmed.
pub open spec fn filename_title(stem: Seq<char>) -> Seq<char> {
    match artist_separator(stem) {
        Some(i) => trim_spec(stem.skip(i + 3), false),
        None => trim_spec(stem, false),
    }
}

impl Track {
    /// A placeholder record for a file not yet read: `Artist - Title` in
    /// the file name gives artist and title, the rest is generic.
    pub fn from_path(id: TrackId, uri: String, path: &str) -> (track: Track)
        ensures
            track.id == id,
            track.uri@ == uri@,
            track.title@ == filename_title(track_stem(path@)),
            track.artist@ == filename_artist(track_stem(path@)),
            track.album@ == "Local music"@,
            track.duration_ms == 0,
            track.codec@ == "Audio"@,
            !track.favorite,
            track.available,
    {
        let stem = match file_stem(path) {
            Some(stem) => chars_of(stem.as_str()),
            None => chars_of("Unknown track"),
        };
        let ghost s = stem@;
        assert(s == track_stem(path@));
        let n = stem.len();
        let mut i: usize = 0;
        while n - i >= 3 && !(stem[i] == ' ' && stem[i + 1] == '-' && stem[i + 2] == ' ')
            invariant
                n == s.len(),
                i <= n,
                stem@ == s,
                forall|j: int| 0 <= j < i ==> !#[trigger] is_separator_at(s, j),
            decreases n - i,
        {
            i = i + 1;
        }
        let found = n - i >= 3;
        let (artist, title) = if found {
            assert(is_separator_at(s, i as int));
            assert(artist_separator(s) == Some(i as int)) by {
                let k = choose|k: int|
                    0 <= k && k + 3 <= s.len() && is_separator_at(s, k) && forall|j: int|
                        0 <= j < k ==> !#[trigger] is_separator_at(s, j);
                if k < i {
                } else if k > i {
                    assert(is_separator_at(s, i as int));
                }
            }
            let before = slice(&stem, 0, i);
            let after = slice(&stem, i + 3, n);
            assert(after@ == s.skip(i + 3));
            (string_from(trim_chars(before.as_slice(), false).as_slice()), string_from(
                trim_chars(after.as_slice(), false).as_slice(),
            ))
        } else {
            assert(artist_separator(s) is None) by {
                if exists|k: int| 0 <= k && k + 3 <= s.len() && #[trigger] is_separator_at(s, k) {
                    let k = choose|k: int|
                        0 <= k && k + 3 <= s.len() && #[trigger] is_separator_at(s, k);
                    assert(k < i);
                }
            }
            (
                string_from(chars_of("Unknown artist").as_slice()),
                string_from(trim_chars(stem.as_slice(), false).as_slice()),
            )
        };
        Track {
            id,
            uri,
            title,
            artist,
            album: string_from(chars_of("Local music").as_slice()),
            duration_ms: 0,
            codec: string_from(chars_of("Audio").as_slice()),
            favorite: false,
            available: true,
        }
    }
}

fn slice(chars: &Vec<char>, from: usize, to: usize) -> (part: Vec<char>)
    requires
        from <= to <= chars@.len(),
    ensures
        part@ == chars@.subrange(from as int, to as int),
{
    crate::text::slice_chars(chars.as_slice(), from, to)
}

/// Two decimal digits of `n < 100`, with a leading zero.
pub open spec fn two_digits(n: nat) -> Seq<char> {
    seq![digit_char(n / 10), digit_char(n % 10)]
}

/// `m:ss` below an hour, `h:mm:ss` from an hour on.
pub open spec fn duration_text(milliseconds: u64) -> Seq<char> {
    let total = milliseconds / 1000;
    let minutes = total / 60;
    let seconds = total % 60;
    if minutes >= 60 {
        decimal((minutes / 60) as nat) + seq![':'] + two_digits((minutes % 60) as nat) + seq![':']
            + two_digits(seconds as nat)
    } else {
        decimal(minutes as nat) + seq![':'] + two_digits(seconds as nat)
    }
}

pub fn format_duration(milliseconds: u64) -> (text: String)
    ensures
        text@ == duration_text(milliseconds),
{
    let total = milliseconds / 1000;
    let minutes = total / 60;
    let seconds = total % 60;
    if minutes >= 60 {
        let mut text = decimal_text(minutes / 60);
        push_char(&mut text, ':');
        push_two_digits(&mut text, minutes % 60);
        push_char(&mut text, ':');
        push_two_digits(&mut text, seconds);
        text
    } else {
        let mut text = decimal_text(minutes);
        push_char(&mut text, ':');
        push_two_digits(&mut text, seconds);
        text
    }
}

fn push_two_digits(text: &mut String, n: u64)
    requires
        n < 100,
    ensures
        final(text)@ == old(text)@ + two_digits(n as nat),
{
    push_char(text, digit((n / 10) as u32));
    push_char(text, digit((n % 10) as u32));
}

/// A space, a hyphen and a space.
pub open spec fn dash_separator() -> Seq<char> {
    seq![' ', '-', ' ']
}

/// A space, a hyphen and a space start at index `i` of `s`.
pub open spec fn spaced_dash(s: Seq<char>, i: int) -> bool {
    s[i] == ' ' && s[i + 1] == '-' && s[i + 2] == ' '
}

/// The artist and title of a file name are split only at ` - ` (space,
/// hyphen, space): a stem holding no ` - ` names no artist and is wholly
/// the title, however many bare hyphens it holds.
pub proof fn names_without_a_spaced_dash_have_no_artist(stem: Seq<char>)
    requires
        forall|i: int| 0 <= i && i + 2 < stem.len() ==> !#[trigger] spaced_dash(stem, i),
    ensures
        filename_artist(stem) == "Unknown artist"@,
        filename_title(stem) == trim_spec(stem, false),
{
    if exists|i: int| 0 <= i && i + 3 <= stem.len() && #[trigger] is_separator_at(stem, i) {
        let i = choose|i: int| 0 <= i && i + 3 <= stem.len() && #[trigger] is_separator_at(stem, i);
        assert(spaced_dash(stem, i));
    }
}

/// `<artist> - <title>`: in a stem made of a part holding no ` - `, then
/// ` - `, then the rest, the part before is the artist and the rest the
/// title, each trimmed, whatever hyphens either holds.
pub proof fn a_spaced_dash_separates_artist_and_title(artist: Seq<char>, title: Seq<char>)
    requires
        forall|i: int|
            0 <= i < artist.len() ==> !#[trigger] spaced_dash(artist + dash_separator() + title, i),
    ensures
        filename_artist(artist + dash_separator() + title) == trim_spec(artist, false),
        filename_title(artist + dash_separator() + title) == trim_spec(title, false),
{
    let stem = artist + dash_separator() + title;
    let n = artist.len() as int;
    assert(is_separator_at(stem, n));
    let k = choose|k: int|
        0 <= k && k + 3 <= stem.len() && is_separator_at(stem, k) && forall|j: int|
            0 <= j < k ==> !#[trigger] is_separator_at(stem, j);
    assert(forall|j: int| 0 <= j < n ==> !#[trigger] is_separator_at(stem, j)) by {
        assert forall|j: int| 0 <= j < n implies !#[trigger] is_separator_at(stem, j) by {
            if is_separator_at(stem, j) {
                assert(spaced_dash(stem, j));
            }
        }
    }
    if k < n {
        assert(!is_separator_at(stem, k));
    } else if k > n {
        assert(!is_separator_at(stem, n));
    }
    assert(artist_separator(stem) == Some(n));
    assert(stem.take(n) =~= artist);
    assert(stem.skip(n + 3) =~= title);
}

/// Under an hour a duration reads `m:ss`, minutes then two digits of
/// seconds; the hour field appears only from an hour on, as `h:mm:ss`.
pub proof fn durations_show_hours_only_from_an_hour(milliseconds: u64)
    ensures
        milliseconds < 3_600_000 ==> duration_text(milliseconds) == decimal(
            (milliseconds / 60_000) as nat,
        ) + seq![':'] + two_digits(((milliseconds / 1000) % 60) as nat),
        milliseconds >= 3_600_000 ==> duration_text(milliseconds) == decimal(
            (milliseconds / 3_600_000) as nat,
        ) + seq![':'] + two_digits(((milliseconds / 60_000) % 60) as nat) + seq![':'] + two_digits(
            ((milliseconds / 1000) % 60) as nat,
        ),
{
    let ms = milliseconds as int;
    vstd::arithmetic::div_mod::lemma_div_denominator(ms, 1000, 60);
    vstd::arithmetic::div_mod::lemma_div_denominator(ms, 60_000, 60);
    vstd::arithmetic::div_mod::lemma_div_denominator(ms, 1000, 3600);
    vstd::arithmetic::div_mod::lemma_div_denominator(ms / 1000, 60, 60);
    assert(ms / 60_000 >= 60 <==> ms >= 3_600_000) by {
        if ms >= 3_600_000 {
            vstd::arithmetic::div_mod::lemma_div_is_ordered(3_600_000, ms, 60_000);
        } else {
            vstd::arithmetic::div_mod::lemma_div_is_ordered(ms, 3_599_999, 60_000);
        }
    }
}

} // verus!
