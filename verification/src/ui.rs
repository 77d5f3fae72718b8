//! The discrete rules of the interface: pages, content scrims, metric
//! colours, labels, text shortening, command-line requests, and the
//! double-click rule of the track tables.

use crate::i18n::{text, text_spec, Key, Language};
use crate::ids::{PlaylistId, TrackId};
use crate::playback::PlaybackMode;
use crate::text::{chars_of, push_char, string_from};
use crate::pages;
use crate::visuals::{preset, preset_accent_spec, preset_secondary_spec, PRESET_COUNT};
use vstd::prelude::*;

verus! {

/// One channel mixed with `percent` percent of another, rounded.
pub open spec fn mix_channel(left: u8, right: u8, percent: u16) -> u8 {
    ((left as int * (100 - percent) + right as int * percent + 50) / 100) as u8
}

/// `percent` capped at 100.
pub open spec fn capped_percent(percent: u16) -> u16 {
    if percent > 100 {
        100
    } else {
        percent
    }
}

/// Each channel of `left` mixed with `right_percent` percent (at most
/// 100) of the same channel of `right`, rounded to nearest.
pub fn mix_rgb(left: [u8; 3], right: [u8; 3], right_percent: u16) -> (mixed: [u8; 3])
    ensures
        mixed@ == seq![
            mix_channel(left[0], right[0], capped_percent(right_percent)),
            mix_channel(left[1], right[1], capped_percent(right_percent)),
            mix_channel(left[2], right[2], capped_percent(right_percent)),
        ],
{
    let p = if right_percent > 100 {
        100
    } else {
        right_percent
    };
    [mix_one(left[0], right[0], p), mix_one(left[1], right[1], p), mix_one(left[2], right[2], p)]
}

fn mix_one(left: u8, right: u8, percent: u16) -> (mixed: u8)
    requires
        percent <= 100,
    ensures
        mixed == mix_channel(left, right, percent),
        (left as int * (100 - percent) + right as int * percent + 50) / 100 <= 255,
{
    let l = left as u32;
    let r = right as u32;
    let p = percent as u32;
    assert(l * (100 - p) <= 255 * (100 - p)) by (nonlinear_arith)
        requires
            l <= 255,
            p <= 100,
    ;
    assert(r * p <= 255 * p) by (nonlinear_arith)
        requires
            r <= 255,
            p <= 100,
    ;
    let total = l * (100 - p) + r * p + 50;
    assert(total / 100 <= 255);
    (total / 100) as u8
}

/// The four colours of the audio metric bars of effect `index`: accent, a
/// blend towards the secondary colour, secondary, and secondary lightened
/// towards white.
pub fn metric_palette(index: usize) -> (palette: [[u8; 3]; 4])
    ensures
        palette[0] == preset_accent_spec((index % PRESET_COUNT) as int),
        palette[1]@ == mix_rgb_spec(
            preset_accent_spec((index % PRESET_COUNT) as int),
            preset_secondary_spec((index % PRESET_COUNT) as int),
            36,
        ),
        palette[2] == preset_secondary_spec((index % PRESET_COUNT) as int),
        palette[3]@ == mix_rgb_spec(preset_secondary_spec((index % PRESET_COUNT) as int), [255, 255, 255], 24),
{
    let entry = preset(index);
    [
        entry.accent,
        mix_rgb(entry.accent, entry.secondary, 36),
        entry.secondary,
        mix_rgb(entry.secondary, [255, 255, 255], 24),
    ]
}

/// `mix_rgb` as a specification.
pub open spec fn mix_rgb_spec(left: [u8; 3], right: [u8; 3], right_percent: u16) -> Seq<u8> {
    seq![
        mix_channel(left[0], right[0], capped_percent(right_percent)),
        mix_channel(left[1], right[1], capped_percent(right_percent)),
        mix_channel(left[2], right[2], capped_percent(right_percent)),
    ]
}

/// The message naming a playback mode.
pub open spec fn mode_key(mode: PlaybackMode) -> Key {
    match mode {
        PlaybackMode::Sequential => Key::Sequential,
        PlaybackMode::RepeatOne => Key::RepeatOne,
        PlaybackMode::Shuffle => Key::Shuffle,
    }
}

pub fn playback_mode_label(language: Language, mode: PlaybackMode) -> (label: &'static str)
    ensures
        label@ == text_spec(language, mode_key(mode)),
{
    match mode {
        PlaybackMode::Sequential => text(language, Key::Sequential),
        PlaybackMode::RepeatOne => text(language, Key::RepeatOne),
        PlaybackMode::Shuffle => text(language, Key::Shuffle),
    }
}

/// `value` shortened to at most `max_chars` characters: unchanged when it
/// fits, otherwise its first `max_chars - 1` characters and `…`.
pub open spec fn ellipsized(value: Seq<char>, max_chars: usize) -> Seq<char> {
    if value.len() <= max_chars {
        value
    } else if max_chars == 0 {
        seq!['\u{2026}']
    } else {
        value.take(max_chars - 1).push('\u{2026}')
    }
}

/// Shortens by whole characters, never inside one.
pub fn ellipsize(value: &str, max_chars: usize) -> (short: String)
    ensures
        short@ == ellipsized(value@, max_chars),
{
    let chars = chars_of(value);
    if chars.len() <= max_chars {
        return string_from(chars.as_slice());
    }
    let keep = if max_chars == 0 {
        0
    } else {
        max_chars - 1
    };
    let mut short = String::new();
    let mut i: usize = 0;
    while i < keep
        invariant
            keep < chars@.len(),
            chars@ == value@,
            i <= keep,
            short@ == value@.take(i as int),
        decreases keep - i,
    {
        push_char(&mut short, chars[i]);
        assert(value@.take(i + 1) == value@.take(i as int).push(value@[i as int]));
        i = i + 1;
    }
    push_char(&mut short, '\u{2026}');
    short
}

/// The lowercase hexadecimal digit of `d < 16`.
pub open spec fn hex_char(d: u8) -> char {
    if d < 10 {
        (('0' as u8) + d) as char
    } else {
        (('a' as u8) + d - 10) as char
    }
}

/// Two lowercase hexadecimal digits per byte, high nibble first.
pub open spec fn hex_text(bytes: Seq<u8>) -> Seq<char> {
    Seq::new(
        2 * bytes.len(),
        |i: int|
            if i % 2 == 0 {
                hex_char(bytes[i / 2] / 16)
            } else {
                hex_char(bytes[i / 2] % 16)
            },
    )
}

fn hex_digit_of(d: u8) -> (c: char)
    requires
        d < 16,
    ensures
        c == hex_char(d),
{
    if d < 10 {
        (48u8 + d) as char
    } else {
        (87u8 + d) as char
    }
}

pub fn hex_bytes(bytes: &[u8]) -> (encoded: String)
    ensures
        encoded@ == hex_text(bytes@),
{
    let mut encoded = String::new();
    let mut i: usize = 0;
    while i < bytes.len()
        invariant
            i <= bytes@.len(),
            encoded@ =~= hex_text(bytes@.take(i as int)),
        decreases bytes@.len() - i,
    {
        let byte = bytes[i];
        push_char(&mut encoded, hex_digit_of(byte / 16));
        push_char(&mut encoded, hex_digit_of(byte % 16));
        assert(hex_text(bytes@.take(i + 1)) =~= hex_text(bytes@.take(i as int)).push(
            hex_char(byte / 16),
        ).push(hex_char(byte % 16)));
        i = i + 1;
    }
    assert(bytes@.take(bytes@.len() as int) == bytes@);
    encoded
}

/// The page a command-line argument asks for.
pub open spec fn argument_view(argument: Seq<char>) -> Option<pages::View> {
    if argument == "--visuals"@ {
        Some(pages::View::Visuals)
    } else if argument == "--library"@ {
        Some(pages::View::Library)
    } else if argument == "--playlists"@ {
        Some(pages::View::Playlists)
    } else if argument == "--lyrics"@ {
        Some(pages::View::Lyrics)
    } else {
        None
    }
}

/// The first argument that names a page, in order.
pub open spec fn requested_view(arguments: Seq<String>) -> Option<pages::View>
    decreases arguments.len(),
{
    if arguments.len() == 0 {
        None
    } else {
        match argument_view(arguments[0]@) {
            Some(view) => Some(view),
            None => requested_view(arguments.drop_first()),
        }
    }
}

/// The page that the command line asks to open first, if any.
pub fn command_line_view(arguments: &[String]) -> (view: Option<pages::View>)
    ensures
        view == requested_view(arguments@),
{
    let mut i: usize = 0;
    assert(arguments@.subrange(0, arguments@.len() as int) =~= arguments@);
    while i < arguments.len()
        invariant
            i <= arguments@.len(),
            requested_view(arguments@) == requested_view(
                arguments@.subrange(i as int, arguments@.len() as int),
            ),
        decreases arguments@.len() - i,
    {
        let a = arguments[i].as_str();
        assert(arguments@.subrange(i as int, arguments@.len() as int).drop_first()
            =~= arguments@.subrange(i + 1, arguments@.len() as int));
        if crate::text::text_is(a, "--visuals") {
            return Some(pages::View::Visuals);
        } else if crate::text::text_is(a, "--library") {
            return Some(pages::View::Library);
        } else if crate::text::text_is(a, "--playlists") {
            return Some(pages::View::Playlists);
        } else if crate::text::text_is(a, "--lyrics") {
            return Some(pages::View::Lyrics);
        }
        i = i + 1;
    }
    None
}


/// The value of a text of decimal digits.
pub open spec fn decimal_value(s: Seq<char>) -> nat
    decreases s.len(),
{
    if s.len() == 0 {
        0
    } else {
        decimal_value(s.drop_last()) * 10 + ((s.last() as nat) - ('0' as nat)) as nat
    }
}

/// Every character is an ASCII digit.
pub open spec fn all_digits(s: Seq<char>) -> bool {
    forall|i: int| 0 <= i < s.len() ==> crate::text::is_digit(#[trigger] s[i])
}

/// The `usize` that `str::parse::<usize>` reads: an optional `+`, then at
/// least one ASCII digit, with a value that fits.
pub open spec fn parsed_usize(s: Seq<char>) -> Option<nat> {
    let body = if s.len() > 0 && s[0] == '+' {
        s.drop_first()
    } else {
        s
    };
    if body.len() > 0 && all_digits(body) && decimal_value(body) <= usize::MAX {
        Some(decimal_value(body))
    } else {
        None
    }
}

/// The effect an argument `--preset=<n>` selects: `n` modulo the number of
/// effects.
pub open spec fn argument_preset(argument: Seq<char>) -> Option<usize> {
    let prefix = "--preset="@;
    if argument.len() >= prefix.len() && argument.take(prefix.len() as int) == prefix {
        match parsed_usize(argument.skip(prefix.len() as int)) {
            Some(n) => Some((n % (PRESET_COUNT as nat)) as usize),
            None => None,
        }
    } else {
        None
    }
}

/// The first argument that selects an effect, in order.
pub open spec fn requested_preset(arguments: Seq<String>) -> Option<usize>
    decreases arguments.len(),
{
    if arguments.len() == 0 {
        None
    } else {
        match argument_preset(arguments[0]@) {
            Some(p) => Some(p),
            None => requested_preset(arguments.drop_first()),
        }
    }
}

proof fn lemma_decimal_value_monotone(s: Seq<char>, k: int)
    requires
        0 <= k <= s.len(),
        forall|i: int| 0 <= i < s.len() ==> crate::text::is_digit(#[trigger] s[i]),
    ensures
        decimal_value(s.take(k)) <= decimal_value(s),
    decreases s.len(),
{
    if k < s.len() {
        let d = s.drop_last();
        assert(crate::text::is_digit(s[s.len() - 1]));
        assert forall|i: int| 0 <= i < d.len() implies crate::text::is_digit(#[trigger] d[i]) by {
            assert(d[i] == s[i]);
        }
        lemma_decimal_value_monotone(d, k);
        assert(d.take(k) =~= s.take(k));
    } else {
        assert(s.take(k) =~= s);
    }
}

proof fn lemma_parsed_none(s: Seq<char>, body: Seq<char>)
    requires
        body == (if s.len() > 0 && s[0] == '+' {
            s.drop_first()
        } else {
            s
        }),
        !(body.len() > 0 && all_digits(body) && decimal_value(body) <= usize::MAX),
    ensures
        parsed_usize(s) is None,
{
}

/// Reads a `usize` as `str::parse` does.
fn parse_usize(s: &[char]) -> (value: Option<usize>)
    ensures
        match parsed_usize(s@) {
            Some(n) => value == Some(n as usize),
            None => value is None,
        },
{
    let start: usize = if s.len() > 0 && s[0] == '+' {
        1
    } else {
        0
    };
    let ghost body = if s@.len() > 0 && s@[0] == '+' {
        s@.drop_first()
    } else {
        s@
    };
    assert(body =~= s@.skip(start as int));
    if start == s.len() {
        return None;
    }
    let mut value: usize = 0;
    let mut i: usize = start;
    while i < s.len()
        invariant
            start <= i <= s@.len(),
            body == s@.skip(start as int),
            body == (if s@.len() > 0 && s@[0] == '+' {
                s@.drop_first()
            } else {
                s@
            }),
            start < s@.len(),
            forall|k: int| start <= k < i ==> crate::text::is_digit(#[trigger] s@[k]),
            value == decimal_value(s@.subrange(start as int, i as int)),
        decreases s@.len() - i,
    {
        let c = s[i];
        let ghost prefix = s@.subrange(start as int, i + 1);
        assert(prefix.drop_last() =~= s@.subrange(start as int, i as int));
        if !crate::text::char_is_digit(c) {
            assert(!crate::text::is_digit(body[i - start]));
            proof {
                lemma_parsed_none(s@, body);
            }
            return None;
        }
        let d = (c as u32 - '0' as u32) as usize;
        assert(d == (prefix.last() as nat) - ('0' as nat));
        let next = match value.checked_mul(10) {
            Some(v) => v.checked_add(d),
            None => None,
        };
        match next {
            Some(v) => {
                value = v;
            },
            None => {
                // The value only grows with more digits, so it never fits.
                proof {
                    assert(decimal_value(prefix) > usize::MAX);
                    assert(s@.subrange(start as int, s@.len() as int) =~= body);
                    if all_digits(body) {
                        assert(body.take(i + 1 - start) =~= prefix);
                        lemma_decimal_value_monotone(body, i + 1 - start);
                    }
                    lemma_parsed_none(s@, body);
                }
                return None;
            },
        }
        i = i + 1;
    }
    assert(s@.subrange(start as int, s@.len() as int) =~= body);
    Some(value)
}

/// The effect the command line asks for, if any.
pub fn command_line_preset(arguments: &[String]) -> (preset: Option<usize>)
    ensures
        preset == requested_preset(arguments@),
{
    proof {
        reveal_strlit("--preset=");
    }
    let prefix = chars_of("--preset=");
    let mut i: usize = 0;
    assert(arguments@.subrange(0, arguments@.len() as int) =~= arguments@);
    while i < arguments.len()
        invariant
            i <= arguments@.len(),
            prefix@ == "--preset="@,
            requested_preset(arguments@) == requested_preset(
                arguments@.subrange(i as int, arguments@.len() as int),
            ),
        decreases arguments@.len() - i,
    {
        assert(arguments@.subrange(i as int, arguments@.len() as int).drop_first()
            =~= arguments@.subrange(i + 1, arguments@.len() as int));
        let a = chars_of(arguments[i].as_str());
        let n = prefix.len();
        if a.len() >= n && crate::text::chars_equal(crate::text::slice_chars(a.as_slice(), 0, n).as_slice(), prefix.as_slice()) {
            let rest = crate::text::slice_chars(a.as_slice(), n, a.len());
            assert(rest@ =~= a@.skip(n as int));
            assert(a@.subrange(0, n as int) =~= a@.take(n as int));
            if let Some(value) = parse_usize(rest.as_slice()) {
                return Some(value % PRESET_COUNT);
            }
        } else {
            assert(a@.len() >= n ==> a@.subrange(0, n as int) =~= a@.take(n as int));
        }
        i = i + 1;
    }
    None
}

/// What a row click in a track table refers to.
#[derive(Debug, Clone, Copy, PartialEq, Eq, Structural)]
pub enum TableActivationTarget {
    Library { favorites_only: bool, track_id: TrackId },
    Playlist { playlist_id: PlaylistId, row: usize, track_id: TrackId },
}

/// Longest pause (ms) between two clicks that still activates a row.
pub const TABLE_ACTIVATION_INTERVAL_MS: u64 = 400;

/// Turns pairs of quick clicks on one row into an activation.
#[derive(Debug, Clone, Copy)]
pub struct TableActivationTracker {
    pub pending: Option<(TableActivationTarget, u64)>,
}

impl Default for TableActivationTracker {
    fn default() -> (tracker: TableActivationTracker)
        ensures
            tracker.pending is None,
    {
        TableActivationTracker { pending: None }
    }
}

/// A click at `now_ms` on `target` completes a pair with the pending click:
/// the same target, no more than 400 ms later (an earlier clock reading
/// counts as no time passed).
pub open spec fn activates(pending: Option<(TableActivationTarget, u64)>, target: TableActivationTarget, now_ms: u64) -> bool {
    match pending {
        Some((t, at)) => t == target && (if now_ms >= at {
            now_ms - at
        } else {
            0
        }) <= TABLE_ACTIVATION_INTERVAL_MS,
        None => false,
    }
}

impl TableActivationTracker {
    /// Registers a click; returns whether it activates the row. An
    /// activation consumes the pair; any other click becomes the pending
    /// one.
    pub fn register(&mut self, target: TableActivationTarget, now_ms: u64) -> (activated: bool)
        ensures
            activated == activates(old(self).pending, target, now_ms),
            activated ==> final(self).pending is None,
            !activated ==> final(self).pending == Some((target, now_ms)),
    {
        let activated = match self.pending {
            Some((pending, clicked_at)) => {
                let elapsed = if now_ms >= clicked_at {
                    now_ms - clicked_at
                } else {
                    0
                };
                pending == target && elapsed <= TABLE_ACTIVATION_INTERVAL_MS
            },
            None => false,
        };
        self.pending = if activated {
            None
        } else {
            Some((target, now_ms))
        };
        activated
    }
}

/// A single click never activates a row, and an activation needs a fresh
/// pair afterwards: after any click, a click on another target does not
/// activate.
pub proof fn activation_needs_a_pair_on_one_target(
    tracker: TableActivationTracker,
    first: TableActivationTarget,
    second: TableActivationTarget,
    at: u64,
    later: u64,
)
    requires
        tracker.pending is None,
        first != second,
    ensures
        !activates(tracker.pending, first, at),
        !activates(Some((first, at)), second, later),
        !activates(None, second, later),
{
}

} // verus!
