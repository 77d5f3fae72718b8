//! The library as the listener browses it: display order, search, the
//! track under the cursor, and the upcoming queue as table rows.

use crate::ids::{uuid_text, TrackId};
use crate::track::Track;
use crate::text::{ascii_lower_text, chars_of, lemma_text_less_transitive, lower_chars, string_from, text_less};
use vstd::prelude::*;

verus! {

/// The Unicode lowercase of a text, as `str::to_lowercase` computes it.
pub uninterp spec fn lowercase(text: Seq<char>) -> Seq<char>;

/// Lowercases with `str::to_lowercase`. The full Unicode case mapping is
/// not spelled out: the result is named.
#[verifier::external_body]
fn lowercase_text(text: &str) -> (lower: String)
    ensures
        lower@ == lowercase(text@),
{
    text.to_lowercase()
}

/// Every character of `text` is ASCII.
pub open spec fn is_ascii_text(text: Seq<char>) -> bool {
    forall|i: int| 0 <= i < text.len() ==> #[trigger] text[i] <= '\u{7f}'
}

/// The lowercase of a text as the library shows and compares it: what
/// `str::to_lowercase` gives, which for ASCII text is each letter `A`-`Z`
/// mapped to `a`-`z` and every other character kept.
pub open spec fn display_lower(text: Seq<char>) -> Seq<char> {
    if is_ascii_text(text) {
        ascii_lower_text(text)
    } else {
        lowercase(text)
    }
}

/// The lowercase of `text`, computed here for ASCII text and with
/// `str::to_lowercase` otherwise.
fn lower_text(text: &str) -> (lower: String)
    ensures
        lower@ == display_lower(text@),
{
    let chars = chars_of(text);
    let mut i: usize = 0;
    while i < chars.len()
        invariant
            chars@ == text@,
            i <= chars@.len(),
            forall|j: int| 0 <= j < i ==> #[trigger] chars@[j] <= '\u{7f}',
        decreases chars@.len() - i,
    {
        if chars[i] > '\u{7f}' {
            return lowercase_text(text);
        }
        i = i + 1;
    }
    assert(is_ascii_text(text@));
    string_from(lower_chars(chars.as_slice()).as_slice())
}

/// For ASCII text the display lowercase keeps every character in place and
/// only maps `A`-`Z` to `a`-`z`; so tracks whose ASCII artists differ in
/// lowercase are ordered by the ordinary lexicographic order of those
/// lowercase spellings (`queen` before `radiohead`).
pub proof fn ascii_text_lowers_letter_by_letter(text: Seq<char>)
    requires
        is_ascii_text(text),
    ensures
        display_lower(text).len() == text.len(),
        forall|i: int|
            0 <= i < text.len() ==> #[trigger] display_lower(text)[i] == (if 'A' <= text[i] <= 'Z' {
                ((text[i] as u32) + 32) as char
            } else {
                text[i]
            }),
{
}

/// Tracks whose ASCII artists differ in lowercase are ordered by those
/// lowercase artists alone.
pub proof fn ascii_artists_order_tracks(a: Track, b: Track)
    requires
        is_ascii_text(a.artist@),
        is_ascii_text(b.artist@),
        ascii_lower_text(a.artist@) != ascii_lower_text(b.artist@),
    ensures
        key_before(track_key(a), track_key(b)) <==> text_less(
            ascii_lower_text(a.artist@),
            ascii_lower_text(b.artist@),
        ),
{
}

/// The display order key of a track: lowercase artist, lowercase title,
/// then the identity's text.
pub open spec fn track_key(track: Track) -> (Seq<char>, Seq<char>, Seq<char>) {
    (display_lower(track.artist@), display_lower(track.title@), uuid_text(track.id.0))
}

/// Key order: by artist, then title, then identity text.
pub open spec fn key_before(a: (Seq<char>, Seq<char>, Seq<char>), b: (Seq<char>, Seq<char>, Seq<char>)) -> bool {
    ||| text_less(a.0, b.0)
    ||| (a.0 == b.0 && text_less(a.1, b.1))
    ||| (a.0 == b.0 && a.1 == b.1 && text_less(a.2, b.2))
}

/// No track comes after a later one in display order.
pub open spec fn in_display_order(tracks: Seq<Track>) -> bool {
    forall|i: int, j: int|
        0 <= i < j < tracks.len() ==> !#[trigger] key_before(track_key(tracks[j]), track_key(tracks[i]))
}

proof fn lemma_key_before_transitive(
    a: (Seq<char>, Seq<char>, Seq<char>),
    b: (Seq<char>, Seq<char>, Seq<char>),
    c: (Seq<char>, Seq<char>, Seq<char>),
)
    requires
        key_before(a, b),
        key_before(b, c),
    ensures
        key_before(a, c),
{
    if text_less(a.0, b.0) && text_less(b.0, c.0) {
        lemma_text_less_transitive(a.0, b.0, c.0);
    } else if a.0 == b.0 && b.0 == c.0 && text_less(a.1, b.1) && text_less(b.1, c.1) {
        lemma_text_less_transitive(a.1, b.1, c.1);
    } else if a.0 == b.0 && b.0 == c.0 && a.1 == b.1 && b.1 == c.1 {
        lemma_text_less_transitive(a.2, b.2, c.2);
    }
}

proof fn lemma_key_total(a: (Seq<char>, Seq<char>, Seq<char>), b: (Seq<char>, Seq<char>, Seq<char>))
    requires
        a != b,
    ensures
        key_before(a, b) || key_before(b, a),
{
    if a.0 != b.0 {
        crate::text::lemma_text_less_total(a.0, b.0);
    } else if a.1 != b.1 {
        crate::text::lemma_text_less_total(a.1, b.1);
    } else {
        assert(a.2 != b.2);
        crate::text::lemma_text_less_total(a.2, b.2);
    }
}

proof fn lemma_key_before_irreflexive(a: (Seq<char>, Seq<char>, Seq<char>))
    ensures
        !key_before(a, a),
{
    crate::text::lemma_text_less_irreflexive(a.0);
    crate::text::lemma_text_less_irreflexive(a.1);
    crate::text::lemma_text_less_irreflexive(a.2);
}

/// A track with its display key computed.
struct Keyed {
    track: Track,
    artist: String,
    title: String,
    id: String,
}

spec fn keyed_ok(k: Keyed) -> bool {
    &&& k.artist@ == display_lower(k.track.artist@)
    &&& k.title@ == display_lower(k.track.title@)
    &&& k.id@ == uuid_text(k.track.id.0)
}

spec fn keyed_tracks(s: Seq<Keyed>) -> Seq<Track> {
    s.map_values(|k: Keyed| k.track)
}

fn keyed_before(a: &Keyed, b: &Keyed) -> (before: bool)
    requires
        keyed_ok(*a),
        keyed_ok(*b),
    ensures
        before == key_before(track_key(a.track), track_key(b.track)),
{
    if crate::text::text_lt(a.artist.as_str(), b.artist.as_str()) {
        return true;
    }
    if !crate::text::text_is(a.artist.as_str(), b.artist.as_str()) {
        return false;
    }
    if crate::text::text_lt(a.title.as_str(), b.title.as_str()) {
        return true;
    }
    if !crate::text::text_is(a.title.as_str(), b.title.as_str()) {
        return false;
    }
    crate::text::text_lt(a.id.as_str(), b.id.as_str())
}

/// Puts the tracks in display order: by lowercase artist, then lowercase
/// title, then identity text.
pub fn sort_tracks(tracks: &mut Vec<Track>)
    ensures
        in_display_order(final(tracks)@),
        final(tracks)@.to_multiset() == old(tracks)@.to_multiset(),
{
    let mut source: Vec<Track> = Vec::new();
    std::mem::swap(&mut source, tracks);
    let ghost original = source@;
    let mut sorted: Vec<Keyed> = Vec::new();
    assert(keyed_tracks(sorted@) =~= Seq::<Track>::empty());
    assert(original.skip(original.len() as int) =~= Seq::<Track>::empty());
    while source.len() > 0
        invariant
            source@ == original.take(source@.len() as int),
            source@.len() <= original.len(),
            forall|k: int| 0 <= k < sorted@.len() ==> keyed_ok(#[trigger] sorted@[k]),
            in_display_order(keyed_tracks(sorted@)),
            keyed_tracks(sorted@).to_multiset() == original.skip(source@.len() as int).to_multiset(),
        decreases source@.len(),
    {
        let ghost n = source@.len();
        let last = source.len() - 1;
        let track = source.remove(last);
        assert(track == original[n - 1]);
        assert(source@ =~= original.take(n - 1));
        let x = Keyed {
            artist: lower_text(track.artist.as_str()),
            title: lower_text(track.title.as_str()),
            id: track.id.to_string(),
            track,
        };
        let ghost keys = keyed_tracks(sorted@);
        let mut p: usize = 0;
        while p < sorted.len() && keyed_before(&sorted[p], &x)
            invariant
                p <= sorted@.len(),
                keys == keyed_tracks(sorted@),
                keyed_ok(x),
                forall|k: int| 0 <= k < sorted@.len() ==> keyed_ok(#[trigger] sorted@[k]),
                forall|k: int| 0 <= k < p ==> key_before(track_key(#[trigger] keys[k]), track_key(x.track)),
            decreases sorted@.len() - p,
        {
            assert(keys[p as int] == sorted@[p as int].track);
            p = p + 1;
        }
        proof {
            let t = keys.insert(p as int, x.track);
            let kx = track_key(x.track);
            assert forall|a: int, b: int| 0 <= a < b < t.len() implies !#[trigger] key_before(
                track_key(t[b]),
                track_key(t[a]),
            ) by {
                if a < p && b == p {
                    if key_before(kx, track_key(keys[a])) {
                        lemma_key_before_transitive(kx, track_key(keys[a]), kx);
                        lemma_key_before_irreflexive(kx);
                    }
                } else if a == p {
                    let kp = track_key(keys[p as int]);
                    let kb = track_key(keys[b - 1]);
                    assert(keys[p as int] == sorted@[p as int].track);
                    assert(!key_before(kp, kx));
                    if key_before(kb, kx) && b - 1 > p {
                        assert(!key_before(kb, kp));
                        if kb == kp {
                        } else {
                            lemma_key_total(kb, kp);
                            lemma_key_before_transitive(kp, kb, kx);
                        }
                    }
                } else if a < p && b > p {
                    assert(!key_before(track_key(keys[b - 1]), track_key(keys[a])));
                } else if a > p {
                    assert(!key_before(track_key(keys[b - 1]), track_key(keys[a - 1])));
                } else {
                    assert(!key_before(track_key(keys[b]), track_key(keys[a])));
                }
            }
            vstd::seq_lib::to_multiset_insert(keys, p as int, x.track);
            assert(original.skip(n - 1) =~= seq![x.track] + original.skip(n as int));
            vstd::seq_lib::lemma_seq_union_to_multiset_commutative(seq![x.track], original.skip(n as int));
            vstd::seq_lib::to_multiset_build(original.skip(n as int), x.track);
            assert(original.skip(n as int).push(x.track) =~= original.skip(n as int) + seq![x.track]);
        }
        sorted.insert(p, x);
        assert(keyed_tracks(sorted@) =~= keys.insert(p as int, sorted@[p as int].track));
    }
    assert(source@.len() == 0);
    assert(original.skip(0) =~= original);
    let mut result: Vec<Track> = Vec::new();
    let ghost all = keyed_tracks(sorted@);
    assert(result@ + keyed_tracks(sorted@) =~= all);
    while sorted.len() > 0
        invariant
            all == result@ + keyed_tracks(sorted@),
        decreases sorted@.len(),
    {
        let ghost before = sorted@;
        let first = sorted.remove(0);
        assert(keyed_tracks(before) =~= seq![first.track] + keyed_tracks(sorted@));
        result.push(first.track);
        assert(result@ + keyed_tracks(sorted@) =~= all);
    }
    assert(result@ =~= all);
    *tracks = result;
}


/// `needle` occurs in `hay` as a contiguous part.
pub open spec fn has_part(hay: Seq<char>, needle: Seq<char>) -> bool {
    exists|i: int| 0 <= i && i + needle.len() <= hay.len() && #[trigger] hay.subrange(i, i + needle.len()) == needle
}

/// Whether `needle` occurs in `hay`.
fn contains_part(hay: &[char], needle: &[char]) -> (found: bool)
    ensures
        found == has_part(hay@, needle@),
{
    let n = needle.len();
    if n > hay.len() {
        assert(!has_part(hay@, needle@));
        return false;
    }
    let last = hay.len() - n;
    let mut i: usize = 0;
    while i <= last
        invariant
            n == needle@.len(),
            last + n == hay@.len(),
            i <= last + 1,
            forall|k: int| 0 <= k < i ==> #[trigger] hay@.subrange(k, k + n) != needle@,
        decreases last + 1 - i,
    {
        let mut j: usize = 0;
        while j < n && hay[i + j] == needle[j]
            invariant
                n == needle@.len(),
                last + n == hay@.len(),
                hay@.len() == hay.len(),
                i <= last,
                j <= n,
                forall|m: int| 0 <= m < j ==> hay@[i + m] == needle@[m],
            decreases n - j,
        {
            j = j + 1;
        }
        if j == n {
            assert(hay@.subrange(i as int, i + n) =~= needle@);
            return true;
        }
        assert(hay@.subrange(i as int, i + n)[j as int] != needle@[j as int]);
        i = i + 1;
    }
    assert(!has_part(hay@, needle@)) by {
        if has_part(hay@, needle@) {
            let k = choose|k: int| 0 <= k && k + needle@.len() <= hay@.len() && #[trigger] hay@.subrange(k, k + needle@.len()) == needle@;
            assert(hay@.subrange(k, k + n) != needle@);
        }
    }
    false
}

/// A track is listed for a search (already lowercased) and the favorites
/// filter: an empty search lists everything; otherwise the title, artist
/// or album must contain it, ignoring case.
pub open spec fn listed(track: Track, query: Seq<char>, favorites_only: bool) -> bool {
    &&& (!favorites_only || track.favorite)
    &&& (query.len() == 0 || has_part(display_lower(track.title@), query) || has_part(
        display_lower(track.artist@),
        query,
    ) || has_part(display_lower(track.album@), query))
}

/// The indices of the listed tracks among `tracks`, in order.
pub open spec fn listed_indices(tracks: Seq<Track>, query: Seq<char>, favorites_only: bool) -> Seq<usize>
    decreases tracks.len(),
{
    if tracks.len() == 0 {
        Seq::empty()
    } else {
        let rest = listed_indices(tracks.drop_last(), query, favorites_only);
        if listed(tracks.last(), query, favorites_only) {
            rest.push((tracks.len() - 1) as usize)
        } else {
            rest
        }
    }
}

/// The rows the library table shows for a search and the favorites filter.
pub fn visible_track_indices(tracks: &[Track], search: &str, favorites_only: bool) -> (indices: Vec<usize>)
    ensures
        indices@ == listed_indices(tracks@, display_lower(search@), favorites_only),
{
    let query_text = lower_text(search);
    let query = chars_of(query_text.as_str());
    let mut indices: Vec<usize> = Vec::new();
    let mut i: usize = 0;
    while i < tracks.len()
        invariant
            i <= tracks@.len(),
            query@ == display_lower(search@),
            indices@ == listed_indices(tracks@.take(i as int), query@, favorites_only),
        decreases tracks@.len() - i,
    {
        let track = &tracks[i];
        assert(tracks@.take(i + 1).drop_last() =~= tracks@.take(i as int));
        assert(tracks@.take(i + 1).last() == *track);
        let mut shown = !favorites_only || track.favorite;
        if shown && query.len() > 0 {
            let title = lower_text(track.title.as_str());
            let artist = lower_text(track.artist.as_str());
            let album = lower_text(track.album.as_str());
            shown = contains_part(chars_of(title.as_str()).as_slice(), query.as_slice())
                || contains_part(chars_of(artist.as_str()).as_slice(), query.as_slice())
                || contains_part(chars_of(album.as_str()).as_slice(), query.as_slice());
        }
        if shown {
            indices.push(i);
        }
        i = i + 1;
    }
    assert(tracks@.take(tracks@.len() as int) =~= tracks@);
    indices
}

/// The first position of the track with identity `id`.
pub open spec fn index_of_id(tracks: Seq<Track>, id: TrackId) -> Option<usize> {
    if exists|i: int| 0 <= i < tracks.len() && tracks[i].id == id {
        let i = choose|i: int|
            0 <= i < tracks.len() && tracks[i].id == id && forall|j: int| 0 <= j < i ==> tracks[j].id != id;
        Some(i as usize)
    } else {
        None
    }
}

/// Where the track with identity `id` is listed.
pub fn track_index(tracks: &[Track], id: TrackId) -> (index: Option<usize>)
    ensures
        index == index_of_id(tracks@, id),
        index matches Some(i) ==> i < tracks@.len() && tracks@[i as int].id == id,
{
    let mut i: usize = 0;
    while i < tracks.len()
        invariant
            i <= tracks@.len(),
            forall|j: int| 0 <= j < i ==> tracks@[j].id != id,
        decreases tracks@.len() - i,
    {
        if tracks[i].id == id {
            proof {
                let k = choose|k: int| 0 <= k < tracks@.len() && tracks@[k].id == id && forall|j: int| 0 <= j < k ==> tracks@[j].id != id;
                if k < i {
                } else if k > i {
                    assert(tracks@[i as int].id == id);
                }
            }
            return Some(i);
        }
        i = i + 1;
    }
    None
}

/// The upcoming queue as table rows: each queue position with the index of
/// its track in the library list, skipping tracks no longer listed.
pub open spec fn queue_rows(upcoming: Seq<(usize, TrackId)>, tracks: Seq<Track>) -> Seq<(usize, usize)>
    decreases upcoming.len(),
{
    if upcoming.len() == 0 {
        Seq::empty()
    } else {
        let rest = queue_rows(upcoming.drop_last(), tracks);
        let (position, id) = upcoming.last();
        match index_of_id(tracks, id) {
            Some(index) => rest.push((position, index)),
            None => rest,
        }
    }
}

pub fn queue_items(upcoming: &[(usize, TrackId)], tracks: &[Track]) -> (rows: Vec<(usize, usize)>)
    ensures
        rows@ == queue_rows(upcoming@, tracks@),
{
    let mut rows: Vec<(usize, usize)> = Vec::new();
    let mut i: usize = 0;
    while i < upcoming.len()
        invariant
            i <= upcoming@.len(),
            rows@ == queue_rows(upcoming@.take(i as int), tracks@),
        decreases upcoming@.len() - i,
    {
        let (position, id) = upcoming[i];
        assert(upcoming@.take(i + 1).drop_last() =~= upcoming@.take(i as int));
        if let Some(index) = track_index(tracks, id) {
            rows.push((position, index));
        }
        i = i + 1;
    }
    assert(upcoming@.take(upcoming@.len() as int) =~= upcoming@);
    rows
}

/// Puts a scanned track into the list: it replaces the listed track with
/// the same identity, or joins the list; the list is then put in display
/// order. Returns where the track that was current (by identity) is now.
pub fn upsert_track(tracks: &mut Vec<Track>, track: Track, current: Option<TrackId>) -> (index: Option<usize>)
    ensures
        in_display_order(final(tracks)@),
        final(tracks)@.to_multiset() == (match index_of_id(old(tracks)@, track.id) {
            Some(i) => old(tracks)@.update(i as int, track),
            None => old(tracks)@.push(track),
        }).to_multiset(),
        index == (match current {
            Some(id) => index_of_id(final(tracks)@, id),
            None => None,
        }),
{
    let id = track.id;
    match track_index(tracks.as_slice(), id) {
        Some(i) => {
            tracks.set(i, track);
        },
        None => {
            tracks.push(track);
        },
    }
    sort_tracks(tracks);
    match current {
        Some(c) => track_index(tracks.as_slice(), c),
        None => None,
    }
}

/// Replaces the list with `fresh` in display order. Returns where the
/// track that was current (by identity) is now.
pub fn replace_tracks(tracks: &mut Vec<Track>, fresh: Vec<Track>, current: Option<TrackId>) -> (index: Option<usize>)
    ensures
        in_display_order(final(tracks)@),
        final(tracks)@.to_multiset() == fresh@.to_multiset(),
        index == (match current {
            Some(id) => index_of_id(final(tracks)@, id),
            None => None,
        }),
{
    *tracks = fresh;
    sort_tracks(tracks);
    match current {
        Some(c) => track_index(tracks.as_slice(), c),
        None => None,
    }
}

} // verus!
