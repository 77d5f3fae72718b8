//! Cue timing at a playback position, and the binding of a document to the
//! decoded audio it was timed against.

use crate::lyrics::document::{LyricCue, LyricsDocument, LyricsValidationError};
use crate::lyrics::fields::lyrics_error;
use crate::text::{ascii_lower_text, chars_equal, chars_of, lower_chars, text_is};
use vstd::prelude::*;

verus! {

/// A timestamp shifted by the document offset, clamped to the `u64` range
/// (adjusted timestamps below zero become zero).
pub open spec fn adjusted(t: u64, offset: i64) -> int {
    let v = t + offset;
    if v < 0 {
        0
    } else if v > u64::MAX {
        u64::MAX as int
    } else {
        v
    }
}

/// Whether the cue has started at `position`.
pub open spec fn has_started(cue: LyricCue, offset: i64, position: u64) -> bool {
    adjusted(cue.start_ms, offset) <= position
}

/// The number of leading cues that have started at `position`: the
/// partition point of a document whose cues are in start order.
pub open spec fn started_prefix(cues: Seq<LyricCue>, offset: i64, position: u64) -> int {
    if exists|i: int| 0 <= i < cues.len() && !has_started(#[trigger] cues[i], offset, position) {
        choose|i: int|
            0 <= i < cues.len() && !has_started(cues[i], offset, position) && forall|j: int|
                0 <= j < i ==> has_started(#[trigger] cues[j], offset, position)
    } else {
        cues.len() as int
    }
}

/// No later cue before `cutoff` is on the same track as cue `j`.
pub open spec fn latest_on_its_track(cues: Seq<LyricCue>, cutoff: int, j: int) -> bool {
    forall|m: int| j < m < cutoff ==> #[trigger] cues[m].track_id@ != cues[j].track_id@
}

/// Whether the cue has not ended at `position`.
pub open spec fn not_ended(cue: LyricCue, offset: i64, position: u64) -> bool {
    match cue.end_ms {
        Some(end) => position < adjusted(end, offset),
        None => true,
    }
}

/// Cue `j` is the latest before `cutoff` on its track and has not ended.
pub open spec fn latest_unended(cues: Seq<LyricCue>, cutoff: int, offset: i64, position: u64, j: int) -> bool {
    latest_on_its_track(cues, cutoff, j) && not_ended(cues[j], offset, position)
}

/// Cue `j` is active at `position`: it is the latest started cue on its
/// track and has not reached its end.
pub open spec fn is_active(d: LyricsDocument, position: u64, j: int) -> bool {
    let cutoff = started_prefix(d.cues@, d.offset_ms, position);
    &&& 0 <= j < cutoff
    &&& latest_unended(d.cues@, cutoff, d.offset_ms, position, j)
}

/// At any position each track shows at most one cue: two active cues are
/// on different tracks.
pub proof fn one_active_cue_per_track(d: LyricsDocument, position: u64, i: int, j: int)
    requires
        is_active(d, position, i),
        is_active(d, position, j),
        i != j,
    ensures
        d.cues@[i].track_id@ != d.cues@[j].track_id@,
{
    let cutoff = started_prefix(d.cues@, d.offset_ms, position);
    if i < j {
        assert(d.cues@[j].track_id@ != d.cues@[i].track_id@);
    } else {
        assert(d.cues@[i].track_id@ != d.cues@[j].track_id@);
    }
}

/// A larger display offset shows a cue later, never earlier; a cue that
/// the offset moves to or before the start of the track has started from
/// position zero on (adjusted timestamps clamp to zero).
pub proof fn offset_delays_cues_and_clamps_at_zero(cue: LyricCue, later: i64, earlier: i64, position: u64)
    requires
        earlier <= later,
    ensures
        has_started(cue, later, position) ==> has_started(cue, earlier, position),
        cue.start_ms + earlier <= 0 ==> has_started(cue, earlier, 0),
{
}

/// Some cue listed in `seen` is on the track of cue `m`.
pub open spec fn track_seen(cues: Seq<LyricCue>, seen: Seq<usize>, m: int) -> bool {
    exists|a: int|
        0 <= a < seen.len() && cues[#[trigger] seen[a] as int].track_id@ == cues[m].track_id@
}

/// The position `j` occurs in `s`.
pub open spec fn contains_index(s: Seq<usize>, j: int) -> bool {
    exists|a: int| 0 <= a < s.len() && #[trigger] s[a] as int == j
}

/// `s` is strictly increasing.
pub open spec fn strictly_increasing(s: Seq<usize>) -> bool {
    forall|a: int, b: int| 0 <= a < b < s.len() ==> #[trigger] s[a] < #[trigger] s[b]
}

/// `t.saturating_add_signed(offset)`.
fn shifted(t: u64, offset: i64) -> (v: u64)
    ensures
        v == adjusted(t, offset),
{
    if offset >= 0 {
        let o = offset as u64;
        if t > u64::MAX - o {
            u64::MAX
        } else {
            t + o
        }
    } else {
        let o: u64 = if offset == i64::MIN {
            9_223_372_036_854_775_808u64
        } else {
            (-offset) as u64
        };
        if t < o {
            0
        } else {
            t - o
        }
    }
}

impl LyricsDocument {
    /// Returns one active cue per track, in stable document order.
    #[verifier::loop_isolation(false)]
    pub fn active_cue_indices(&self, position_ms: u64) -> (active: Vec<usize>)
        ensures
            strictly_increasing(active@),
            forall|j: int| 0 <= j < active@.len() ==> #[trigger] active@[j] < self.cues@.len(),
            forall|j: int|
                0 <= j < self.cues@.len() ==> (contains_index(active@, j) <==> #[trigger] is_active(
                    *self,
                    position_ms,
                    j,
                )),
    {
        let cues = &self.cues;
        let mut cutoff: usize = 0;
        while cutoff < cues.len() && shifted(cues[cutoff].start_ms, self.offset_ms) <= position_ms
            invariant
                *cues == self.cues,
                cutoff <= cues@.len(),
                forall|j: int| 0 <= j < cutoff ==> has_started(#[trigger] cues@[j], self.offset_ms, position_ms),
            decreases cues@.len() - cutoff,
        {
            cutoff = cutoff + 1;
        }
        proof {
            if cutoff < cues@.len() {
                assert(!has_started(cues@[cutoff as int], self.offset_ms, position_ms));
                let c = choose|i: int|
                    0 <= i < cues@.len() && !has_started(cues@[i], self.offset_ms, position_ms)
                        && forall|j: int|
                        0 <= j < i ==> has_started(#[trigger] cues@[j], self.offset_ms, position_ms);
                if c < cutoff {
                    assert(has_started(cues@[c], self.offset_ms, position_ms));
                } else if c > cutoff {
                    assert(has_started(cues@[cutoff as int], self.offset_ms, position_ms));
                }
            } else {
                assert(!exists|i: int|
                    0 <= i < cues@.len() && !has_started(#[trigger] cues@[i], self.offset_ms, position_ms));
            }
        }
        let ghost cut = cutoff as int;
        assert(cut == started_prefix(cues@, self.offset_ms, position_ms));
        // Walk back from the cutoff; the first cue met on each track is its
        // latest started cue.
        let mut seen: Vec<usize> = Vec::new();
        let mut descending: Vec<usize> = Vec::new();
        let mut k = cutoff;
        while k > 0
            invariant
                *cues == self.cues,
                cut == started_prefix(cues@, self.offset_ms, position_ms),
                0 <= k <= cut <= cues@.len(),
                forall|a: int| 0 <= a < seen@.len() ==> k <= #[trigger] seen@[a] < cut,
                forall|m: int| k <= m < cut ==> #[trigger] track_seen(cues@, seen@, m),
                forall|a: int| 0 <= a < descending@.len() ==> k <= #[trigger] descending@[a] < cut,
                forall|a: int, b: int|
                    0 <= a < b < descending@.len() ==> #[trigger] descending@[a]
                        > #[trigger] descending@[b],
                forall|j: int|
                    k <= j < cut ==> (contains_index(descending@, j) <==> #[trigger] latest_unended(cues@, cut, self.offset_ms, position_ms, j)),
            decreases k,
        {
            let ghost before_desc = descending@;
            let ghost before_seen = seen@;
            assert(forall|j: int|
                k <= j < cut ==> (contains_index(before_desc, j) <==> #[trigger] latest_unended(cues@, cut, self.offset_ms, position_ms, j)));
            k = k - 1;
            let cue = &cues[k];
            let mut found = false;
            let mut s: usize = 0;
            while s < seen.len()
                invariant
                    k < cues@.len(),
                    *cue == cues@[k as int],
                    s <= seen@.len(),
                    forall|a: int| 0 <= a < seen@.len() ==> #[trigger] seen@[a] < cues@.len(),
                    found <==> exists|a: int|
                        0 <= a < s && cues@[#[trigger] seen@[a] as int].track_id@ == cue.track_id@,
                decreases seen@.len() - s,
            {
                if cues[seen[s]].track_id == cue.track_id {
                    found = true;
                }
                s = s + 1;
            }
            proof {
                if found {
                    let a = choose|a: int|
                        0 <= a < seen@.len() && cues@[#[trigger] seen@[a] as int].track_id@
                            == cue.track_id@;
                    assert(!latest_on_its_track(cues@, cut, k as int));
                } else {
                    assert forall|m: int| k < m < cut implies #[trigger] cues@[m].track_id@
                        != cues@[k as int].track_id@ by {
                        assert(track_seen(cues@, seen@, m));
                        let a = choose|a: int|
                            0 <= a < seen@.len() && cues@[#[trigger] seen@[a] as int].track_id@
                                == cues@[m].track_id@;
                    }
                    assert(latest_on_its_track(cues@, cut, k as int));
                }
            }
            let ended = match cue.end_ms {
                Some(end) => position_ms >= shifted(end, self.offset_ms),
                None => false,
            };
            if !found {
                seen.push(k);
                if !ended {
                    descending.push(k);
                }
            }
            assert(descending@ == if !found && !ended {
                before_desc.push(k)
            } else {
                before_desc
            });
            assert(seen@ == if !found {
                before_seen.push(k)
            } else {
                before_seen
            });
            proof {
                assert forall|m: int| k <= m < cut implies #[trigger] track_seen(cues@, seen@, m) by {
                    if m == k {
                        if !found {
                            assert(seen@[seen@.len() - 1] == k);
                        } else {
                            let a = choose|a: int|
                                0 <= a < before_seen.len() && cues@[#[trigger] before_seen[a] as int].track_id@
                                    == cue.track_id@;
                            assert(seen@[a] == before_seen[a]);
                        }
                    } else {
                        assert(track_seen(cues@, before_seen, m));
                        let a = choose|a: int|
                            0 <= a < before_seen.len() && cues@[#[trigger] before_seen[a] as int].track_id@
                                == cues@[m].track_id@;
                        assert(seen@[a] == before_seen[a]);
                    }
                }
                assert forall|j: int| k <= j < cut implies (contains_index(descending@, j) <==> latest_unended(cues@, cut, self.offset_ms, position_ms, j)) by {
                    if j == k {
                        if contains_index(descending@, j) {
                            let a = choose|a: int|
                                0 <= a < descending@.len() && descending@[a] as int == j;
                            if a < before_desc.len() {
                                assert(before_desc[a] > k);
                            }
                        }
                        if !found && !ended {
                            assert(descending@[descending@.len() - 1] == k);
                        }
                    } else {
                        assert(contains_index(before_desc, j) <==> latest_unended(cues@, cut, self.offset_ms, position_ms, j));
                        if contains_index(descending@, j) {
                            let a = choose|a: int|
                                0 <= a < descending@.len() && descending@[a] as int == j;
                            if a == before_desc.len() {
                                assert(descending@[a] == k);
                            } else {
                                assert(before_desc[a] == j);
                                assert(contains_index(before_desc, j));
                            }
                        }
                        if contains_index(before_desc, j) {
                            let a = choose|a: int|
                                0 <= a < before_desc.len() && before_desc[a] as int == j;
                            assert(descending@[a] as int == j);
                        }
                    }
                }
            }
        }
        assert(k == 0);
        let ghost final_desc = descending@;
        assert(forall|j: int|
            0 <= j < cut ==> (contains_index(final_desc, j) <==> #[trigger] latest_unended(cues@, cut, self.offset_ms, position_ms, j)));
        // Reverse into document order.
        let mut active: Vec<usize> = Vec::new();
        let n = descending.len();
        let mut r: usize = n;
        while r > 0
            invariant
                r <= n == descending@.len(),
                active@.len() == n - r,
                forall|a: int| 0 <= a < active@.len() ==> #[trigger] active@[a] == descending@[n - 1 - a],
            decreases r,
        {
            r = r - 1;
            active.push(descending[r]);
        }
        proof {
            assert forall|a: int, b: int| 0 <= a < b < active@.len() implies #[trigger] active@[a]
                < #[trigger] active@[b] by {
                assert(descending@[n - 1 - b] > descending@[n - 1 - a]);
            }
            assert forall|j: int| 0 <= j < cues@.len() implies (contains_index(active@, j)
                <==> #[trigger] is_active(*self, position_ms, j)) by {
                if contains_index(active@, j) {
                    let a = choose|a: int| 0 <= a < active@.len() && active@[a] as int == j;
                    assert(descending@[n - 1 - a] as int == j);
                    assert(contains_index(descending@, j));
                }
                if contains_index(active@, j) {
                    let a = choose|a: int| 0 <= a < active@.len() && active@[a] as int == j;
                    assert(descending@[n - 1 - a] < cut);
                }
                if 0 <= j < cut {
                    assert(contains_index(final_desc, j) <==> latest_unended(cues@, cut, self.offset_ms, position_ms, j));
                }
                if is_active(*self, position_ms, j) {
                    assert(contains_index(descending@, j));
                    let a = choose|a: int| 0 <= a < descending@.len() && descending@[a] as int == j;
                    assert(active@[n - 1 - a] as int == j);
                }
            }
        }
        active
    }

    /// Verifies the optional duration and exact-fingerprint bindings against
    /// the selected audio: a declared duration may differ from a known audio
    /// duration by at most 1,500 ms, and a declared PCM signature must equal
    /// the audio's (ignoring ASCII case).
    #[verifier::loop_isolation(false)]
    pub fn validate_media_binding(
        &self,
        actual_duration_ms: u64,
        actual_pcm_signature: Option<&str>,
    ) -> (r: Result<(), LyricsValidationError>)
        ensures
            r is Ok <==> media_binding_ok(*self, actual_duration_ms, opt_str_view(actual_pcm_signature)),
    {
        let media = match &self.media {
            Some(media) => media,
            None => return Ok(()),
        };
        if let Some(expected) = media.duration_ms {
            let difference = if expected > actual_duration_ms {
                expected - actual_duration_ms
            } else {
                actual_duration_ms - expected
            };
            if actual_duration_ms > 0 && difference > 1_500 {
                return Err(
                    lyrics_error(&["media.duration_ms differs from the audio by more than 1500 ms"]),
                );
            }
        }
        let mut i: usize = 0;
        while i < media.fingerprints.len()
            invariant
                self.media == Some(*media),
                i <= media.fingerprints@.len(),
                forall|j: int|
                    0 <= j < i ==> (#[trigger] media.fingerprints@[j]).algorithm@
                        != "wavora-pcm-signature-v1"@,
            decreases media.fingerprints@.len() - i,
        {
            let fingerprint = &media.fingerprints[i];
            if text_is(fingerprint.algorithm.as_str(), "wavora-pcm-signature-v1") {
                proof {
                    let c = choose|c: int|
                        0 <= c < media.fingerprints@.len()
                            && media.fingerprints@[c].algorithm@ == "wavora-pcm-signature-v1"@
                            && forall|j: int|
                            0 <= j < c ==> media.fingerprints@[j].algorithm@
                                != "wavora-pcm-signature-v1"@;
                    if c < i {
                    } else if c > i {
                    }
                }
                let actual = match actual_pcm_signature {
                    Some(actual) => actual,
                    None => return Err(
                        lyrics_error(&["the selected audio has no verifiable PCM signature"]),
                    ),
                };
                let expected_chars = chars_of(fingerprint.value.as_str());
                let actual_chars = chars_of(actual);
                let expected_lower = lower_chars(expected_chars.as_slice());
                let actual_lower = lower_chars(actual_chars.as_slice());
                if !chars_equal(expected_lower.as_slice(), actual_lower.as_slice()) {
                    return Err(
                        lyrics_error(&["media fingerprint does not match the selected audio"]),
                    );
                }
                return Ok(());
            }
            i = i + 1;
        }
        Ok(())
    }
}

/// The text of an optional string slice.
pub open spec fn opt_str_view(o: Option<&str>) -> Option<Seq<char>> {
    match o {
        Some(s) => Some(s@),
        None => None,
    }
}

/// The index of the first PCM-signature fingerprint.
pub open spec fn pcm_fingerprint(d: LyricsDocument) -> Option<int> {
    match d.media {
        Some(m) => if exists|c: int|
            0 <= c < m.fingerprints@.len() && #[trigger] m.fingerprints@[c].algorithm@
                == "wavora-pcm-signature-v1"@ {
            Some(
                choose|c: int|
                    0 <= c < m.fingerprints@.len() && m.fingerprints@[c].algorithm@
                        == "wavora-pcm-signature-v1"@ && forall|j: int|
                        0 <= j < c ==> m.fingerprints@[j].algorithm@ != "wavora-pcm-signature-v1"@,
            )
        } else {
            None
        },
        None => None,
    }
}

/// The document's media binding holds for audio of `duration` with PCM
/// signature `signature`.
pub open spec fn media_binding_ok(d: LyricsDocument, duration: u64, signature: Option<Seq<char>>) -> bool {
    match d.media {
        None => true,
        Some(m) => {
            &&& (m.duration_ms matches Some(expected) ==> (duration == 0 || -1500 <= expected - duration
                <= 1500))
            &&& (pcm_fingerprint(d) matches Some(c) ==> (signature matches Some(actual)
                && ascii_lower_text(m.fingerprints@[c].value@) == ascii_lower_text(actual)))
        },
    }
}


/// The name of the PCM signature fingerprint that Wavora verifies.
pub const PCM_SIGNATURE_ALGORITHM: &'static str = "wavora-pcm-signature-v1";

/// The document declares a PCM signature, so binding it needs the track's
/// signature.
pub open spec fn declares_pcm_signature(d: LyricsDocument) -> bool {
    match d.media {
        Some(media) => exists|i: int|
            0 <= i < media.fingerprints@.len() && #[trigger] media.fingerprints@[i].algorithm@
                == PCM_SIGNATURE_ALGORITHM@,
        None => false,
    }
}

impl LyricsDocument {
    /// Whether checking the media binding needs the track's PCM signature.
    pub fn needs_pcm_signature(&self) -> (needed: bool)
        ensures
            needed == declares_pcm_signature(*self),
    {
        let media = match &self.media {
            Some(media) => media,
            None => return false,
        };
        let mut i: usize = 0;
        while i < media.fingerprints.len()
            invariant
                i <= media.fingerprints@.len(),
                self.media == Some(*media),
                forall|j: int| 0 <= j < i ==> media.fingerprints@[j].algorithm@ != PCM_SIGNATURE_ALGORITHM@,
            decreases media.fingerprints@.len() - i,
        {
            if text_is(media.fingerprints[i].algorithm.as_str(), PCM_SIGNATURE_ALGORITHM) {
                return true;
            }
            i = i + 1;
        }
        false
    }
}

} // verus!
