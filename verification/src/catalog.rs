//! The pure rules of the media catalog: identity reconciliation decisions,
//! the stored form of audio evidence, scan completion, and playlist order.

use crate::ids::{PlaylistId, TrackId};
use crate::media::AcousticFingerprint;
use crate::paths::{path_equals, path_starts_with, paths_equal, starts_with};
use vstd::prelude::*;

verus! {

/// Largest duration difference (ms) that still counts as an exact match.
pub const EXACT_DURATION_TOLERANCE_MS: u64 = 1_500;

pub const MIN_FUZZY_DURATION_TOLERANCE_MS: u64 = 3_000;

pub const MAX_FUZZY_DURATION_TOLERANCE_MS: u64 = 10_000;

/// Above this many eligible candidates, fuzzy reconciliation is skipped.
pub const MAX_FUZZY_CANDIDATES: usize = 32;

/// Largest number of sub-fingerprints stored for one track.
pub const MAX_ACOUSTIC_FINGERPRINT_ITEMS: usize = 2_048;

/// One occurrence of a track in a playlist.
#[derive(Debug, Clone, Copy, PartialEq, Eq, Structural)]
pub struct PlaylistEntry {
    pub id: i64,
    pub playlist_id: PlaylistId,
    pub track_id: TrackId,
    pub position: i64,
    pub added_at_ms: i64,
}

/// The absolute difference of two durations.
pub open spec fn duration_difference(a: u64, b: u64) -> int {
    if a >= b {
        a - b
    } else {
        b - a
    }
}

/// Two durations match exactly: they differ by at most 1,500 ms.
pub open spec fn exact_duration_match(a: u64, b: u64) -> bool {
    duration_difference(a, b) <= EXACT_DURATION_TOLERANCE_MS
}

/// The fuzzy duration allowance: 1% of the observed duration, between
/// 3,000 and 10,000 ms.
pub open spec fn fuzzy_tolerance(duration_ms: u64) -> u64 {
    let p = duration_ms / 100;
    if p < MIN_FUZZY_DURATION_TOLERANCE_MS {
        MIN_FUZZY_DURATION_TOLERANCE_MS
    } else if p > MAX_FUZZY_DURATION_TOLERANCE_MS {
        MAX_FUZZY_DURATION_TOLERANCE_MS
    } else {
        p
    }
}

pub fn fuzzy_duration_tolerance_ms(duration_ms: u64) -> (tolerance: u64)
    ensures
        tolerance == fuzzy_tolerance(duration_ms),
        MIN_FUZZY_DURATION_TOLERANCE_MS <= tolerance <= MAX_FUZZY_DURATION_TOLERANCE_MS,
{
    let p = duration_ms / 100;
    if p < MIN_FUZZY_DURATION_TOLERANCE_MS {
        MIN_FUZZY_DURATION_TOLERANCE_MS
    } else if p > MAX_FUZZY_DURATION_TOLERANCE_MS {
        MAX_FUZZY_DURATION_TOLERANCE_MS
    } else {
        p
    }
}

/// A `u64` as SQLite's signed integer, saturating at `i64::MAX`.
pub fn sqlite_u64(value: u64) -> (stored: i64)
    ensures
        value <= i64::MAX ==> stored == value,
        value > i64::MAX ==> stored == i64::MAX,
{
    if value <= 9_223_372_036_854_775_807u64 {
        value as i64
    } else {
        i64::MAX
    }
}

/// The inclusive duration window `[duration - tolerance, duration +
/// tolerance]` (saturating) in SQLite integers.
pub fn duration_window(duration_ms: u64, tolerance_ms: u64) -> (window: (i64, i64))
    ensures
        window.0 == (if duration_ms >= tolerance_ms {
            if duration_ms - tolerance_ms <= i64::MAX {
                duration_ms - tolerance_ms
            } else {
                i64::MAX as int
            }
        } else {
            0
        }),
        window.1 == (if duration_ms + tolerance_ms <= i64::MAX {
            duration_ms + tolerance_ms
        } else {
            i64::MAX as int
        }),
{
    let low = if duration_ms >= tolerance_ms {
        duration_ms - tolerance_ms
    } else {
        0
    };
    let high = if duration_ms > u64::MAX - tolerance_ms {
        u64::MAX
    } else {
        duration_ms + tolerance_ms
    };
    (sqlite_u64(low), sqlite_u64(high))
}

/// Whether a stored record at the scanned URI still holds the same audio:
/// an equal PCM signature and an exact duration match.
pub fn same_audio(stored_signature: &[u8], stored_duration_ms: u64, signature: &[u8; 32], duration_ms: u64) -> (same: bool)
    ensures
        same == (stored_signature@ == signature@ && exact_duration_match(
            stored_duration_ms,
            duration_ms,
        )),
{
    let mut equal = stored_signature.len() == 32;
    let mut i: usize = 0;
    while equal && i < 32
        invariant
            i <= 32,
            signature@.len() == 32,
            equal ==> stored_signature@.len() == 32,
            equal ==> forall|j: int| 0 <= j < i ==> stored_signature@[j] == signature@[j],
            !equal ==> stored_signature@ != signature@,
        decreases 32 - i,
    {
        if stored_signature[i] != signature[i] {
            equal = false;
        }
        i = i + 1;
    }
    if equal {
        assert(stored_signature@ =~= signature@);
    }
    let difference = if stored_duration_ms >= duration_ms {
        stored_duration_ms - duration_ms
    } else {
        duration_ms - stored_duration_ms
    };
    equal && difference <= EXACT_DURATION_TOLERANCE_MS
}

/// A stored record that may be reconnected to a new observation: it is
/// unavailable, or the file at its stored path no longer exists.
pub open spec fn is_missing(available: bool, path_exists: bool) -> bool {
    !available || !path_exists
}

/// The missing records among `candidates`, in order.
pub open spec fn missing_candidates(candidates: Seq<(TrackId, bool, bool)>) -> Seq<TrackId>
    decreases candidates.len(),
{
    if candidates.len() == 0 {
        Seq::empty()
    } else {
        let rest = missing_candidates(candidates.drop_last());
        let (id, available, exists) = candidates.last();
        if is_missing(available, exists) {
            rest.push(id)
        } else {
            rest
        }
    }
}

/// The only missing record among `candidates` (each given with whether it
/// is available and whether its stored path exists), if exactly one is
/// missing. Ambiguous candidates are never merged.
pub fn unique_missing_candidate(candidates: &[(TrackId, bool, bool)]) -> (id: Option<TrackId>)
    ensures
        missing_candidates(candidates@).len() == 1 ==> id == Some(missing_candidates(candidates@)[0]),
        missing_candidates(candidates@).len() != 1 ==> id is None,
{
    let mut found: Option<TrackId> = None;
    let mut count: usize = 0;
    let mut i: usize = 0;
    while i < candidates.len()
        invariant
            i <= candidates@.len(),
            count == missing_candidates(candidates@.take(i as int)).len(),
            count <= i,
            count >= 1 ==> found == Some(missing_candidates(candidates@.take(i as int))[0]),
        decreases candidates@.len() - i,
    {
        let (id, available, exists) = candidates[i];
        assert(candidates@.take(i + 1).drop_last() == candidates@.take(i as int));
        if !available || !exists {
            if count == 0 {
                found = Some(id);
            }
            count = count + 1;
        }
        i = i + 1;
    }
    assert(candidates@.take(candidates@.len() as int) == candidates@);
    if count == 1 {
        found
    } else {
        None
    }
}

/// Whether fuzzy matching may run over `eligible` candidates.
pub fn fuzzy_reconciliation_allowed(eligible: usize) -> (allowed: bool)
    ensures
        allowed == (eligible <= MAX_FUZZY_CANDIDATES),
{
    eligible <= MAX_FUZZY_CANDIDATES
}

/// The only id in `matches`, if there is exactly one.
pub fn unique_match(matches: &[TrackId]) -> (id: Option<TrackId>)
    ensures
        matches@.len() == 1 ==> id == Some(matches@[0]),
        matches@.len() != 1 ==> id is None,
{
    if matches.len() == 1 {
        Some(matches[0])
    } else {
        None
    }
}

/// Whether a stored record lies under the scanned location: the location
/// itself when it is a file, or anything below it (both by whole path
/// components).
pub open spec fn in_scan(path: Seq<char>, root: Seq<char>, root_is_file: bool) -> bool {
    if root_is_file {
        path_equals(path, root)
    } else {
        path_starts_with(path, root)
    }
}

/// The records (id and stored path, available ones only) that a finished
/// scan did not see although they lie under its root; in order.
pub open spec fn missing_after_scan_spec(
    rows: Seq<(TrackId, String)>,
    root: Seq<char>,
    root_is_file: bool,
    seen: Seq<TrackId>,
) -> Seq<TrackId>
    decreases rows.len(),
{
    if rows.len() == 0 {
        Seq::empty()
    } else {
        let rest = missing_after_scan_spec(rows.drop_last(), root, root_is_file, seen);
        let (id, path) = rows.last();
        if in_scan(path@, root, root_is_file) && !seen.contains(id) {
            rest.push(id)
        } else {
            rest
        }
    }
}

/// Scan completion: the available records under the root that the scan
/// did not observe become missing.
pub fn missing_after_scan(rows: &Vec<(TrackId, String)>, root: &str, root_is_file: bool, seen: &Vec<TrackId>) -> (missing: Vec<TrackId>)
    ensures
        missing@ == missing_after_scan_spec(rows@, root@, root_is_file, seen@),
{
    let mut missing: Vec<TrackId> = Vec::new();
    let mut i: usize = 0;
    while i < rows.len()
        invariant
            i <= rows@.len(),
            missing@ == missing_after_scan_spec(rows@.take(i as int), root@, root_is_file, seen@),
        decreases rows@.len() - i,
    {
        let (id, path) = (&rows[i].0, &rows[i].1);
        assert(rows@.take(i + 1).drop_last() == rows@.take(i as int));
        let inside = if root_is_file {
            paths_equal(path.as_str(), root)
        } else {
            starts_with(path.as_str(), root)
        };
        if inside && !contains_id(seen, *id) {
            missing.push(*id);
        }
        i = i + 1;
    }
    assert(rows@.take(rows@.len() as int) == rows@);
    missing
}

fn contains_id(ids: &Vec<TrackId>, id: TrackId) -> (found: bool)
    ensures
        found == ids@.contains(id),
{
    let mut i: usize = 0;
    while i < ids.len()
        invariant
            i <= ids@.len(),
            forall|j: int| 0 <= j < i ==> ids@[j] != id,
        decreases ids@.len() - i,
    {
        if ids[i] == id {
            assert(ids@[i as int] == id);
            return true;
        }
        i = i + 1;
    }
    false
}

/// The entry order after moving `entry` to `target` (clamped to the end):
/// the entry is taken out and inserted there.
pub open spec fn moved_order(ids: Seq<i64>, old_position: int, target: int) -> Seq<i64> {
    let rest = ids.remove(old_position);
    let t = if target > rest.len() {
        rest.len() as int
    } else {
        target
    };
    rest.insert(t, ids[old_position])
}

/// The new order of a playlist's entry ids after moving `entry_id` to the
/// zero-based `new_position`, or `None` when the entry is not in it.
pub fn reorder_entries(ids: &Vec<i64>, entry_id: i64, new_position: usize) -> (order: Option<Vec<i64>>)
    ensures
        match order {
            None => !ids@.contains(entry_id),
            Some(o) => exists|p: int|
                0 <= p < ids@.len() && ids@[p] == entry_id && (forall|q: int|
                    0 <= q < p ==> ids@[q] != entry_id) && o@ == moved_order(
                    ids@,
                    p,
                    new_position as int,
                ),
        },
{
    let mut p: usize = 0;
    while p < ids.len() && ids[p] != entry_id
        invariant
            p <= ids@.len(),
            forall|q: int| 0 <= q < p ==> ids@[q] != entry_id,
        decreases ids@.len() - p,
    {
        p = p + 1;
    }
    if p == ids.len() {
        assert(!ids@.contains(entry_id)) by {
            if ids@.contains(entry_id) {
                let q = choose|q: int| 0 <= q < ids@.len() && ids@[q] == entry_id;
            }
        }
        return None;
    }
    let mut order = ids.clone();
    assert(order@ == ids@);
    let id = order.remove(p);
    assert(id == entry_id);
    let target = if new_position > order.len() {
        order.len()
    } else {
        new_position
    };
    order.insert(target, id);
    assert(order@ == moved_order(ids@, p as int, new_position as int));
    Some(order)
}

/// Moving an entry keeps every entry of the playlist, each as often as
/// before, and puts the moved entry at the requested position, or last when
/// that position lies past the end.
pub proof fn moving_an_entry_keeps_the_playlist(ids: Seq<i64>, position: int, target: int)
    requires
        0 <= position < ids.len(),
        0 <= target,
    ensures
        moved_order(ids, position, target).len() == ids.len(),
        moved_order(ids, position, target).to_multiset() == ids.to_multiset(),
        moved_order(ids, position, target)[if target < ids.len() {
            target
        } else {
            ids.len() - 1
        }] == ids[position],
{
    let rest = ids.remove(position);
    let t = if target > rest.len() {
        rest.len() as int
    } else {
        target
    };
    vstd::seq_lib::to_multiset_remove(ids, position);
    vstd::seq_lib::to_multiset_insert(rest, t, ids[position]);
    assert(ids.to_multiset().count(ids[position]) > 0) by {
        vstd::seq_lib::to_multiset_contains(ids, ids[position]);
    }
    assert(ids.to_multiset().remove(ids[position]).insert(ids[position]) =~= ids.to_multiset());
}


/// What the available record at the scanned URI says about the scan.
#[derive(Debug, Clone, Copy, PartialEq, Eq, Structural)]
pub enum SamePathOutcome {
    /// The record holds the same audio: the scan keeps its identity.
    Same(TrackId),
    /// Other audio replaced the file: the record is retired, and the
    /// search for an identity goes on.
    Replaced(TrackId),
    /// No available record at the URI.
    Absent,
}

/// A stored duration as SQLite returned it; a negative value reads as 0.
pub open spec fn stored_duration(value: i64) -> u64 {
    if value < 0 {
        0
    } else {
        value as u64
    }
}

/// The first identity check of a scan: the most recent available record at
/// the same URI (its id, stored signature and stored duration).
pub fn same_path_outcome(stored: Option<(TrackId, Vec<u8>, i64)>, signature: &[u8; 32], duration_ms: u64) -> (outcome: SamePathOutcome)
    ensures
        match stored {
            None => outcome == SamePathOutcome::Absent,
            Some((id, stored_signature, stored_ms)) => if stored_signature@ == signature@
                && exact_duration_match(stored_duration(stored_ms), duration_ms) {
                outcome == SamePathOutcome::Same(id)
            } else {
                outcome == SamePathOutcome::Replaced(id)
            },
        },
{
    match stored {
        None => SamePathOutcome::Absent,
        Some((id, stored_signature, stored_ms)) => {
            let stored_duration_ms: u64 = if stored_ms < 0 {
                0
            } else {
                stored_ms as u64
            };
            if same_audio(stored_signature.as_slice(), stored_duration_ms, signature, duration_ms) {
                SamePathOutcome::Same(id)
            } else {
                SamePathOutcome::Replaced(id)
            }
        },
    }
}

/// The device and inode to look a file up by, as SQLite integers (a value
/// that does not fit is no value): only when both are known.
pub fn file_identity_keys(device: Option<u64>, inode: Option<u64>) -> (keys: Option<(Option<i64>, Option<i64>)>)
    ensures
        match (device, inode) {
            (Some(d), Some(i)) => keys == Some((
                if d <= i64::MAX { Some(d as i64) } else { None::<i64> },
                if i <= i64::MAX { Some(i as i64) } else { None::<i64> },
            )),
            _ => keys is None,
        },
{
    match (device, inode) {
        (Some(d), Some(i)) => Some((to_i64(d), to_i64(i))),
        _ => None,
    }
}

fn to_i64(value: u64) -> (converted: Option<i64>)
    ensures
        value <= i64::MAX ==> converted == Some(value as i64),
        value > i64::MAX ==> converted is None,
{
    if value <= 9_223_372_036_854_775_807u64 {
        Some(value as i64)
    } else {
        None
    }
}

/// The last identity check: among at most 32 missing candidates with a
/// fingerprint, the one whose fingerprint matches, if exactly one does.
/// More candidates than that are never compared.
pub fn fuzzy_identity(eligible: usize, matches: &[TrackId]) -> (id: Option<TrackId>)
    ensures
        eligible > MAX_FUZZY_CANDIDATES ==> id is None,
        eligible <= MAX_FUZZY_CANDIDATES ==> id == (if matches@.len() == 1 {
            Some(matches@[0])
        } else {
            None::<TrackId>
        }),
{
    if !fuzzy_reconciliation_allowed(eligible) {
        return None;
    }
    unique_match(matches)
}

/// The inclusive window `[duration - tolerance, duration + tolerance]`,
/// clamped to `0..=i64::MAX`, in SQLite integers.
pub open spec fn window_of(duration_ms: u64, tolerance_ms: u64) -> (i64, i64) {
    let low: int = if duration_ms >= tolerance_ms {
        duration_ms - tolerance_ms
    } else {
        0
    };
    let high: int = duration_ms + tolerance_ms;
    (
        (if low <= i64::MAX {
            low
        } else {
            i64::MAX as int
        }) as i64,
        (if high <= i64::MAX {
            high
        } else {
            i64::MAX as int
        }) as i64,
    )
}

/// A `u64` key as an SQLite integer; a value that does not fit is no value.
pub open spec fn sqlite_key(value: u64) -> Option<i64> {
    if value <= i64::MAX {
        Some(value as i64)
    } else {
        None
    }
}

/// What the scanner observed of a file, as the identity checks use it.
#[derive(Debug, Clone, Copy)]
pub struct IdentityObservation {
    pub duration_ms: u64,
    pub device: Option<u64>,
    pub inode: Option<u64>,
    pub signature: [u8; 32],
}

/// A question the identity checks put to the catalog.
#[derive(Debug, Clone, Copy, PartialEq, Eq, Structural)]
pub enum IdentityQuery {
    /// The most recent available record at the scanned URI, with its stored
    /// signature and duration.
    SamePath,
    /// The most recent record (available ones first) with the file's device
    /// and inode, the same signature and a duration in the window.
    FileIdentity { device: Option<i64>, inode: Option<i64>, minimum: i64, maximum: i64 },
    /// Every record with the same signature and a duration in the window,
    /// each with whether it is available and whether its stored path exists.
    ExactSignature { minimum: i64, maximum: i64 },
    /// The records with a fingerprint and a duration in the window that are
    /// missing, and among them those whose fingerprint matches.
    Fuzzy { minimum: i64, maximum: i64 },
}

/// What the catalog does next while looking for a scanned file's identity.
#[derive(Debug, Clone, Copy, PartialEq, Eq, Structural)]
pub enum IdentityAction {
    /// Mark `retire` unavailable first (other audio replaced it at the
    /// scanned URI), then answer `query`.
    Ask { retire: Option<TrackId>, query: IdentityQuery },
    /// Settled: reuse this record's identity, or (`None`) insert a new record.
    Decide(Option<TrackId>),
}

/// The catalog's answer to an `IdentityQuery`.
#[derive(Debug, Clone)]
pub enum IdentityEvidence {
    SamePath(Option<(TrackId, Vec<u8>, i64)>),
    FileIdentity(Option<TrackId>),
    ExactSignature(Vec<(TrackId, bool, bool)>),
    /// How many missing candidates carry a fingerprint, and which of them
    /// match the scanned one.
    Fuzzy { eligible: usize, matches: Vec<TrackId> },
}

/// The check after the same-path one: by device and inode where both are
/// known, else by exact signature; both within the exact duration window.
pub open spec fn after_same_path(observation: IdentityObservation) -> IdentityQuery {
    let (minimum, maximum) = window_of(observation.duration_ms, EXACT_DURATION_TOLERANCE_MS);
    match (observation.device, observation.inode) {
        (Some(d), Some(i)) => IdentityQuery::FileIdentity {
            device: sqlite_key(d),
            inode: sqlite_key(i),
            minimum,
            maximum,
        },
        _ => IdentityQuery::ExactSignature { minimum, maximum },
    }
}

/// The reconciliation order: the same URI with the same audio, then the
/// same device and inode, then one missing record with the same signature,
/// then one missing record whose fingerprint matches (at most 32 compared);
/// a replaced record at the same URI is retired on the way; when no rule
/// matches, a new identity.
pub open spec fn identity_next(observation: IdentityObservation, evidence: IdentityEvidence) -> IdentityAction {
    match evidence {
        IdentityEvidence::SamePath(stored) => match stored {
            None => IdentityAction::Ask { retire: None, query: after_same_path(observation) },
            Some((id, signature, stored_ms)) => if signature@ == observation.signature@
                && exact_duration_match(stored_duration(stored_ms), observation.duration_ms) {
                IdentityAction::Decide(Some(id))
            } else {
                IdentityAction::Ask { retire: Some(id), query: after_same_path(observation) }
            },
        },
        IdentityEvidence::FileIdentity(found) => match found {
            Some(id) => IdentityAction::Decide(Some(id)),
            None => {
                let (minimum, maximum) = window_of(
                    observation.duration_ms,
                    EXACT_DURATION_TOLERANCE_MS,
                );
                IdentityAction::Ask {
                    retire: None,
                    query: IdentityQuery::ExactSignature { minimum, maximum },
                }
            },
        },
        IdentityEvidence::ExactSignature(candidates) => if missing_candidates(candidates@).len()
            == 1 {
            IdentityAction::Decide(Some(missing_candidates(candidates@)[0]))
        } else {
            let (minimum, maximum) = window_of(
                observation.duration_ms,
                fuzzy_tolerance(observation.duration_ms),
            );
            IdentityAction::Ask { retire: None, query: IdentityQuery::Fuzzy { minimum, maximum } }
        },
        IdentityEvidence::Fuzzy { eligible, matches } => IdentityAction::Decide(
            if eligible <= MAX_FUZZY_CANDIDATES && matches@.len() == 1 {
                Some(matches@[0])
            } else {
                None
            },
        ),
    }
}

/// The first identity check of a scanned file: the same URI.
pub fn first_identity_query() -> (action: IdentityAction)
    ensures
        action == (IdentityAction::Ask { retire: None, query: IdentityQuery::SamePath }),
{
    IdentityAction::Ask { retire: None, query: IdentityQuery::SamePath }
}

fn exact_window(duration_ms: u64) -> (window: (i64, i64))
    ensures
        window == window_of(duration_ms, EXACT_DURATION_TOLERANCE_MS),
{
    duration_window(duration_ms, EXACT_DURATION_TOLERANCE_MS)
}

fn query_after_same_path(observation: &IdentityObservation) -> (query: IdentityQuery)
    ensures
        query == after_same_path(*observation),
{
    let (minimum, maximum) = exact_window(observation.duration_ms);
    match file_identity_keys(observation.device, observation.inode) {
        Some((device, inode)) => IdentityQuery::FileIdentity { device, inode, minimum, maximum },
        None => IdentityQuery::ExactSignature { minimum, maximum },
    }
}

/// The next step of the identity checks, given the answer to the last
/// query.
pub fn identity_step(observation: &IdentityObservation, evidence: IdentityEvidence) -> (action: IdentityAction)
    ensures
        action == identity_next(*observation, evidence),
{
    match evidence {
        IdentityEvidence::SamePath(stored) => {
            match same_path_outcome(stored, &observation.signature, observation.duration_ms) {
                SamePathOutcome::Same(id) => IdentityAction::Decide(Some(id)),
                SamePathOutcome::Replaced(id) => IdentityAction::Ask {
                    retire: Some(id),
                    query: query_after_same_path(observation),
                },
                SamePathOutcome::Absent => IdentityAction::Ask {
                    retire: None,
                    query: query_after_same_path(observation),
                },
            }
        },
        IdentityEvidence::FileIdentity(found) => match found {
            Some(id) => IdentityAction::Decide(Some(id)),
            None => {
                let (minimum, maximum) = exact_window(observation.duration_ms);
                IdentityAction::Ask {
                    retire: None,
                    query: IdentityQuery::ExactSignature { minimum, maximum },
                }
            },
        },
        IdentityEvidence::ExactSignature(candidates) => {
            match unique_missing_candidate(candidates.as_slice()) {
                Some(id) => IdentityAction::Decide(Some(id)),
                None => {
                    let tolerance = fuzzy_duration_tolerance_ms(observation.duration_ms);
                    let (minimum, maximum) = duration_window(observation.duration_ms, tolerance);
                    IdentityAction::Ask {
                        retire: None,
                        query: IdentityQuery::Fuzzy { minimum, maximum },
                    }
                },
            }
        },
        IdentityEvidence::Fuzzy { eligible, matches } => IdentityAction::Decide(
            fuzzy_identity(eligible, matches.as_slice()),
        ),
    }
}

/// The name a playlist is stored under: trimmed, and never empty.
pub fn playlist_name(name: &str) -> (stored: Option<String>)
    ensures
        crate::text::trim_spec(name@, false).len() == 0 ==> stored is None,
        crate::text::trim_spec(name@, false).len() > 0 ==> (stored matches Some(s) && s@
            == crate::text::trim_spec(name@, false)),
{
    let chars = crate::text::chars_of(name);
    let trimmed = crate::text::trim_chars(chars.as_slice(), false);
    if trimmed.len() == 0 {
        None
    } else {
        Some(crate::text::string_from(trimmed.as_slice()))
    }
}

/// How setting a favorite changes the favorites playlist, given the
/// track's entry there, if any.
#[derive(Debug, Clone, Copy, PartialEq, Eq, Structural)]
pub enum FavoriteChange {
    Add,
    Remove(i64),
    Keep,
}

pub fn favorite_change(favorite: bool, existing: Option<i64>) -> (change: FavoriteChange)
    ensures
        change == (match (favorite, existing) {
            (true, None) => FavoriteChange::Add,
            (false, Some(entry)) => FavoriteChange::Remove(entry),
            _ => FavoriteChange::Keep,
        }),
{
    match (favorite, existing) {
        (true, None) => FavoriteChange::Add,
        (false, Some(entry)) => FavoriteChange::Remove(entry),
        _ => FavoriteChange::Keep,
    }
}

/// A playlist position as stored (saturating at `i64::MAX`).
pub fn stored_position(position: usize) -> (stored: i64)
    ensures
        position <= i64::MAX ==> stored == position,
        position > i64::MAX ==> stored == i64::MAX,
{
    sqlite_u64(position as u64)
}

/// The stored form of a fingerprint: each sub-fingerprint as 4
/// little-endian bytes.
pub open spec fn blob_of(items: Seq<u32>) -> Seq<u8> {
    Seq::new(4 * items.len(), |k: int| ((items[k / 4] >> (8 * (k % 4)) as u32) & 0xff) as u8)
}

/// The word stored in 4 little-endian bytes.
pub open spec fn le_word(b0: u8, b1: u8, b2: u8, b3: u8) -> u32 {
    (b0 as u32) | ((b1 as u32) << 8u32) | ((b2 as u32) << 16u32) | ((b3 as u32) << 24u32)
}

/// The sub-fingerprints read back from a stored blob whose length is a
/// multiple of 4.
pub open spec fn items_of(blob: Seq<u8>) -> Seq<u32> {
    Seq::new(
        blob.len() / 4,
        |i: int| le_word(blob[4 * i], blob[4 * i + 1], blob[4 * i + 2], blob[4 * i + 3]),
    )
}

/// The little-endian bytes of a fingerprint's sub-fingerprints.
pub fn acoustic_fingerprint_blob(fingerprint: &AcousticFingerprint) -> (blob: Vec<u8>)
    ensures
        blob@ == blob_of(fingerprint.items_view()),
{
    let items = fingerprint.items();
    let mut blob: Vec<u8> = Vec::new();
    let mut i: usize = 0;
    while i < items.len()
        invariant
            items@ == fingerprint.items_view(),
            i <= items@.len(),
            blob@.len() == 4 * i,
            forall|k: int| 0 <= k < 4 * i ==> #[trigger] blob@[k] == blob_of(items@)[k],
        decreases items@.len() - i,
    {
        let item = items[i];
        blob.push((item & 0xff) as u8);
        blob.push(((item >> 8u32) & 0xff) as u8);
        blob.push(((item >> 16u32) & 0xff) as u8);
        blob.push(((item >> 24u32) & 0xff) as u8);
        proof {
            assert forall|k: int| 0 <= k < 4 * (i + 1) implies #[trigger] blob@[k] == blob_of(items@)[k] by {
                if k >= 4 * i {
                    assert(k / 4 == i);
                    assert(items@[k / 4] == item);
                    if k % 4 == 0 {
                        assert(item >> 0u32 == item) by (bit_vector);
                    }
                }
            }
        }
        i = i + 1;
    }
    assert(blob@ =~= blob_of(items@));
    blob
}

proof fn le_word_of_bytes(x: u32)
    ensures
        le_word(
            ((x >> 0u32) & 0xff) as u8,
            ((x >> 8u32) & 0xff) as u8,
            ((x >> 16u32) & 0xff) as u8,
            ((x >> 24u32) & 0xff) as u8,
        ) == x,
{
    assert(((((x >> 0u32) & 0xff) as u8) as u32) | (((((x >> 8u32) & 0xff) as u8) as u32) << 8u32) | (
    ((((x >> 16u32) & 0xff) as u8) as u32) << 16u32) | (((((x >> 24u32) & 0xff) as u8) as u32) << 24u32)
        == x) by (bit_vector);
}

/// A fingerprint written in its stored form reads back unchanged: the
/// blob holds whole items, no more than the limit, and decodes to the
/// same sub-fingerprints (with the algorithm stored beside it, the
/// decoded fingerprint equals the original).
pub proof fn fingerprint_blob_round_trip(fingerprint: AcousticFingerprint)
    requires
        fingerprint.items_view().len() <= MAX_ACOUSTIC_FINGERPRINT_ITEMS,
    ensures
        blob_of(fingerprint.items_view()).len() % 4 == 0,
        blob_of(fingerprint.items_view()).len() / 4 <= MAX_ACOUSTIC_FINGERPRINT_ITEMS,
        items_of(blob_of(fingerprint.items_view())) == fingerprint.items_view(),
{
    let items = fingerprint.items_view();
    let blob = blob_of(items);
    assert(blob.len() == 4 * items.len());
    assert(blob.len() / 4 == items.len());
    assert forall|i: int| 0 <= i < items.len() implies #[trigger] items_of(blob)[i] == items[i] by {
        assert((4 * i) / 4 == i && (4 * i) % 4 == 0);
        assert((4 * i + 1) / 4 == i && (4 * i + 1) % 4 == 1);
        assert((4 * i + 2) / 4 == i && (4 * i + 2) % 4 == 2);
        assert((4 * i + 3) / 4 == i && (4 * i + 3) % 4 == 3);
        le_word_of_bytes(items[i]);
    }
    assert(items_of(blob) =~= items);
}

/// Why a stored fingerprint cannot be read back.
#[derive(Debug, Clone, Copy, PartialEq, Eq, Structural)]
pub enum FingerprintBlobError {
    /// Only one of the algorithm and the data is present.
    IncompletePair,
    /// The stored algorithm does not fit a `u32`.
    AlgorithmOutOfRange,
    /// The data length is not a multiple of 4.
    NotWholeItems,
    /// The data holds more than 2,048 sub-fingerprints.
    TooManyItems,
}

/// Reads back a stored fingerprint (its nullable algorithm and data
/// columns): both absent is no fingerprint, both present must decode.
pub fn decode_acoustic_fingerprint(algorithm: Option<i64>, blob: Option<Vec<u8>>) -> (r: Result<Option<AcousticFingerprint>, FingerprintBlobError>)
    ensures
        match (algorithm, blob) {
            (None, None) => r == Ok::<Option<AcousticFingerprint>, FingerprintBlobError>(None),
            (Some(a), Some(b)) => if a < 0 || a > u32::MAX {
                r == Err::<Option<AcousticFingerprint>, FingerprintBlobError>(FingerprintBlobError::AlgorithmOutOfRange)
            } else if b@.len() % 4 != 0 {
                r == Err::<Option<AcousticFingerprint>, FingerprintBlobError>(FingerprintBlobError::NotWholeItems)
            } else if b@.len() / 4 > MAX_ACOUSTIC_FINGERPRINT_ITEMS {
                r == Err::<Option<AcousticFingerprint>, FingerprintBlobError>(FingerprintBlobError::TooManyItems)
            } else {
                (r matches Ok(Some(fp)) && fp.algorithm_view() == a && fp.items_view() == items_of(b@))
            },
            _ => r == Err::<Option<AcousticFingerprint>, FingerprintBlobError>(FingerprintBlobError::IncompletePair),
        },
{
    let (algorithm, blob) = match (algorithm, blob) {
        (None, None) => return Ok(None),
        (Some(a), Some(b)) => (a, b),
        _ => return Err(FingerprintBlobError::IncompletePair),
    };
    if algorithm < 0 || algorithm > 4_294_967_295i64 {
        return Err(FingerprintBlobError::AlgorithmOutOfRange);
    }
    if blob.len() % 4 != 0 {
        return Err(FingerprintBlobError::NotWholeItems);
    }
    if blob.len() / 4 > MAX_ACOUSTIC_FINGERPRINT_ITEMS {
        return Err(FingerprintBlobError::TooManyItems);
    }
    let n = blob.len() / 4;
    let mut items: Vec<u32> = Vec::new();
    let mut i: usize = 0;
    while i < n
        invariant
            n == blob@.len() / 4,
            n <= MAX_ACOUSTIC_FINGERPRINT_ITEMS,
            blob@.len() % 4 == 0,
            i <= n,
            items@.len() == i,
            forall|j: int| 0 <= j < i ==> #[trigger] items@[j] == items_of(blob@)[j],
        decreases n - i,
    {
        assert(4 * i + 3 < blob@.len()) by (nonlinear_arith)
            requires
                i < n,
                n == blob@.len() / 4,
                blob@.len() % 4 == 0,
        ;
        let word = (blob[4 * i] as u32) | ((blob[4 * i + 1] as u32) << 8u32) | ((blob[4 * i + 2] as u32)
            << 16u32) | ((blob[4 * i + 3] as u32) << 24u32);
        items.push(word);
        i = i + 1;
    }
    assert(items@ =~= items_of(blob@));
    Ok(Some(AcousticFingerprint::from_parts(algorithm as u32, items)))
}

/// What a stored fingerprint pair reads back as: no fingerprint, a
/// fingerprint (algorithm and sub-fingerprints), or the reason it cannot.
pub open spec fn stored_fingerprint(algorithm: Option<i64>, blob: Option<Seq<u8>>) -> Result<Option<(u32, Seq<u32>)>, FingerprintBlobError> {
    match (algorithm, blob) {
        (None, None) => Ok(None),
        (Some(a), Some(b)) => if a < 0 || a > u32::MAX {
            Err(FingerprintBlobError::AlgorithmOutOfRange)
        } else if b.len() % 4 != 0 {
            Err(FingerprintBlobError::NotWholeItems)
        } else if b.len() / 4 > MAX_ACOUSTIC_FINGERPRINT_ITEMS {
            Err(FingerprintBlobError::TooManyItems)
        } else {
            Ok(Some((a as u32, items_of(b))))
        },
        _ => Err(FingerprintBlobError::IncompletePair),
    }
}

/// A stored record row for fuzzy matching: id, whether it is available,
/// whether its stored path exists, and its fingerprint columns.
pub type FuzzyRow = (TrackId, bool, bool, Option<i64>, Option<Vec<u8>>);

/// The fuzzy candidates among `rows`, in order: the missing records
/// (unavailable, or whose file is gone) that carry a fingerprint; the first
/// missing record whose fingerprint cannot be read makes the evidence
/// invalid.
pub open spec fn fuzzy_candidates_spec(rows: Seq<FuzzyRow>) -> Result<Seq<(TrackId, u32, Seq<u32>)>, FingerprintBlobError>
    decreases rows.len(),
{
    if rows.len() == 0 {
        Ok(seq![])
    } else {
        match fuzzy_candidates_spec(rows.drop_last()) {
            Err(e) => Err(e),
            Ok(found) => {
                let (id, available, exists, algorithm, blob) = rows.last();
                if !is_missing(available, exists) {
                    Ok(found)
                } else {
                    match stored_fingerprint(algorithm, match blob {
                        Some(b) => Some(b@),
                        None => None,
                    }) {
                        Err(e) => Err(e),
                        Ok(None) => Ok(found),
                        Ok(Some(f)) => Ok(found.push((id, f.0, f.1))),
                    }
                }
            },
        }
    }
}

/// The candidates as plain values.
pub open spec fn candidates_view(v: Seq<(TrackId, AcousticFingerprint)>) -> Seq<(TrackId, u32, Seq<u32>)> {
    v.map_values(|c: (TrackId, AcousticFingerprint)| (c.0, c.1.algorithm_view(), c.1.items_view()))
}

/// Once a prefix of the rows reads as an error, all of them do.
proof fn lemma_candidates_error_stays(rows: Seq<FuzzyRow>, k: int)
    requires
        0 <= k <= rows.len(),
        fuzzy_candidates_spec(rows.take(k)) is Err,
    ensures
        fuzzy_candidates_spec(rows) == fuzzy_candidates_spec(rows.take(k)),
    decreases rows.len() - k,
{
    if k == rows.len() {
        assert(rows.take(k) =~= rows);
    } else {
        assert(rows.take(k + 1).drop_last() =~= rows.take(k));
        lemma_candidates_error_stays(rows, k + 1);
    }
}

/// The records that fuzzy matching may compare, with their fingerprints.
pub fn fuzzy_candidates(rows: Vec<FuzzyRow>) -> (r: Result<Vec<(TrackId, AcousticFingerprint)>, FingerprintBlobError>)
    ensures
        match fuzzy_candidates_spec(rows@) {
            Ok(v) => r matches Ok(c) && candidates_view(c@) == v,
            Err(e) => r == Err::<Vec<(TrackId, AcousticFingerprint)>, FingerprintBlobError>(e),
        },
{
    let ghost all = rows@;
    let mut found: Vec<(TrackId, AcousticFingerprint)> = Vec::new();
    let mut pending = rows;
    let ghost mut taken: Seq<FuzzyRow> = Seq::empty();
    assert(candidates_view(found@) =~= Seq::<(TrackId, u32, Seq<u32>)>::empty());
    while pending.len() > 0
        invariant
            all == rows@,
            all == taken + pending@,
            fuzzy_candidates_spec(taken) == Ok::<Seq<(TrackId, u32, Seq<u32>)>, FingerprintBlobError>(candidates_view(found@)),
        decreases pending@.len(),
    {
        let ghost before = taken;
        let ghost before_found = found@;
        let row = pending.remove(0);
        let ghost row_view = row;
        proof {
            assert(before.push(row_view).drop_last() =~= before);
            taken = before.push(row_view);
            assert(all =~= taken + pending@);
        }
        let (id, available, exists, algorithm, blob) = row;
        let ghost blob_view = match &blob {
            Some(b) => Some(b@),
            None => None::<Seq<u8>>,
        };
        assert(row_view.3 == algorithm && row_view.1 == available && row_view.2 == exists);
        assert(blob_view == match row_view.4 {
            Some(b) => Some(b@),
            None => None::<Seq<u8>>,
        });
        if !(available && exists) {
            match decode_acoustic_fingerprint(algorithm, blob) {
                Err(e) => {
                    proof {
                        assert(stored_fingerprint(algorithm, blob_view) == Err::<Option<(u32, Seq<u32>)>, FingerprintBlobError>(e));
                        assert(taken.drop_last() == before);
                        assert(fuzzy_candidates_spec(taken) == Err::<Seq<(TrackId, u32, Seq<u32>)>, FingerprintBlobError>(e));
                        assert(all.take(taken.len() as int) =~= taken);
                        lemma_candidates_error_stays(all, taken.len() as int);
                        assert(fuzzy_candidates_spec(all) == Err::<Seq<(TrackId, u32, Seq<u32>)>, FingerprintBlobError>(e));
                    }
                    return Err(e);
                },
                Ok(None) => {},
                Ok(Some(fingerprint)) => {
                    found.push((id, fingerprint));
                    assert(candidates_view(found@) =~= candidates_view(before_found).push(
                        (id, fingerprint.algorithm_view(), fingerprint.items_view()),
                    ));
                },
            }
        }
    }
    assert(taken =~= all);
    Ok(found)
}

/// A stored PCM signature, which must be exactly 32 bytes; otherwise the
/// length found.
pub fn signature_from_blob(blob: &Vec<u8>) -> (r: Result<[u8; 32], usize>)
    ensures
        blob@.len() == 32 ==> (r matches Ok(s) && s@ == blob@),
        blob@.len() != 32 ==> r == Err::<[u8; 32], usize>(blob@.len() as usize),
{
    if blob.len() != 32 {
        return Err(blob.len());
    }
    let mut signature = [0u8; 32];
    let mut i: usize = 0;
    while i < 32
        invariant
            blob@.len() == 32,
            i <= 32,
            signature@.len() == 32,
            forall|j: int| 0 <= j < i ==> signature@[j] == blob@[j],
        decreases 32 - i,
    {
        signature.set(i, blob[i]);
        i = i + 1;
    }
    assert(signature@ =~= blob@);
    Ok(signature)
}

} // verus!
