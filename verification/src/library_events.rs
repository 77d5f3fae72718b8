//! What the application decides when the library scanner reports: scan
//! progress, the import of restart state and favorites kept by URI from
//! before the catalog existed, and the summary shown when a scan ends.

use crate::config::{all_but, texts, AppState, UserData};
use crate::i18n::Key;
use crate::text::text_is;
use vstd::prelude::*;

verus! {

/// How many scans are running.
#[derive(Debug, Clone, Copy, PartialEq, Eq, Structural)]
pub struct ScanProgress {
    pub active_scans: usize,
    pub scanning: bool,
}

impl ScanProgress {
    pub fn idle() -> (progress: ScanProgress)
        ensures
            progress.active_scans == 0,
            !progress.scanning,
    {
        ScanProgress { active_scans: 0, scanning: false }
    }

    /// A scan started (the count saturates).
    pub fn started(self) -> (progress: ScanProgress)
        ensures
            progress.active_scans == (if self.active_scans == usize::MAX {
                usize::MAX as int
            } else {
                self.active_scans + 1
            }),
            progress.scanning,
    {
        let active_scans = if self.active_scans == usize::MAX {
            usize::MAX
        } else {
            self.active_scans + 1
        };
        ScanProgress { active_scans, scanning: true }
    }

    /// A scan finished; scanning goes on while others run.
    pub fn finished(self) -> (progress: ScanProgress)
        ensures
            progress.active_scans == (if self.active_scans == 0 {
                0
            } else {
                self.active_scans - 1
            }),
            progress.scanning == (progress.active_scans > 0),
    {
        let active_scans = if self.active_scans == 0 {
            0
        } else {
            self.active_scans - 1
        };
        ScanProgress { active_scans, scanning: active_scans > 0 }
    }

    /// The scanner failed: every scan is abandoned.
    pub fn failed(self) -> (progress: ScanProgress)
        ensures
            progress.active_scans == 0,
            !progress.scanning,
    {
        ScanProgress { active_scans: 0, scanning: false }
    }
}

/// What the persisted restart state and favorites still say about a track
/// found by a scan, to be moved into the catalog.
#[derive(Debug, Clone, Copy, PartialEq, Eq, Structural)]
pub struct LegacyImport {
    /// The URI is a favorite.
    pub favorite: bool,
    /// The URI is the last track.
    pub last: bool,
    /// The URI's rank in the recent list (its first occurrence).
    pub recent_rank: Option<usize>,
}

/// The first index of `x` in `s`.
pub open spec fn first_rank(s: Seq<Seq<char>>, x: Seq<char>) -> Option<int> {
    if exists|i: int| 0 <= i < s.len() && s[i] == x {
        Some(choose|i: int| 0 <= i < s.len() && s[i] == x && forall|j: int| 0 <= j < i ==> s[j] != x)
    } else {
        None
    }
}

impl LegacyImport {
    /// What to import for the track at `uri`.
    pub fn plan(state: &AppState, user_data: &UserData, uri: &str) -> (import: LegacyImport)
        ensures
            import.favorite == texts(user_data.favorite_uris@).contains(uri@),
            import.last == (state.last_track_uri matches Some(last) && last@ == uri@),
            match first_rank(texts(state.recent_uris@), uri@) {
                Some(i) => import.recent_rank == Some(i as usize),
                None => import.recent_rank is None,
            },
    {
        let favorite = position_of(&user_data.favorite_uris, uri).is_some();
        let last = match &state.last_track_uri {
            Some(l) => text_is(l.as_str(), uri),
            None => false,
        };
        LegacyImport { favorite, last, recent_rank: position_of(&state.recent_uris, uri) }
    }

    /// Whether anything is to be imported.
    pub fn is_needed(&self) -> (needed: bool)
        ensures
            needed == (self.favorite || self.last || self.recent_rank is Some),
    {
        self.favorite || self.last || self.recent_rank.is_some()
    }
}

/// After a successful import, the persisted lists forget `uri`: it leaves
/// the favorites and the recent list, and stops being the last track when
/// it was. Returns whether the persisted data changed.
pub fn forget_imported(state: &mut AppState, user_data: &mut UserData, uri: &str, import: LegacyImport) -> (changed: bool)
    ensures
        changed == import.is_needed_spec(),
        !changed ==> *final(state) == *old(state) && *final(user_data) == *old(user_data),
        changed ==> {
            &&& texts(final(user_data).favorite_uris@) == all_but(texts(old(user_data).favorite_uris@), uri@)
            &&& texts(final(state).recent_uris@) == all_but(texts(old(state).recent_uris@), uri@)
            &&& final(state).last_track_uri == (if import.last {
                None
            } else {
                old(state).last_track_uri
            })
            &&& final(state).version == old(state).version
            &&& final(user_data).version == old(user_data).version
        },
{
    if !(import.favorite || import.last || import.recent_rank.is_some()) {
        return false;
    }
    let favorites = keep_others(&user_data.favorite_uris, uri);
    user_data.favorite_uris = favorites;
    let recent = keep_others(&state.recent_uris, uri);
    state.recent_uris = recent;
    if import.last {
        state.last_track_uri = None;
    }
    true
}

impl LegacyImport {
    pub open spec fn is_needed_spec(self) -> bool {
        self.favorite || self.last || self.recent_rank is Some
    }
}

/// The entries of `list` other than `uri`, in order.
fn keep_others(list: &Vec<String>, uri: &str) -> (kept: Vec<String>)
    ensures
        texts(kept@) == all_but(texts(list@), uri@),
{
    let mut kept: Vec<String> = Vec::new();
    let mut i: usize = 0;
    while i < list.len()
        invariant
            i <= list@.len(),
            texts(kept@) == all_but(texts(list@.take(i as int)), uri@),
        decreases list@.len() - i,
    {
        let item = &list[i];
        assert(texts(list@.take(i + 1)).drop_last() == texts(list@.take(i as int)));
        assert(texts(list@.take(i + 1)).last() == item@);
        if !text_is(item.as_str(), uri) {
            kept.push(item.clone());
            assert(texts(kept@) == texts(kept@).drop_last().push(item@));
        }
        i = i + 1;
    }
    assert(list@.take(list@.len() as int) == list@);
    kept
}

/// The index of the first entry of `list` equal to `uri`.
fn position_of(list: &Vec<String>, uri: &str) -> (index: Option<usize>)
    ensures
        match first_rank(texts(list@), uri@) {
            Some(i) => index == Some(i as usize),
            None => index is None,
        },
{
    let ghost t = texts(list@);
    let mut i: usize = 0;
    while i < list.len()
        invariant
            i <= list@.len(),
            t == texts(list@),
            forall|j: int| 0 <= j < i ==> t[j] != uri@,
        decreases list@.len() - i,
    {
        if text_is(list[i].as_str(), uri) {
            assert(t[i as int] == uri@);
            proof {
                let k = choose|k: int| 0 <= k < t.len() && t[k] == uri@ && forall|j: int| 0 <= j < k ==> t[j] != uri@;
                if k < i {
                } else if k > i {
                    assert(t[i as int] == uri@);
                }
            }
            return Some(i);
        }
        i = i + 1;
    }
    None
}

/// The message shown when a scan finishes: the number of rejected files
/// as an error if any were rejected, else the number of added tracks if
/// any were found, else nothing. Each is a count, a message, and whether
/// it is an error.
pub open spec fn summary_spec(discovered: usize, rejected: usize) -> Option<(usize, Key, bool)> {
    if rejected > 0 {
        Some((rejected, Key::ScanSummary, true))
    } else if discovered > 0 {
        Some((discovered, Key::AddedTracks, false))
    } else {
        None
    }
}

pub fn scan_summary(discovered: usize, rejected: usize) -> (summary: Option<(usize, Key, bool)>)
    ensures
        summary == summary_spec(discovered, rejected),
{
    if rejected > 0 {
        Some((rejected, Key::ScanSummary, true))
    } else if discovered > 0 {
        Some((discovered, Key::AddedTracks, false))
    } else {
        None
    }
}

} // verus!
