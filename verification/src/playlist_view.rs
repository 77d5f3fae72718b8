//! The playlist page's decisions: which rows become the play queue, where
//! the selection goes after an edit, and when a deletion is confirmed.

use crate::ids::{PlaylistId, TrackId};
use crate::library_view::index_of_id;
use crate::track::Track;
use vstd::prelude::*;

verus! {

/// A deletion is confirmed by a second request within this time (ms).
pub const DELETE_CONFIRMATION_MS: u64 = 4_000;

/// A playlist row can be queued: its track is available and listed in the
/// library.
pub open spec fn playable(track: Track, library: Seq<Track>) -> bool {
    track.available && index_of_id(library, track.id) is Some
}

/// The queue that playing from a playlist builds: the playable rows in
/// order.
pub open spec fn playable_rows(rows: Seq<Track>, library: Seq<Track>) -> Seq<TrackId>
    decreases rows.len(),
{
    if rows.len() == 0 {
        Seq::empty()
    } else {
        let rest = playable_rows(rows.drop_last(), library);
        if playable(rows.last(), library) {
            rest.push(rows.last().id)
        } else {
            rest
        }
    }
}

/// Playing row `row` of a playlist: the queue of its playable rows and the
/// queue position of `row`; nothing when that row is missing from the
/// playlist or not playable.
pub fn playlist_queue(rows: &[Track], library: &[Track], row: usize) -> (queue: Option<(Vec<TrackId>, usize)>)
    ensures
        match queue {
            Some((ids, position)) => {
                &&& row < rows@.len()
                &&& playable(rows@[row as int], library@)
                &&& ids@ == playable_rows(rows@, library@)
                &&& position == playable_rows(rows@.take(row as int), library@).len()
                &&& position < ids@.len()
                &&& ids@[position as int] == rows@[row as int].id
            },
            None => row >= rows@.len() || !playable(rows@[row as int], library@),
        },
{
    let mut ids: Vec<TrackId> = Vec::new();
    let mut position: Option<usize> = None;
    let mut i: usize = 0;
    while i < rows.len()
        invariant
            i <= rows@.len(),
            ids@ == playable_rows(rows@.take(i as int), library@),
            i <= row ==> position is None,
            row < i ==> match position {
                Some(p) => {
                    &&& playable(rows@[row as int], library@)
                    &&& p == playable_rows(rows@.take(row as int), library@).len()
                    &&& p < ids@.len()
                    &&& ids@[p as int] == rows@[row as int].id
                },
                None => !playable(rows@[row as int], library@),
            },
        decreases rows@.len() - i,
    {
        let candidate = &rows[i];
        assert(rows@.take(i + 1).drop_last() =~= rows@.take(i as int));
        let listed = crate::library_view::track_index(library, candidate.id);
        if candidate.available && listed.is_some() {
            if i == row {
                position = Some(ids.len());
            }
            ids.push(candidate.id);
        }
        i = i + 1;
    }
    assert(rows@.take(rows@.len() as int) =~= rows@);
    match position {
        Some(p) => Some((ids, p)),
        None => None,
    }
}

/// Where an entry moves when shifted by `offset` rows: clamped to the
/// list; `None` when it would stay where it is.
pub open spec fn shifted_row(row: usize, offset: isize, len: usize) -> Option<usize> {
    let moved = if row + offset < 0 {
        0
    } else if row + offset > usize::MAX {
        usize::MAX as int
    } else {
        row + offset
    };
    let target = if moved > len - 1 {
        len - 1
    } else {
        moved
    };
    if target == row {
        None
    } else {
        Some(target as usize)
    }
}

/// The row an entry at `row` of a list of `len` entries moves to.
pub fn move_target(row: usize, offset: isize, len: usize) -> (target: Option<usize>)
    requires
        row < len,
    ensures
        target == shifted_row(row, offset, len),
{
    let moved: usize = if offset < 0 {
        let back: usize = if offset == isize::MIN {
            isize::MAX as usize + 1
        } else {
            (-offset) as usize
        };
        if back > row {
            0
        } else {
            row - back
        }
    } else {
        let forward = offset as usize;
        if row > usize::MAX - forward {
            usize::MAX
        } else {
            row + forward
        }
    };
    let target = if moved > len - 1 {
        len - 1
    } else {
        moved
    };
    if target == row {
        None
    } else {
        Some(target)
    }
}

/// The selected row after removing row `row`: the row before it, or the
/// first row if it was the first and rows remain.
pub fn row_after_removal(row: usize, remaining: usize) -> (selected: Option<usize>)
    ensures
        row > 0 ==> selected == Some((row - 1) as usize),
        row == 0 ==> selected == (if remaining > 0 {
            Some(0usize)
        } else {
            None::<usize>
        }),
{
    if row > 0 {
        Some(row - 1)
    } else if remaining > 0 {
        Some(0)
    } else {
        None
    }
}

/// The selected row after appending to a playlist of `len` rows: the last.
pub fn row_after_append(len: usize) -> (selected: Option<usize>)
    ensures
        len > 0 ==> selected == Some((len - 1) as usize),
        len == 0 ==> selected is None,
{
    if len > 0 {
        Some(len - 1)
    } else {
        None
    }
}

/// A deletion request is confirmed when the same playlist was requested
/// less than four seconds before (a clock reading that went back counts as
/// no time passed).
pub open spec fn confirms(pending: Option<(PlaylistId, u64)>, playlist: PlaylistId, now_ms: u64) -> bool {
    match pending {
        Some((p, at)) => p == playlist && (if now_ms >= at {
            now_ms - at
        } else {
            0
        }) < DELETE_CONFIRMATION_MS,
        None => false,
    }
}

/// Asking to delete a playlist: the first request only arms the
/// confirmation; a second one for the same playlist soon after confirms.
pub fn request_delete(pending: &mut Option<(PlaylistId, u64)>, playlist: PlaylistId, now_ms: u64) -> (confirmed: bool)
    ensures
        confirmed == confirms(*old(pending), playlist, now_ms),
        confirmed ==> *final(pending) is None,
        !confirmed ==> *final(pending) == Some((playlist, now_ms)),
{
    let confirmed = match *pending {
        Some((p, at)) => {
            let elapsed = if now_ms >= at {
                now_ms - at
            } else {
                0
            };
            p == playlist && elapsed < DELETE_CONFIRMATION_MS
        },
        None => false,
    };
    *pending = if confirmed {
        None
    } else {
        Some((playlist, now_ms))
    };
    confirmed
}

/// A deletion always needs two requests: the first one never confirms.
pub proof fn deleting_needs_two_requests(playlist: PlaylistId, now_ms: u64)
    ensures
        !confirms(None, playlist, now_ms),
{
}

} // verus!
