//! An ordered playback context with repeat-one and shuffle-cycle semantics.
//!
//! Shuffle visits every other queue position before starting another cycle.
//! Its history is position-based, so duplicate tracks in a playlist remain
//! distinct entries and Previous follows the order the listener heard.

use crate::ids::TrackId;
use crate::playback::PlaybackMode;
use vstd::prelude::*;

verus! {

/// `s` with every occurrence of `value` removed, order kept.
pub open spec fn without(s: Seq<usize>, value: usize) -> Seq<usize>
    decreases s.len(),
{
    if s.len() == 0 {
        s
    } else {
        let rest = without(s.drop_last(), value);
        if s.last() == value {
            rest
        } else {
            rest.push(s.last())
        }
    }
}

/// `s` with the occurrences of the position in `cursor` removed, if any.
pub open spec fn without_cursor(s: Seq<usize>, cursor: Option<usize>) -> Seq<usize> {
    match cursor {
        Some(c) => without(s, c),
        None => s,
    }
}

/// A shuffle cycle that has not started yet: every position of the queue
/// other than the cursor, each exactly once, in any order.
pub open spec fn is_fresh_cycle(remaining: Seq<usize>, len: nat, cursor: Option<usize>) -> bool {
    &&& remaining.no_duplicates()
    &&& forall|p: usize| #[trigger]
        remaining.contains(p) <==> (p < len && cursor != Some(p))
}

/// The history after leaving `cursor` for another shuffled position.
pub open spec fn history_after(history: Seq<usize>, cursor: Option<usize>) -> Seq<usize> {
    match cursor {
        Some(c) => history.push(c),
        None => history,
    }
}

/// The first position at which `id` occurs in `entries`.
pub open spec fn first_position(entries: Seq<TrackId>, id: TrackId) -> Option<usize> {
    if exists|i: int| 0 <= i < entries.len() && entries[i] == id {
        let i = choose|i: int|
            0 <= i < entries.len() && entries[i] == id && forall|j: int|
                0 <= j < i ==> entries[j] != id;
        Some(i as usize)
    } else {
        None
    }
}

/// The cursor that selecting `position` yields in a queue of `len` entries.
pub open spec fn selected_cursor(position: usize, len: nat) -> Option<usize> {
    if position < len {
        Some(position)
    } else {
        None
    }
}

/// The entry under `cursor`, if the cursor is set and in range.
pub open spec fn entry_at(entries: Seq<TrackId>, cursor: Option<usize>) -> Option<TrackId> {
    match cursor {
        Some(c) => if c < entries.len() {
            Some(entries[c as int])
        } else {
            None
        },
        None => None,
    }
}

/// The positions that `upcoming` lists, before its limit applies.
pub open spec fn upcoming_positions(
    len: nat,
    cursor: usize,
    remaining: Seq<usize>,
    mode: PlaybackMode,
) -> Seq<usize> {
    match mode {
        PlaybackMode::Sequential => Seq::new(
            (len - cursor) as nat,
            |i: int| (cursor + i) as usize,
        ),
        PlaybackMode::RepeatOne => seq![cursor],
        PlaybackMode::Shuffle => seq![cursor] + remaining.reverse(),
    }
}

/// One xorshift64 step of the shuffle's pseudo-random generator.
pub open spec fn xorshift(value: u64) -> u64 {
    let a = value ^ (value << 13u64);
    let b = a ^ (a >> 7u64);
    b ^ (b << 17u64)
}

/// A generator draw as a `usize`: itself, or zero where it does not fit.
pub open spec fn drawn_index(value: u64) -> usize {
    if value <= usize::MAX {
        value as usize
    } else {
        0
    }
}

/// The positions below `p` other than `cursor`, ascending.
pub open spec fn positions_below(p: nat, cursor: Option<usize>) -> Seq<usize>
    decreases p,
{
    if p == 0 {
        seq![]
    } else {
        let q = (p - 1) as usize;
        let below = positions_below((p - 1) as nat, cursor);
        if cursor == Some(q) {
            below
        } else {
            below.push(q)
        }
    }
}

/// `s` with the elements at `a` and `b` exchanged.
pub open spec fn swapped(s: Seq<usize>, a: int, b: int) -> Seq<usize> {
    s.update(a, s[b]).update(b, s[a])
}

/// The Fisher-Yates shuffle of the first `index` elements of `s`, drawing
/// from the generator in state `state`: from the last of them down to the
/// second, each is exchanged with one drawn at or below it. Gives the
/// shuffled sequence and the generator's final state.
pub open spec fn shuffled(s: Seq<usize>, index: nat, state: u64) -> (Seq<usize>, u64)
    decreases index,
{
    if index <= 1 {
        (s, state)
    } else {
        let i = index - 1;
        let draw = xorshift(state);
        let j = drawn_index(draw) % (i + 1) as usize;
        shuffled(swapped(s, i, j as int), i as nat, draw)
    }
}

/// A fresh shuffle cycle of a queue of `len` entries with the cursor on
/// `cursor`, from the generator in state `state`: every other position,
/// ascending, then shuffled. Gives the cycle and the generator's next state.
pub open spec fn shuffle_cycle(len: nat, cursor: Option<usize>, state: u64) -> (Seq<usize>, u64) {
    let positions = positions_below(len, cursor);
    shuffled(positions, positions.len(), state)
}

pub struct PlaybackQueue {
    entries: Vec<TrackId>,
    cursor: Option<usize>,
    shuffle_remaining: Vec<usize>,
    shuffle_history: Vec<usize>,
    random_state: u64,
}

impl PlaybackQueue {
    /// The queued track identities, in order.
    pub closed spec fn entries_view(&self) -> Seq<TrackId> {
        self.entries@
    }

    /// The current queue position.
    pub closed spec fn cursor_view(&self) -> Option<usize> {
        self.cursor
    }

    /// Positions still to be heard in the current shuffle cycle; the last
    /// one plays next.
    pub closed spec fn remaining_view(&self) -> Seq<usize> {
        self.shuffle_remaining@
    }

    /// The state of the shuffle's pseudo-random generator.
    pub closed spec fn generator_view(&self) -> u64 {
        self.random_state
    }

    /// Positions heard earlier in the current shuffle cycle, most recent last.
    pub closed spec fn history_view(&self) -> Seq<usize> {
        self.shuffle_history@
    }

    /// The queue's internal consistency: every stored position is in range
    /// and the unplayed part of the shuffle cycle lists each position once.
    pub closed spec fn wf(&self) -> bool {
        &&& (self.cursor matches Some(c) ==> c < self.entries@.len())
        &&& self.shuffle_remaining@.no_duplicates()
        &&& forall|i: int|
            0 <= i < self.shuffle_remaining@.len() ==> #[trigger] self.shuffle_remaining@[i]
                < self.entries@.len()
        &&& forall|i: int|
            0 <= i < self.shuffle_history@.len() ==> #[trigger] self.shuffle_history@[i]
                < self.entries@.len()
    }

    /// A queue over `entries` with the cursor on `cursor` (or the first
    /// entry), using the clock to seed its shuffle order.
    pub fn new(entries: Vec<TrackId>, cursor: Option<usize>) -> (queue: PlaybackQueue)
        ensures
            queue.wf(),
            queue.entries_view() == entries@,
            queue.cursor_view() == selected_cursor(
                match cursor {
                    Some(c) => c,
                    None => 0,
                },
                entries@.len(),
            ),
            queue.history_view().len() == 0,
            is_fresh_cycle(queue.remaining_view(), entries@.len(), queue.cursor_view()),
            exists|seed: u64|
                seed >= 1 && (queue.remaining_view(), queue.generator_view()) == shuffle_cycle(
                    entries@.len(),
                    queue.cursor_view(),
                    seed,
                ),
    {
        let seed = seed_from_clock(time_since_epoch());
        PlaybackQueue::with_seed(entries, cursor, seed)
    }

    /// A queue over `entries` with the cursor on `cursor` (or the first
    /// entry) whose shuffle order derives from `seed`.
    pub fn with_seed(entries: Vec<TrackId>, cursor: Option<usize>, seed: u64) -> (queue:
        PlaybackQueue)
        ensures
            queue.wf(),
            queue.entries_view() == entries@,
            queue.cursor_view() == selected_cursor(
                match cursor {
                    Some(c) => c,
                    None => 0,
                },
                entries@.len(),
            ),
            queue.history_view().len() == 0,
            is_fresh_cycle(queue.remaining_view(), entries@.len(), queue.cursor_view()),
            (queue.remaining_view(), queue.generator_view()) == shuffle_cycle(
                entries@.len(),
                queue.cursor_view(),
                if seed > 1 {
                    seed
                } else {
                    1
                },
            ),
    {
        let mut queue = PlaybackQueue {
            entries,
            cursor: None,
            shuffle_remaining: Vec::new(),
            shuffle_history: Vec::new(),
            random_state: if seed > 1 {
                seed
            } else {
                1
            },
        };
        let position = match cursor {
            Some(c) => c,
            None => 0,
        };
        queue.select(position);
        queue
    }

    pub fn entries(&self) -> (entries: &[TrackId])
        ensures
            entries@ == self.entries_view(),
    {
        self.entries.as_slice()
    }

    pub fn current_position(&self) -> (position: Option<usize>)
        ensures
            position == self.cursor_view(),
    {
        self.cursor
    }

    /// The identity under the cursor.
    pub fn current(&self) -> (id: Option<TrackId>)
        ensures
            id == entry_at(self.entries_view(), self.cursor_view()),
    {
        match self.cursor {
            Some(c) => if c < self.entries.len() {
                Some(self.entries[c])
            } else {
                None
            },
            None => None,
        }
    }

    /// Replaces the entries and moves the cursor to the first occurrence of
    /// `preferred` (or the first entry), starting a new shuffle cycle.
    pub fn replace(&mut self, entries: Vec<TrackId>, preferred: Option<TrackId>)
        requires
            old(self).wf(),
        ensures
            final(self).wf(),
            final(self).entries_view() == entries@,
            final(self).cursor_view() == selected_cursor(
                match preferred {
                    Some(id) => match first_position(entries@, id) {
                        Some(p) => p,
                        None => 0,
                    },
                    None => 0,
                },
                entries@.len(),
            ),
            final(self).history_view().len() == 0,
            is_fresh_cycle(
                final(self).remaining_view(),
                entries@.len(),
                final(self).cursor_view(),
            ),
            (final(self).remaining_view(), final(self).generator_view()) == shuffle_cycle(
                entries@.len(),
                final(self).cursor_view(),
                old(self).generator_view(),
            ),
    {
        let position = match preferred {
            Some(id) => match position_of(&entries, id) {
                Some(p) => p,
                None => 0,
            },
            None => 0,
        };
        self.entries = entries;
        self.cursor = None;
        self.shuffle_remaining = Vec::new();
        self.shuffle_history = Vec::new();
        self.select(position);
    }

    /// Moves the cursor to `position` (clearing it when out of range) and
    /// starts a new shuffle cycle.
    pub fn select(&mut self, position: usize) -> (id: Option<TrackId>)
        requires
            old(self).wf(),
        ensures
            final(self).wf(),
            final(self).entries_view() == old(self).entries_view(),
            final(self).cursor_view() == selected_cursor(position, old(self).entries_view().len()),
            final(self).history_view().len() == 0,
            is_fresh_cycle(
                final(self).remaining_view(),
                old(self).entries_view().len(),
                final(self).cursor_view(),
            ),
            id == entry_at(final(self).entries_view(), final(self).cursor_view()),
            (final(self).remaining_view(), final(self).generator_view()) == shuffle_cycle(
                old(self).entries_view().len(),
                final(self).cursor_view(),
                old(self).generator_view(),
            ),
    {
        self.cursor = if position < self.entries.len() {
            Some(position)
        } else {
            None
        };
        self.reset_shuffle_cycle();
        self.current()
    }

    /// Starts a new shuffle cycle from the current position.
    pub fn restart_shuffle_cycle(&mut self)
        requires
            old(self).wf(),
        ensures
            final(self).wf(),
            final(self).entries_view() == old(self).entries_view(),
            final(self).cursor_view() == old(self).cursor_view(),
            final(self).history_view().len() == 0,
            is_fresh_cycle(
                final(self).remaining_view(),
                old(self).entries_view().len(),
                final(self).cursor_view(),
            ),
            (final(self).remaining_view(), final(self).generator_view()) == shuffle_cycle(
                old(self).entries_view().len(),
                old(self).cursor_view(),
                old(self).generator_view(),
            ),
    {
        self.reset_shuffle_cycle();
    }

    /// Advances after a natural end of stream: repeat-one stays on the
    /// current entry, every other mode behaves as an explicit Next.
    pub fn on_end(&mut self, mode: PlaybackMode) -> (id: Option<TrackId>)
        requires
            old(self).wf(),
        ensures
            final(self).wf(),
            final(self).entries_view() == old(self).entries_view(),
            mode == PlaybackMode::RepeatOne ==> {
                &&& id == entry_at(old(self).entries_view(), old(self).cursor_view())
                &&& final(self).cursor_view() == old(self).cursor_view()
                &&& final(self).remaining_view() == old(self).remaining_view()
                &&& final(self).history_view() == old(self).history_view()
                &&& final(self).generator_view() == old(self).generator_view()
            },
            mode != PlaybackMode::RepeatOne ==> Self::next_step(*old(self), *final(self), mode, id),
    {
        if mode == PlaybackMode::RepeatOne {
            self.current()
        } else {
            self.next(mode)
        }
    }

    /// What an explicit Next does in `mode`, from `before` to `after`,
    /// returning `id`.
    pub open spec fn next_step(
        before: PlaybackQueue,
        after: PlaybackQueue,
        mode: PlaybackMode,
        id: Option<TrackId>,
    ) -> bool {
        let len = before.entries_view().len();
        if len == 0 {
            &&& id is None
            &&& after.cursor_view() is None
            &&& after.remaining_view() == before.remaining_view()
            &&& after.history_view() == before.history_view()
            &&& after.generator_view() == before.generator_view()
        } else if mode == PlaybackMode::Shuffle {
            Self::shuffle_step(before, after, id)
        } else {
            let next = match before.cursor_view() {
                Some(c) => c + 1,
                None => 0,
            };
            &&& after.remaining_view() == before.remaining_view()
            &&& after.history_view() == before.history_view()
            &&& after.generator_view() == before.generator_view()
            &&& if next >= len {
                &&& id is None
                &&& after.cursor_view() == before.cursor_view()
            } else {
                &&& after.cursor_view() == Some(next as usize)
                &&& id == Some(before.entries_view()[next])
            }
        }
    }

    /// What Next does in shuffle mode on a nonempty queue.
    ///
    /// A single entry simply repeats. Otherwise the next position is the last
    /// unplayed position of the cycle other than the current one; when the
    /// cycle is exhausted a fresh cycle of every other position starts.
    pub open spec fn shuffle_step(before: PlaybackQueue, after: PlaybackQueue, id: Option<
        TrackId,
    >) -> bool {
        let len = before.entries_view().len();
        if len == 1 {
            &&& after.cursor_view() == Some(0usize)
            &&& id == Some(before.entries_view()[0])
            &&& after.remaining_view() == before.remaining_view()
            &&& after.history_view() == before.history_view()
            &&& after.generator_view() == before.generator_view()
        } else {
            exists|cycle: Seq<usize>| Self::cycle_step(before, after, cycle, id)
        }
    }

    /// A shuffled Next on a queue of two or more entries, with `cycle` the
    /// shuffle cycle it draws from: the unplayed rest of the current cycle,
    /// or, when that is used up, a fresh cycle from the generator.
    pub open spec fn cycle_step(
        before: PlaybackQueue,
        after: PlaybackQueue,
        cycle: Seq<usize>,
        id: Option<TrackId>,
    ) -> bool {
        &&& (if before.remaining_view().len() > 0 {
            &&& cycle == before.remaining_view()
            &&& after.generator_view() == before.generator_view()
        } else {
            &&& is_fresh_cycle(cycle, before.entries_view().len(), before.cursor_view())
            &&& (cycle, after.generator_view()) == shuffle_cycle(
                before.entries_view().len(),
                before.cursor_view(),
                before.generator_view(),
            )
        })
        &&& Self::shuffle_pick(before, after, without_cursor(cycle, before.cursor_view()), id)
    }

    /// Taking the next shuffled position from `unplayed`.
    pub open spec fn shuffle_pick(
        before: PlaybackQueue,
        after: PlaybackQueue,
        unplayed: Seq<usize>,
        id: Option<TrackId>,
    ) -> bool {
        if unplayed.len() == 0 {
            &&& id is None
            &&& after.cursor_view() == before.cursor_view()
            &&& after.remaining_view() == unplayed
            &&& after.history_view() == before.history_view()
        } else {
            let next = unplayed.last();
            &&& after.cursor_view() == Some(next)
            &&& id == Some(before.entries_view()[next as int])
            &&& after.remaining_view() == unplayed.drop_last()
            &&& after.history_view() == history_after(
                before.history_view(),
                before.cursor_view(),
            )
        }
    }

    /// Advances after an explicit Next action.
    pub fn next(&mut self, mode: PlaybackMode) -> (id: Option<TrackId>)
        requires
            old(self).wf(),
        ensures
            final(self).wf(),
            final(self).entries_view() == old(self).entries_view(),
            Self::next_step(*old(self), *final(self), mode, id),
    {
        if self.entries.len() == 0 {
            self.cursor = None;
            return None;
        }
        if mode == PlaybackMode::Shuffle {
            return self.next_shuffled();
        }
        let next = match self.cursor {
            Some(c) => c + 1,
            None => 0,
        };
        if next >= self.entries.len() {
            return None;
        }
        self.cursor = Some(next);
        self.current()
    }

    /// What Previous does.
    pub open spec fn previous_step(
        before: PlaybackQueue,
        after: PlaybackQueue,
        mode: PlaybackMode,
        id: Option<TrackId>,
    ) -> bool {
        &&& mode == PlaybackMode::Shuffle ==> {
            let history = before.history_view();
            if history.len() == 0 {
                &&& id is None
                &&& after == before
            } else {
                let back = history.last();
                let returned = match before.cursor_view() {
                    Some(c) => if before.remaining_view().contains(c) {
                        before.remaining_view()
                    } else {
                        before.remaining_view().push(c)
                    },
                    None => before.remaining_view(),
                };
                &&& after.cursor_view() == Some(back)
                &&& id == Some(before.entries_view()[back as int])
                &&& after.history_view() == history.drop_last()
                &&& after.remaining_view() == without(returned, back)
                &&& after.generator_view() == before.generator_view()
            }
        }
        &&& mode != PlaybackMode::Shuffle ==> {
            &&& after.remaining_view() == before.remaining_view()
            &&& after.history_view() == before.history_view()
            &&& after.generator_view() == before.generator_view()
            &&& match before.cursor_view() {
                Some(c) if c > 0 => {
                    &&& after.cursor_view() == Some((c - 1) as usize)
                    &&& id == Some(before.entries_view()[c - 1])
                },
                _ => {
                    &&& id is None
                    &&& after.cursor_view() == before.cursor_view()
                },
            }
        }
    }

    /// Goes back: in shuffle mode to the previously heard position (which
    /// becomes unplayed again for the current one), otherwise to the
    /// preceding queue position.
    pub fn previous(&mut self, mode: PlaybackMode) -> (id: Option<TrackId>)
        requires
            old(self).wf(),
        ensures
            final(self).wf(),
            final(self).entries_view() == old(self).entries_view(),
            Self::previous_step(*old(self), *final(self), mode, id),
    {
        if mode == PlaybackMode::Shuffle {
            if self.shuffle_history.len() == 0 {
                return None;
            }
            let ghost history = self.shuffle_history@;
            let back = match self.shuffle_history.pop() {
                Some(p) => p,
                None => return None,
            };
            assert(back == history.last());
            assert(back < self.entries@.len());
            if let Some(current) = self.cursor {
                if !contains_position(&self.shuffle_remaining, current) {
                    let ghost before = self.shuffle_remaining@;
                    self.shuffle_remaining.push(current);
                    proof {
                        lemma_push_contains(before, current);
                    }
                }
            }
            let ghost returned = self.shuffle_remaining@;
            assert(forall|q: usize| #[trigger] returned.contains(q) ==> q < self.entries@.len());
            let kept = without_position(&self.shuffle_remaining, back);
            proof {
                lemma_without_keeps_distinct(returned, back);
                lemma_subset_below(kept@, returned, self.entries@.len());
            }
            self.shuffle_remaining = kept;
            self.cursor = Some(back);
            return self.current();
        }
        let c = match self.cursor {
            Some(c) => c,
            None => return None,
        };
        if c == 0 {
            return None;
        }
        self.cursor = Some(c - 1);
        self.current()
    }

    /// The current entry followed by the known upcoming cycle, at most
    /// `limit` of them, each with its queue position.
    pub fn upcoming(&self, mode: PlaybackMode, limit: usize) -> (items: Vec<(usize, TrackId)>)
        requires
            self.wf(),
        ensures
            match self.cursor_view() {
                None => items@.len() == 0,
                Some(cursor) => {
                    let positions = upcoming_positions(
                        self.entries_view().len(),
                        cursor,
                        self.remaining_view(),
                        mode,
                    );
                    &&& items@.len() == if limit < positions.len() {
                        limit as int
                    } else {
                        positions.len() as int
                    }
                    &&& forall|i: int|
                        0 <= i < items@.len() ==> #[trigger] items@[i] == (
                            positions[i],
                            self.entries_view()[positions[i] as int],
                        )
                },
            },
    {
        let cursor = match self.cursor {
            Some(c) => c,
            None => return Vec::new(),
        };
        let ghost positions = upcoming_positions(
            self.entries@.len(),
            cursor,
            self.shuffle_remaining@,
            mode,
        );
        let mut items: Vec<(usize, TrackId)> = Vec::new();
        match mode {
            PlaybackMode::Sequential => {
                let mut p = cursor;
                while p < self.entries.len() && items.len() < limit
                    invariant
                        self.wf(),
                        self.cursor == Some(cursor),
                        positions == upcoming_positions(
                            self.entries@.len(),
                            cursor,
                            self.shuffle_remaining@,
                            mode,
                        ),
                        mode == PlaybackMode::Sequential,
                        cursor <= p <= self.entries@.len(),
                        items@.len() == p - cursor,
                        items@.len() <= limit,
                        forall|i: int|
                            0 <= i < items@.len() ==> #[trigger] items@[i] == (
                                positions[i],
                                self.entries@[positions[i] as int],
                            ),
                    decreases self.entries@.len() - p,
                {
                    items.push((p, self.entries[p]));
                    p = p + 1;
                }
            },
            PlaybackMode::RepeatOne => {
                if limit > 0 {
                    items.push((cursor, self.entries[cursor]));
                }
            },
            PlaybackMode::Shuffle => {
                if limit > 0 {
                    items.push((cursor, self.entries[cursor]));
                    let n = self.shuffle_remaining.len();
                    let mut k: usize = 0;
                    while k < n && items.len() < limit
                        invariant
                            self.wf(),
                            self.cursor == Some(cursor),
                            n == self.shuffle_remaining@.len(),
                            positions == upcoming_positions(
                                self.entries@.len(),
                                cursor,
                                self.shuffle_remaining@,
                                mode,
                            ),
                            mode == PlaybackMode::Shuffle,
                            0 <= k <= n,
                            items@.len() == k + 1,
                            items@.len() <= limit,
                            forall|i: int|
                                0 <= i < items@.len() ==> #[trigger] items@[i] == (
                                    positions[i],
                                    self.entries@[positions[i] as int],
                                ),
                        decreases n - k,
                    {
                        let p = self.shuffle_remaining[n - 1 - k];
                        assert(positions[k + 1] == p);
                        items.push((p, self.entries[p]));
                        k = k + 1;
                    }
                }
            },
        }
        items
    }

    fn next_shuffled(&mut self) -> (id: Option<TrackId>)
        requires
            old(self).wf(),
            old(self).entries@.len() > 0,
        ensures
            final(self).wf(),
            final(self).entries@ == old(self).entries@,
            Self::shuffle_step(*old(self), *final(self), id),
    {
        if self.entries.len() == 1 {
            self.cursor = Some(0);
            return self.current();
        }
        let ghost before = *self;
        if self.shuffle_remaining.len() == 0 {
            self.fill_shuffle_remaining();
        }
        let ghost cycle = self.shuffle_remaining@;
        assert(if before.shuffle_remaining@.len() > 0 {
            &&& cycle == before.shuffle_remaining@
            &&& self.random_state == before.random_state
        } else {
            &&& is_fresh_cycle(cycle, before.entries@.len(), before.cursor)
            &&& (cycle, self.random_state) == shuffle_cycle(
                before.entries@.len(),
                before.cursor,
                before.random_state,
            )
        });
        if let Some(current) = self.cursor {
            let kept = without_position(&self.shuffle_remaining, current);
            proof {
                lemma_without_keeps_distinct(cycle, current);
                lemma_elements_below(cycle, self.entries@.len());
                lemma_subset_below(kept@, cycle, self.entries@.len());
            }
            self.shuffle_remaining = kept;
        }
        let ghost unplayed = self.shuffle_remaining@;
        assert(unplayed == without_cursor(cycle, before.cursor));
        let next = match self.shuffle_remaining.pop() {
            Some(p) => p,
            None => {
                assert(Self::shuffle_pick(before, *self, unplayed, None));
                assert(Self::cycle_step(before, *self, cycle, None));
                return None;
            },
        };
        assert(unplayed.last() == next);
        assert(unplayed.contains(next));
        if let Some(current) = self.cursor {
            self.shuffle_history.push(current);
        }
        self.cursor = Some(next);
        let id = self.current();
        assert(self.shuffle_remaining@ == unplayed.drop_last());
        assert(Self::shuffle_pick(before, *self, unplayed, id));
        assert(Self::cycle_step(before, *self, cycle, id));
        id
    }

    fn reset_shuffle_cycle(&mut self)
        requires
            old(self).cursor matches Some(c) ==> c < old(self).entries@.len(),
        ensures
            final(self).wf(),
            final(self).entries@ == old(self).entries@,
            final(self).cursor == old(self).cursor,
            final(self).shuffle_history@.len() == 0,
            is_fresh_cycle(final(self).shuffle_remaining@, old(self).entries@.len(), old(self).cursor),
            (final(self).shuffle_remaining@, final(self).random_state) == shuffle_cycle(
                old(self).entries@.len(),
                old(self).cursor,
                old(self).random_state,
            ),
    {
        self.shuffle_history = Vec::new();
        self.fill_shuffle_remaining();
    }

    /// Refills the cycle with every position other than the cursor and
    /// shuffles it (Fisher-Yates over the xorshift generator).
    fn fill_shuffle_remaining(&mut self)
        requires
            old(self).cursor matches Some(c) ==> c < old(self).entries@.len(),
            forall|i: int|
                0 <= i < old(self).shuffle_history@.len() ==> #[trigger] old(
                    self,
                ).shuffle_history@[i] < old(self).entries@.len(),
        ensures
            final(self).wf(),
            final(self).entries@ == old(self).entries@,
            final(self).cursor == old(self).cursor,
            final(self).shuffle_history@ == old(self).shuffle_history@,
            is_fresh_cycle(final(self).shuffle_remaining@, old(self).entries@.len(), old(self).cursor),
            (final(self).shuffle_remaining@, final(self).random_state) == shuffle_cycle(
                old(self).entries@.len(),
                old(self).cursor,
                old(self).random_state,
            ),
    {
        let ghost state = self.random_state;
        let len = self.entries.len();
        let cursor = self.cursor;
        let mut remaining: Vec<usize> = Vec::new();
        let mut p: usize = 0;
        while p < len
            invariant
                len == self.entries@.len(),
                p <= len,
                remaining@.no_duplicates(),
                forall|i: int| 0 <= i < remaining@.len() ==> #[trigger] remaining@[i] < p,
                forall|q: usize| #[trigger]
                    remaining@.contains(q) <==> (q < p && cursor != Some(q)),
                remaining@ == positions_below(p as nat, cursor),
                self.random_state == state,
            decreases len - p,
        {
            let ghost below = remaining@;
            let skip = match cursor {
                Some(c) => c == p,
                None => false,
            };
            if !skip {
                let ghost before = remaining@;
                proof {
                    assert(!before.contains(p)) by {
                        if before.contains(p) {
                            let i = choose|i: int| 0 <= i < before.len() && before[i] == p;
                        }
                    }
                }
                remaining.push(p);
                proof {
                    lemma_push_contains(before, p);
                }
            }
            assert(remaining@ == positions_below((p + 1) as nat, cursor));
            p = p + 1;
        }
        let mut index = remaining.len();
        while index > 1
            invariant
                len == self.entries@.len(),
                self.cursor == cursor,
                cursor matches Some(c) ==> c < len,
                index <= remaining@.len(),
                remaining@.no_duplicates(),
                forall|q: usize| #[trigger]
                    remaining@.contains(q) <==> (q < len && cursor != Some(q)),
                forall|i: int|
                    0 <= i < self.shuffle_history@.len() ==> #[trigger] self.shuffle_history@[i]
                        < len,
                self.entries@ == old(self).entries@,
                self.shuffle_history@ == old(self).shuffle_history@,
                shuffled(remaining@, index as nat, self.random_state) == shuffle_cycle(len as nat, cursor, state),
            decreases index,
        {
            index = index - 1;
            let ghost drawn_from = self.random_state;
            let random = self.next_random();
            let swap_with = u64_to_usize_or_zero(random) % (index + 1);
            let ghost before = remaining@;
            let a = remaining[index];
            let b = remaining[swap_with];
            remaining.set(index, b);
            remaining.set(swap_with, a);
            proof {
                lemma_swap_keeps_elements(before, index as int, swap_with as int);
                assert(remaining@ =~= swapped(before, index as int, swap_with as int));
                assert(swap_with == drawn_index(random) % (index + 1) as usize);
                assert(shuffled(before, (index + 1) as nat, drawn_from) == shuffled(
                    remaining@,
                    index as nat,
                    random,
                ));
            }
        }
        proof {
            lemma_contained_below(remaining@, len as nat, cursor);
        }
        self.shuffle_remaining = remaining;
    }

    fn next_random(&mut self) -> (value: u64)
        ensures
            value == xorshift(old(self).random_state),
            final(self).random_state == value,
            final(self).entries == old(self).entries,
            final(self).cursor == old(self).cursor,
            final(self).shuffle_remaining == old(self).shuffle_remaining,
            final(self).shuffle_history == old(self).shuffle_history,
    {
        let mut value = self.random_state;
        value = value ^ (value << 13u64);
        value = value ^ (value >> 7u64);
        value = value ^ (value << 17u64);
        self.random_state = value;
        value
    }
}

/// Pushing a fresh value keeps distinctness and adds exactly that value.
proof fn lemma_push_contains(s: Seq<usize>, v: usize)
    ensures
        forall|q: usize| #[trigger] s.push(v).contains(q) <==> (s.contains(q) || q == v),
        s.no_duplicates() && !s.contains(v) ==> s.push(v).no_duplicates(),
{
    let t = s.push(v);
    assert forall|q: usize| #[trigger] t.contains(q) <==> (s.contains(q) || q == v) by {
        if t.contains(q) {
            let i = choose|i: int| 0 <= i < t.len() && t[i] == q;
            if i < s.len() {
                assert(s[i] == q);
            }
        }
        if s.contains(q) {
            let i = choose|i: int| 0 <= i < s.len() && s[i] == q;
            assert(t[i] == q);
        }
        if q == v {
            assert(t[s.len() as int] == q);
        }
    }
    if s.no_duplicates() && !s.contains(v) {
        assert forall|i: int, j: int| 0 <= i < t.len() && 0 <= j < t.len() && i != j implies t[i]
            != t[j] by {
            if i == s.len() {
                assert(s.contains(t[j]));
            } else if j == s.len() {
                assert(s.contains(t[i]));
            }
        }
    }
}

/// Every element of `s` is below `n` when the set of its elements is.
proof fn lemma_elements_below(s: Seq<usize>, n: nat)
    requires
        forall|i: int| 0 <= i < s.len() ==> #[trigger] s[i] < n,
    ensures
        forall|q: usize| #[trigger] s.contains(q) ==> q < n,
{
    assert forall|q: usize| #[trigger] s.contains(q) implies q < n by {
        let i = choose|i: int| 0 <= i < s.len() && s[i] == q;
    }
}

/// Elements drawn from a set of values below `n` are below `n`.
proof fn lemma_subset_below(t: Seq<usize>, s: Seq<usize>, n: nat)
    requires
        forall|q: usize| #[trigger] t.contains(q) ==> s.contains(q),
        forall|q: usize| #[trigger] s.contains(q) ==> q < n,
    ensures
        forall|i: int| 0 <= i < t.len() ==> #[trigger] t[i] < n,
{
    assert forall|i: int| 0 <= i < t.len() implies #[trigger] t[i] < n by {
        assert(t.contains(t[i]));
    }
}

/// The elements of a fresh cycle are in range.
proof fn lemma_contained_below(s: Seq<usize>, n: nat, cursor: Option<usize>)
    requires
        forall|q: usize| #[trigger] s.contains(q) <==> (q < n && cursor != Some(q)),
    ensures
        forall|i: int| 0 <= i < s.len() ==> #[trigger] s[i] < n,
{
    assert forall|i: int| 0 <= i < s.len() implies #[trigger] s[i] < n by {
        assert(s.contains(s[i]));
    }
}

/// Swapping two elements keeps the set of elements and their distinctness.
proof fn lemma_swap_keeps_elements(s: Seq<usize>, a: int, b: int)
    requires
        0 <= a < s.len(),
        0 <= b < s.len(),
        s.no_duplicates(),
    ensures
        ({
            let t = s.update(a, s[b]).update(b, s[a]);
            &&& t.no_duplicates()
            &&& forall|q: usize| #[trigger] t.contains(q) <==> s.contains(q)
        }),
{
    let t = s.update(a, s[b]).update(b, s[a]);
    assert forall|i: int, j: int| 0 <= i < t.len() && 0 <= j < t.len() && i != j implies t[i]
        != t[j] by {
        let si = if i == a {
            b
        } else if i == b {
            a
        } else {
            i
        };
        let sj = if j == a {
            b
        } else if j == b {
            a
        } else {
            j
        };
        assert(t[i] == s[si]);
        assert(t[j] == s[sj]);
    }
    assert forall|q: usize| #[trigger] t.contains(q) <==> s.contains(q) by {
        if t.contains(q) {
            let i = choose|i: int| 0 <= i < t.len() && t[i] == q;
            let si = if i == a {
                b
            } else if i == b {
                a
            } else {
                i
            };
            assert(s[si] == q);
        }
        if s.contains(q) {
            let i = choose|i: int| 0 <= i < s.len() && s[i] == q;
            let ti = if i == a {
                b
            } else if i == b {
                a
            } else {
                i
            };
            assert(t[ti] == q);
        }
    }
}

/// Removing a value keeps distinctness and range facts of what stays.
proof fn lemma_without_keeps_distinct(s: Seq<usize>, value: usize)
    ensures
        s.no_duplicates() ==> without(s, value).no_duplicates(),
        forall|q: usize| #[trigger] without(s, value).contains(q) <==> (s.contains(q) && q != value),
        without(s, value).len() <= s.len(),
    decreases s.len(),
{
    if s.len() > 0 {
        let rest = s.drop_last();
        lemma_without_keeps_distinct(rest, value);
        assert forall|q: usize| #[trigger] without(s, value).contains(q) <==> (s.contains(q) && q
            != value) by {
            if s.contains(q) && q != value {
                let i = choose|i: int| 0 <= i < s.len() && s[i] == q;
                if i < s.len() - 1 {
                    assert(rest[i] == q);
                    assert(rest.contains(q));
                    assert(without(rest, value).contains(q));
                    let j = choose|j: int|
                        0 <= j < without(rest, value).len() && without(rest, value)[j] == q;
                    if s.last() != value {
                        assert(without(s, value)[j] == q);
                    }
                } else {
                    assert(without(s, value).last() == q);
                }
            }
            if without(s, value).contains(q) {
                let j = choose|j: int|
                    0 <= j < without(s, value).len() && without(s, value)[j] == q;
                if s.last() != value && j == without(s, value).len() - 1 {
                    assert(s[s.len() - 1] == q);
                } else {
                    assert(without(rest, value)[j] == q);
                    assert(without(rest, value).contains(q));
                    let i = choose|i: int| 0 <= i < rest.len() && rest[i] == q;
                    assert(s[i] == q);
                }
            }
        }
        if s.no_duplicates() {
            assert(rest.no_duplicates()) by {
                assert forall|i: int, j: int|
                    0 <= i < rest.len() && 0 <= j < rest.len() && i != j implies rest[i]
                    != rest[j] by {
                    assert(rest[i] == s[i] && rest[j] == s[j]);
                }
            }
            if s.last() != value {
                assert(!rest.contains(s.last())) by {
                    if rest.contains(s.last()) {
                        let i = choose|i: int| 0 <= i < rest.len() && rest[i] == s.last();
                        assert(s[i] == s[s.len() - 1]);
                    }
                }
                assert(!without(rest, value).contains(s.last()));
                let w = without(s, value);
                assert forall|i: int, j: int|
                    0 <= i < w.len() && 0 <= j < w.len() && i != j implies w[i] != w[j] by {
                    if i == w.len() - 1 {
                        assert(without(rest, value).contains(w[j]));
                    } else if j == w.len() - 1 {
                        assert(without(rest, value).contains(w[i]));
                    }
                }
            }
        }
    }
}


proof fn lemma_without_absent(s: Seq<usize>, value: usize)
    requires
        !s.contains(value),
    ensures
        without(s, value) == s,
    decreases s.len(),
{
    if s.len() > 0 {
        let rest = s.drop_last();
        assert(!rest.contains(value)) by {
            if rest.contains(value) {
                let i = choose|i: int| 0 <= i < rest.len() && rest[i] == value;
                assert(s[i] == value);
            }
        }
        lemma_without_absent(rest, value);
        assert(s[s.len() - 1] != value);
        assert(s =~= rest.push(s.last()));
    }
}

proof fn lemma_entries_fit(q: PlaybackQueue)
    ensures
        q.entries_view().len() <= usize::MAX,
{
    assert(q.entries.len() == q.entries@.len());
}

/// Some state of `states` has its cursor on `p`.
pub open spec fn visits(states: Seq<PlaybackQueue>, p: usize) -> bool {
    exists|k: int| 0 <= k < states.len() && #[trigger] states[k].cursor_view() == Some(p)
}

/// A shuffle cycle plays every position once before any repeats: starting
/// from a fresh cycle (every position other than the current one unplayed,
/// each once), as many shuffled Next steps as the cycle holds visit each of
/// those positions exactly once, and never the position it started on.
///
/// `states[k]` is the queue after the `k`-th Next in shuffle mode.
pub proof fn shuffle_cycle_visits_every_position_once(
    states: Seq<PlaybackQueue>,
    ids: Seq<Option<TrackId>>,
)
    requires
        states.len() >= 1,
        states[0].wf(),
        states[0].entries_view().len() >= 2,
        is_fresh_cycle(states[0].remaining_view(), states[0].entries_view().len(), states[0].cursor_view()),
        states.len() == states[0].remaining_view().len() + 1,
        ids.len() + 1 == states.len(),
        forall|k: int|
            1 <= k < states.len() ==> {
                &&& #[trigger] PlaybackQueue::next_step(states[k - 1], states[k], PlaybackMode::Shuffle, ids[k - 1])
                &&& states[k].entries_view() == states[k - 1].entries_view()
            },
    ensures
        forall|i: int, j: int|
            0 <= i < j < states.len() ==> states[i].cursor_view() != states[j].cursor_view(),
        forall|k: int| 1 <= k < states.len() ==> #[trigger] states[k].cursor_view() is Some,
        forall|p: usize| p < states[0].entries_view().len() ==> #[trigger] visits(states, p),
{
    let rem0 = states[0].remaining_view();
    let m = rem0.len() as int;
    let len = states[0].entries_view().len();
    let c0 = states[0].cursor_view();
    assert(c0 matches Some(c) ==> !rem0.contains(c));
    // Each step takes the last unplayed position of the original cycle.
    assert forall|k: int| 0 <= k <= m implies {
        &&& #[trigger] states[k].remaining_view() == rem0.take(m - k)
        &&& states[k].entries_view() == states[0].entries_view()
        &&& states[k].cursor_view() == (if k == 0 {
            c0
        } else {
            Some(rem0[m - k])
        })
    } by {
        lemma_cycle_prefix(states, ids, rem0, c0, k);
    }
    assert forall|i: int, j: int| 0 <= i < j < states.len() implies states[i].cursor_view()
        != states[j].cursor_view() by {
        assert(states[j].remaining_view() == rem0.take(m - j));
        assert(states[i].remaining_view() == rem0.take(m - i));
        assert(0 <= m - j < m - i <= m);
        if i == 0 {
            assert(rem0.contains(rem0[m - j]));
        } else {
            assert(rem0[m - i] != rem0[m - j]);
        }
    }
    assert forall|k: int| 1 <= k < states.len() implies #[trigger] states[k].cursor_view() is Some by {
        assert(states[k].remaining_view() == rem0.take(m - k));
    }
    assert forall|p: usize| p < len implies #[trigger] visits(states, p) by {
        if c0 == Some(p) {
            assert(states[0].cursor_view() == Some(p));
        } else {
            assert(rem0.contains(p));
            let i = choose|i: int| 0 <= i < rem0.len() && rem0[i] == p;
            let k = m - i;
            assert(states[k].remaining_view() == rem0.take(m - k));
            assert(states[k].cursor_view() == Some(p));
        }
    }
}

proof fn lemma_cycle_prefix(
    states: Seq<PlaybackQueue>,
    ids: Seq<Option<TrackId>>,
    rem0: Seq<usize>,
    c0: Option<usize>,
    k: int,
)
    requires
        states.len() >= 1,
        states[0].entries_view().len() >= 2,
        rem0 == states[0].remaining_view(),
        c0 == states[0].cursor_view(),
        rem0.no_duplicates(),
        c0 matches Some(c) ==> !rem0.contains(c),
        states.len() == rem0.len() + 1,
        ids.len() + 1 == states.len(),
        forall|j: int|
            1 <= j < states.len() ==> {
                &&& #[trigger] PlaybackQueue::next_step(states[j - 1], states[j], PlaybackMode::Shuffle, ids[j - 1])
                &&& states[j].entries_view() == states[j - 1].entries_view()
            },
        0 <= k <= rem0.len(),
    ensures
        states[k].remaining_view() == rem0.take(rem0.len() - k),
        states[k].entries_view() == states[0].entries_view(),
        states[k].cursor_view() == (if k == 0 {
            c0
        } else {
            Some(rem0[rem0.len() - k])
        }),
    decreases k,
{
    let m = rem0.len() as int;
    if k == 0 {
        assert(rem0.take(m) =~= rem0);
    } else {
        lemma_cycle_prefix(states, ids, rem0, c0, k - 1);
        let before = states[k - 1];
        let after = states[k];
        assert(PlaybackQueue::next_step(before, after, PlaybackMode::Shuffle, ids[k - 1]));
        let remaining = rem0.take(m - (k - 1));
        assert(remaining.len() > 0);
        let cursor = before.cursor_view();
        assert(cursor matches Some(c) ==> !remaining.contains(c)) by {
            if k - 1 > 0 {
                if remaining.contains(rem0[m - (k - 1)]) {
                    let i = choose|i: int| 0 <= i < remaining.len() && remaining[i] == rem0[m - (k - 1)];
                    assert(rem0[i] == rem0[m - (k - 1)]);
                }
            } else {
                if let Some(c) = c0 {
                    if remaining.contains(c) {
                        let i = choose|i: int| 0 <= i < remaining.len() && remaining[i] == c;
                        assert(rem0.contains(c) && rem0[i] == c);
                    }
                }
            }
        }
        if let Some(c) = cursor {
            lemma_without_absent(remaining, c);
        }
        assert(without_cursor(remaining, cursor) == remaining);
        let step_id = ids[k - 1];
        let cycle = choose|cycle: Seq<usize>| PlaybackQueue::cycle_step(before, after, cycle, step_id);
        assert(cycle == remaining);
        assert(remaining.drop_last() =~= rem0.take(m - k));
    }
}

/// Previous in shuffle mode returns to the position heard before a
/// shuffled Next, with the same track, and forgets that step of history.
pub proof fn previous_returns_to_the_position_heard_before(
    q0: PlaybackQueue,
    q1: PlaybackQueue,
    q2: PlaybackQueue,
    next_id: Option<TrackId>,
    back_id: Option<TrackId>,
)
    requires
        q0.wf(),
        q0.entries_view().len() >= 2,
        q0.cursor_view() is Some,
        PlaybackQueue::next_step(q0, q1, PlaybackMode::Shuffle, next_id),
        q1.entries_view() == q0.entries_view(),
        next_id is Some,
        PlaybackQueue::previous_step(q1, q2, PlaybackMode::Shuffle, back_id),
    ensures
        q2.cursor_view() == q0.cursor_view(),
        back_id == entry_at(q0.entries_view(), q0.cursor_view()),
        q2.history_view() == q0.history_view(),
{
    let len = q0.entries_view().len();
    let c = q0.cursor_view()->0;
    let cycle = choose|cycle: Seq<usize>| PlaybackQueue::cycle_step(q0, q1, cycle, next_id);
    assert(q1.history_view() == q0.history_view().push(c));
    assert(q1.history_view().drop_last() =~= q0.history_view());
}

/// Sequential Next and Previous walk the queue in order: Next moves to the
/// following position and Previous from there comes back.
pub proof fn sequential_previous_undoes_next(
    q0: PlaybackQueue,
    q1: PlaybackQueue,
    q2: PlaybackQueue,
    next_id: Option<TrackId>,
    back_id: Option<TrackId>,
)
    requires
        q0.cursor_view() is Some,
        PlaybackQueue::next_step(q0, q1, PlaybackMode::Sequential, next_id),
        q1.entries_view() == q0.entries_view(),
        next_id is Some,
        PlaybackQueue::previous_step(q1, q2, PlaybackMode::Sequential, back_id),
    ensures
        q2.cursor_view() == q0.cursor_view(),
        back_id == entry_at(q0.entries_view(), q0.cursor_view()),
{
    let c = q0.cursor_view()->0;
    lemma_entries_fit(q0);
    assert(q0.entries_view().len() > 0);
    assert(q1.cursor_view() == Some((c + 1) as usize));
    assert(((c + 1) as usize - 1) as usize == c);
}

/// Whether `position` occurs in `positions`.
fn contains_position(positions: &Vec<usize>, position: usize) -> (found: bool)
    ensures
        found == positions@.contains(position),
{
    let mut i: usize = 0;
    while i < positions.len()
        invariant
            i <= positions@.len(),
            forall|j: int| 0 <= j < i ==> positions@[j] != position,
        decreases positions@.len() - i,
    {
        if positions[i] == position {
            return true;
        }
        i = i + 1;
    }
    false
}

/// `positions` without the occurrences of `position`.
fn without_position(positions: &Vec<usize>, position: usize) -> (kept: Vec<usize>)
    ensures
        kept@ == without(positions@, position),
{
    let mut kept: Vec<usize> = Vec::new();
    let mut i: usize = 0;
    while i < positions.len()
        invariant
            i <= positions@.len(),
            kept@ == without(positions@.take(i as int), position),
        decreases positions@.len() - i,
    {
        assert(positions@.take(i + 1).drop_last() == positions@.take(i as int));
        if positions[i] != position {
            kept.push(positions[i]);
        }
        i = i + 1;
    }
    assert(positions@.take(positions@.len() as int) == positions@);
    kept
}

/// The first index of `id` in `entries`.
fn position_of(entries: &Vec<TrackId>, id: TrackId) -> (position: Option<usize>)
    ensures
        position == first_position(entries@, id),
{
    let mut i: usize = 0;
    while i < entries.len()
        invariant
            i <= entries@.len(),
            forall|j: int| 0 <= j < i ==> entries@[j] != id,
        decreases entries@.len() - i,
    {
        if entries[i] == id {
            proof {
                let k = choose|k: int|
                    0 <= k < entries@.len() && entries@[k] == id && forall|j: int|
                        0 <= j < k ==> entries@[j] != id;
                assert(k == i as int) by {
                    if k < i {
                    } else if k > i {
                        assert(entries@[i as int] == id);
                    }
                }
            }
            return Some(i);
        }
        i = i + 1;
    }
    None
}

/// A `u64` drawn from the generator as a `usize`, or zero where it does not
/// fit.
fn u64_to_usize_or_zero(value: u64) -> (converted: usize)
    ensures
        value <= usize::MAX ==> converted == value,
        value > usize::MAX ==> converted == 0,
{
    if value <= usize::MAX as u64 {
        value as usize
    } else {
        0
    }
}

/// The time since the Unix epoch as whole seconds and the nanoseconds
/// past them, or `None` when the clock reads before the epoch.
///
/// Calls `std::time::SystemTime::now` and `duration_since`; nothing is
/// promised of the value, which depends on the time of the call, beyond what
/// a `Duration` guarantees: the nanoseconds stay below one second.
#[verifier::external_body]
fn time_since_epoch() -> (elapsed: Option<(u64, u32)>)
    ensures
        elapsed matches Some(e) ==> e.1 < 1_000_000_000,
{
    std::time::SystemTime::now()
        .duration_since(std::time::UNIX_EPOCH)
        .ok()
        .map(|duration| (duration.as_secs(), duration.subsec_nanos()))
}

/// The seed used when the clock reads before the epoch.
pub const FALLBACK_SEED: u64 = 0x9e37_79b9_7f4a_7c15;

/// The shuffle seed for a clock reading (seconds and nanoseconds since the
/// epoch): the whole reading in nanoseconds where that fits in a `u64`,
/// else the seconds alone; a reading before the epoch gives a fixed seed.
pub fn seed_from_clock(elapsed: Option<(u64, u32)>) -> (seed: u64)
    ensures
        seed == match elapsed {
            None => FALLBACK_SEED as int,
            Some((secs, nanos)) => {
                let total = secs * 1_000_000_000 + nanos;
                if total <= u64::MAX {
                    total
                } else {
                    secs as int
                }
            },
        },
{
    match elapsed {
        None => FALLBACK_SEED,
        Some((secs, nanos)) => {
            let total: u128 = (secs as u128) * 1_000_000_000 + (nanos as u128);
            if total <= u64::MAX as u128 {
                total as u64
            } else {
                secs
            }
        },
    }
}

} // verus!
