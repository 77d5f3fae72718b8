//! Persistent restart state and user data: their normal forms, the
//! storage locations, and the decisions of a resilient load.

use crate::paths::{path_with_extension, path_with_file_name, with_extension, with_file_name};
use crate::text::{
    append_str, decimal, decimal_text, lemma_text_less_irreflexive, lemma_text_less_total,
    lemma_text_less_transitive, text_less, text_lt,
};
use vstd::prelude::*;

verus! {

pub const CONFIG_VERSION: u32 = 8;

pub const STATE_VERSION: u32 = 1;

pub const USER_DATA_VERSION: u32 = 1;

/// Recently played URIs remembered across restarts.
pub const MAX_RECENT_URIS: usize = 40;

/// The texts of a list of strings.
pub open spec fn texts(v: Seq<String>) -> Seq<Seq<char>> {
    v.map_values(|s: String| s@)
}

/// Each text at its first occurrence, in order.
pub open spec fn first_occurrences(s: Seq<Seq<char>>) -> Seq<Seq<char>>
    decreases s.len(),
{
    if s.len() == 0 {
        Seq::empty()
    } else {
        let r = first_occurrences(s.drop_last());
        if r.contains(s.last()) {
            r
        } else {
            r.push(s.last())
        }
    }
}

/// At most the first 40 entries.
pub open spec fn capped(s: Seq<Seq<char>>) -> Seq<Seq<char>> {
    if s.len() > MAX_RECENT_URIS {
        s.take(MAX_RECENT_URIS as int)
    } else {
        s
    }
}

/// No text occurs twice.
pub open spec fn distinct(s: Seq<Seq<char>>) -> bool {
    forall|i: int, j: int| 0 <= i < j < s.len() ==> s[i] != s[j]
}

/// The entries of `s` other than `x`, in order.
pub open spec fn all_but(s: Seq<Seq<char>>, x: Seq<char>) -> Seq<Seq<char>>
    decreases s.len(),
{
    if s.len() == 0 {
        Seq::empty()
    } else if s.last() == x {
        all_but(s.drop_last(), x)
    } else {
        all_but(s.drop_last(), x).push(s.last())
    }
}

/// The recent list after playing `uri`: `uri` first, then the others in
/// their order, capped.
pub open spec fn remembered(recent: Seq<Seq<char>>, uri: Seq<char>) -> Seq<Seq<char>> {
    capped(seq![uri] + all_but(recent, uri))
}

/// Restart state: recently played tracks and the last one.
#[derive(Debug, Clone)]
pub struct AppState {
    pub version: u32,
    pub recent_uris: Vec<String>,
    pub last_track_uri: Option<String>,
}

impl Default for AppState {
    fn default() -> (state: AppState)
        ensures
            state.version == STATE_VERSION,
            state.recent_uris@.len() == 0,
            state.last_track_uri is None,
    {
        AppState { version: STATE_VERSION, recent_uris: Vec::new(), last_track_uri: None }
    }
}

fn contains_text(list: &Vec<String>, text: &String) -> (found: bool)
    ensures
        found == texts(list@).contains(text@),
{
    let mut i: usize = 0;
    while i < list.len()
        invariant
            i <= list@.len(),
            forall|j: int| 0 <= j < i ==> list@[j]@ != text@,
        decreases list@.len() - i,
    {
        if list[i] == *text {
            assert(texts(list@)[i as int] == text@);
            return true;
        }
        i = i + 1;
    }
    assert(!texts(list@).contains(text@)) by {
        if texts(list@).contains(text@) {
            let k = choose|k: int| 0 <= k < texts(list@).len() && texts(list@)[k] == text@;
            assert(list@[k]@ == text@);
        }
    }
    false
}

impl AppState {
    /// The current version, each recent URI once (first occurrence kept),
    /// at most 40 of them.
    pub fn normalize(&mut self)
        ensures
            final(self).version == STATE_VERSION,
            texts(final(self).recent_uris@) == capped(first_occurrences(texts(old(self).recent_uris@))),
            final(self).last_track_uri == old(self).last_track_uri,
    {
        self.version = STATE_VERSION;
        let mut kept: Vec<String> = Vec::new();
        let mut i: usize = 0;
        while i < self.recent_uris.len()
            invariant
                i <= self.recent_uris@.len(),
                texts(kept@) == first_occurrences(texts(self.recent_uris@.take(i as int))),
            decreases self.recent_uris@.len() - i,
        {
            let uri = &self.recent_uris[i];
            assert(texts(self.recent_uris@.take(i + 1)).drop_last() == texts(
                self.recent_uris@.take(i as int),
            ));
            if !contains_text(&kept, uri) {
                kept.push(uri.clone());
                assert(texts(kept@) == texts(kept@).drop_last().push(uri@));
            }
            i = i + 1;
        }
        assert(self.recent_uris@.take(self.recent_uris@.len() as int) == self.recent_uris@);
        kept.truncate(MAX_RECENT_URIS);
        self.recent_uris = kept;
    }

    /// Puts `uri` first in the recent list (once), caps the list, and makes
    /// it the last track.
    pub fn remember_uri(&mut self, uri: &str)
        ensures
            final(self).version == old(self).version,
            texts(final(self).recent_uris@) == remembered(texts(old(self).recent_uris@), uri@),
            final(self).last_track_uri matches Some(last) && last@ == uri@,
    {
        let ghost old_texts = texts(self.recent_uris@);
        let mut kept: Vec<String> = Vec::new();
        kept.push(uri.to_owned());
        let mut i: usize = 0;
        while i < self.recent_uris.len()
            invariant
                i <= self.recent_uris@.len(),
                old_texts == texts(self.recent_uris@),
                texts(kept@) == seq![uri@] + all_but(old_texts.take(i as int), uri@),
            decreases self.recent_uris@.len() - i,
        {
            let item = &self.recent_uris[i];
            let ghost prefix = old_texts.take(i + 1);
            assert(prefix.drop_last() == old_texts.take(i as int));
            assert(prefix.last() == item@);
            let keep = !text_equals(item.as_str(), uri);
            if keep {
                kept.push(item.clone());
                assert(texts(kept@) == texts(kept@).drop_last().push(item@));
                assert(seq![uri@] + all_but(prefix, uri@) =~= (seq![uri@] + all_but(
                    old_texts.take(i as int),
                    uri@,
                )).push(item@));
            } else {
                assert(all_but(prefix, uri@) == all_but(old_texts.take(i as int), uri@));
            }
            i = i + 1;
        }
        assert(old_texts.take(old_texts.len() as int) == old_texts);
        kept.truncate(MAX_RECENT_URIS);
        self.recent_uris = kept;
        self.last_track_uri = Some(uri.to_owned());
    }

    /// Nothing to restore: no recent URI and no last track.
    pub fn is_empty(&self) -> (empty: bool)
        ensures
            empty == (self.recent_uris@.len() == 0 && self.last_track_uri is None),
    {
        self.recent_uris.len() == 0 && self.last_track_uri.is_none()
    }
}


/// Strictly increasing in text order (so also free of duplicates).
pub open spec fn strictly_sorted(s: Seq<Seq<char>>) -> bool {
    forall|i: int, j: int| 0 <= i < j < s.len() ==> #[trigger] text_less(s[i], s[j])
}

/// Inserting `x` where everything before is smaller and everything after
/// is larger keeps a sequence strictly sorted.
proof fn lemma_insert_sorted(s: Seq<Seq<char>>, p: int, x: Seq<char>)
    requires
        strictly_sorted(s),
        0 <= p <= s.len(),
        forall|k: int| 0 <= k < p ==> text_less(#[trigger] s[k], x),
        forall|k: int| p <= k < s.len() ==> text_less(x, #[trigger] s[k]),
    ensures
        strictly_sorted(s.insert(p, x)),
{
    let t = s.insert(p, x);
    assert forall|i: int, j: int| 0 <= i < j < t.len() implies #[trigger] text_less(t[i], t[j]) by {
        if i < p && j < p {
            assert(text_less(s[i], s[j]));
        } else if i < p && j == p {
        } else if i < p {
            assert(text_less(s[i], s[j - 1]));
        } else if i == p {
            assert(text_less(x, s[j - 1]));
        } else {
            assert(text_less(s[i - 1], s[j - 1]));
        }
    }
}

/// Two strictly sorted sequences with the same entries are equal.
proof fn lemma_sorted_unique(a: Seq<Seq<char>>, b: Seq<Seq<char>>)
    requires
        strictly_sorted(a),
        strictly_sorted(b),
        forall|x: Seq<char>| a.contains(x) <==> b.contains(x),
    ensures
        a == b,
    decreases a.len() + b.len(),
{
    if a.len() == 0 || b.len() == 0 {
        if a.len() > 0 {
            assert(a.contains(a[0]));
        }
        if b.len() > 0 {
            assert(b.contains(b[0]));
        }
        assert(a =~= b);
    } else {
        let la = a.last();
        let lb = b.last();
        assert(a.contains(la));
        assert(b.contains(lb));
        let ia = choose|k: int| 0 <= k < a.len() && a[k] == lb;
        let ib = choose|k: int| 0 <= k < b.len() && b[k] == la;
        if la != lb {
            lemma_text_less_total(la, lb);
            if text_less(la, lb) {
                if ia < a.len() - 1 {
                    assert(text_less(a[ia], la));
                    lemma_text_less_transitive(lb, la, lb);
                }
                lemma_text_less_irreflexive(lb);
            } else {
                if ib < b.len() - 1 {
                    assert(text_less(b[ib], lb));
                    lemma_text_less_transitive(la, lb, la);
                }
                lemma_text_less_irreflexive(la);
            }
        }
        let a2 = a.drop_last();
        let b2 = b.drop_last();
        assert forall|x: Seq<char>| a2.contains(x) <==> b2.contains(x) by {
            if a2.contains(x) {
                let k = choose|k: int| 0 <= k < a2.len() && a2[k] == x;
                assert(text_less(a[k], la));
                assert(a.contains(x));
                let m = choose|m: int| 0 <= m < b.len() && b[m] == x;
                if m == b.len() - 1 {
                    lemma_text_less_irreflexive(x);
                }
                assert(b2[m] == x);
            }
            if b2.contains(x) {
                let k = choose|k: int| 0 <= k < b2.len() && b2[k] == x;
                assert(text_less(b[k], lb));
                assert(b.contains(x));
                let m = choose|m: int| 0 <= m < a.len() && a[m] == x;
                if m == a.len() - 1 {
                    lemma_text_less_irreflexive(x);
                }
                assert(a2[m] == x);
            }
        }
        lemma_sorted_unique(a2, b2);
        assert(a =~= a2.push(la));
        assert(b =~= b2.push(lb));
    }
}

/// The user's favorites.
#[derive(Debug, Clone)]
pub struct UserData {
    pub version: u32,
    pub favorite_uris: Vec<String>,
}

impl Default for UserData {
    fn default() -> (data: UserData)
        ensures
            data.version == USER_DATA_VERSION,
            data.favorite_uris@.len() == 0,
    {
        UserData { version: USER_DATA_VERSION, favorite_uris: Vec::new() }
    }
}

impl UserData {
    /// The current version, the favorites sorted with duplicates removed.
    pub fn normalize(&mut self)
        ensures
            final(self).version == USER_DATA_VERSION,
            strictly_sorted(texts(final(self).favorite_uris@)),
            forall|x: Seq<char>|
                texts(final(self).favorite_uris@).contains(x) <==> texts(
                    old(self).favorite_uris@,
                ).contains(x),
    {
        self.version = USER_DATA_VERSION;
        let mut sorted: Vec<String> = Vec::new();
        let mut i: usize = 0;
        while i < self.favorite_uris.len()
            invariant
                i <= self.favorite_uris@.len(),
                strictly_sorted(texts(sorted@)),
                forall|x: Seq<char>|
                    texts(sorted@).contains(x) <==> texts(self.favorite_uris@.take(i as int)).contains(x),
            decreases self.favorite_uris@.len() - i,
        {
            let uri = &self.favorite_uris[i];
            let ghost before = texts(sorted@);
            let mut p: usize = 0;
            while p < sorted.len() && text_lt(sorted[p].as_str(), uri.as_str())
                invariant
                    p <= sorted@.len(),
                    before == texts(sorted@),
                    forall|k: int| 0 <= k < p ==> text_less(#[trigger] before[k], uri@),
                decreases sorted@.len() - p,
            {
                p = p + 1;
            }
            let ghost prefix = texts(self.favorite_uris@.take(i as int));
            assert(texts(self.favorite_uris@.take(i + 1)) =~= prefix.push(uri@));
            if p < sorted.len() && text_equals(sorted[p].as_str(), uri.as_str()) {
                assert(before[p as int] == uri@);
                assert forall|x: Seq<char>| before.contains(x) <==> prefix.push(uri@).contains(x) by {
                    if x == uri@ {
                        assert(before.contains(uri@));
                    }
                    if prefix.push(uri@).contains(x) && x != uri@ {
                        let k = choose|k: int| 0 <= k < prefix.push(uri@).len() && prefix.push(uri@)[k] == x;
                        assert(prefix[k] == x);
                    }
                    if prefix.contains(x) {
                        let k = choose|k: int| 0 <= k < prefix.len() && prefix[k] == x;
                        assert(prefix.push(uri@)[k] == x);
                    }
                }
            } else {
                proof {
                    assert forall|k: int| p <= k < before.len() implies text_less(uri@, #[trigger] before[k]) by {
                        lemma_text_less_total(before[p as int], uri@);
                        if k > p {
                            assert(text_less(before[p as int], before[k]));
                            lemma_text_less_transitive(uri@, before[p as int], before[k]);
                        }
                    }
                    lemma_insert_sorted(before, p as int, uri@);
                }
                sorted.insert(p, uri.clone());
                assert(texts(sorted@) =~= before.insert(p as int, uri@));
                assert forall|x: Seq<char>|
                    before.insert(p as int, uri@).contains(x) <==> prefix.push(uri@).contains(x) by {
                    let t = before.insert(p as int, uri@);
                    if t.contains(x) {
                        let k = choose|k: int| 0 <= k < t.len() && t[k] == x;
                        if k < p {
                            assert(before[k] == x);
                        } else if k > p {
                            assert(before[k - 1] == x);
                        }
                        if x != uri@ {
                            assert(before.contains(x));
                            assert(prefix.contains(x));
                            let m = choose|m: int| 0 <= m < prefix.len() && prefix[m] == x;
                            assert(prefix.push(uri@)[m] == x);
                        } else {
                            assert(prefix.push(uri@)[prefix.len() as int] == x);
                        }
                    }
                    if prefix.push(uri@).contains(x) {
                        if x == uri@ {
                            assert(t[p as int] == x);
                        } else {
                            let k = choose|k: int| 0 <= k < prefix.push(uri@).len() && prefix.push(uri@)[k] == x;
                            assert(prefix[k] == x);
                            assert(prefix.contains(x));
                            assert(before.contains(x));
                            let m = choose|m: int| 0 <= m < before.len() && before[m] == x;
                            if m < p {
                                assert(t[m] == x);
                            } else {
                                assert(t[m + 1] == x);
                            }
                        }
                    }
                }
            }
            i = i + 1;
        }
        assert(self.favorite_uris@.take(self.favorite_uris@.len() as int) == self.favorite_uris@);
        self.favorite_uris = sorted;
    }

    /// No favorites.
    pub fn is_empty(&self) -> (empty: bool)
        ensures
            empty == (self.favorite_uris@.len() == 0),
    {
        self.favorite_uris.len() == 0
    }
}

/// Normalizing favorites twice gives what normalizing once gave: a
/// strictly sorted list with the same entries is already normal.
pub proof fn favorites_normal_form_is_unique(a: Seq<Seq<char>>, b: Seq<Seq<char>>)
    requires
        strictly_sorted(a),
        strictly_sorted(b),
        forall|x: Seq<char>| a.contains(x) <==> b.contains(x),
    ensures
        a == b,
{
    lemma_sorted_unique(a, b);
}


proof fn lemma_first_occurrences_distinct(s: Seq<Seq<char>>)
    ensures
        distinct(first_occurrences(s)),
        forall|x: Seq<char>| first_occurrences(s).contains(x) <==> s.contains(x),
    decreases s.len(),
{
    if s.len() > 0 {
        lemma_first_occurrences_distinct(s.drop_last());
        assert forall|x: Seq<char>| first_occurrences(s).contains(x) <==> s.contains(x) by {
            if s.contains(x) && x != s.last() {
                let k = choose|k: int| 0 <= k < s.len() && s[k] == x;
                assert(s.drop_last()[k] == x);
            }
            if s.drop_last().contains(x) {
                let k = choose|k: int| 0 <= k < s.drop_last().len() && s.drop_last()[k] == x;
                assert(s[k] == x);
            }
            if x == s.last() {
                assert(s[s.len() - 1] == x);
            }
            let r = first_occurrences(s.drop_last());
            if !r.contains(s.last()) && r.push(s.last()).contains(x) && x != s.last() {
                let k = choose|k: int| 0 <= k < r.push(s.last()).len() && r.push(s.last())[k] == x;
                assert(r[k] == x);
            }
            if r.contains(x) && !r.contains(s.last()) {
                let k = choose|k: int| 0 <= k < r.len() && r[k] == x;
                assert(r.push(s.last())[k] == x);
            }
            if !r.contains(s.last()) && x == s.last() {
                assert(r.push(s.last())[r.len() as int] == x);
            }
        }
    }
}

proof fn lemma_first_occurrences_of_distinct(s: Seq<Seq<char>>)
    requires
        distinct(s),
    ensures
        first_occurrences(s) == s,
    decreases s.len(),
{
    if s.len() > 0 {
        let d = s.drop_last();
        lemma_first_occurrences_of_distinct(d);
        if d.contains(s.last()) {
            let k = choose|k: int| 0 <= k < d.len() && d[k] == s.last();
            assert(s[k] == s[s.len() - 1]);
        }
        assert(s =~= d.push(s.last()));
    }
}

/// Normalizing restart state twice gives what normalizing once gave.
pub proof fn recent_normal_form_is_stable(recent: Seq<Seq<char>>)
    ensures
        capped(first_occurrences(capped(first_occurrences(recent)))) == capped(
            first_occurrences(recent),
        ),
        distinct(capped(first_occurrences(recent))),
        capped(first_occurrences(recent)).len() <= MAX_RECENT_URIS,
{
    lemma_first_occurrences_distinct(recent);
    let c = capped(first_occurrences(recent));
    assert(distinct(c));
    lemma_first_occurrences_of_distinct(c);
}

proof fn lemma_all_but(s: Seq<Seq<char>>, x: Seq<char>)
    requires
        distinct(s),
    ensures
        distinct(all_but(s, x)),
        !all_but(s, x).contains(x),
        forall|y: Seq<char>| y != x ==> (all_but(s, x).contains(y) <==> s.contains(y)),
    decreases s.len(),
{
    if s.len() > 0 {
        let d = s.drop_last();
        assert(distinct(d));
        lemma_all_but(d, x);
        let r = all_but(d, x);
        assert forall|y: Seq<char>| y != x implies (all_but(s, x).contains(y) <==> s.contains(y)) by {
            if s.contains(y) && y != s.last() {
                let k = choose|k: int| 0 <= k < s.len() && s[k] == y;
                assert(d[k] == y);
            }
            if d.contains(y) {
                let k = choose|k: int| 0 <= k < d.len() && d[k] == y;
                assert(s[k] == y);
            }
            if y == s.last() {
                assert(s[s.len() - 1] == y);
                assert(r.push(s.last())[r.len() as int] == y);
            }
            if s.last() != x && r.push(s.last()).contains(y) && y != s.last() {
                let k = choose|k: int| 0 <= k < r.push(s.last()).len() && r.push(s.last())[k] == y;
                assert(r[k] == y);
            }
            if s.last() != x && r.contains(y) {
                let k = choose|k: int| 0 <= k < r.len() && r[k] == y;
                assert(r.push(s.last())[k] == y);
            }
        }
        if s.last() != x {
            if r.contains(s.last()) {
                assert(d.contains(s.last()));
                let k = choose|k: int| 0 <= k < d.len() && d[k] == s.last();
                assert(s[k] == s[s.len() - 1]);
            }
            if r.push(s.last()).contains(x) {
                let k = choose|k: int| 0 <= k < r.push(s.last()).len() && r.push(s.last())[k] == x;
                assert(r[k] == x);
            }
        }
    }
}

/// Playing a track keeps the recent list in normal form: the track comes
/// first, nothing occurs twice, and at most 40 entries remain; every other
/// entry that stays was there before.
pub proof fn remembering_keeps_recent_normal(recent: Seq<Seq<char>>, uri: Seq<char>)
    requires
        distinct(recent),
    ensures
        remembered(recent, uri)[0] == uri,
        distinct(remembered(recent, uri)),
        remembered(recent, uri).len() <= MAX_RECENT_URIS,
        forall|i: int|
            1 <= i < remembered(recent, uri).len() ==> #[trigger] recent.contains(
                remembered(recent, uri)[i],
            ),
{
    lemma_all_but(recent, uri);
    let rest = all_but(recent, uri);
    let full = seq![uri] + rest;
    assert forall|i: int, j: int| 0 <= i < j < full.len() implies full[i] != full[j] by {
        if i == 0 {
            assert(rest.contains(full[j]) || full[j] == uri) by {
                assert(rest[j - 1] == full[j]);
            }
            assert(rest[j - 1] == full[j]);
        } else {
            assert(full[i] == rest[i - 1] && full[j] == rest[j - 1]);
        }
    }
    assert forall|i: int| 1 <= i < full.len() implies #[trigger] recent.contains(full[i]) by {
        assert(full[i] == rest[i - 1]);
        assert(rest.contains(rest[i - 1]));
        if full[i] == uri {
            assert(rest.contains(uri));
        }
    }
}

/// How the playlist collection is presented.
#[derive(Debug, Clone, Copy, PartialEq, Eq, Structural)]
pub enum PlaylistDisplay {
    List,
    Covers,
}

impl Default for PlaylistDisplay {
    fn default() -> (display: PlaylistDisplay)
        ensures
            display == PlaylistDisplay::List,
    {
        PlaylistDisplay::List
    }
}

/// Where configuration, restart state, and user data are stored.
#[derive(Debug, Clone)]
pub struct PersistenceStore {
    config: String,
    state: String,
    user_data: String,
}

impl PersistenceStore {
    pub closed spec fn config_view(&self) -> Seq<char> {
        self.config@
    }

    pub closed spec fn state_view(&self) -> Seq<char> {
        self.state@
    }

    pub closed spec fn user_data_view(&self) -> Seq<char> {
        self.user_data@
    }

    /// A store at the given three file paths.
    pub fn at(config_path: String, state_path: String, user_data_path: String) -> (store: PersistenceStore)
        ensures
            store.config_view() == config_path@,
            store.state_view() == state_path@,
            store.user_data_view() == user_data_path@,
    {
        PersistenceStore { config: config_path, state: state_path, user_data: user_data_path }
    }

    pub fn config_path(&self) -> (path: &str)
        ensures
            path@ == self.config_view(),
    {
        self.config.as_str()
    }

    pub fn state_path(&self) -> (path: &str)
        ensures
            path@ == self.state_view(),
    {
        self.state.as_str()
    }

    pub fn user_data_path(&self) -> (path: &str)
        ensures
            path@ == self.user_data_view(),
    {
        self.user_data.as_str()
    }

    /// The catalog database, `library.sqlite3` beside the user data.
    pub fn catalog_path(&self) -> (path: String)
        ensures
            path@ == path_with_file_name(self.user_data_view(), "library.sqlite3"@),
    {
        with_file_name(self.user_data.as_str(), "library.sqlite3")
    }
}

/// What reading one persisted file found.
#[derive(Debug, Clone, PartialEq, Eq)]
pub enum LoadOutcome {
    Loaded,
    Missing,
    /// The file held invalid JSON and was moved to this path.
    Recovered(String),
}

impl LoadOutcome {
    pub fn was_loaded(&self) -> (loaded: bool)
        ensures
            loaded == (*self is Loaded),
    {
        match self {
            LoadOutcome::Loaded => true,
            _ => false,
        }
    }

    pub fn recovered_path(self) -> (path: Option<String>)
        ensures
            match self {
                LoadOutcome::Recovered(p) => path == Some(p),
                _ => path is None,
            },
    {
        match self {
            LoadOutcome::Recovered(p) => Some(p),
            _ => None,
        }
    }
}

/// The extension of the `attempt`-th backup name for an invalid file:
/// `json.invalid`, then `json.invalid.1`, `json.invalid.2`, ...
pub open spec fn backup_extension(attempt: u32) -> Seq<char> {
    if attempt == 0 {
        "json.invalid"@
    } else {
        "json.invalid."@ + decimal(attempt as nat)
    }
}

/// The `attempt`-th candidate path for moving an invalid file aside; the
/// first candidate that does not exist is used.
pub fn invalid_backup_candidate(path: &str, attempt: u32) -> (candidate: String)
    ensures
        candidate@ == path_with_extension(path@, backup_extension(attempt)),
{
    if attempt == 0 {
        proof {
            reveal_strlit("json.invalid");
        }
        with_extension(path, "json.invalid")
    } else {
        let mut extension = String::new();
        append_str(&mut extension, "json.invalid.");
        let digits = decimal_text(attempt as u64);
        append_str(&mut extension, digits.as_str());
        proof {
            reveal_strlit("json.invalid.");
            crate::text::lemma_decimal_is_digits(attempt as nat);
            let e = extension@;
            assert forall|i: int| 0 <= i < e.len() implies e[i] != '/' && e[i] != '\\' by {
                if i >= 13 {
                    assert(crate::text::is_digit(decimal(attempt as nat)[i - 13]));
                }
            }
        }
        with_extension(path, extension.as_str())
    }
}

/// The restart state and user data that the former single configuration
/// file carried, in normal form.
pub fn legacy_persistence(recent_uris: Vec<String>, last_track_uri: Option<String>, favorite_uris: Vec<String>) -> (r: (AppState, UserData))
    ensures
        r.0.version == STATE_VERSION,
        texts(r.0.recent_uris@) == capped(first_occurrences(texts(recent_uris@))),
        r.0.last_track_uri == last_track_uri,
        r.1.version == USER_DATA_VERSION,
        strictly_sorted(texts(r.1.favorite_uris@)),
        forall|x: Seq<char>| texts(r.1.favorite_uris@).contains(x) <==> texts(favorite_uris@).contains(x),
{
    let mut state = AppState { version: STATE_VERSION, recent_uris, last_track_uri };
    let mut user_data = UserData { version: USER_DATA_VERSION, favorite_uris };
    state.normalize();
    user_data.normalize();
    (state, user_data)
}

/// The restart state to keep after loading: the migrated legacy state when
/// the state file was not loaded and the legacy state is not empty,
/// otherwise the loaded one; and whether it migrated.
pub fn adopt_legacy_state(outcome: &LoadOutcome, loaded: AppState, legacy: AppState) -> (r: (AppState, bool))
    ensures
        r.1 == (!(*outcome is Loaded) && !(legacy.recent_uris@.len() == 0 && legacy.last_track_uri is None)),
        r.1 ==> r.0 == legacy,
        !r.1 ==> r.0 == loaded,
{
    if !outcome.was_loaded() && !legacy.is_empty() {
        (legacy, true)
    } else {
        (loaded, false)
    }
}

/// The user data to keep after loading, chosen as for restart state.
pub fn adopt_legacy_user_data(outcome: &LoadOutcome, loaded: UserData, legacy: UserData) -> (r: (UserData, bool))
    ensures
        r.1 == (!(*outcome is Loaded) && legacy.favorite_uris@.len() != 0),
        r.1 ==> r.0 == legacy,
        !r.1 ==> r.0 == loaded,
{
    if !outcome.was_loaded() && !legacy.is_empty() {
        (legacy, true)
    } else {
        (loaded, false)
    }
}

/// The backup paths of the files that were recovered, in order.
pub fn recovered_paths(outcomes: Vec<LoadOutcome>) -> (paths: Vec<String>)
    ensures
        paths@ == recovered_spec(outcomes@),
{
    let mut paths: Vec<String> = Vec::new();
    let mut rest = outcomes;
    let ghost all = rest@;
    let n = rest.len();
    let mut i: usize = 0;
    while i < n
        invariant
            n == all.len(),
            i <= n,
            rest@ == all.skip(i as int),
            paths@ == recovered_spec(all.take(i as int)),
        decreases n - i,
    {
        let outcome = rest.remove(0);
        assert(outcome == all[i as int]);
        assert(all.take(i + 1).drop_last() == all.take(i as int));
        assert(rest@ =~= all.skip(i + 1));
        match outcome.recovered_path() {
            Some(p) => paths.push(p),
            None => {},
        }
        i = i + 1;
    }
    assert(all.take(n as int) == all);
    paths
}

/// The paths of the recovered outcomes, in order.
pub open spec fn recovered_spec(outcomes: Seq<LoadOutcome>) -> Seq<String>
    decreases outcomes.len(),
{
    if outcomes.len() == 0 {
        Seq::empty()
    } else {
        let rest = recovered_spec(outcomes.drop_last());
        match outcomes.last() {
            LoadOutcome::Recovered(p) => rest.push(p),
            _ => rest,
        }
    }
}

fn text_equals(a: &str, b: &str) -> (equal: bool)
    ensures
        equal == (a@ == b@),
{
    crate::text::text_is(a, b)
}

} // verus!
