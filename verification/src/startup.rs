//! What the player does on startup: which command-line folders join the
//! music locations, which file plays first, what is scanned, and which page
//! opens.

use crate::config::texts;
use crate::media::{is_audio_extension, is_supported_audio};
use crate::pages;
use crate::paths::{path_equals, path_extension, path_starts_with, paths_equal, starts_with};
use crate::text::{ascii_lower_text, utf8_text};
use crate::uri::{ascii_text, file_uri_bytes, file_uri_to_path, path_of_file_uri, path_to_file_uri};
use vstd::prelude::*;
use vstd::string::StringSliceAdditionalSpecFns;
use vstd::utf8::{decode_utf8, encode_utf8, valid_utf8};

verus! {

/// What startup does.
#[derive(Debug, Clone)]
pub struct StartupPlan {
    /// The music locations: the configured ones, then each folder named on
    /// the command line that is not one of them yet.
    pub roots: Vec<String>,
    /// The file URI of the first supported audio file named on the command
    /// line, played once the library is ready.
    pub autoplay_uri: Option<String>,
    /// The paths to scan, each once (paths compared by component).
    pub scan: Vec<String>,
    /// The page that opens.
    pub first_view: pages::View,
}

/// A path the player can decode, judged by its extension.
pub open spec fn supported_audio_path(path: Seq<char>) -> bool {
    path_extension(path) matches Some(e) && is_audio_extension(ascii_lower_text(e))
}

/// Some path of `paths` is `path`, compared by component.
pub open spec fn holds_path(paths: Seq<Seq<char>>, path: Seq<char>) -> bool {
    exists|i: int| 0 <= i < paths.len() && path_equals(#[trigger] paths[i], path)
}

/// `paths` with `path` added unless it holds it already.
pub open spec fn with_path(paths: Seq<Seq<char>>, path: Seq<char>) -> Seq<Seq<char>> {
    if holds_path(paths, path) {
        paths
    } else {
        paths.push(path)
    }
}

/// The paths of `paths`, each at its first occurrence.
pub open spec fn distinct_paths(paths: Seq<Seq<char>>) -> Seq<Seq<char>>
    decreases paths.len(),
{
    if paths.len() == 0 {
        seq![]
    } else {
        with_path(distinct_paths(paths.drop_last()), paths.last())
    }
}

/// The music locations after the command line: every folder argument
/// (canonical path, is a folder, is a file) joins unless already present.
pub open spec fn roots_after(roots: Seq<Seq<char>>, args: Seq<(Seq<char>, bool, bool)>) -> Seq<Seq<char>>
    decreases args.len(),
{
    if args.len() == 0 {
        roots
    } else {
        let before = roots_after(roots, args.drop_last());
        let (path, is_dir, _) = args.last();
        if is_dir {
            with_path(before, path)
        } else {
            before
        }
    }
}

/// The first argument that is no folder and names supported audio.
pub open spec fn first_playable(args: Seq<(Seq<char>, bool, bool)>) -> Option<Seq<char>>
    decreases args.len(),
{
    if args.len() == 0 {
        None
    } else {
        match first_playable(args.drop_last()) {
            Some(path) => Some(path),
            None => {
                let (path, is_dir, _) = args.last();
                if !is_dir && supported_audio_path(path) {
                    Some(path)
                } else {
                    None
                }
            },
        }
    }
}

/// The file arguments, in order.
pub open spec fn file_arguments(args: Seq<(Seq<char>, bool, bool)>) -> Seq<Seq<char>>
    decreases args.len(),
{
    if args.len() == 0 {
        seq![]
    } else {
        let before = file_arguments(args.drop_last());
        let (path, _, is_file) = args.last();
        if is_file {
            before.push(path)
        } else {
            before
        }
    }
}

/// The path a file URI locates, as text (when it is UTF-8).
pub open spec fn uri_path_text(uri: Seq<char>) -> Option<Seq<char>> {
    match path_of_file_uri(encode_utf8(uri)) {
        Some(bytes) => if valid_utf8(bytes) {
            Some(decode_utf8(bytes))
        } else {
            None
        },
        None => None,
    }
}

/// The paths that the recently played URIs locate, in order.
pub open spec fn recent_paths(uris: Seq<Seq<char>>) -> Seq<Seq<char>>
    decreases uris.len(),
{
    if uris.len() == 0 {
        seq![]
    } else {
        let before = recent_paths(uris.drop_last());
        match uri_path_text(uris.last()) {
            Some(path) => before.push(path),
            None => before,
        }
    }
}

/// `path` lies in one of the music locations.
pub open spec fn under_a_root(path: Seq<char>, roots: Seq<Seq<char>>) -> bool {
    exists|i: int| 0 <= i < roots.len() && path_starts_with(path, #[trigger] roots[i])
}

/// The catalogued tracks (URI, whether its file exists) that still exist
/// outside every music location: they are rescanned on their own.
pub open spec fn outside_track_paths(tracks: Seq<(Seq<char>, bool)>, roots: Seq<Seq<char>>) -> Seq<Seq<char>>
    decreases tracks.len(),
{
    if tracks.len() == 0 {
        seq![]
    } else {
        let before = outside_track_paths(tracks.drop_last(), roots);
        let (uri, exists) = tracks.last();
        match uri_path_text(uri) {
            Some(path) => if exists && !under_a_root(path, roots) {
                before.push(path)
            } else {
                before
            },
            None => before,
        }
    }
}

/// Everything startup scans: the music locations, the file arguments, the
/// recently played files and the catalogued tracks outside the locations,
/// each path once.
pub open spec fn scan_paths(
    roots: Seq<Seq<char>>,
    args: Seq<(Seq<char>, bool, bool)>,
    recent: Seq<Seq<char>>,
    tracks: Seq<(Seq<char>, bool)>,
) -> Seq<Seq<char>> {
    let all = roots_after(roots, args);
    distinct_paths(all + file_arguments(args) + recent_paths(recent) + outside_track_paths(tracks, all))
}

proof fn lemma_texts_push(v: Seq<String>, s: String)
    ensures
        texts(v.push(s)) == texts(v).push(s@),
{
    assert(texts(v.push(s)) =~= texts(v).push(s@));
}

/// Whether `paths` holds `path` (compared by component).
fn holds(paths: &Vec<String>, path: &str) -> (found: bool)
    ensures
        found == holds_path(texts(paths@), path@),
{
    let mut i: usize = 0;
    while i < paths.len()
        invariant
            i <= paths@.len(),
            forall|j: int| 0 <= j < i ==> !path_equals(#[trigger] texts(paths@)[j], path@),
        decreases paths@.len() - i,
    {
        if paths_equal(paths[i].as_str(), path) {
            assert(path_equals(texts(paths@)[i as int], path@));
            return true;
        }
        i = i + 1;
    }
    false
}

/// Adds `path` to `paths` unless it holds it already.
fn add_path(paths: &mut Vec<String>, path: String)
    ensures
        texts(final(paths)@) == with_path(texts(old(paths)@), path@),
{
    if !holds(paths, path.as_str()) {
        paths.push(path);
        assert(texts(paths@) =~= texts(old(paths)@).push(path@));
    }
}

/// The text of the path a file URI locates, if it is a local UTF-8 path.
fn uri_path(uri: &str) -> (path: Option<String>)
    ensures
        match path {
            Some(p) => uri_path_text(uri@) == Some(p@),
            None => uri_path_text(uri@) is None,
        },
{
    match file_uri_to_path(uri) {
        Some(bytes) => utf8_text(bytes),
        None => None,
    }
}

/// Whether `path` lies in one of `roots`.
fn in_a_root(path: &str, roots: &Vec<String>) -> (inside: bool)
    ensures
        inside == under_a_root(path@, texts(roots@)),
{
    let mut i: usize = 0;
    while i < roots.len()
        invariant
            i <= roots@.len(),
            forall|j: int| 0 <= j < i ==> !path_starts_with(path@, #[trigger] texts(roots@)[j]),
        decreases roots@.len() - i,
    {
        if starts_with(path, roots[i].as_str()) {
            assert(path_starts_with(path@, texts(roots@)[i as int]));
            return true;
        }
        i = i + 1;
    }
    false
}

/// The startup decisions, from the configured music locations, the
/// command-line paths (canonical path, is a folder, is a file), the recently
/// played URIs and the catalogued tracks (URI, whether its file exists).
/// Home opens when there is neither a music location nor a track.
pub fn startup_plan(
    roots: &[String],
    args: &[(String, bool, bool)],
    recent_uris: &[String],
    tracks: &[(String, bool)],
) -> (plan: StartupPlan)
    ensures
        texts(plan.roots@) == roots_after(texts(roots@), arguments_view(args@)),
        match first_playable(arguments_view(args@)) {
            Some(path) => plan.autoplay_uri matches Some(u) && u@ == ascii_text(
                file_uri_bytes(encode_utf8(path)),
            ),
            None => plan.autoplay_uri is None,
        },
        texts(plan.scan@) == scan_paths(
            texts(roots@),
            arguments_view(args@),
            texts(recent_uris@),
            tracks_view(tracks@),
        ),
        plan.first_view == (if plan.roots@.len() == 0 && tracks@.len() == 0 {
            pages::View::Home
        } else {
            pages::View::Library
        }),
{
    let ghost argv = arguments_view(args@);
    let mut all: Vec<String> = Vec::new();
    let mut i: usize = 0;
    while i < roots.len()
        invariant
            i <= roots@.len(),
            texts(all@) == texts(roots@).take(i as int),
        decreases roots@.len() - i,
    {
        let ghost before = all@;
        let root = roots[i].clone();
        all.push(root);
        proof {
            lemma_texts_push(before, root);
        }
        assert(texts(all@) =~= texts(roots@).take(i + 1));
        i = i + 1;
    }
    assert(texts(roots@).take(roots@.len() as int) =~= texts(roots@));
    let mut autoplay: Option<String> = None;
    let mut files: Vec<String> = Vec::new();
    let mut k: usize = 0;
    while k < args.len()
        invariant
            argv == arguments_view(args@),
            k <= args@.len(),
            texts(all@) == roots_after(texts(roots@), argv.take(k as int)),
            texts(files@) == file_arguments(argv.take(k as int)),
            match first_playable(argv.take(k as int)) {
                Some(path) => autoplay matches Some(u) && u@ == ascii_text(
                    file_uri_bytes(encode_utf8(path)),
                ),
                None => autoplay is None,
            },
        decreases args@.len() - k,
    {
        let ghost prefix = argv.take(k + 1);
        assert(prefix.drop_last() =~= argv.take(k as int));
        assert(prefix.last() == argv[k as int]);
        let (path, is_dir, is_file) = (&args[k].0, args[k].1, args[k].2);
        assert(argv[k as int] == (path@, is_dir, is_file));
        if is_dir {
            add_path(&mut all, path.clone());
        }
        if is_file {
            files.push(path.clone());
            assert(texts(files@) =~= file_arguments(argv.take(k as int)).push(path@));
        }
        if autoplay.is_none() && !is_dir && is_supported_audio(path.as_str()) {
            autoplay = Some(path_to_file_uri(path.as_str().as_bytes()));
        }
        k = k + 1;
    }
    assert(argv.take(args@.len() as int) =~= argv);
    let mut candidates: Vec<String> = all.clone();
    assert(texts(candidates@) == texts(all@));
    let ghost all_view = texts(all@);
    let mut f: usize = 0;
    while f < files.len()
        invariant
            f <= files@.len(),
            texts(candidates@) == all_view + texts(files@).take(f as int),
        decreases files@.len() - f,
    {
        let ghost before = candidates@;
        let file = files[f].clone();
        candidates.push(file);
        proof {
            lemma_texts_push(before, file);
        }
        assert(texts(candidates@) =~= all_view + texts(files@).take(f + 1));
        f = f + 1;
    }
    assert(texts(files@).take(files@.len() as int) =~= texts(files@));
    let ghost with_files = texts(candidates@);
    let ghost recent_view = texts(recent_uris@);
    let mut r: usize = 0;
    while r < recent_uris.len()
        invariant
            r <= recent_uris@.len(),
            recent_view == texts(recent_uris@),
            texts(candidates@) == with_files + recent_paths(recent_view.take(r as int)),
        decreases recent_uris@.len() - r,
    {
        assert(recent_view.take(r + 1).drop_last() =~= recent_view.take(r as int));
        assert(recent_view.take(r + 1).last() == recent_uris@[r as int]@);
        let ghost before = texts(candidates@);
        if let Some(path) = uri_path(recent_uris[r].as_str()) {
            candidates.push(path);
            assert(texts(candidates@) =~= before.push(path@));
        }
        assert(texts(candidates@) =~= with_files + recent_paths(recent_view.take(r + 1)));
        r = r + 1;
    }
    assert(recent_view.take(recent_uris@.len() as int) =~= recent_view);
    let ghost with_recent = texts(candidates@);
    let ghost tracks_v = tracks_view(tracks@);
    let mut t: usize = 0;
    while t < tracks.len()
        invariant
            t <= tracks@.len(),
            tracks_v == tracks_view(tracks@),
            texts(all@) == all_view,
            texts(candidates@) == with_recent + outside_track_paths(tracks_v.take(t as int), all_view),
        decreases tracks@.len() - t,
    {
        assert(tracks_v.take(t + 1).drop_last() =~= tracks_v.take(t as int));
        assert(tracks_v.take(t + 1).last() == (tracks@[t as int].0@, tracks@[t as int].1));
        let ghost before = texts(candidates@);
        if let Some(path) = uri_path(tracks[t].0.as_str()) {
            if tracks[t].1 && !in_a_root(path.as_str(), &all) {
                candidates.push(path);
                assert(texts(candidates@) =~= before.push(path@));
            }
        }
        assert(texts(candidates@) =~= with_recent + outside_track_paths(tracks_v.take(t + 1), all_view));
        t = t + 1;
    }
    assert(tracks_v.take(tracks@.len() as int) =~= tracks_v);
    let ghost everything = texts(candidates@);
    let mut scan: Vec<String> = Vec::new();
    let mut c: usize = 0;
    while c < candidates.len()
        invariant
            c <= candidates@.len(),
            everything == texts(candidates@),
            texts(scan@) == distinct_paths(everything.take(c as int)),
        decreases candidates@.len() - c,
    {
        assert(everything.take(c + 1).drop_last() =~= everything.take(c as int));
        add_path(&mut scan, candidates[c].clone());
        c = c + 1;
    }
    assert(everything.take(candidates@.len() as int) =~= everything);
    let first_view = if all.len() == 0 && tracks.len() == 0 {
        pages::View::Home
    } else {
        pages::View::Library
    };
    StartupPlan { roots: all, autoplay_uri: autoplay, scan, first_view }
}

/// The command-line arguments as plain values.
pub open spec fn arguments_view(args: Seq<(String, bool, bool)>) -> Seq<(Seq<char>, bool, bool)> {
    args.map_values(|a: (String, bool, bool)| (a.0@, a.1, a.2))
}

/// The catalogued tracks as plain values.
pub open spec fn tracks_view(tracks: Seq<(String, bool)>) -> Seq<(Seq<char>, bool)> {
    tracks.map_values(|t: (String, bool)| (t.0@, t.1))
}

} // verus!
