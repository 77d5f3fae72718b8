use wavora::pages::View;
use wavora::startup::startup_plan;
use wavora::audio::{after_position, load_started, on_outcome, poll, PipelineOutcome, WorkerReport, WorkerState};
use wavora::config::{AppState, UserData};
use wavora::i18n::Key;
use wavora::ids::TrackId;
use wavora::library_events::{forget_imported, scan_summary, LegacyImport, ScanProgress};
use wavora::library_view::{queue_items, replace_tracks, sort_tracks, track_index, upsert_track, visible_track_indices};
use wavora::playback::PlaybackState;
use wavora::track::Track;
use wavora::ui::command_line_preset;
use wavora::transport::{previous_restarts, toggle_playback_action, ToggleAction};
use wavora::ids::PlaylistId;
use wavora::playback::PlaybackMode;
use wavora::playlist_view::playlist_queue;
use wavora::playlist_view::request_delete;
use wavora::playlist_view::{move_target, row_after_append, row_after_removal};
use wavora::transport::{mode_change, toggled_mode};

fn track(artist: &str, title: &str, album: &str) -> Track {
    Track {
        id: TrackId::new(),
        uri: format!("file:///music/{artist}-{title}"),
        title: title.to_owned(),
        artist: artist.to_owned(),
        album: album.to_owned(),
        duration_ms: 1_000,
        codec: "FLAC".to_owned(),
        favorite: false,
        available: true,
    }
}

#[test]
fn tracks_sort_by_artist_then_title_ignoring_case() {
    let mut tracks = vec![
        track("beta", "Song", "A"),
        track("Alpha", "zeta", "A"),
        track("alpha", "Eta", "A"),
    ];
    sort_tracks(&mut tracks);
    let order: Vec<(&str, &str)> = tracks.iter().map(|t| (t.artist.as_str(), t.title.as_str())).collect();
    assert_eq!(order, vec![("alpha", "Eta"), ("Alpha", "zeta"), ("beta", "Song")]);
}

#[test]
fn search_matches_title_artist_or_album_ignoring_case() {
    let mut tracks = vec![
        track("Porter Robinson", "Look at the Sky", "Nurture"),
        track("Other", "Song", "Nurture"),
        track("Someone", "Else", "Album"),
    ];
    tracks[2].favorite = true;
    assert_eq!(visible_track_indices(&tracks, "SKY", false), vec![0]);
    assert_eq!(visible_track_indices(&tracks, "nurt", false), vec![0, 1]);
    assert_eq!(visible_track_indices(&tracks, "", false), vec![0, 1, 2]);
    assert_eq!(visible_track_indices(&tracks, "", true), vec![2]);
    assert_eq!(visible_track_indices(&tracks, "sky", true), Vec::<usize>::new());
}

#[test]
fn upserting_replaces_by_identity_and_keeps_the_current_track() {
    let mut tracks = vec![track("b", "1", "x"), track("c", "2", "x")];
    sort_tracks(&mut tracks);
    let current = tracks[1].id;
    let mut edited = tracks[0].clone();
    edited.artist = "z".to_owned();
    let index = upsert_track(&mut tracks, edited.clone(), Some(current));
    assert_eq!(tracks.len(), 2);
    assert_eq!(tracks[1].id, edited.id);
    assert_eq!(index, Some(0));
    let added = track("a", "0", "x");
    let index = upsert_track(&mut tracks, added.clone(), Some(current));
    assert_eq!(tracks.len(), 3);
    assert_eq!(tracks[0].id, added.id);
    assert_eq!(index, Some(1));
    assert_eq!(track_index(&tracks, added.id), Some(0));
    let fresh = vec![track("q", "1", "x")];
    assert_eq!(replace_tracks(&mut tracks, fresh, Some(current)), None);
    assert_eq!(tracks.len(), 1);
}

#[test]
fn queue_rows_skip_tracks_no_longer_listed() {
    let tracks = vec![track("a", "1", "x"), track("b", "2", "x")];
    let gone = TrackId::new();
    let rows = queue_items(&[(4, tracks[1].id), (5, gone), (6, tracks[0].id)], &tracks);
    assert_eq!(rows, vec![(4, 1), (6, 0)]);
}

#[test]
fn the_worker_reports_each_end_of_stream_once() {
    let state = WorkerState::initial();
    assert_eq!(load_started(), WorkerReport::State(PlaybackState::Buffering));
    let (state, report) = on_outcome(state, PipelineOutcome::Opened { ok: true });
    assert_eq!(report, Some(WorkerReport::State(PlaybackState::Playing)));
    let (state, report) = on_outcome(state, PipelineOutcome::EndOfStreamMessage);
    assert_eq!(report, Some(WorkerReport::EndOfStream));
    assert_eq!(state.requested, PlaybackState::Stopped);
    let (_, report) = on_outcome(state, PipelineOutcome::EndOfStreamMessage);
    assert_eq!(report, None);
    let (state, _) = on_outcome(state, PipelineOutcome::Sought { ok: true });
    assert!(!state.eos_reported);
}

#[test]
fn the_worker_ends_a_track_by_position_near_its_duration() {
    let (state, _) = on_outcome(WorkerState::initial(), PipelineOutcome::Opened { ok: true });
    let (same, ended) = after_position(state, 9_979, 10_000);
    assert!(!ended);
    assert_eq!(same, state);
    let (state, ended) = after_position(state, 9_980, 10_000);
    assert!(ended);
    assert!(state.eos_reported);
    let (_, ended) = after_position(state, 10_000, 10_000);
    assert!(!ended);
    let (paused, report) = on_outcome(WorkerState::initial(), PipelineOutcome::Switched { playing: false, ok: true });
    assert_eq!(report, None);
    assert_eq!(paused, WorkerState::initial());
    let mut ticking = WorkerState::initial();
    let mut positions = 0;
    for _ in 0..12 {
        let (next, query) = poll(ticking);
        ticking = next;
        if query {
            positions += 1;
        }
    }
    assert_eq!(positions, 2);
    let (failed, report) = on_outcome(WorkerState::initial(), PipelineOutcome::Opened { ok: false });
    assert_eq!(report, Some(WorkerReport::Error));
    assert!(!failed.has_playback);
}

#[test]
fn scan_progress_counts_running_scans() {
    let progress = ScanProgress::idle().started().started();
    assert_eq!(progress.active_scans, 2);
    let progress = progress.finished();
    assert!(progress.scanning);
    let progress = progress.finished().finished();
    assert_eq!(progress.active_scans, 0);
    assert!(!progress.scanning);
    assert!(!ScanProgress::idle().started().failed().scanning);
    assert_eq!(scan_summary(3, 1), Some((1, Key::ScanSummary, true)));
    assert_eq!(scan_summary(3, 0), Some((3, Key::AddedTracks, false)));
    assert_eq!(scan_summary(0, 0), None);
}

#[test]
fn legacy_state_moves_into_the_catalog_once() {
    let mut state = AppState {
        version: 1,
        recent_uris: vec!["a".to_owned(), "b".to_owned(), "a".to_owned()],
        last_track_uri: Some("a".to_owned()),
    };
    let mut data = UserData {
        version: 1,
        favorite_uris: vec!["a".to_owned(), "c".to_owned()],
    };
    let plan = LegacyImport::plan(&state, &data, "a");
    assert_eq!(plan, LegacyImport { favorite: true, last: true, recent_rank: Some(0) });
    assert!(plan.is_needed());
    assert!(forget_imported(&mut state, &mut data, "a", plan));
    assert_eq!(state.recent_uris, vec!["b".to_owned()]);
    assert_eq!(state.last_track_uri, None);
    assert_eq!(data.favorite_uris, vec!["c".to_owned()]);
    let plan = LegacyImport::plan(&state, &data, "z");
    assert!(!plan.is_needed());
    assert!(!forget_imported(&mut state, &mut data, "z", plan));
}

#[test]
fn the_preset_argument_is_read_modulo_the_effect_count() {
    let args = |items: &[&str]| items.iter().map(|s| (*s).to_owned()).collect::<Vec<String>>();
    assert_eq!(command_line_preset(&args(&["wavora", "--preset=3"])), Some(3));
    assert_eq!(command_line_preset(&args(&["--preset=13"])), Some(2));
    assert_eq!(command_line_preset(&args(&["--preset=+4"])), Some(4));
    assert_eq!(command_line_preset(&args(&["--preset=x", "--preset=5"])), Some(5));
    assert_eq!(command_line_preset(&args(&["--preset="])), None);
    assert_eq!(command_line_preset(&args(&["--preset=-1"])), None);
    assert_eq!(command_line_preset(&args(&["--preset=99999999999999999999999"])), None);
    assert_eq!(command_line_preset(&args(&["--visuals"])), None);
}

#[test]
fn play_pause_starts_resumes_or_pauses() {
    assert_eq!(toggle_playback_action(None, 0, false, PlaybackState::Stopped), ToggleAction::Nothing);
    assert_eq!(toggle_playback_action(None, 3, false, PlaybackState::Stopped), ToggleAction::PlayIndex(0));
    assert_eq!(toggle_playback_action(Some(2), 3, false, PlaybackState::Stopped), ToggleAction::PlayIndex(2));
    assert_eq!(toggle_playback_action(Some(2), 3, true, PlaybackState::Playing), ToggleAction::Pause);
    assert_eq!(toggle_playback_action(Some(2), 3, true, PlaybackState::Paused), ToggleAction::Resume);
    assert!(previous_restarts(4_001));
    assert!(!previous_restarts(4_000));
}

#[test]
fn playlist_rows_queue_only_playable_tracks() {
    let library = vec![track("a", "1", "x"), track("b", "2", "x")];
    let mut missing = track("c", "3", "x");
    missing.available = false;
    let stranger = track("d", "4", "x");
    let rows = vec![library[1].clone(), missing, stranger, library[0].clone(), library[1].clone()];
    let (queue, position) = playlist_queue(&rows, &library, 3).expect("playable row");
    assert_eq!(queue, vec![library[1].id, library[0].id, library[1].id]);
    assert_eq!(position, 1);
    assert!(playlist_queue(&rows, &library, 1).is_none());
    assert!(playlist_queue(&rows, &library, 2).is_none());
    assert!(playlist_queue(&rows, &library, 9).is_none());
}

#[test]
fn playlist_selection_follows_edits() {
    assert_eq!(move_target(2, -1, 5), Some(1));
    assert_eq!(move_target(0, -1, 5), None);
    assert_eq!(move_target(4, 1, 5), None);
    assert_eq!(move_target(1, isize::MAX, 5), Some(4));
    assert_eq!(move_target(3, isize::MIN, 5), Some(0));
    assert_eq!(row_after_removal(3, 4), Some(2));
    assert_eq!(row_after_removal(0, 2), Some(0));
    assert_eq!(row_after_removal(0, 0), None);
    assert_eq!(row_after_append(3), Some(2));
    assert_eq!(row_after_append(0), None);
}

#[test]
fn deleting_a_playlist_needs_a_confirmation_within_four_seconds() {
    let first = PlaylistId::new();
    let second = PlaylistId::new();
    let mut pending = None;
    assert!(!request_delete(&mut pending, first, 1_000));
    assert!(!request_delete(&mut pending, second, 2_000));
    assert!(request_delete(&mut pending, second, 5_999));
    assert_eq!(pending, None);
    assert!(!request_delete(&mut pending, first, 10_000));
    assert!(!request_delete(&mut pending, first, 14_000));
}

#[test]
fn mode_buttons_toggle_back_to_sequential() {
    assert_eq!(toggled_mode(PlaybackMode::Shuffle, PlaybackMode::Shuffle), PlaybackMode::Sequential);
    assert_eq!(toggled_mode(PlaybackMode::Sequential, PlaybackMode::RepeatOne), PlaybackMode::RepeatOne);
    assert_eq!(mode_change(PlaybackMode::Sequential, PlaybackMode::Shuffle), Some(true));
    assert_eq!(mode_change(PlaybackMode::Shuffle, PlaybackMode::RepeatOne), Some(false));
    assert_eq!(mode_change(PlaybackMode::RepeatOne, PlaybackMode::RepeatOne), None);
}

#[test]
fn startup_joins_folders_plays_the_first_file_and_scans_each_path_once() {
    let roots = vec!["/music".to_owned()];
    let args = vec![
        ("/music".to_owned(), true, false),
        ("/more".to_owned(), true, false),
        ("/tmp/song.flac".to_owned(), false, true),
        ("/tmp/notes.txt".to_owned(), false, true),
    ];
    let recent = vec!["file:///away/Hello%20World.flac".to_owned(), "http://x/y".to_owned()];
    let tracks = vec![
        ("file:///music/a.flac".to_owned(), true),
        ("file:///elsewhere/b.flac".to_owned(), true),
        ("file:///gone/c.flac".to_owned(), false),
        ("file:///tmp/song.flac".to_owned(), true),
    ];
    let plan = startup_plan(&roots, &args, &recent, &tracks);
    assert_eq!(plan.roots, vec!["/music".to_owned(), "/more".to_owned()]);
    assert_eq!(plan.autoplay_uri.as_deref(), Some("file:///tmp/song.flac"));
    assert_eq!(
        plan.scan,
        vec![
            "/music".to_owned(),
            "/more".to_owned(),
            "/tmp/song.flac".to_owned(),
            "/tmp/notes.txt".to_owned(),
            "/away/Hello World.flac".to_owned(),
            "/elsewhere/b.flac".to_owned(),
        ]
    );
    assert_eq!(plan.first_view, View::Library);
    let empty = startup_plan(&[], &[], &[], &[]);
    assert_eq!(empty.first_view, View::Home);
    assert_eq!(empty.autoplay_uri, None);
    assert!(empty.scan.is_empty());
}
