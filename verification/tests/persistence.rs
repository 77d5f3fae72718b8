use wavora::config::{
    adopt_legacy_state, adopt_legacy_user_data, invalid_backup_candidate, legacy_persistence,
    recovered_paths, AppState, LoadOutcome, PersistenceStore, PlaylistDisplay, UserData,
    MAX_RECENT_URIS, STATE_VERSION, USER_DATA_VERSION,
};

fn strings(items: &[&str]) -> Vec<String> {
    items.iter().map(|item| (*item).to_owned()).collect()
}

#[test]
fn restart_state_keeps_first_occurrences_and_caps_the_list() {
    let mut uris: Vec<String> = (0..50).map(|i| format!("file:///music/{i}.flac")).collect();
    uris.insert(1, "file:///music/0.flac".to_owned());
    let mut state = AppState {
        version: 0,
        recent_uris: uris,
        last_track_uri: Some("file:///music/0.flac".to_owned()),
    };
    state.normalize();
    assert_eq!(state.version, STATE_VERSION);
    assert_eq!(state.recent_uris.len(), MAX_RECENT_URIS);
    assert_eq!(state.recent_uris[0], "file:///music/0.flac");
    assert_eq!(state.recent_uris[1], "file:///music/1.flac");
    let once = state.recent_uris.clone();
    state.normalize();
    assert_eq!(state.recent_uris, once);
}

#[test]
fn remembering_a_uri_moves_it_to_the_front() {
    let mut state = AppState::default();
    state.recent_uris = strings(&["b", "a", "c"]);
    state.remember_uri("a");
    assert_eq!(state.recent_uris, strings(&["a", "b", "c"]));
    assert_eq!(state.last_track_uri.as_deref(), Some("a"));
    for i in 0..60 {
        state.remember_uri(&format!("u{i}"));
    }
    assert_eq!(state.recent_uris.len(), MAX_RECENT_URIS);
    assert_eq!(state.recent_uris[0], "u59");
    assert!(!state.is_empty());
    assert!(AppState::default().is_empty());
}

#[test]
fn favorites_are_sorted_without_duplicates() {
    let mut data = UserData {
        version: 7,
        favorite_uris: strings(&["b", "a", "b", "ab", "", "a"]),
    };
    data.normalize();
    assert_eq!(data.version, USER_DATA_VERSION);
    assert_eq!(data.favorite_uris, strings(&["", "a", "ab", "b"]));
    let mut unicode = UserData {
        version: 1,
        favorite_uris: strings(&["é", "z", "e"]),
    };
    unicode.normalize();
    let mut expected = strings(&["é", "z", "e"]);
    expected.sort();
    assert_eq!(unicode.favorite_uris, expected);
    assert!(UserData::default().is_empty());
}

#[test]
fn the_store_keeps_its_three_paths_and_puts_the_catalog_beside_user_data() {
    let store = PersistenceStore::at(
        "/c/wavora/config.json".to_owned(),
        "/s/wavora/state.json".to_owned(),
        "/d/wavora/favorites.json".to_owned(),
    );
    assert_eq!(store.config_path(), "/c/wavora/config.json");
    assert_eq!(store.state_path(), "/s/wavora/state.json");
    assert_eq!(store.user_data_path(), "/d/wavora/favorites.json");
    assert_eq!(store.catalog_path(), "/d/wavora/library.sqlite3");
}

#[test]
fn invalid_files_are_moved_to_numbered_backups() {
    assert_eq!(invalid_backup_candidate("/s/state.json", 0), "/s/state.json.invalid");
    assert_eq!(invalid_backup_candidate("/s/state.json", 1), "/s/state.json.invalid.1");
    assert_eq!(invalid_backup_candidate("/s/state.json", 12), "/s/state.json.invalid.12");
}

#[test]
fn legacy_configuration_migrates_only_into_missing_files() {
    let (state, data) = legacy_persistence(
        strings(&["r", "r", "s"]),
        Some("r".to_owned()),
        strings(&["f2", "f1"]),
    );
    assert_eq!(state.recent_uris, strings(&["r", "s"]));
    assert_eq!(data.favorite_uris, strings(&["f1", "f2"]));

    let loaded = AppState::default();
    let (kept, migrated) = adopt_legacy_state(&LoadOutcome::Missing, loaded.clone(), state.clone());
    assert!(migrated);
    assert_eq!(kept.recent_uris, state.recent_uris);
    let (kept, migrated) = adopt_legacy_state(&LoadOutcome::Loaded, loaded, state);
    assert!(!migrated);
    assert!(kept.recent_uris.is_empty());

    let (kept, migrated) =
        adopt_legacy_user_data(&LoadOutcome::Recovered("x".to_owned()), UserData::default(), data.clone());
    assert!(migrated);
    assert_eq!(kept.favorite_uris, data.favorite_uris);
    let (_, migrated) =
        adopt_legacy_user_data(&LoadOutcome::Missing, UserData::default(), UserData::default());
    assert!(!migrated);
}

#[test]
fn only_recovered_files_are_reported() {
    let outcomes = vec![
        LoadOutcome::Loaded,
        LoadOutcome::Recovered("/a.json.invalid".to_owned()),
        LoadOutcome::Missing,
        LoadOutcome::Recovered("/b.json.invalid.1".to_owned()),
    ];
    assert!(LoadOutcome::Loaded.was_loaded());
    assert!(!LoadOutcome::Missing.was_loaded());
    assert_eq!(
        recovered_paths(outcomes),
        strings(&["/a.json.invalid", "/b.json.invalid.1"])
    );
    assert_eq!(PlaylistDisplay::default(), PlaylistDisplay::List);
}
