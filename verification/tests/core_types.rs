use wavora::ids::{PlaylistId, TrackId};
use wavora::lyrics::document::{
    LyricCue, LyricText, LyricTrack, LyricsDocument, LyricsFingerprint, LyricsMedia,
    LyricsMetadata, WAVORA_LYRICS_FORMAT, WAVORA_LYRICS_VERSION,
};
use wavora::lyrics::language::is_language_tag;
use wavora::playback::{PlaybackMode, PlaybackState};
use wavora::queue::{seed_from_clock, PlaybackQueue, FALLBACK_SEED};
use wavora::track::{format_duration, Track};

#[test]
fn formats_short_and_long_durations() {
    assert_eq!(format_duration(65_000), "1:05");
    assert_eq!(format_duration(3_661_000), "1:01:01");
}

#[test]
fn derives_artist_and_title_from_filename() {
    let track = Track::from_path(
        TrackId::new(),
        "file:///music/Porter%20Robinson%20-%20Look%20at%20the%20Sky.flac".to_owned(),
        "/music/Porter Robinson - Look at the Sky.flac",
    );
    assert_eq!(track.artist, "Porter Robinson");
    assert_eq!(track.title, "Look at the Sky");
}

#[test]
fn sequential_and_repeat_one_have_distinct_end_behavior() {
    let first = TrackId::new();
    let second = TrackId::new();
    let mut queue = PlaybackQueue::with_seed(vec![first, second], Some(0), 7);

    assert_eq!(queue.on_end(PlaybackMode::RepeatOne), Some(first));
    assert_eq!(queue.next(PlaybackMode::RepeatOne), Some(second));
    assert_eq!(queue.on_end(PlaybackMode::Sequential), None);
}

#[test]
fn shuffle_visits_every_position_before_repeating() {
    let entries = vec![TrackId::new(), TrackId::new(), TrackId::new()];
    let mut queue = PlaybackQueue::with_seed(entries.clone(), Some(0), 19);
    let mut heard = vec![queue.current().expect("current track")];
    heard.push(queue.next(PlaybackMode::Shuffle).expect("second track"));
    heard.push(queue.next(PlaybackMode::Shuffle).expect("third track"));

    heard.sort_by_key(|id| id.to_string());
    let mut expected = entries;
    expected.sort_by_key(|id| id.to_string());
    assert_eq!(heard, expected);
}

#[test]
fn starting_shuffle_after_sequential_progress_excludes_the_current_entry() {
    let entries = vec![TrackId::new(), TrackId::new(), TrackId::new()];
    let mut queue = PlaybackQueue::with_seed(entries, Some(0), 23);
    queue.next(PlaybackMode::Sequential).expect("second track");
    queue.restart_shuffle_cycle();

    let upcoming = queue.upcoming(PlaybackMode::Shuffle, 10);
    assert_eq!(upcoming.len(), 3);
    assert_eq!(
        upcoming
            .iter()
            .filter(|(position, _)| Some(*position) == queue.current_position())
            .count(),
        1
    );
}

#[test]
fn queue_positions_preserve_duplicate_playlist_entries() {
    let duplicate = TrackId::new();
    let last = TrackId::new();
    let mut queue = PlaybackQueue::with_seed(vec![duplicate, duplicate, last], Some(1), 3);

    assert_eq!(
        queue.upcoming(PlaybackMode::Sequential, 10),
        vec![(1, duplicate), (2, last)]
    );
    assert_eq!(queue.previous(PlaybackMode::Sequential), Some(duplicate));
    assert_eq!(queue.current_position(), Some(0));
}

fn text(kind: &str, language: Option<&str>, value: &str) -> LyricText {
    LyricText {
        kind: kind.to_owned(),
        language: language.map(str::to_owned),
        direction: None,
        text: value.to_owned(),
        segments: Vec::new(),
    }
}

fn sample_lyrics() -> LyricsDocument {
    LyricsDocument {
        schema: None,
        format: WAVORA_LYRICS_FORMAT.to_owned(),
        version: WAVORA_LYRICS_VERSION.to_owned(),
        required_features: vec!["multi-track".to_owned(), "text-variants".to_owned()],
        offset_ms: 100,
        media: Some(LyricsMedia {
            duration_ms: Some(5_000),
            fingerprints: Vec::new(),
        }),
        metadata: LyricsMetadata {
            title: Some("Test".to_owned()),
            ..LyricsMetadata::default()
        },
        tracks: vec![
            LyricTrack {
                id: "main".to_owned(),
                role: "main".to_owned(),
                label: None,
                language: Some("en".to_owned()),
                direction: None,
            },
            LyricTrack {
                id: "backing".to_owned(),
                role: "background".to_owned(),
                label: None,
                language: Some("zh-Hans".to_owned()),
                direction: None,
            },
        ],
        cues: vec![
            LyricCue {
                id: "cue-1".to_owned(),
                track_id: "main".to_owned(),
                start_ms: 1_000,
                end_ms: Some(2_000),
                texts: vec![text("original", None, "First")],
            },
            LyricCue {
                id: "cue-2".to_owned(),
                track_id: "backing".to_owned(),
                start_ms: 1_500,
                end_ms: Some(2_500),
                texts: vec![text("original", None, "背景")],
            },
            LyricCue {
                id: "cue-3".to_owned(),
                track_id: "main".to_owned(),
                start_ms: 3_000,
                end_ms: None,
                texts: vec![
                    text("original", None, "Second"),
                    text("translation", Some("zh-Hans"), "第二句"),
                ],
            },
        ],
    }
}

#[test]
fn lyrics_validate_multi_track_overlap_and_respect_offset() {
    let lyrics = sample_lyrics();

    lyrics.validate().expect("valid lyrics");
    assert!(lyrics.active_cue_indices(1_099).is_empty());
    assert_eq!(lyrics.active_cue_indices(1_100), vec![0]);
    assert_eq!(lyrics.active_cue_indices(1_600), vec![0, 1]);
    assert_eq!(lyrics.active_cue_indices(2_200), vec![1]);
    assert_eq!(lyrics.active_cue_indices(3_100), vec![2]);

    let mut same_track_overlap = lyrics.clone();
    same_track_overlap.cues[1].track_id = "main".to_owned();
    assert!(same_track_overlap.validate().is_err());

    let mut unknown_feature = lyrics.clone();
    unknown_feature.required_features = vec!["example:unknown".to_owned()];
    assert!(unknown_feature.validate().is_err());

    let mut fingerprint_bound = lyrics;
    fingerprint_bound
        .media
        .as_mut()
        .expect("media binding")
        .fingerprints
        .push(LyricsFingerprint {
            algorithm: "wavora-pcm-signature-v1".to_owned(),
            value: "ab".repeat(32),
        });
    assert!(fingerprint_bound
        .validate_media_binding(5_000, Some(&"ab".repeat(32)))
        .is_ok());
    assert!(fingerprint_bound
        .validate_media_binding(5_000, Some(&"cd".repeat(32)))
        .is_err());
    assert!(fingerprint_bound
        .validate_media_binding(8_000, Some(&"ab".repeat(32)))
        .is_err());
}

#[test]
fn language_tags_cover_scripts_extensions_private_use_and_grandfathered_tags() {
    assert!(is_language_tag("zh-Hans-CN"));
    assert!(is_language_tag("zh-cmn-Hans-CN"));
    assert!(is_language_tag("en-US-u-ca-gregory"));
    assert!(is_language_tag("x-wavora-test"));
    assert!(is_language_tag("i-klingon"));
    assert!(!is_language_tag("en_US"));
    assert!(!is_language_tag("en-u"));
    assert!(!is_language_tag("sl-rozaj-rozaj"));
}

#[test]
fn playing_state_is_only_playing() {
    assert!(PlaybackState::Playing.is_playing());
    assert!(!PlaybackState::Paused.is_playing());
    assert!(!PlaybackState::Buffering.is_playing());
    assert!(!PlaybackState::Stopped.is_playing());
}

#[test]
fn playback_modes_cycle_through_all_three() {
    assert_eq!(PlaybackMode::Sequential.next(), PlaybackMode::RepeatOne);
    assert_eq!(PlaybackMode::RepeatOne.next(), PlaybackMode::Shuffle);
    assert_eq!(PlaybackMode::Shuffle.next(), PlaybackMode::Sequential);
}

#[test]
fn identities_round_trip_through_their_text() {
    let id = TrackId::new();
    let text = id.to_string();
    assert_eq!(text.len(), 36);
    assert_eq!(TrackId::from_str(&text), Ok(id));
    let playlist = PlaylistId(0xa1a2_a3a4_b1b2_c1c2_d1d2_d3d4_d5d6_d7d8);
    assert_eq!(playlist.to_string(), "a1a2a3a4-b1b2-c1c2-d1d2-d3d4d5d6d7d8");
    assert!(TrackId::from_str("not a uuid").is_err());
}

#[test]
fn new_identities_are_random_version_four() {
    let id = TrackId::new();
    assert_eq!((id.0 >> 76) & 0xf, 4);
    assert_eq!((id.0 >> 62) & 0x3, 2);
    assert_ne!(TrackId::new(), TrackId::new());
}

#[test]
fn durations_of_an_hour_or_more_show_hours() {
    assert_eq!(format_duration(0), "0:00");
    assert_eq!(format_duration(59_999), "0:59");
    assert_eq!(format_duration(3_600_000), "1:00:00");
    assert_eq!(format_duration(36_000_000), "10:00:00");
}

#[test]
fn filenames_without_separator_keep_unknown_artist() {
    let track = Track::from_path(TrackId::new(), "u".to_owned(), "/music/ Only Title .mp3");
    assert_eq!(track.artist, "Unknown artist");
    assert_eq!(track.title, "Only Title");
    assert_eq!(track.album, "Local music");
    assert_eq!(track.codec, "Audio");
    assert_eq!(track.duration_ms, 0);
    assert!(!track.favorite);
    assert!(track.available);
}

#[test]
fn shuffled_previous_returns_to_the_track_heard_before() {
    let entries = vec![TrackId::new(), TrackId::new(), TrackId::new(), TrackId::new()];
    let mut queue = PlaybackQueue::with_seed(entries.clone(), Some(2), 5);
    let next = queue.next(PlaybackMode::Shuffle);
    assert!(next.is_some());
    assert_ne!(queue.current_position(), Some(2));
    assert_eq!(queue.previous(PlaybackMode::Shuffle), Some(entries[2]));
    assert_eq!(queue.current_position(), Some(2));
}

#[test]
fn a_full_shuffle_cycle_hears_every_other_position_once() {
    let entries: Vec<TrackId> = (0..7).map(|_| TrackId::new()).collect();
    let mut queue = PlaybackQueue::with_seed(entries, Some(3), 11);
    let mut positions = vec![queue.current_position().expect("cursor")];
    for _ in 0..6 {
        queue.next(PlaybackMode::Shuffle).expect("next");
        positions.push(queue.current_position().expect("cursor"));
    }
    positions.sort_unstable();
    assert_eq!(positions, vec![0, 1, 2, 3, 4, 5, 6]);
}

#[test]
fn only_declared_pcm_signatures_need_the_track_signature() {
    let mut lyrics = sample_lyrics();
    assert!(!lyrics.needs_pcm_signature());
    lyrics.media.as_mut().expect("media").fingerprints.push(LyricsFingerprint {
        algorithm: "other".to_owned(),
        value: "x".to_owned(),
    });
    assert!(!lyrics.needs_pcm_signature());
    lyrics.media.as_mut().expect("media").fingerprints.push(LyricsFingerprint {
        algorithm: "wavora-pcm-signature-v1".to_owned(),
        value: "ab".repeat(32),
    });
    assert!(lyrics.needs_pcm_signature());
    lyrics.media = None;
    assert!(!lyrics.needs_pcm_signature());
}

#[test]
fn a_seed_fixes_the_shuffle_order() {
    let entries: Vec<TrackId> = (0..5).map(|_| TrackId::new()).collect();
    let queue = PlaybackQueue::with_seed(entries.clone(), Some(0), 7);
    let order: Vec<usize> = queue
        .upcoming(PlaybackMode::Shuffle, 10)
        .into_iter()
        .map(|(position, _)| position)
        .collect();
    assert_eq!(order, vec![0, 4, 1, 2, 3]);
    let again = PlaybackQueue::with_seed(entries.clone(), Some(2), 42);
    let order: Vec<usize> = again
        .upcoming(PlaybackMode::Shuffle, 10)
        .into_iter()
        .map(|(position, _)| position)
        .collect();
    assert_eq!(order, vec![2, 3, 1, 0, 4]);
}

#[test]
fn the_clock_seed_falls_back_to_seconds_and_a_fixed_value() {
    assert_eq!(seed_from_clock(None), FALLBACK_SEED);
    assert_eq!(seed_from_clock(Some((1, 5))), 1_000_000_005);
    assert_eq!(seed_from_clock(Some((u64::MAX, 0))), u64::MAX);
}

#[test]
fn validation_errors_name_the_first_broken_field() {
    let lyrics = sample_lyrics();
    let message = |document: &LyricsDocument| document.validate().expect_err("invalid").to_string();

    let mut overlap = lyrics.clone();
    overlap.cues[1].track_id = "main".to_owned();
    assert_eq!(message(&overlap), "cues[0] overlaps cues[1] on track \"main\"");

    let mut duplicate = lyrics.clone();
    duplicate.cues[2].id = "cue-1".to_owned();
    assert_eq!(message(&duplicate), "cues contains duplicate id \"cue-1\"");

    let mut unknown = lyrics.clone();
    unknown.required_features = vec!["example:unknown".to_owned()];
    assert_eq!(message(&unknown), "required feature \"example:unknown\" is not supported");

    let mut blank = lyrics.clone();
    blank.cues[2].texts[1].text = "  ".to_owned();
    assert_eq!(message(&blank), "cues[2].texts[1].text must not be empty");

    let mut late = lyrics.clone();
    late.cues[2].start_ms = 6_000;
    assert_eq!(message(&late), "cues[2] extends past media.duration_ms");

    let mut format = lyrics;
    format.format = "other".to_owned();
    assert_eq!(message(&format), "format must be \"wavora-lyrics\"");
}
