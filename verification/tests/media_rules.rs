use wavora::lyrics::document::WAVORA_LYRICS_VERSION;
use wavora::lyrics::legacy::{LegacyLyricLine, LegacyLyricWord, LegacyLyricsDocument, LegacyLyricsMetadata};
use wavora::lyrics::sidecar::lyric_sidecar_paths;
use wavora::media::{
    cached_audio_evidence, codec_label, is_supported_audio, non_empty_tag, sidecar_rank,
    media_type_for_extension, AcousticFingerprint, CachedAudioEvidence, EmbeddedMetadata,
    FileIdentity, MetadataTag, StandardTag,
};
use wavora::media::sidecar_candidates;
use wavora::media::{artwork_from_revision, load_artwork, ArtworkData, EmbeddedVisual};
use wavora::media::{artwork_from_visual, front_cover_or_first, sidecar_artwork_readable, sidecar_media_type, MAX_ARTWORK_BYTES};
use wavora::ids::TrackId;
use wavora::media::{apply_embedded_metadata, remember_audio_evidence};
use wavora::track::Track;
use wavora::lyrics::sidecar::{accept_sidecar, check_lyrics_size, LyricsLoadError, ParsedLyrics, MAX_LYRICS_FILE_BYTES};

#[test]
fn recognizes_supported_extensions_case_insensitively() {
    assert!(is_supported_audio("track.FLAC"));
    assert!(!is_supported_audio("cover.png"));
    assert!(!is_supported_audio("unsupported.opus"));
}

#[test]
fn reuses_signature_only_for_an_unchanged_file_observation() {
    let identity = FileIdentity {
        device: Some(1),
        inode: Some(2),
        size_bytes: 3,
        modified_ns: 4,
    };
    let cache = [CachedAudioEvidence {
        path: "/music/old.flac".to_owned(),
        file: identity,
        audio_signature: [5; 32],
        acoustic_fingerprint: Some(AcousticFingerprint::from_parts(1, vec![7; 200])),
    }];

    let reused = cached_audio_evidence(&cache, "/music/renamed.flac", identity).expect("reused");
    assert_eq!(reused.0, [5; 32]);
    assert_eq!(reused.1.algorithm(), 1);
    assert_eq!(reused.1.items(), &[7; 200][..]);
    assert!(cached_audio_evidence(
        &cache,
        "/music/old.flac",
        FileIdentity {
            modified_ns: 6,
            ..identity
        }
    )
    .is_none());

    let legacy_cache = [CachedAudioEvidence {
        acoustic_fingerprint: None,
        ..cache[0].clone()
    }];
    assert!(cached_audio_evidence(&legacy_cache, "/music/old.flac", identity).is_none());
    let stale_cache = [CachedAudioEvidence {
        acoustic_fingerprint: Some(AcousticFingerprint::from_parts(2, vec![7; 200])),
        ..cache[0].clone()
    }];
    assert!(cached_audio_evidence(&stale_cache, "/music/old.flac", identity).is_none());
}

#[test]
fn maps_standardized_metadata_fields() {
    let tags = vec![
        MetadataTag {
            standard: Some(StandardTag::TrackTitle),
            key: String::new(),
            text: Some("  Title  ".to_owned()),
        },
        MetadataTag {
            standard: Some(StandardTag::Artist),
            key: String::new(),
            text: Some("Artist".to_owned()),
        },
        MetadataTag {
            standard: Some(StandardTag::Album),
            key: String::new(),
            text: Some("Album".to_owned()),
        },
    ];
    let mut metadata = EmbeddedMetadata::new();
    metadata.absorb(&tags);

    assert_eq!(metadata.title.as_deref(), Some("Title"));
    assert_eq!(metadata.artist.as_deref(), Some("Artist"));
    assert_eq!(metadata.album.as_deref(), Some("Album"));
}

#[test]
fn riff_info_keys_fill_fields_once() {
    let mut metadata = EmbeddedMetadata::new();
    metadata.absorb_fallback_key(" INAM ", "Name".to_owned());
    metadata.absorb_fallback_key("title", "Ignored".to_owned());
    metadata.absorb_fallback_key("IART", "Artist".to_owned());
    metadata.absorb_fallback_key("comment", "Nothing".to_owned());
    assert_eq!(metadata.title.as_deref(), Some("Name"));
    assert_eq!(metadata.artist.as_deref(), Some("Artist"));
    assert_eq!(metadata.album, None);
}

#[test]
fn blank_tags_are_ignored() {
    assert_eq!(non_empty_tag(" \0 "), None);
    assert_eq!(non_empty_tag(" x "), Some("x".to_owned()));
}

#[test]
fn codec_labels_follow_the_extension() {
    assert_eq!(codec_label("a.FLAC"), "FLAC");
    assert_eq!(codec_label("a.mp3"), "MP3");
    assert_eq!(codec_label("a.m4a"), "AAC");
    assert_eq!(codec_label("a.aac"), "AAC");
    assert_eq!(codec_label("a.oga"), "Ogg Vorbis");
    assert_eq!(codec_label("a.wav"), "WAV");
    assert_eq!(codec_label("a.opus"), "Audio");
    assert_eq!(codec_label("noextension"), "Audio");
}

#[test]
fn sidecar_names_prioritize_the_full_audio_filename() {
    assert_eq!(
        lyric_sidecar_paths("/music/Signal.flac"),
        vec![
            "/music/Signal.flac.wlyric.json".to_owned(),
            "/music/Signal.wlyric.json".to_owned(),
        ]
    );
}

#[test]
fn artwork_sidecars_rank_track_specific_names_first() {
    let chars = |s: &str| s.chars().collect::<Vec<char>>();
    let track = chars("track");
    assert_eq!(sidecar_rank(&track, &chars("track.cover"), &chars("jpg")), Some(0));
    assert_eq!(sidecar_rank(&track, &chars("track"), &chars("png")), Some(1));
    assert_eq!(sidecar_rank(&track, &chars("cover"), &chars("png")), Some(2));
    assert_eq!(sidecar_rank(&track, &chars("folder"), &chars("webp")), Some(3));
    assert_eq!(sidecar_rank(&track, &chars("front"), &chars("jpeg")), Some(4));
    assert_eq!(sidecar_rank(&track, &chars("album"), &chars("jpg")), Some(5));
    assert_eq!(sidecar_rank(&track, &chars("cover"), &chars("gif")), None);
    assert_eq!(sidecar_rank(&track, &chars("back"), &chars("jpg")), None);
    assert_eq!(media_type_for_extension(&chars("jpeg")), Some("image/jpeg"));
    assert_eq!(media_type_for_extension(&chars("bmp")), None);
}

#[test]
fn legacy_line_documents_upgrade_to_tracks_texts_and_segments() {
    let legacy = LegacyLyricsDocument {
        format: "wavora-lyrics".to_owned(),
        version: 1,
        offset_ms: 0,
        metadata: LegacyLyricsMetadata {
            language: Some("en".to_owned()),
            author: Some("A".to_owned()),
            ..LegacyLyricsMetadata::default()
        },
        lines: vec![LegacyLyricLine {
            start_ms: 1_000,
            end_ms: Some(2_000),
            text: "Hello".to_owned(),
            translation: Some("你好".to_owned()),
            words: vec![LegacyLyricWord {
                start_ms: 1_000,
                end_ms: 1_900,
                text: "Hello".to_owned(),
            }],
        }],
    };
    let document = legacy.upgrade().expect("upgrade legacy lyrics");
    assert_eq!(document.version, WAVORA_LYRICS_VERSION);
    assert_eq!(document.tracks.len(), 1);
    assert_eq!(document.tracks[0].id, "main");
    assert_eq!(document.cues[0].texts.len(), 2);
    assert_eq!(document.cues[0].texts[0].segments.len(), 1);
    assert_eq!(document.cues[0].id, "legacy-00000");
    document.validate().expect("upgraded document is valid");
}

#[test]
fn legacy_documents_of_another_version_are_refused() {
    let legacy = LegacyLyricsDocument {
        format: "wavora-lyrics".to_owned(),
        version: 2,
        offset_ms: 0,
        metadata: LegacyLyricsMetadata::default(),
        lines: Vec::new(),
    };
    assert!(legacy.upgrade().is_err());
}

#[test]
fn artwork_candidates_are_ranked_then_ordered_by_path() {
    let entries: Vec<String> = [
        "/m/folder.png",
        "/m/Track.COVER.jpg",
        "/m/notes.txt",
        "/m/cover.png",
        "/m/album.webp",
        "/m/cover.jpg",
        "/m/track.png",
        "/m/random.jpg",
    ]
    .iter()
    .map(|s| (*s).to_owned())
    .collect();
    assert_eq!(
        sidecar_candidates("/m/Track.FLAC", &entries),
        vec![
            "/m/Track.COVER.jpg".to_owned(),
            "/m/track.png".to_owned(),
            "/m/cover.jpg".to_owned(),
            "/m/cover.png".to_owned(),
            "/m/folder.png".to_owned(),
            "/m/album.webp".to_owned(),
        ]
    );
}

#[test]
fn embedded_pictures_and_sidecar_files_are_bounded() {
    let art = artwork_from_visual("  ".to_owned(), vec![1, 2]).expect("small picture");
    assert_eq!(art.media_type, None);
    assert_eq!(art.bytes, vec![1, 2]);
    let art = artwork_from_visual("image/png".to_owned(), vec![3]).expect("small picture");
    assert_eq!(art.media_type.as_deref(), Some("image/png"));
    assert!(artwork_from_visual("image/png".to_owned(), vec![0; MAX_ARTWORK_BYTES as usize + 1]).is_none());
    assert_eq!(front_cover_or_first(&[false, true, true]), Some(1));
    assert_eq!(front_cover_or_first(&[false, false]), Some(0));
    assert_eq!(front_cover_or_first(&[]), None);
    assert!(sidecar_artwork_readable(true, MAX_ARTWORK_BYTES));
    assert!(!sidecar_artwork_readable(true, MAX_ARTWORK_BYTES + 1));
    assert!(!sidecar_artwork_readable(false, 1));
    assert_eq!(sidecar_media_type("/m/cover.JPG").as_deref(), Some("image/jpeg"));
    assert_eq!(sidecar_media_type("/m/cover.webp").as_deref(), Some("image/webp"));
    assert_eq!(sidecar_media_type("/m/cover.gif"), None);
}

#[test]
fn scanned_tracks_take_embedded_tags_and_the_cache_keeps_one_entry_per_path() {
    let mut track = Track::from_path(TrackId::new(), "u".to_owned(), "/m/A - B.flac");
    let embedded = EmbeddedMetadata { title: Some("Real".to_owned()), artist: None, album: Some("LP".to_owned()) };
    apply_embedded_metadata(embedded, &mut track);
    assert_eq!(track.title, "Real");
    assert_eq!(track.artist, "A");
    assert_eq!(track.album, "LP");

    let identity = FileIdentity { device: None, inode: None, size_bytes: 1, modified_ns: 2 };
    let entry = |path: &str, byte: u8| CachedAudioEvidence {
        path: path.to_owned(),
        file: identity,
        audio_signature: [byte; 32],
        acoustic_fingerprint: None,
    };
    let mut cache = vec![entry("/a", 1), entry("/b", 2), entry("/a", 3)];
    remember_audio_evidence(&mut cache, entry("/a", 4));
    let paths: Vec<(String, u8)> = cache.iter().map(|c| (c.path.clone(), c.audio_signature[0])).collect();
    assert_eq!(paths, vec![("/b".to_owned(), 2), ("/a".to_owned(), 4)]);
}

#[test]
fn decoded_sidecars_are_validated_after_upgrade() {
    let legacy = LegacyLyricsDocument {
        format: "wavora-lyrics".to_owned(),
        version: 1,
        offset_ms: 0,
        metadata: LegacyLyricsMetadata::default(),
        lines: vec![LegacyLyricLine {
            start_ms: 0,
            end_ms: None,
            text: "Hi".to_owned(),
            translation: None,
            words: Vec::new(),
        }],
    };
    let loaded = accept_sidecar("/m/x.wlyric.json".to_owned(), ParsedLyrics::Legacy(legacy.clone()))
        .expect("valid legacy sidecar");
    assert_eq!(loaded.path, "/m/x.wlyric.json");
    assert_eq!(loaded.document.cues.len(), 1);
    let mut broken = legacy;
    broken.version = 3;
    assert!(matches!(
        accept_sidecar("/m/x.wlyric.json".to_owned(), ParsedLyrics::Legacy(broken)),
        Err(LyricsLoadError::Validation { .. })
    ));
    let mut invalid = loaded.document.clone();
    invalid.tracks.clear();
    assert!(matches!(
        accept_sidecar("/m/y.json".to_owned(), ParsedLyrics::Current(invalid)),
        Err(LyricsLoadError::Validation { .. })
    ));
    assert!(check_lyrics_size(&"p".to_owned(), MAX_LYRICS_FILE_BYTES).is_ok());
    assert!(matches!(
        check_lyrics_size(&"p".to_owned(), MAX_LYRICS_FILE_BYTES + 1),
        Err(LyricsLoadError::TooLarge { .. })
    ));
}

fn picture(front_cover: bool, media_type: &str, data: Vec<u8>) -> EmbeddedVisual {
    EmbeddedVisual { front_cover, media_type: media_type.to_owned(), data }
}

#[test]
fn a_revision_offers_its_front_cover_or_its_first_picture() {
    let art = artwork_from_revision(vec![
        picture(false, "image/png", vec![1]),
        picture(true, "image/jpeg", vec![2]),
    ])
    .expect("front cover");
    assert_eq!(art.media_type.as_deref(), Some("image/jpeg"));
    assert_eq!(art.bytes, vec![2]);
    let art = artwork_from_revision(vec![picture(false, "", vec![3]), picture(false, "image/png", vec![4])])
        .expect("first picture");
    assert_eq!(art.media_type, None);
    assert_eq!(art.bytes, vec![3]);
    assert!(artwork_from_revision(Vec::new()).is_none());
    let oversized = vec![0; MAX_ARTWORK_BYTES as usize + 1];
    assert!(artwork_from_revision(vec![picture(true, "image/png", oversized), picture(false, "image/png", vec![5])]).is_none());
}

#[test]
fn embedded_artwork_wins_over_sidecar_images() {
    let sidecar = ArtworkData { media_type: Some("image/png".to_owned()), bytes: vec![9] };
    let from_container = load_artwork(
        Some(vec![picture(true, "image/jpeg", vec![1])]),
        Some(vec![picture(true, "image/jpeg", vec![2])]),
        Some(sidecar.clone()),
    );
    assert_eq!(from_container.map(|a| a.bytes), Some(vec![1]));
    let from_stream = load_artwork(Some(Vec::new()), Some(vec![picture(false, "image/jpeg", vec![2])]), Some(sidecar.clone()));
    assert_eq!(from_stream.map(|a| a.bytes), Some(vec![2]));
    let from_sidecar = load_artwork(None, Some(Vec::new()), Some(sidecar.clone()));
    assert_eq!(from_sidecar, Some(sidecar));
    assert_eq!(load_artwork(None, None, None), None);
}

#[test]
fn track_specific_sidecar_precedes_folder_cover() {
    let directory = "/tmp/wavora-artwork";
    let audio = format!("{directory}/Track.FLAC");
    let entries = vec![format!("{directory}/cover.png"), format!("{directory}/track.cover.jpg")];
    let candidates = sidecar_candidates(&audio, &entries);
    assert_eq!(
        candidates
            .first()
            .and_then(|path| std::path::Path::new(path).file_name())
            .and_then(|name| name.to_str()),
        Some("track.cover.jpg")
    );
}

#[test]
fn an_extensionless_track_has_one_lyrics_sidecar() {
    assert_eq!(lyric_sidecar_paths("/music/Signal"), vec!["/music/Signal.wlyric.json".to_owned()]);
    assert_eq!(lyric_sidecar_paths("/music//Signal").len(), 1);
}
