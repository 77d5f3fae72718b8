use wavora::i18n::Language;
use wavora::ids::TrackId;
use wavora::pages::{content_surface_alpha, View, VisualInspectorTab};
use wavora::playback::PlaybackMode;
use wavora::ui::{
    command_line_view, ellipsize, hex_bytes, metric_palette, mix_rgb, playback_mode_label,
    TableActivationTarget, TableActivationTracker, TABLE_ACTIVATION_INTERVAL_MS,
};

#[test]
fn ellipsis_is_unicode_safe() {
    assert_eq!(ellipsize("春日长标题", 4), "春日长…");
    assert_eq!(ellipsize("short", 8), "short");
}

#[test]
fn content_scrims_preserve_glow_by_information_density() {
    assert_eq!(content_surface_alpha(View::Visuals), 92);
    assert_eq!(content_surface_alpha(View::Home), 128);
    assert_eq!(content_surface_alpha(View::Library), 148);
    assert!(content_surface_alpha(View::Home) < content_surface_alpha(View::Library));
}

fn library_target(track_id: TrackId) -> TableActivationTarget {
    TableActivationTarget::Library {
        favorites_only: false,
        track_id,
    }
}

#[test]
fn table_activation_requires_two_quick_clicks_on_same_target() {
    let mut tracker = TableActivationTracker::default();
    let now = 1_000_000;
    let first = library_target(TrackId::new());
    let second = library_target(TrackId::new());

    assert!(!tracker.register(first, now));
    assert!(!tracker.register(second, now + 100));
    assert!(tracker.register(second, now + 100 + TABLE_ACTIVATION_INTERVAL_MS));
}

#[test]
fn expired_table_click_starts_a_new_activation_pair() {
    let mut tracker = TableActivationTracker::default();
    let now = 1_000_000;
    let target = library_target(TrackId::new());

    assert!(!tracker.register(target, now));
    assert!(!tracker.register(target, now + TABLE_ACTIVATION_INTERVAL_MS + 1));
    assert!(tracker.register(target, now + TABLE_ACTIVATION_INTERVAL_MS + 100));
}

#[test]
fn successful_table_activation_consumes_the_click_pair() {
    let mut tracker = TableActivationTracker::default();
    let now = 1_000_000;
    let target = library_target(TrackId::new());

    assert!(!tracker.register(target, now));
    assert!(tracker.register(target, now + 100));
    assert!(!tracker.register(target, now + 200));
}

#[test]
fn ellipsis_edge_cases() {
    assert_eq!(ellipsize("abc", 3), "abc");
    assert_eq!(ellipsize("abcd", 3), "ab…");
    assert_eq!(ellipsize("abcd", 1), "…");
    assert_eq!(ellipsize("abcd", 0), "…");
    assert_eq!(ellipsize("", 0), "");
}

#[test]
fn colours_mix_by_rounded_percentage() {
    assert_eq!(mix_rgb([0, 0, 0], [255, 255, 255], 50), [128, 128, 128]);
    assert_eq!(mix_rgb([10, 20, 30], [200, 100, 0], 0), [10, 20, 30]);
    assert_eq!(mix_rgb([10, 20, 30], [200, 100, 0], 250), [200, 100, 0]);
    assert_eq!(mix_rgb([112, 246, 218], [108, 149, 255], 36), [111, 211, 231]);
}

#[test]
fn metric_palette_follows_the_preset_colours() {
    let palette = metric_palette(0);
    assert_eq!(palette[0], [112, 246, 218]);
    assert_eq!(palette[1], mix_rgb([112, 246, 218], [108, 149, 255], 36));
    assert_eq!(palette[2], [108, 149, 255]);
    assert_eq!(palette[3], mix_rgb([108, 149, 255], [255, 255, 255], 24));
    assert_eq!(metric_palette(11), palette);
}

#[test]
fn hex_encoding_is_lowercase_high_nibble_first() {
    assert_eq!(hex_bytes(&[0x00, 0x0f, 0xa5, 0xff]), "000fa5ff");
    assert_eq!(hex_bytes(&[]), "");
}

#[test]
fn playback_mode_labels_are_localized() {
    assert_eq!(playback_mode_label(Language::English, PlaybackMode::Shuffle), wavora::i18n::text(Language::English, wavora::i18n::Key::Shuffle));
    assert_ne!(
        playback_mode_label(Language::English, PlaybackMode::Sequential),
        playback_mode_label(Language::English, PlaybackMode::RepeatOne)
    );
}

#[test]
fn the_first_page_argument_wins() {
    let args = vec!["wavora".to_owned(), "--lyrics".to_owned(), "--visuals".to_owned()];
    assert_eq!(command_line_view(&args), Some(View::Lyrics));
    assert_eq!(command_line_view(&["--settings".to_owned()]), None);
    assert_eq!(VisualInspectorTab::default(), VisualInspectorTab::Composition);
}
