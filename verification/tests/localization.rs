use wavora::i18n::{
    language_from_environment, language_from_locale, text, visual_preset_text, Key, Language,
    LanguagePreference,
};

#[test]
fn maps_chinese_locale_variants() {
    assert_eq!(language_from_locale("zh_CN.UTF-8"), Language::SimplifiedChinese);
    assert_eq!(language_from_locale("zh-Hans"), Language::SimplifiedChinese);
    assert_eq!(language_from_locale("zh_CN:en_US"), Language::SimplifiedChinese);
    assert_eq!(language_from_locale("en_US.UTF-8"), Language::English);
}

#[test]
fn catalog_has_both_languages() {
    assert_eq!(text(Language::English, Key::Library), "Library");
    assert_eq!(text(Language::SimplifiedChinese, Key::Library), "音乐库");
}

fn is_cjk(character: char) -> bool {
    ('\u{4e00}'..='\u{9fff}').contains(&character)
}

#[test]
fn visual_presets_are_fully_localized() {
    for index in 0..6 {
        let english = visual_preset_text(Language::English, index);
        assert!(!english
            .name
            .chars()
            .chain(english.subtitle.chars())
            .chain(english.response.chars())
            .any(is_cjk));
        let chinese = visual_preset_text(Language::SimplifiedChinese, index);
        assert!(chinese
            .name
            .chars()
            .chain(chinese.subtitle.chars())
            .chain(chinese.response.chars())
            .any(is_cjk));
    }
}

#[test]
fn locale_edge_cases_follow_the_primary_entry() {
    assert_eq!(language_from_locale("ZH"), Language::SimplifiedChinese);
    assert_eq!(language_from_locale("  zh_TW  "), Language::SimplifiedChinese);
    assert_eq!(language_from_locale("zhx"), Language::English);
    assert_eq!(language_from_locale("en_US:zh_CN"), Language::English);
    assert_eq!(language_from_locale(""), Language::English);
}

#[test]
fn the_first_non_blank_locale_variable_decides() {
    assert_eq!(
        language_from_environment(&[None, Some("  ".to_owned()), Some("zh_CN".to_owned()), Some("en_US".to_owned())]),
        Language::SimplifiedChinese
    );
    assert_eq!(
        language_from_environment(&[Some("en_GB".to_owned()), Some("zh_CN".to_owned())]),
        Language::English
    );
    assert_eq!(language_from_environment(&[None, None]), Language::English);
}

#[test]
fn explicit_preferences_ignore_the_system_language() {
    assert_eq!(LanguagePreference::English.resolve(Language::SimplifiedChinese), Language::English);
    assert_eq!(
        LanguagePreference::SimplifiedChinese.resolve(Language::English),
        Language::SimplifiedChinese
    );
    assert_eq!(
        LanguagePreference::System.resolve(Language::SimplifiedChinese),
        Language::SimplifiedChinese
    );
    assert_eq!(LanguagePreference::default(), LanguagePreference::System);
}

#[test]
fn every_built_in_effect_has_its_own_copy() {
    let english: Vec<&str> = (0..11).map(|index| visual_preset_text(Language::English, index).name).collect();
    assert_eq!(
        english,
        vec![
            "Particle Veil",
            "Pulse Tunnel",
            "Orbital Core",
            "Spectral Void",
            "Vinyl Halo",
            "Star River",
            "Prism Ribbons",
            "Luminous Bloom",
            "Ripple Field",
            "Particle Terrain",
            "Cover Relief",
        ]
    );
    let chinese: Vec<&str> =
        (0..11).map(|index| visual_preset_text(Language::SimplifiedChinese, index).name).collect();
    for (index, name) in chinese.iter().enumerate() {
        assert!(!chinese[..index].contains(name));
    }
    assert_eq!(visual_preset_text(Language::SimplifiedChinese, 5).name, "星河");
    assert_eq!(visual_preset_text(Language::SimplifiedChinese, 6).name, "棱镜丝带");
    for index in 0..11 {
        assert!(!visual_preset_text(Language::English, index).subtitle.is_empty());
        assert!(!visual_preset_text(Language::English, index).response.is_empty());
    }
}
