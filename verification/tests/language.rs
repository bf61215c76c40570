use koharu::language::{language_from_tag, supported_locales, tags, Language};

#[test]
fn parses_tags_aliases_and_english_names() {
    assert_eq!(Language::parse("zh-CN"), Some(Language::ChineseSimplified));
    assert_eq!(Language::parse("zh"), Some(Language::ChineseSimplified));
    assert_eq!(
        Language::parse("Simplified Chinese"),
        Some(Language::ChineseSimplified)
    );
    assert_eq!(Language::parse("fil-PH"), Some(Language::Filipino));
    assert_eq!(Language::parse("tl"), Some(Language::Filipino));
    assert_eq!(Language::parse("bg-BG"), Some(Language::Bulgarian));
    assert_eq!(Language::parse("bg"), Some(Language::Bulgarian));
}

#[test]
fn supported_locales_returns_tags() {
    let locales = supported_locales();
    assert!(locales.contains(&"en-US".to_string()));
    assert!(locales.contains(&"bg-BG".to_string()));
    assert!(locales.contains(&"zh-CN".to_string()));
    assert!(locales.contains(&"yue-HK".to_string()));
}

#[test]
fn helper_functions_use_canonical_tags_and_english_names() {
    assert_eq!(language_from_tag("zh-TW"), "Traditional Chinese");
    assert_eq!(
        tags(&[Language::English, Language::Japanese]),
        vec!["en-US".to_string(), "ja-JP".to_string()]
    );
}

#[test]
fn every_tag_and_name_parses_back_to_its_language() {
    let all = koharu::language::all_language_values();
    assert_eq!(all.len(), 42);
    for language in all {
        assert_eq!(Language::parse(language.tag()), Some(language));
        assert_eq!(Language::parse(language.name()), Some(language));
    }
}

#[test]
fn parse_ignores_surrounding_white_space() {
    assert_eq!(Language::parse("  ja-JP\n"), Some(Language::Japanese));
    assert_eq!(Language::parse("\tGerman "), Some(Language::German));
    assert_eq!(Language::parse("   "), None);
    assert_eq!(Language::parse(""), None);
}

#[test]
fn parse_is_exact_about_spelling() {
    assert_eq!(Language::parse("ZH-CN"), None);
    assert_eq!(Language::parse("english"), None);
    assert_eq!(Language::parse("Klingon"), None);
}

#[test]
fn unknown_tag_falls_back_to_english_name() {
    assert_eq!(language_from_tag("xx-XX"), "English");
    assert_eq!(language_from_tag(""), "English");
    assert_eq!(language_from_tag(" ko "), "Korean");
}

#[test]
fn supported_locales_follow_declaration_order() {
    let locales = supported_locales();
    assert_eq!(locales.len(), 42);
    assert_eq!(locales[0], "zh-CN");
    assert_eq!(locales[1], "en-US");
    assert_eq!(locales[41], "hu-HU");
}

#[test]
fn supported_locales_are_distinct_and_parse_back() {
    let locales = supported_locales();
    for (i, a) in locales.iter().enumerate() {
        for b in locales.iter().skip(i + 1) {
            assert_ne!(a, b);
        }
        assert_eq!(Language::parse(a).unwrap().tag(), a);
    }
}
