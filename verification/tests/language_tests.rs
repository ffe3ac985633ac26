use translator::language::{LanguageCode, TargetLanguage};

#[test]
fn test_target_language_labels() {
    assert_eq!(TargetLanguage::Portuguese.as_str(), "European Portuguese");
    assert_eq!(TargetLanguage::English.as_str(), "English");
    assert_eq!(TargetLanguage::Ukrainian.as_str(), "Ukrainian");
    assert_eq!(TargetLanguage::Russian.as_str(), "Russian");
}

#[test]
fn test_target_language_codes() {
    assert_eq!(TargetLanguage::Portuguese.code(), "PT");
    assert_eq!(TargetLanguage::English.code(), "EN");
    assert_eq!(TargetLanguage::Ukrainian.code(), "UK");
    assert_eq!(TargetLanguage::Russian.code(), "RU");
}

#[test]
fn test_target_language_from_code() {
    assert_eq!(TargetLanguage::from_code("PT"), Some(TargetLanguage::Portuguese));
    assert_eq!(TargetLanguage::from_code("EN"), Some(TargetLanguage::English));
    assert_eq!(TargetLanguage::from_code("UK"), Some(TargetLanguage::Ukrainian));
    assert_eq!(TargetLanguage::from_code("RU"), Some(TargetLanguage::Russian));
    assert_eq!(TargetLanguage::from_code("FR"), None);
    assert_eq!(TargetLanguage::from_code(""), None);
}

#[test]
fn test_language_code_iso_round_trip() {
    let all = vec![
        LanguageCode::English,
        LanguageCode::French,
        LanguageCode::German,
        LanguageCode::Spanish,
        LanguageCode::Italian,
        LanguageCode::Polish,
        LanguageCode::Portuguese,
        LanguageCode::Russian,
        LanguageCode::Ukrainian,
        LanguageCode::Japanese,
        LanguageCode::Chinese,
        LanguageCode::Korean,
    ];
    for lang in all {
        assert_eq!(LanguageCode::from_iso_code(lang.iso_code()), Some(lang));
        assert_eq!(LanguageCode::from_name(lang.name()), Some(lang));
        assert_eq!(LanguageCode::from_token(lang.iso_code()), Some(lang));
        assert_eq!(LanguageCode::from_token(lang.name()), Some(lang));
    }
}

#[test]
fn test_language_code_rejects_unknown() {
    assert_eq!(LanguageCode::from_iso_code("XX"), None);
    assert_eq!(LanguageCode::from_name("Elvish"), None);
    assert_eq!(LanguageCode::from_token("nothing"), None);
}

#[test]
fn test_language_code_ignores_ascii_case() {
    // Codes and names are matched without regard to ASCII case.
    assert_eq!(LanguageCode::from_iso_code("en"), Some(LanguageCode::English));
    assert_eq!(LanguageCode::from_iso_code("De"), Some(LanguageCode::German));
    assert_eq!(LanguageCode::from_name("german"), Some(LanguageCode::German));
    assert_eq!(LanguageCode::from_name("UKRAINIAN"), Some(LanguageCode::Ukrainian));
    assert_eq!(LanguageCode::from_token("pl"), Some(LanguageCode::Polish));
    assert_eq!(LanguageCode::from_token("french"), Some(LanguageCode::French));
}

#[test]
fn test_language_code_names() {
    assert_eq!(LanguageCode::German.name(), "German");
    assert_eq!(LanguageCode::German.iso_code(), "DE");
    assert_eq!(LanguageCode::Chinese.iso_code(), "ZH");
    assert_eq!(LanguageCode::Ukrainian.iso_code(), "UK");
}
