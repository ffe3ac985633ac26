use translator::language::LanguageCode;
use translator::selection::choose_target_language;

#[test]
fn test_language_selection_algorithm() {
    // Source is not the primary language: translate to the primary.
    let result = choose_target_language(
        Some(LanguageCode::German),
        LanguageCode::English,
        LanguageCode::French,
        LanguageCode::Spanish,
    );
    assert_eq!(
        result,
        LanguageCode::English,
        "Should translate to primary when source is not primary"
    );

    // Source is the primary language and there is a meaningful last choice.
    let result = choose_target_language(
        Some(LanguageCode::English),
        LanguageCode::English,
        LanguageCode::French,
        LanguageCode::Spanish,
    );
    assert_eq!(
        result,
        LanguageCode::Spanish,
        "Should use last language when source is primary and last is meaningful"
    );

    // Source is the primary language and the last choice is not meaningful.
    let result = choose_target_language(
        Some(LanguageCode::English),
        LanguageCode::English,
        LanguageCode::French,
        LanguageCode::English,
    );
    assert_eq!(
        result,
        LanguageCode::French,
        "Should use secondary when source is primary and last is not meaningful"
    );

    // Source language detection failed.
    let result = choose_target_language(
        None,
        LanguageCode::English,
        LanguageCode::French,
        LanguageCode::Spanish,
    );
    assert_eq!(
        result,
        LanguageCode::English,
        "Should default to primary when source detection fails"
    );
}
