use translator::language::LanguageCode;
use translator::selection::choose_target_language;

#[test]
fn test_choose_target_language_source_not_primary() {
    // Source is not the primary language.
    let result = choose_target_language(
        Some(LanguageCode::Spanish),
        LanguageCode::English,
        LanguageCode::French,
        LanguageCode::German,
    );
    assert_eq!(result, LanguageCode::English);
}

#[test]
fn test_choose_target_language_source_is_primary_with_last() {
    // Source is the primary language and there is a meaningful last choice.
    let result = choose_target_language(
        Some(LanguageCode::English),
        LanguageCode::English,
        LanguageCode::French,
        LanguageCode::German,
    );
    assert_eq!(result, LanguageCode::German);
}

#[test]
fn test_choose_target_language_source_is_primary_no_last() {
    // Source is the primary language and the last choice equals the primary.
    let result = choose_target_language(
        Some(LanguageCode::English),
        LanguageCode::English,
        LanguageCode::French,
        LanguageCode::English,
    );
    assert_eq!(result, LanguageCode::French);
}

#[test]
fn test_choose_target_language_no_source_detected() {
    // No source language detected: not primary, so the primary is returned.
    let result = choose_target_language(
        None,
        LanguageCode::English,
        LanguageCode::French,
        LanguageCode::German,
    );
    assert_eq!(result, LanguageCode::English);
}

#[test]
fn test_choose_target_language_all_same_language() {
    // Edge case: all languages are the same; the secondary is returned,
    // even though it is the same value.
    let result = choose_target_language(
        Some(LanguageCode::English),
        LanguageCode::English,
        LanguageCode::English,
        LanguageCode::English,
    );
    assert_eq!(result, LanguageCode::English);
}

#[test]
fn test_choose_target_language_different_combinations() {
    // (source, primary, secondary, last, expected)
    let test_cases = vec![
        (
            Some(LanguageCode::French),
            LanguageCode::English,
            LanguageCode::Spanish,
            LanguageCode::Italian,
            LanguageCode::English,
        ),
        (
            Some(LanguageCode::German),
            LanguageCode::German,
            LanguageCode::English,
            LanguageCode::French,
            LanguageCode::French,
        ),
        (
            Some(LanguageCode::Italian),
            LanguageCode::Italian,
            LanguageCode::Spanish,
            LanguageCode::Italian,
            LanguageCode::Spanish,
        ),
        (
            None,
            LanguageCode::Russian,
            LanguageCode::Polish,
            LanguageCode::Ukrainian,
            LanguageCode::Russian,
        ),
    ];

    for (source, primary, secondary, last, expected) in test_cases {
        let result = choose_target_language(source, primary, secondary, last);
        assert_eq!(result, expected);
    }
}
