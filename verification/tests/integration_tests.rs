use translator::config::{Config, LoadAction, ReadOutcome, load_step, prepare_save};
use translator::language::LanguageCode;
use translator::selection::choose_target_language;
use translator::settings::{last_selection_step, parse_last_selection, render_last_selection};

#[test]
fn test_config_and_settings_integration() {
    // 1. Create and save a custom configuration.
    let mut config = Config::default();
    config.primary_language = LanguageCode::Spanish;
    config.secondary_language = LanguageCode::Italian;
    config.api_url = "https://custom.api.example.com".to_string();
    config.all_target_languages.push(LanguageCode::Spanish);
    config.all_target_languages.push(LanguageCode::Italian);

    let (_saved, document) = prepare_save(&config);

    // 2. Save a last-language preference.
    let stored_last = render_last_selection(LanguageCode::Portuguese);

    // 3. Load the configuration and verify.
    let loaded_config = load_step(ReadOutcome::Content(document)).config;
    assert_eq!(loaded_config.primary_language, LanguageCode::Spanish);
    assert_eq!(loaded_config.secondary_language, LanguageCode::Italian);
    assert_eq!(loaded_config.api_url, "https://custom.api.example.com");

    // 4. Load the last language and verify.
    let loaded_language = parse_last_selection(stored_last);
    assert_eq!(loaded_language, LanguageCode::Portuguese);
}

#[test]
fn test_language_selection_with_config() {
    // A custom configuration and a stored last language.
    let mut config = Config::default();
    config.primary_language = LanguageCode::English;
    config.secondary_language = LanguageCode::French;
    let (config, _document) = prepare_save(&config);

    let stored_last = render_last_selection(LanguageCode::Spanish);

    // (source, expected target)
    let test_cases = vec![
        (Some(LanguageCode::German), LanguageCode::English), // Non-primary -> primary
        (Some(LanguageCode::English), LanguageCode::Spanish), // Primary -> last choice
        (None, LanguageCode::English),                       // No source -> primary
    ];

    for (source, expected) in test_cases {
        let target = choose_target_language(
            source,
            config.primary_language,
            config.secondary_language,
            parse_last_selection(stored_last),
        );
        assert_eq!(target, expected, "Failed for source: {:?}", source);
    }
}

#[test]
fn test_full_application_flow() {
    // 1. Load the default configuration (first run).
    let first_load = load_step(ReadOutcome::Missing);
    let initial_config = first_load.config;
    assert_eq!(initial_config.primary_language, LanguageCode::English);
    assert_eq!(initial_config.secondary_language, LanguageCode::French);
    assert_eq!(first_load.action, LoadAction::WriteDefaults);

    // 2. The user changes the primary language.
    let mut updated_config = initial_config.clone();
    updated_config.primary_language = LanguageCode::German;
    let (updated_config, document) = prepare_save(&updated_config);

    // 3. The user selects a target language.
    let stored_last = render_last_selection(LanguageCode::Italian);

    // 4. Simulate language selection for a translation.
    let source_text_lang = Some(LanguageCode::French);
    let target_lang = choose_target_language(
        source_text_lang,
        updated_config.primary_language,
        updated_config.secondary_language,
        parse_last_selection(stored_last),
    );

    // Since the source is not the primary (German), the primary is chosen.
    assert_eq!(target_lang, LanguageCode::German);

    // 5. The configuration persists.
    let reloaded_config = load_step(ReadOutcome::Content(document)).config;
    assert_eq!(reloaded_config.primary_language, LanguageCode::German);
}

#[test]
fn test_corruption_recovery_flow() {
    // Unparseable stored text is never silently kept: loading yields the
    // defaults and asks for the old file to be backed up first, while the
    // last-selection slot keeps its own lifecycle.
    let loaded = load_step(ReadOutcome::Content("][ not a document\n\n=".to_string()));
    assert_eq!(loaded.config, Config::default());
    assert_eq!(loaded.action, LoadAction::BackupThenWriteDefaults);

    let last = last_selection_step(ReadOutcome::Content("Spanish".to_string()));
    assert_eq!(last, LanguageCode::Spanish);
}
