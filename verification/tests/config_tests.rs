use translator::codec::{parse_config, render_config};
use translator::config::{Config, LoadAction, ReadOutcome, load_step, prepare_save};
use translator::language::LanguageCode;

#[test]
fn test_config_default() {
    // The default record has the expected values.
    let config = Config::default();

    // Default languages.
    assert_eq!(config.primary_language, LanguageCode::English);
    assert_eq!(config.secondary_language, LanguageCode::French);

    // API settings.
    assert_eq!(config.api_url, "https://openrouter.ai/api/v1");
    assert_eq!(config.model_version, "openai/gpt-4o");

    // Target languages.
    assert!(config.all_target_languages.contains(&LanguageCode::English));
    assert!(config.all_target_languages.contains(&LanguageCode::French));
    assert!(config.all_target_languages.contains(&LanguageCode::Italian));
    assert!(config.all_target_languages.contains(&LanguageCode::Polish));
}

#[test]
fn test_config_serialization() {
    let mut config = Config::default();
    config.primary_language = LanguageCode::German;
    config.secondary_language = LanguageCode::Spanish;

    // Render to the document format.
    let toml_string = render_config(&config);

    // The rendered document names the field and uses ISO codes.
    assert!(toml_string.contains("primary_language"));
    assert!(toml_string.contains("DE")); // German ISO code
    assert!(toml_string.contains("ES")); // Spanish ISO code

    // Parse back.
    let deserialized: Config = parse_config(&toml_string).expect("Failed to deserialize config");

    // The values match.
    assert_eq!(deserialized.primary_language, LanguageCode::German);
    assert_eq!(deserialized.secondary_language, LanguageCode::Spanish);
}

#[test]
fn test_config_save_load() {
    // A custom record, with its languages in the selectable list.
    let mut config = Config::default();
    config.primary_language = LanguageCode::Italian;
    config.secondary_language = LanguageCode::Polish;
    config.api_url = "https://test-api.example.com".to_string();
    config.all_target_languages.push(LanguageCode::Italian);
    config.all_target_languages.push(LanguageCode::Polish);

    // Prepare the record for saving.
    let (_saved, document) = prepare_save(&config);

    // Load what was written.
    let loaded = load_step(ReadOutcome::Content(document));
    let loaded_config = loaded.config;

    // The loaded record matches the saved one.
    assert_eq!(loaded_config.primary_language, LanguageCode::Italian);
    assert_eq!(loaded_config.secondary_language, LanguageCode::Polish);
    assert_eq!(loaded_config.api_url, "https://test-api.example.com");
}

#[test]
fn test_config_missing_file() {
    // Loading when no file exists yields the defaults and asks for them
    // to be persisted.
    let loaded = load_step(ReadOutcome::Missing);

    assert_eq!(loaded.config.primary_language, LanguageCode::English);
    assert_eq!(loaded.config.secondary_language, LanguageCode::French);
    assert_eq!(loaded.action, LoadAction::WriteDefaults);
}

#[test]
fn test_config_invalid_toml() {
    // Loading unparseable text yields the defaults and asks for the old
    // file to be moved aside first.
    let loaded = load_step(ReadOutcome::Content("invalid toml content [".to_string()));

    assert_eq!(loaded.config.primary_language, LanguageCode::English);
    assert_eq!(loaded.config.secondary_language, LanguageCode::French);
    assert_eq!(loaded.action, LoadAction::BackupThenWriteDefaults);
}

#[test]
fn test_config_all_target_languages() {
    let config = Config::default();

    let expected_languages = vec![
        LanguageCode::English,
        LanguageCode::French,
        LanguageCode::Italian,
        LanguageCode::Polish,
    ];

    for language in expected_languages {
        assert!(
            config.all_target_languages.contains(&language),
            "Language {:?} not found in all_target_languages",
            language
        );
    }
}

#[test]
fn test_config_custom_languages() {
    let mut config = Config::default();
    config.all_target_languages =
        vec![LanguageCode::Japanese, LanguageCode::Chinese, LanguageCode::Korean];

    // Render to the document format.
    let toml_string = render_config(&config);

    // Parse back.
    let deserialized: Config = parse_config(&toml_string).expect("Failed to deserialize config");

    // The custom languages are preserved.
    assert_eq!(deserialized.all_target_languages.len(), 3);
    assert!(deserialized.all_target_languages.contains(&LanguageCode::Japanese));
    assert!(deserialized.all_target_languages.contains(&LanguageCode::Chinese));
    assert!(deserialized.all_target_languages.contains(&LanguageCode::Korean));
}

#[test]
fn test_config_serialization_with_empty_languages() {
    let mut config = Config::default();
    config.all_target_languages = vec![]; // Empty languages list

    // Render to the document format.
    let toml_string = render_config(&config);

    // Parse back.
    let deserialized: Config = parse_config(&toml_string).expect("Failed to deserialize config");

    // Bare rendering preserves the empty list; only saving repairs it.
    assert_eq!(deserialized.all_target_languages.len(), 0);
}

#[test]
fn test_prepare_save_repairs_empty_list() {
    // Saving with an empty selectable list persists a non-empty one.
    let mut config = Config::default();
    config.all_target_languages = vec![];

    let (saved, document) = prepare_save(&config);
    assert!(saved.all_target_languages.len() > 0);

    let reloaded = load_step(ReadOutcome::Content(document));
    assert!(reloaded.config.all_target_languages.len() > 0);
}

#[test]
fn test_prepare_save_appends_missing_languages() {
    // Saving appends an absent primary or secondary language to the list.
    let mut config = Config::default();
    config.primary_language = LanguageCode::Japanese;
    config.secondary_language = LanguageCode::Korean;

    let (saved, _document) = prepare_save(&config);
    assert!(saved.all_target_languages.contains(&LanguageCode::Japanese));
    assert!(saved.all_target_languages.contains(&LanguageCode::Korean));
}

#[test]
fn test_prepare_save_carries_any_text() {
    // Quotes, backslashes and line feeds in free text are escaped, so
    // saving succeeds and loading reads the same text back.
    let mut config = Config::default();
    config.api_url = "https://example.com/\"quoted\"\\path".to_string();
    config.model_version = "line one\nline two".to_string();

    let (_saved, document) = prepare_save(&config);
    let reloaded = load_step(ReadOutcome::Content(document));
    assert_eq!(reloaded.config.api_url, "https://example.com/\"quoted\"\\path");
    assert_eq!(reloaded.config.model_version, "line one\nline two");
    assert_eq!(reloaded.action, LoadAction::DoNothing);
}

#[test]
fn test_load_step_path_unavailable() {
    // An undeterminable configuration directory yields the defaults with
    // no write attempted.
    let loaded = load_step(ReadOutcome::PathUnavailable);
    assert_eq!(loaded.config, Config::default());
    assert_eq!(loaded.action, LoadAction::DoNothing);
}

#[test]
fn test_load_step_read_failed() {
    // An unreadable file yields the defaults.
    let loaded = load_step(ReadOutcome::ReadFailed);
    assert_eq!(loaded.config, Config::default());
    assert_eq!(loaded.action, LoadAction::DoNothing);
}

#[test]
fn test_load_step_repairs_empty_list() {
    // A parsed record with an empty selectable list is repaired to the
    // default list at load time.
    let mut config = Config::default();
    config.all_target_languages = vec![];
    let document = render_config(&config);

    let loaded = load_step(ReadOutcome::Content(document));
    assert!(loaded.config.all_target_languages.len() > 0);
    assert_eq!(loaded.action, LoadAction::DoNothing);
}

#[test]
fn test_load_step_reports_membership_warnings() {
    // A primary language absent from the selectable list is reported,
    // not corrected.
    let mut config = Config::default();
    config.primary_language = LanguageCode::Japanese;
    let document = render_config(&config);

    let loaded = load_step(ReadOutcome::Content(document));
    assert!(loaded.primary_missing);
    assert!(!loaded.secondary_missing);
    assert!(!loaded.config.all_target_languages.contains(&LanguageCode::Japanese));
}
