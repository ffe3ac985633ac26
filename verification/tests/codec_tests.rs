use translator::codec::{parse_config, render_config};
use translator::config::Config;
use translator::language::LanguageCode;

#[test]
fn test_render_exact_document() {
    // The default record renders to exactly this document.
    let config = Config::default();
    let document = render_config(&config);
    let expected = "api_url = \"https://openrouter.ai/api/v1\"\nmodel_version = \"openai/gpt-4o\"\nprimary_language = \"EN\"\nsecondary_language = \"FR\"\nall_target_languages = [\"EN\", \"FR\", \"IT\", \"PL\"]\n";
    assert_eq!(document, expected);
}

#[test]
fn test_render_twice_same_document() {
    // Rendering is deterministic: the same record gives the same text.
    let mut config = Config::default();
    config.primary_language = LanguageCode::Polish;
    assert_eq!(render_config(&config), render_config(&config));
}

#[test]
fn test_parse_accepts_any_field_order() {
    let document = "secondary_language = \"IT\"\napi_url = \"https://example.org\"\nall_target_languages = [\"IT\", \"PL\"]\nmodel_version = \"some/model\"\nprimary_language = \"PL\"\n";
    let config = parse_config(document).expect("Failed to parse document");
    assert_eq!(config.primary_language, LanguageCode::Polish);
    assert_eq!(config.secondary_language, LanguageCode::Italian);
    assert_eq!(config.api_url, "https://example.org");
    assert_eq!(config.model_version, "some/model");
    assert_eq!(
        config.all_target_languages,
        vec![LanguageCode::Italian, LanguageCode::Polish]
    );
}

#[test]
fn test_parse_accepts_display_names() {
    // A language field may hold a display name instead of an ISO code,
    // for records written by older versions.
    let document = "api_url = \"https://example.org\"\nmodel_version = \"some/model\"\nprimary_language = \"German\"\nsecondary_language = \"Ukrainian\"\nall_target_languages = [\"German\", \"UK\"]\n";
    let config = parse_config(document).expect("Failed to parse document");
    assert_eq!(config.primary_language, LanguageCode::German);
    assert_eq!(config.secondary_language, LanguageCode::Ukrainian);
    assert_eq!(
        config.all_target_languages,
        vec![LanguageCode::German, LanguageCode::Ukrainian]
    );
}

#[test]
fn test_parse_missing_list_defaults() {
    // A document without the list line falls back to the default list.
    let document = "api_url = \"https://example.org\"\nmodel_version = \"some/model\"\nprimary_language = \"EN\"\nsecondary_language = \"FR\"\n";
    let config = parse_config(document).expect("Failed to parse document");
    assert_eq!(
        config.all_target_languages,
        vec![
            LanguageCode::English,
            LanguageCode::French,
            LanguageCode::Italian,
            LanguageCode::Polish,
        ]
    );
}

#[test]
fn test_parse_rejects_missing_field() {
    // A document without a required field does not parse.
    let document = "api_url = \"https://example.org\"\nmodel_version = \"some/model\"\nprimary_language = \"EN\"\n";
    assert!(parse_config(document).is_none());
}

#[test]
fn test_parse_rejects_duplicate_key() {
    let document = "api_url = \"https://example.org\"\napi_url = \"https://example.com\"\nmodel_version = \"some/model\"\nprimary_language = \"EN\"\nsecondary_language = \"FR\"\n";
    assert!(parse_config(document).is_none());
}

#[test]
fn test_parse_rejects_unknown_language() {
    let document = "api_url = \"https://example.org\"\nmodel_version = \"some/model\"\nprimary_language = \"Elvish\"\nsecondary_language = \"FR\"\n";
    assert!(parse_config(document).is_none());
}

#[test]
fn test_parse_rejects_unknown_key() {
    let document = "api_url = \"https://example.org\"\nmodel_version = \"some/model\"\nprimary_language = \"EN\"\nsecondary_language = \"FR\"\ntemperature = \"high\"\n";
    assert!(parse_config(document).is_none());
}

#[test]
fn test_parse_empty_list() {
    let document = "api_url = \"https://example.org\"\nmodel_version = \"some/model\"\nprimary_language = \"EN\"\nsecondary_language = \"FR\"\nall_target_languages = []\n";
    let config = parse_config(document).expect("Failed to parse document");
    assert_eq!(config.all_target_languages.len(), 0);
}

#[test]
fn test_parse_skips_blank_lines() {
    let document = "api_url = \"https://example.org\"\n\nmodel_version = \"some/model\"\nprimary_language = \"EN\"\nsecondary_language = \"FR\"\n\n";
    let config = parse_config(document).expect("Failed to parse document");
    assert_eq!(config.api_url, "https://example.org");
}

#[test]
fn test_parse_accepts_lowercase_codes() {
    // ISO codes in a stored document are read without regard to ASCII
    // case, as older records may hold them.
    let document = "api_url = \"https://example.org\"\nmodel_version = \"some/model\"\nprimary_language = \"en\"\nsecondary_language = \"fr\"\nall_target_languages = [\"en\", \"de\"]\n";
    let config = parse_config(document).expect("Failed to parse document");
    assert_eq!(config.primary_language, LanguageCode::English);
    assert_eq!(config.secondary_language, LanguageCode::French);
    assert_eq!(
        config.all_target_languages,
        vec![LanguageCode::English, LanguageCode::German]
    );
}

#[test]
fn test_render_escapes_special_text() {
    // Quotes, backslashes and line feeds in free text are escaped on the
    // way out and folded back on the way in.
    let mut config = Config::default();
    config.api_url = "a\"b\\c\nd".to_string();
    let document = render_config(&config);
    assert!(document.contains("a\\\"b\\\\c\\nd"));
    let reparsed = parse_config(&document).expect("Failed to parse document");
    assert_eq!(reparsed.api_url, "a\"b\\c\nd");
}

#[test]
fn test_parse_rejects_dangling_escape() {
    // A value ending in a lone backslash does not parse.
    let document = "api_url = \"broken\\\"\nmodel_version = \"m\"\nprimary_language = \"EN\"\nsecondary_language = \"FR\"\n";
    assert!(parse_config(document).is_none());
}
