use nitroterm::settings::{
    api_key_display, api_key_from_answer, api_key_prompt, can_translate, env_api_key,
    mask_api_key, text_from_answer, AppConfig, TranslationConfig,
};

#[test]
fn api_keys_are_masked_after_eight_bytes() {
    assert_eq!(mask_api_key("AIzaSyD123456789"), "AIzaSyD1***");
    assert_eq!(mask_api_key("short"), "short***");
    assert_eq!(mask_api_key(""), "***");
    assert_eq!(mask_api_key("12345678"), "12345678***");
}

#[test]
fn api_key_prompt_shows_the_masked_key() {
    assert_eq!(api_key_prompt(Some("AIzaSyD123456789")), "Gemini API Key [current: AIzaSyD1***]: ");
    assert_eq!(api_key_prompt(None), "Gemini API Key (required): ");
}

#[test]
fn api_key_answers() {
    assert_eq!(api_key_from_answer(Some("old"), "  new-key \n"), Some("new-key".to_string()));
    assert_eq!(api_key_from_answer(Some("old"), "   "), Some("old".to_string()));
    assert_eq!(api_key_from_answer(None, ""), None);
}

#[test]
fn environment_api_key_must_be_non_empty() {
    assert_eq!(env_api_key(Some("abc")), Some("abc".to_string()));
    assert_eq!(env_api_key(Some("")), None);
    assert_eq!(env_api_key(None), None);
}

#[test]
fn api_key_as_displayed() {
    assert_eq!(api_key_display(Some("abcdefghijkl")), "abcdefgh***");
    assert_eq!(api_key_display(None), "Not set");
}

#[test]
fn text_answers_keep_the_current_value_when_blank() {
    assert_eq!(text_from_answer("messages", ""), "messages");
    assert_eq!(text_from_answer("messages", " locales "), "locales");
}

#[test]
fn translation_needs_an_api_key() {
    let mut config = AppConfig::default();
    assert!(!can_translate(&config));
    config.gemini_api_key = Some("key".to_string());
    assert!(can_translate(&config));
}

#[test]
fn translation_config_copies_the_settings() {
    let config = AppConfig {
        gemini_api_key: Some("key-1".to_string()),
        gemini_model: "gemini-1.5-pro".to_string(),
        translation_delay_seconds: 2,
        messages_dir: "locales".to_string(),
        source_file: "en.json".to_string(),
    };
    let t = TranslationConfig::from_app_config(config);
    assert_eq!(t.api_key, "key-1");
    assert_eq!(t.model, "gemini-1.5-pro");
    assert_eq!(t.messages_dir, "locales");
    assert_eq!(t.source_file, "en.json");
    let without_key = TranslationConfig::from_app_config(AppConfig::default());
    assert_eq!(without_key.api_key, "");
}
