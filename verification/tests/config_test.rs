use nitroterm::config::Config;
use nitroterm::settings::{
    config_from_rows, config_rows, delay_from_answer, lacks_json_extension, model_from_answer,
    AppConfig, DelayAnswer,
};
use nitroterm::version::VERSION;

#[test]
fn test_version_constant() {
    assert!(!VERSION.is_empty());
}

#[test]
fn test_model_validation() {
    let valid_models = vec![
        "gemini-1.5-flash",
        "gemini-1.5-pro",
        "gemini-2.0-flash",
        "gemini-custom-model",
    ];

    for model in valid_models {
        assert!(model.starts_with("gemini"));
        let (chosen, accepted) = model_from_answer("gemini-1.5-flash", model);
        assert!(accepted);
        assert_eq!(chosen, model);
    }
}

#[test]
fn test_json_extension_validation() {
    let valid_files = vec!["source.json", "translations.json", "data.json"];
    let invalid_files = vec!["source.txt", "data", "file.xml"];

    for file in valid_files {
        assert!(file.ends_with(".json"));
        assert!(!lacks_json_extension(file));
    }

    for file in invalid_files {
        assert!(!file.ends_with(".json"));
        assert!(lacks_json_extension(file));
    }
}

#[test]
fn default_project_config_values() {
    let c = Config::load_config();
    assert_eq!(c.project_name, "nitrokit");
    assert_eq!(c.git_remote, "origin");
    assert_eq!(c.release_format, "markdown");
}

#[test]
fn app_config_defaults() {
    let c = AppConfig::default();
    assert!(c.gemini_api_key.is_none());
    assert_eq!(c.gemini_model, "gemini-1.5-flash");
    assert_eq!(c.translation_delay_seconds, 2);
    assert_eq!(c.messages_dir, "messages");
    assert_eq!(c.source_file, "source.json");
}

#[test]
fn stored_rows_read_back_as_the_same_settings() {
    let c = AppConfig {
        gemini_api_key: Some("AIza-key-123".to_string()),
        gemini_model: "gemini-1.5-pro".to_string(),
        translation_delay_seconds: 17,
        messages_dir: "locales".to_string(),
        source_file: "en.json".to_string(),
    };
    let rows = config_rows(&c);
    assert_eq!(rows.len(), 5);
    assert_eq!(rows[2], ("translation_delay_seconds".to_string(), "17".to_string()));
    let back = config_from_rows(&rows);
    assert_eq!(back.gemini_api_key, c.gemini_api_key);
    assert_eq!(back.gemini_model, c.gemini_model);
    assert_eq!(back.translation_delay_seconds, c.translation_delay_seconds);
    assert_eq!(back.messages_dir, c.messages_dir);
    assert_eq!(back.source_file, c.source_file);
}

#[test]
fn rows_with_bad_delay_and_empty_key_read_as_defaults() {
    let rows = vec![
        ("gemini_api_key".to_string(), "".to_string()),
        ("translation_delay_seconds".to_string(), "soon".to_string()),
        ("unknown".to_string(), "x".to_string()),
    ];
    let c = config_from_rows(&rows);
    assert!(c.gemini_api_key.is_none());
    assert_eq!(c.translation_delay_seconds, 2);
}

#[test]
fn model_answers() {
    assert_eq!(model_from_answer("gemini-1.5-pro", ""), ("gemini-1.5-pro".to_string(), true));
    assert_eq!(model_from_answer("x", "1"), ("gemini-1.5-flash".to_string(), true));
    assert_eq!(model_from_answer("x", " 2 "), ("gemini-1.5-pro".to_string(), true));
    assert_eq!(model_from_answer("gemini-1.5-pro", "gpt"), ("gemini-1.5-pro".to_string(), false));
}

#[test]
fn delay_answers() {
    assert_eq!(delay_from_answer(2, ""), (2, DelayAnswer::Kept));
    assert_eq!(delay_from_answer(2, "5"), (5, DelayAnswer::Accepted));
    assert_eq!(delay_from_answer(2, "60"), (60, DelayAnswer::Accepted));
    assert_eq!(delay_from_answer(2, "61"), (2, DelayAnswer::TooHigh));
    assert_eq!(delay_from_answer(2, "abc"), (2, DelayAnswer::Invalid));
}
