use nitroterm::json::{get_nested_value, set_nested_value, JsonValue};
use nitroterm::translation::{
    add_languages, default_languages, languages_from_file_names, Language, apply_translations, extract_all_paths, find_missing_paths, language_file_name,
    parse_translation_response, path_chunks, translation_batch, translation_prompt,
};

#[derive(Debug)]
struct MockSyncResult {
    total_keys: usize,
    translated_keys: usize,
    skipped_keys: usize,
    errors: Vec<String>,
}

#[derive(Debug)]
struct MockConfig {
    source_file: String,
    target_languages: Vec<String>,
    delay_seconds: u64,
    output_dir: String,
}

fn s(text: &str) -> JsonValue {
    JsonValue::Str(text.to_string())
}

fn obj(members: Vec<(&str, JsonValue)>) -> JsonValue {
    JsonValue::Object(members.into_iter().map(|(k, v)| (k.to_string(), v)).collect())
}

#[test]
fn test_language_code_validation() {
    let valid_codes = vec!["en", "es", "fr", "de", "it", "pt", "ru", "zh", "ja", "ko"];
    let invalid_codes = vec!["", "english", "123", "a", "toolongcode"];

    for code in valid_codes {
        assert!(code.len() >= 2 && code.len() <= 5);
        assert!(code.chars().all(|c| c.is_ascii_lowercase() || c == '-'));
    }

    for code in invalid_codes {
        let is_valid = code.len() >= 2
            && code.len() <= 5
            && code.chars().all(|c| c.is_ascii_lowercase() || c == '-');
        assert!(!is_valid, "Code '{}' should be invalid", code);
    }
}

#[test]
fn test_missing_translation_detection() {
    let source_keys = vec![
        "app.title".to_string(),
        "app.description".to_string(),
        "buttons.save".to_string(),
        "buttons.cancel".to_string(),
    ];

    let existing_keys = vec!["app.title".to_string(), "buttons.save".to_string()];

    let missing_keys: Vec<String> = source_keys
        .iter()
        .filter(|key| !existing_keys.contains(key))
        .cloned()
        .collect();

    assert_eq!(missing_keys.len(), 2);
    assert!(missing_keys.contains(&"app.description".to_string()));
    assert!(missing_keys.contains(&"buttons.cancel".to_string()));

    let existing = obj(vec![
        ("app", obj(vec![("title", s("Başlık"))])),
        ("buttons", obj(vec![("save", s("Kaydet"))])),
    ]);
    assert_eq!(find_missing_paths(&existing, &source_keys), missing_keys);
}

#[test]
fn test_progress_tracking() {
    let total_keys = 10;
    let processed_keys = 7;

    let progress_percentage = (processed_keys as f32 / total_keys as f32) * 100.0;
    assert_eq!(progress_percentage, 70.0);

    let progress_bar = format!(
        "[{}{}] {}/{}",
        "=".repeat(processed_keys),
        " ".repeat(total_keys - processed_keys),
        processed_keys,
        total_keys
    );

    assert!(progress_bar.contains("======="));
    assert!(progress_bar.contains("7/10"));
}

#[test]
fn test_translation_delay_calculation() {
    let delay_seconds = 2;
    let num_translations = 5;

    let total_time = delay_seconds * num_translations;
    assert_eq!(total_time, 10);

    let delay_millis = delay_seconds * 1000;
    assert_eq!(delay_millis, 2000);
}

#[test]
fn test_file_extension_validation() {
    let valid_files = vec!["source.json", "en.json", "translations.json"];
    let invalid_files = vec!["source.txt", "data.xml", "file", "config.toml"];

    for file in valid_files {
        assert!(file.ends_with(".json"));
    }

    for file in invalid_files {
        assert!(!file.ends_with(".json"));
    }
    assert_eq!(language_file_name("en"), "en.json");
}

#[test]
fn test_translation_sync_result() {
    let result = MockSyncResult {
        total_keys: 10,
        translated_keys: 8,
        skipped_keys: 1,
        errors: vec!["Failed to translate 'complex.key'".to_string()],
    };

    assert_eq!(result.total_keys, 10);
    assert_eq!(result.translated_keys, 8);
    assert_eq!(result.skipped_keys, 1);
    assert_eq!(result.errors.len(), 1);
}

#[test]
fn test_key_path_normalization() {
    let test_keys = vec![
        ("app.title", "app.title"),
        ("app..title", "app.title"),
        (".app.title", "app.title"),
        ("app.title.", "app.title"),
        ("app...title", "app.title"),
    ];

    for (input, expected) in test_keys {
        let normalized = input
            .trim_matches('.')
            .split('.')
            .filter(|s| !s.is_empty())
            .collect::<Vec<_>>()
            .join(".");

        assert_eq!(normalized, expected);
    }
}

#[test]
fn translation_sync_test_test_config_validation() {
    let config = MockConfig {
        source_file: "source.json".to_string(),
        target_languages: vec!["es".to_string(), "fr".to_string()],
        delay_seconds: 2,
        output_dir: "translations".to_string(),
    };

    assert!(config.source_file.ends_with(".json"));
    assert!(!config.target_languages.is_empty());
    assert!(config.delay_seconds > 0);
    assert!(!config.output_dir.is_empty());
}

#[test]
fn key_paths_of_a_source_document() {
    let source = obj(vec![
        ("app", obj(vec![("title", s("Title")), ("description", s("Desc"))])),
        ("count", JsonValue::Number("3".to_string())),
    ]);
    assert_eq!(
        extract_all_paths(&source, &String::new()),
        vec!["app.title".to_string(), "app.description".to_string()]
    );
}

#[test]
fn a_written_translation_reads_back() {
    let mut doc = obj(vec![]);
    set_nested_value(&mut doc, "menu.file.open", s("Aç")).unwrap();
    match get_nested_value(&doc, "menu.file.open") {
        Some(JsonValue::Str(t)) => assert_eq!(t, "Aç"),
        _ => panic!("value missing"),
    }
    assert!(get_nested_value(&doc, "menu.file.close").is_none());
    let mut leaf = s("x");
    assert!(set_nested_value(&mut leaf, "a.b", s("y")).is_ok());
    match get_nested_value(&leaf, "a.b") {
        Some(JsonValue::Str(t)) => assert_eq!(t, "y"),
        _ => panic!("value missing"),
    }
    let mut other_leaf = s("x");
    assert!(set_nested_value(&mut other_leaf, "a", s("y")).is_err());
}

#[test]
fn batch_prompt_reply_and_apply() {
    let source = obj(vec![("a", s("Hello")), ("b", obj(vec![("c", s("Bye"))])), ("n", JsonValue::Null)]);
    let paths = vec!["a".to_string(), "b.c".to_string(), "n".to_string()];
    let (text, mapping) = translation_batch(&source, &paths);
    assert_eq!(text, "a||Hello\nb.c||Bye\n");
    assert_eq!(mapping, vec!["a".to_string(), "b.c".to_string()]);
    let prompt = translation_prompt("Spanish", &text);
    assert!(prompt.starts_with("Translate the following key-value pairs to Spanish. Keep"));
    assert!(prompt.ends_with("a||Hello\nb.c||Bye\n"));
    let reply = " a || Hola \nnoise\nb.c||Adiós\nzzz||x\n";
    let pairs = parse_translation_response(reply, &mapping);
    assert_eq!(
        pairs,
        vec![("a".to_string(), "Hola".to_string()), ("b.c".to_string(), "Adiós".to_string())]
    );
    let mut target = obj(vec![]);
    assert_eq!(apply_translations(&mut target, &pairs), Ok(2));
    assert!(find_missing_paths(&target, &mapping).is_empty());
}

#[test]
fn paths_in_batches_of_ten() {
    let paths: Vec<String> = (0..23).map(|i| format!("k{}", i)).collect();
    let chunks = path_chunks(&paths, 10);
    assert_eq!(chunks.iter().map(|c| c.len()).collect::<Vec<_>>(), vec![10, 10, 3]);
    assert_eq!(chunks[2][0], "k20");
    assert!(path_chunks(&Vec::new(), 10).is_empty());
}

#[test]
fn translation_sync_test_test_translation_key_extraction() {
    let source_json = obj(vec![
        ("app", obj(vec![("title", s("My App")), ("description", s("A great application"))])),
        (
            "buttons",
            obj(vec![("save", s("Save")), ("cancel", s("Cancel")), ("submit", s("Submit"))]),
        ),
        (
            "messages",
            obj(vec![
                ("success", s("Operation completed successfully")),
                ("error", s("An error occurred")),
            ]),
        ),
    ]);

    let keys = extract_all_paths(&source_json, &String::new());

    assert!(keys.contains(&"app.title".to_string()));
    assert!(keys.contains(&"app.description".to_string()));
    assert!(keys.contains(&"buttons.save".to_string()));
    assert!(keys.contains(&"buttons.cancel".to_string()));
    assert!(keys.contains(&"buttons.submit".to_string()));
    assert!(keys.contains(&"messages.success".to_string()));
    assert!(keys.contains(&"messages.error".to_string()));
    assert_eq!(keys.len(), 7);
}

fn codes(v: &[Language]) -> Vec<String> {
    v.iter().map(|l| l.code.clone()).collect()
}

#[test]
fn languages_by_code() {
    let tr = Language::from_code("tr");
    assert_eq!((tr.code.as_str(), tr.name.as_str(), tr.flag.as_str()), ("tr", "Turkish", "🇹🇷"));
    let xx = Language::from_code("xx");
    assert_eq!((xx.code.as_str(), xx.name.as_str(), xx.flag.as_str()), ("xx", "xx", "🌍"));
}

#[test]
fn languages_from_json_files_except_the_source() {
    let names: Vec<String> =
        ["tr.json", "source.json", "notes.txt", "de.json", ".json"].iter().map(|s| s.to_string()).collect();
    let found = languages_from_file_names(&names, "source.json");
    assert_eq!(codes(&found), vec!["de", "tr"]);
    assert_eq!(found[0].name, "German");
    assert_eq!(codes(&default_languages()), vec!["tr", "es", "fr", "de", "it"]);
}

#[test]
fn languages_added_from_an_answer() {
    let added = add_languages(default_languages(), " ja, ko,,tr, ja ,zz ");
    assert_eq!(codes(&added), vec!["tr", "es", "fr", "de", "it", "ja", "ko", "zz"]);
    assert_eq!(added[5].name, "Japanese");
    assert_eq!(added[7].flag, "🌍");
}
