use nitroterm::i18n::I18n;
use nitroterm::json::JsonValue;
use nitroterm::menu::{
    config_action, menu_choice, version_action, ConfigAction, MenuChoice, VersionAction,
};
use nitroterm::version::BumpType;

fn s(text: &str) -> JsonValue {
    JsonValue::Str(text.to_string())
}

fn obj(members: Vec<(&str, JsonValue)>) -> JsonValue {
    JsonValue::Object(members.into_iter().map(|(k, v)| (k.to_string(), v)).collect())
}

#[test]
fn menu_answers_by_number_and_name() {
    assert_eq!(menu_choice("1"), MenuChoice::CreateRelease);
    assert_eq!(menu_choice(" release-notes \n"), MenuChoice::ReleaseNotes);
    assert_eq!(menu_choice("3"), MenuChoice::UpdateDependencies);
    assert_eq!(menu_choice("sync-translations"), MenuChoice::SyncTranslations);
    assert_eq!(menu_choice("5"), MenuChoice::CodeQuality);
    assert_eq!(menu_choice("github-labels"), MenuChoice::GitHubLabels);
    assert_eq!(menu_choice("7"), MenuChoice::Config);
    assert_eq!(menu_choice("version"), MenuChoice::Version);
    assert_eq!(menu_choice("9"), MenuChoice::Help);
    for leave in ["0", "exit", "quit", "q"] {
        assert_eq!(menu_choice(leave), MenuChoice::Exit);
    }
    assert_eq!(menu_choice("10"), MenuChoice::Unknown);
    assert_eq!(menu_choice(""), MenuChoice::Unknown);
}

#[test]
fn config_menu_answers() {
    assert_eq!(config_action("2"), ConfigAction::Setup);
    assert_eq!(config_action(" setup"), ConfigAction::Setup);
    assert_eq!(config_action("3"), ConfigAction::Reset);
    assert_eq!(config_action("reset"), ConfigAction::Reset);
    assert_eq!(config_action("1"), ConfigAction::Show);
    assert_eq!(config_action("anything"), ConfigAction::Show);
}

#[test]
fn version_menu_answers() {
    assert_eq!(version_action("1"), VersionAction::Bump(BumpType::Patch));
    assert_eq!(version_action("minor"), VersionAction::Bump(BumpType::Minor));
    assert_eq!(version_action("3\n"), VersionAction::Bump(BumpType::Major));
    assert_eq!(version_action("5"), VersionAction::History);
    assert_eq!(version_action("history"), VersionAction::History);
    assert_eq!(version_action("4"), VersionAction::Show);
}

fn texts() -> I18n {
    I18n::with_translations(vec![
        ("en".to_string(), obj(vec![("greeting", s("Hello")), ("count", JsonValue::Number("3".to_string()))])),
        ("tr".to_string(), obj(vec![("greeting", s("Merhaba"))])),
    ])
}

#[test]
fn texts_start_in_english() {
    let i18n = texts();
    assert_eq!(i18n.current_locale(), "en");
    assert_eq!(i18n.t("greeting"), "Hello");
}

#[test]
fn missing_keys_and_non_strings_give_the_key() {
    let i18n = texts();
    assert_eq!(i18n.t("farewell"), "farewell");
    assert_eq!(i18n.t("count"), "count");
}

#[test]
fn switching_locale_only_to_a_known_one() {
    let mut i18n = texts();
    i18n.set_locale("tr");
    assert_eq!(i18n.current_locale(), "tr");
    assert_eq!(i18n.t("greeting"), "Merhaba");
    i18n.set_locale("xx");
    assert_eq!(i18n.current_locale(), "tr");
}

#[test]
fn without_texts_every_key_is_itself() {
    let mut i18n = I18n::with_translations(Vec::new());
    i18n.set_locale("de");
    assert_eq!(i18n.current_locale(), "en");
    assert_eq!(i18n.t("menu.title"), "menu.title");
}
