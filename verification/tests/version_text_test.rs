use nitroterm::version::{
    bump_type_from_name, cargo_toml_with_version, described_tag, format_version,
    latest_tag_from_describe, optional_message, tag_message, BumpType,
};

#[test]
fn bump_type_names() {
    assert_eq!(bump_type_from_name("major"), Some(BumpType::Major));
    assert_eq!(bump_type_from_name("minor"), Some(BumpType::Minor));
    assert_eq!(bump_type_from_name("patch"), Some(BumpType::Patch));
    assert_eq!(bump_type_from_name("Major"), None);
    assert_eq!(BumpType::Minor.as_str(), "minor");
}

#[test]
fn versions_are_written_with_dots() {
    assert_eq!(format_version(1, 20, 300), "1.20.300");
    assert_eq!(format_version(0, 0, 0), "0.0.0");
}

#[test]
fn manifest_version_line_is_replaced() {
    let content = "[package]\nname = \"nitroterm\"\nversion = \"0.1.0\"\n";
    assert_eq!(
        cargo_toml_with_version(content, "0.1.0", "0.2.0"),
        "[package]\nname = \"nitroterm\"\nversion = \"0.2.0\"\n"
    );
    assert_eq!(cargo_toml_with_version(content, "9.9.9", "10.0.0"), content);
}

#[test]
fn tag_messages_and_describe_output() {
    assert_eq!(tag_message(Some("First stable"), "v1.0.0"), "First stable");
    assert_eq!(tag_message(None, "v1.0.0"), "Release v1.0.0");
    assert_eq!(latest_tag_from_describe(true, "v0.3.0\n"), Some("v0.3.0".to_string()));
    assert_eq!(latest_tag_from_describe(true, "  \n"), None);
    assert_eq!(latest_tag_from_describe(false, "v0.3.0"), None);
    assert_eq!(described_tag(true, " v2 \n"), Some("v2".to_string()));
    assert_eq!(described_tag(true, ""), Some(String::new()));
    assert_eq!(described_tag(false, "v2"), None);
    assert_eq!(optional_message("  ship it  "), Some("ship it".to_string()));
    assert_eq!(optional_message("\n"), None);
}
