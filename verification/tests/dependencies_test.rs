use nitroterm::dependencies::{
    backup_dir_name, cargo_dependency_lines, json_dependency_entries, lock_files_for,
    manifest_kind, next_update_stage, output_is_blank, requirement_lines, stage_arguments,
    tool_command, yarn_route, CommandOutcome, ManifestKind, NodeTool, UpdateReport, UpdateStage,
    YarnRoute,
};
use nitroterm::json::JsonValue;

fn s(text: &str) -> JsonValue {
    JsonValue::Str(text.to_string())
}

fn obj(members: Vec<(&str, JsonValue)>) -> JsonValue {
    JsonValue::Object(members.into_iter().map(|(k, v)| (k.to_string(), v)).collect())
}

fn ran(success: bool, stdout: &str) -> CommandOutcome {
    CommandOutcome::Ran { success, stdout: stdout.to_string() }
}

#[test]
fn manifests_are_told_apart_by_name() {
    assert_eq!(manifest_kind("package.json"), ManifestKind::Node);
    assert_eq!(manifest_kind("Cargo.toml"), ManifestKind::Cargo);
    assert_eq!(manifest_kind("requirements.txt"), ManifestKind::Pip);
    assert_eq!(manifest_kind("composer.json"), ManifestKind::Composer);
    assert_eq!(manifest_kind("Gemfile"), ManifestKind::Unknown);
}

#[test]
fn cargo_dependencies_section_is_read() {
    let content = "[package]\nname = \"demo\"\nversion = \"0.1.0\"\n\n[dependencies]\nserde = \"1\"\n  tokio = { version = \"1\" }\n\n[dev-dependencies]\ntempfile = \"3\"\n";
    assert_eq!(
        cargo_dependency_lines(content),
        vec!["serde = \"1\"".to_string(), "tokio = { version = \"1\" }".to_string()]
    );
    assert!(cargo_dependency_lines("[package]\nname = \"x\"\n").is_empty());
}

#[test]
fn requirements_skip_comments_and_blank_lines() {
    let content = "# pinned\nrequests==2.31.0\n\n  flask>=2.0  \n#dev\npytest\n";
    assert_eq!(
        requirement_lines(content),
        vec!["requests==2.31.0".to_string(), "flask>=2.0".to_string(), "pytest".to_string()]
    );
    assert!(requirement_lines("").is_empty());
}

#[test]
fn json_manifest_sections() {
    let doc = obj(vec![
        ("name", s("demo")),
        (
            "dependencies",
            obj(vec![("react", s("^18.2.0")), ("odd", JsonValue::Number("1".to_string()))]),
        ),
        ("devDependencies", s("not an object")),
    ]);
    assert_eq!(
        json_dependency_entries(&doc, "dependencies"),
        Some(vec![
            ("react".to_string(), "^18.2.0".to_string()),
            ("odd".to_string(), "unknown".to_string()),
        ])
    );
    assert_eq!(json_dependency_entries(&doc, "devDependencies"), None);
    assert_eq!(json_dependency_entries(&doc, "require"), None);
}

#[test]
fn lock_files_by_package_manager() {
    assert_eq!(lock_files_for("pnpm"), vec!["pnpm-lock.yaml".to_string()]);
    assert_eq!(lock_files_for("yarn"), vec!["yarn.lock".to_string()]);
    assert_eq!(lock_files_for("npm"), vec!["package-lock.json".to_string()]);
    assert_eq!(
        lock_files_for("bun"),
        vec!["package-lock.json".to_string(), "yarn.lock".to_string(), "pnpm-lock.yaml".to_string()]
    );
}

#[test]
fn backup_directory_and_tool_commands() {
    assert_eq!(backup_dir_name("20240102_030405"), "./backup/20240102_030405");
    assert_eq!(tool_command("npm", true, true), "npm.cmd");
    assert_eq!(tool_command("npm", true, false), "npm");
    assert_eq!(tool_command("npm", false, true), "npm");
    assert_eq!(yarn_route(true, true), YarnRoute::Direct);
    assert_eq!(yarn_route(false, true), YarnRoute::ViaNpx);
    assert_eq!(yarn_route(false, false), YarnRoute::Missing);
    assert!(output_is_blank("  \n\t"));
    assert!(!output_is_blank(" x "));
}

#[test]
fn stage_commands() {
    assert_eq!(stage_arguments(NodeTool::Yarn, UpdateStage::Update), vec!["upgrade".to_string()]);
    assert_eq!(stage_arguments(NodeTool::Npm, UpdateStage::Update), vec!["update".to_string()]);
    assert_eq!(stage_arguments(NodeTool::Pnpm, UpdateStage::Outdated), vec!["outdated".to_string()]);
    assert_eq!(stage_arguments(NodeTool::Pnpm, UpdateStage::Audit), vec!["audit".to_string()]);
    assert!(stage_arguments(NodeTool::Npm, UpdateStage::Finished).is_empty());
}

#[test]
fn npm_run_stops_after_outdated_listing() {
    let (stage, report) = next_update_stage(NodeTool::Npm, UpdateStage::Update, &ran(true, "ok"));
    assert_eq!((stage, report), (UpdateStage::Outdated, Some(UpdateReport::Updated)));
    let (stage, report) = next_update_stage(NodeTool::Npm, UpdateStage::Outdated, &ran(false, ""));
    assert_eq!((stage, report), (UpdateStage::Finished, Some(UpdateReport::UpToDate)));
    let (stage, report) =
        next_update_stage(NodeTool::Npm, UpdateStage::Outdated, &ran(false, "react 17 18"));
    assert_eq!((stage, report), (UpdateStage::Finished, Some(UpdateReport::OutdatedShown)));
    assert_eq!(
        next_update_stage(NodeTool::Npm, UpdateStage::Finished, &CommandOutcome::NotStarted),
        (UpdateStage::Finished, None)
    );
}

#[test]
fn failed_update_ends_the_run() {
    assert_eq!(
        next_update_stage(NodeTool::Yarn, UpdateStage::Update, &ran(false, "")),
        (UpdateStage::Finished, Some(UpdateReport::UpdateFailed))
    );
    assert_eq!(
        next_update_stage(NodeTool::Pnpm, UpdateStage::Update, &CommandOutcome::NotStarted),
        (UpdateStage::Finished, Some(UpdateReport::UpdateFailed))
    );
}

#[test]
fn yarn_and_pnpm_audit_after_outdated() {
    assert_eq!(
        next_update_stage(NodeTool::Yarn, UpdateStage::Outdated, &CommandOutcome::NotStarted),
        (UpdateStage::Audit, Some(UpdateReport::OutdatedUnavailable))
    );
    assert_eq!(
        next_update_stage(NodeTool::Yarn, UpdateStage::Audit, &ran(false, "3 vulnerabilities found")),
        (UpdateStage::Finished, Some(UpdateReport::AuditShown))
    );
    assert_eq!(
        next_update_stage(NodeTool::Yarn, UpdateStage::Audit, &ran(true, "0 issues")),
        (UpdateStage::Finished, Some(UpdateReport::AuditClean))
    );
    assert_eq!(
        next_update_stage(NodeTool::Pnpm, UpdateStage::Audit, &ran(true, "   ")),
        (UpdateStage::Finished, Some(UpdateReport::AuditClean))
    );
    assert_eq!(
        next_update_stage(NodeTool::Pnpm, UpdateStage::Audit, &CommandOutcome::NotStarted),
        (UpdateStage::Finished, Some(UpdateReport::AuditUnavailable))
    );
}
