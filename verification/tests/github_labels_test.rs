use nitroterm::github_labels::{
    tool_check, ToolCheck,
    install_commands, install_method, label_create_args, label_delete_args, label_edit_args,
    label_names_from_listing, GitHubLabel,
    GitHubLabelsConfig, GitHubLabelsManager, InstallMethod, LabelStep, LabelUpdate,
};
use std::collections::HashSet;

#[test]
fn test_github_labels_config_default() {
    let config = GitHubLabelsConfig::default();

    assert!(!config.skip_auth);
    assert!(!config.skip_install);
    assert!(!config.dry_run);
    assert!(!config.list_only);
    assert!(!config.delete_all);
    assert!(!config.update_only);
}

#[test]
fn test_github_label_creation() {
    let label = GitHubLabel {
        name: "🐛 bug".to_string(),
        description: "Software bugs and defects".to_string(),
        color: "D73A49".to_string(),
    };

    assert_eq!(label.name, "🐛 bug");
    assert_eq!(label.description, "Software bugs and defects");
    assert_eq!(label.color, "D73A49");
}

#[test]
fn test_label_update_creation() {
    let update = LabelUpdate {
        old_name: "bug".to_string(),
        new_name: "🐛 bug".to_string(),
        description: "Software bugs and defects".to_string(),
        color: "D73A49".to_string(),
    };

    assert_eq!(update.old_name, "bug");
    assert_eq!(update.new_name, "🐛 bug");
    assert_eq!(update.description, "Software bugs and defects");
    assert_eq!(update.color, "D73A49");
}

#[test]
fn test_manager_creation() {
    let config = GitHubLabelsConfig::default();
    let manager = GitHubLabelsManager::new(config.clone());

    assert_eq!(manager.config.dry_run, config.dry_run);
    assert_eq!(manager.config.list_only, config.list_only);
}

#[test]
fn test_get_new_labels_to_create() {
    let manager = GitHubLabelsManager::new(GitHubLabelsConfig::default());
    let labels = manager.get_new_labels_to_create();

    assert!(!labels.is_empty());

    let critical_priority = labels.iter().find(|l| l.name == "🔴 priority: critical");
    assert!(critical_priority.is_some());
    assert_eq!(critical_priority.unwrap().color, "B60205");

    let in_progress = labels.iter().find(|l| l.name == "🔄 status: in progress");
    assert!(in_progress.is_some());
    assert_eq!(in_progress.unwrap().color, "0052CC");

    let ui_ux = labels.iter().find(|l| l.name == "🎨 ui/ux");
    assert!(ui_ux.is_some());
    assert_eq!(ui_ux.unwrap().description, "User interface and experience");

    let easy = labels.iter().find(|l| l.name == "🌱 easy");
    assert!(easy.is_some());
    assert_eq!(easy.unwrap().color, "C2E0C6");

    let security = labels.iter().find(|l| l.name == "🔒 security");
    assert!(security.is_some());
    assert_eq!(security.unwrap().description, "Security related issues");

    let required_labels = vec![
        "🔴 priority: critical",
        "🟠 priority: high",
        "🟡 priority: medium",
        "🟢 priority: low",
        "🔄 status: in progress",
        "👀 status: needs review",
        "🚧 status: blocked",
        "✅ status: ready",
        "🎨 ui/ux",
        "🌍 translation",
        "🔧 cli",
        "📦 release",
        "🔍 code-quality",
        "🌱 easy",
        "🌿 medium",
        "🌳 hard",
        "🔒 security",
        "⚡ performance",
        "♿ accessibility",
        "🧪 testing",
        "🐞 fix",
        "✨ feature",
    ];

    for required_label in required_labels {
        assert!(
            labels.iter().any(|l| l.name == required_label),
            "Required label '{}' not found",
            required_label
        );
    }
}

#[test]
fn test_get_existing_labels_to_update() {
    let manager = GitHubLabelsManager::new(GitHubLabelsConfig::default());
    let updates = manager.get_existing_labels_to_update();

    assert!(!updates.is_empty());

    let bug_update = updates.iter().find(|u| u.old_name == "bug");
    assert!(bug_update.is_some());
    assert_eq!(bug_update.unwrap().new_name, "🐛 bug");
    assert_eq!(bug_update.unwrap().color, "D73A49");

    let docs_update = updates.iter().find(|u| u.old_name == "documentation");
    assert!(docs_update.is_some());
    assert_eq!(docs_update.unwrap().new_name, "📚 documentation");
    assert_eq!(docs_update.unwrap().color, "0075CA");

    let enhancement_update = updates.iter().find(|u| u.old_name == "enhancement");
    assert!(enhancement_update.is_some());
    assert_eq!(enhancement_update.unwrap().new_name, "✨ enhancement");
    assert_eq!(enhancement_update.unwrap().color, "A2EEEF");

    let standard_labels = vec![
        "bug",
        "dependencies",
        "documentation",
        "duplicate",
        "enhancement",
        "github_actions",
        "good first issue",
        "help wanted",
        "invalid",
        "question",
        "wontfix",
    ];

    for standard_label in standard_labels {
        assert!(
            updates.iter().any(|u| u.old_name == standard_label),
            "Standard label '{}' not found in updates",
            standard_label
        );
    }
}

#[test]
fn test_label_colors_are_valid_hex() {
    let manager = GitHubLabelsManager::new(GitHubLabelsConfig::default());
    let labels = manager.get_new_labels_to_create();

    for label in &labels {
        assert_eq!(label.color.len(), 6, "Color '{}' for label '{}' is not 6 characters", label.color, label.name);
        assert!(label.color.chars().all(|c| c.is_ascii_hexdigit()));
    }

    let updates = manager.get_existing_labels_to_update();
    for update in &updates {
        assert_eq!(update.color.len(), 6);
        assert!(update.color.chars().all(|c| c.is_ascii_hexdigit()));
    }
}

#[test]
fn test_label_names_have_emojis() {
    let manager = GitHubLabelsManager::new(GitHubLabelsConfig::default());
    let labels = manager.get_new_labels_to_create();

    let labels_with_emojis = labels
        .iter()
        .filter(|l| {
            let first_char = l.name.chars().next().unwrap_or(' ');
            first_char as u32 > 127
        })
        .count();

    assert!(labels_with_emojis > 15, "Expected most labels to have emojis, found {}", labels_with_emojis);
}

#[test]
fn test_label_descriptions_not_empty() {
    let manager = GitHubLabelsManager::new(GitHubLabelsConfig::default());
    let labels = manager.get_new_labels_to_create();

    for label in &labels {
        assert!(!label.description.is_empty());
        assert!(label.description.len() > 5);
    }

    let updates = manager.get_existing_labels_to_update();
    for update in &updates {
        assert!(!update.description.is_empty());
        assert!(update.description.len() > 5);
    }
}

#[test]
fn test_priority_labels_have_correct_colors() {
    let manager = GitHubLabelsManager::new(GitHubLabelsConfig::default());
    let labels = manager.get_new_labels_to_create();

    let critical = labels.iter().find(|l| l.name.contains("critical")).unwrap();
    assert_eq!(critical.color, "B60205");

    let high = labels.iter().find(|l| l.name.contains("high")).unwrap();
    assert_eq!(high.color, "D93F0B");

    let medium = labels.iter().find(|l| l.name.contains("medium")).unwrap();
    assert_eq!(medium.color, "FBCA04");

    let low = labels.iter().find(|l| l.name.contains("low")).unwrap();
    assert_eq!(low.color, "0E8A16");
}

#[test]
fn test_no_duplicate_label_names() {
    let manager = GitHubLabelsManager::new(GitHubLabelsConfig::default());
    let labels = manager.get_new_labels_to_create();

    let mut names = HashSet::new();
    for label in &labels {
        assert!(names.insert(&label.name), "Duplicate label name found: {}", label.name);
    }
}

#[test]
fn test_label_categories_are_complete() {
    let manager = GitHubLabelsManager::new(GitHubLabelsConfig::default());
    let labels = manager.get_new_labels_to_create();

    assert!(labels.iter().any(|l| l.name.contains("priority:")));
    assert!(labels.iter().any(|l| l.name.contains("status:")));
    assert!(labels.iter().any(|l| l.name.contains("ui/ux")));
    assert!(labels.iter().any(|l| l.name.contains("translation")));
    assert!(labels.iter().any(|l| l.name.contains("cli")));
    assert!(labels.iter().any(|l| l.name.contains("security")));
    assert!(labels.iter().any(|l| l.name.contains("testing")));
}

#[test]
fn os_names_from_platform() {
    assert_eq!(GitHubLabelsManager::detect_os_from("macos", false, false, false), "macos");
    assert_eq!(GitHubLabelsManager::detect_os_from("linux", true, true, false), "ubuntu");
    assert_eq!(GitHubLabelsManager::detect_os_from("linux", false, false, true), "centos");
    assert_eq!(GitHubLabelsManager::detect_os_from("linux", false, false, false), "linux");
    assert_eq!(GitHubLabelsManager::detect_os_from("windows", false, false, false), "windows");
    assert_eq!(GitHubLabelsManager::detect_os_from("freebsd", false, false, false), "unknown");
}

#[test]
fn installers_by_os() {
    assert_eq!(install_method("debian"), InstallMethod::Apt);
    assert_eq!(install_method("rhel"), InstallMethod::Yum);
    assert_eq!(install_method("windows"), InstallMethod::ManualWindows);
    assert_eq!(install_method("linux"), InstallMethod::Unsupported);
    assert_eq!(install_commands(InstallMethod::Dnf), vec![vec!["sudo", "dnf", "install", "gh", "-y"]]);
    assert_eq!(install_commands(InstallMethod::Apt).len(), 3);
    assert!(install_commands(InstallMethod::ManualWindows).is_empty());
}

#[test]
fn run_plans_follow_the_options() {
    let mut config = GitHubLabelsConfig::default();
    let full = GitHubLabelsManager::new(config).run_plan();
    assert_eq!(
        full,
        vec![
            LabelStep::CheckInstall,
            LabelStep::CheckAuth,
            LabelStep::UpdateExisting,
            LabelStep::CreateNew,
            LabelStep::ShowCompletion,
        ]
    );
    config.list_only = true;
    config.skip_auth = true;
    assert_eq!(
        GitHubLabelsManager::new(config).run_plan(),
        vec![LabelStep::CheckInstall, LabelStep::ListLabels]
    );
    let mut c2 = GitHubLabelsConfig::default();
    c2.skip_install = true;
    c2.delete_all = true;
    c2.update_only = true;
    assert_eq!(
        GitHubLabelsManager::new(c2).run_plan(),
        vec![LabelStep::CheckAuth, LabelStep::DeleteAll, LabelStep::UpdateExisting, LabelStep::ShowCompletion]
    );
}

#[test]
fn dry_runs_run_no_changing_command() {
    let mut config = GitHubLabelsConfig::default();
    config.dry_run = true;
    let manager = GitHubLabelsManager::new(config);
    let listed = vec!["bug".to_string()];
    for step in [LabelStep::DeleteAll, LabelStep::UpdateExisting, LabelStep::CreateNew] {
        assert!(manager.step_commands(step, &listed).is_empty());
    }
    let live = GitHubLabelsManager::new(GitHubLabelsConfig::default());
    assert_eq!(live.step_commands(LabelStep::DeleteAll, &listed), vec![vec!["label", "delete", "bug", "--yes"]]);
    assert_eq!(live.step_commands(LabelStep::UpdateExisting, &listed).len(), 11);
    assert_eq!(live.step_commands(LabelStep::CreateNew, &listed).len(), 22);
}

#[test]
fn listing_gives_first_words() {
    let listing = "bug\tSomething broken\t#d73a49\n\n  enhancement  New feature\n";
    assert_eq!(label_names_from_listing(listing), vec!["bug".to_string(), "enhancement".to_string()]);
    let l = GitHubLabel { name: "x".into(), description: "d".into(), color: "FFFFFF".into() };
    assert_eq!(label_create_args(&l), vec!["label", "create", "x", "--description", "d", "--color", "FFFFFF"]);
}

#[test]
fn edit_and_delete_arguments() {
    let u = LabelUpdate {
        old_name: "bug".to_string(),
        new_name: "🐛 bug".to_string(),
        description: "Something is broken".to_string(),
        color: "d73a4a".to_string(),
    };
    assert_eq!(
        label_edit_args(&u),
        vec!["label", "edit", "bug", "--name", "🐛 bug", "--description", "Something is broken", "--color", "d73a4a"]
    );
    assert_eq!(label_delete_args("wontfix"), vec!["label", "delete", "wontfix", "--yes"]);
}

#[test]
fn missing_tools_are_only_reported_in_dry_runs() {
    assert_eq!(tool_check(true, true), ToolCheck::Ready);
    assert_eq!(tool_check(false, true), ToolCheck::Ready);
    assert_eq!(tool_check(true, false), ToolCheck::WouldFix);
    assert_eq!(tool_check(false, false), ToolCheck::AskToFix);
}

#[test]
fn update_only_edits_and_creates_nothing() {
    let mut c = GitHubLabelsConfig::default();
    c.update_only = true;
    c.skip_install = true;
    c.skip_auth = true;
    let manager = GitHubLabelsManager::new(c);
    assert_eq!(manager.run_plan(), vec![LabelStep::UpdateExisting, LabelStep::ShowCompletion]);
    let edits = manager.step_commands(LabelStep::UpdateExisting, &Vec::new());
    assert_eq!(edits.len(), manager.get_existing_labels_to_update().len());
    assert!(edits.iter().all(|e| e[1] == "edit"));
    assert!(manager.step_commands(LabelStep::CreateNew, &Vec::new()).is_empty());
}

#[test]
fn new_label_table_shape() {
    let labels = GitHubLabelsManager::new(GitHubLabelsConfig::default()).get_new_labels_to_create();
    assert_eq!(labels.len(), 22);
    let names: HashSet<&str> = labels.iter().map(|l| l.name.as_str()).collect();
    assert_eq!(names.len(), 22);
    for l in &labels {
        assert!(!l.name.chars().next().unwrap().is_ascii());
        assert!(l.description.len() > 5);
        assert!(l.color.len() == 6 && l.color.chars().all(|c| c.is_ascii_hexdigit()));
    }
}
