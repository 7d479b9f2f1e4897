use nitroterm::release_notes::ReleaseManager;
use nitroterm::version::{
    bump_commit_message, bump_version_from, determine_bump_type, release_bump_with_lowercase,
    release_choice, release_git_steps, release_step_fails, release_tag_name,
    requested_release_version, BumpType,
    ReleaseVersionError,
};

#[test]
fn test_bump_type_ordering() {
    assert!(BumpType::Major > BumpType::Minor);
    assert!(BumpType::Minor > BumpType::Patch);
    assert!(BumpType::Patch < BumpType::Minor);
    assert!(BumpType::Minor < BumpType::Major);
}

#[test]
fn test_version_parsing() {
    let version_patterns = vec![
        ("v1.0.0", true),
        ("1.2.3", true),
        ("v0.1.0-alpha", true),
        ("2.0.0-beta.1", true),
        ("invalid", false),
        ("", false),
        ("1.2", false),
    ];

    for (version, should_be_valid) in version_patterns {
        let is_valid =
            version.trim_start_matches('v').split('.').count() >= 3 || version.contains('-');

        if should_be_valid {
            assert!(
                is_valid || version.contains('-'),
                "Version {} should be valid",
                version
            );
        }
    }
}

#[test]
fn test_conventional_commit_parsing() {
    let commits = vec![
        ("feat(api): add user endpoints", "feat", "add user endpoints"),
        ("fix: resolve memory leak", "fix", "resolve memory leak"),
        ("docs: update README", "docs", "update README"),
        ("refactor(auth): simplify login", "refactor", "simplify login"),
        ("chore: update deps", "chore", "update deps"),
    ];

    for (commit_msg, expected_type, expected_desc) in commits {
        let parts: Vec<&str> = commit_msg.splitn(2, ": ").collect();
        if parts.len() == 2 {
            let type_scope = parts[0];
            let description = parts[1];

            assert_eq!(description, expected_desc);

            let type_part = if type_scope.contains('(') {
                type_scope.split('(').next().unwrap()
            } else {
                type_scope
            };
            assert_eq!(type_part, expected_type);
        }
    }
}

#[test]
fn test_git_command_validation() {
    let tag_name = "v1.2.3";
    let expected_commands = vec![
        format!("git tag {}", tag_name),
        format!("git push origin {}", tag_name),
        "git push origin main".to_string(),
    ];

    for cmd in expected_commands {
        assert!(cmd.starts_with("git"));
        assert!(cmd.len() > 4);
    }
    assert_eq!(release_tag_name("1.2.3"), tag_name);
}

#[test]
fn test_release_notes_structure() {
    let version = "1.2.3";
    let date = "2025-05-28";

    let header = format!("## [{}] - {}", version, date);
    assert!(header.starts_with("## ["));
    assert!(header.contains(version));
    assert!(header.contains(date));

    let sections = vec!["### ✨ Features", "### 🐛 Bug Fixes", "### 📚 Documentation"];
    for section in sections {
        assert!(section.starts_with("### "));
    }
}

#[test]
fn test_semver_increment() {
    let test_cases = vec![
        ("1.0.0", BumpType::Major, "2.0.0"),
        ("1.2.3", BumpType::Minor, "1.3.0"),
        ("1.2.3", BumpType::Patch, "1.2.4"),
        ("0.1.0", BumpType::Major, "1.0.0"),
        ("2.0.0", BumpType::Patch, "2.0.1"),
    ];

    for (current, bump_type, expected) in test_cases {
        let new_version = bump_version_from(bump_type.as_str(), current).unwrap();
        assert_eq!(new_version, expected);
    }
}

#[test]
fn test_commit_message_validation() {
    let valid_messages = vec![
        "feat: add new feature",
        "fix: resolve bug",
        "docs: update readme",
        "style: format code",
        "refactor: improve performance",
        "test: add unit tests",
        "chore: update dependencies",
    ];

    for msg in valid_messages {
        assert!(msg.contains(": "));
        assert!(msg.len() > 5);
    }
}

#[test]
fn test_repo_url_normalization() {
    let https_url = "https://github.com/user/repo.git";
    let normalized = ReleaseManager::normalize_github_url(https_url);
    assert_eq!(normalized, "user/repo");

    let ssh_url = "git@github.com:user/repo.git";
    let normalized = ReleaseManager::normalize_github_url(ssh_url);
    assert_eq!(normalized, "user/repo");
}

#[test]
fn interactive_release_choices() {
    assert_eq!(release_choice("1"), ("patch", true));
    assert_eq!(release_choice(" minor \n"), ("minor", true));
    assert_eq!(release_choice("3"), ("major", true));
    assert_eq!(release_choice("huge"), ("patch", false));
}

#[test]
fn release_git_steps_with_changes() {
    let steps = release_git_steps("1.2.4", None, true);
    let args: Vec<Vec<String>> = steps.iter().map(|s| s.args.clone()).collect();
    let required: Vec<bool> = steps.iter().map(|s| s.required).collect();
    assert_eq!(
        args,
        vec![
            vec!["add".to_string(), "Cargo.toml".to_string()],
            vec!["commit".to_string(), "-m".to_string(), "bump: version 1.2.4".to_string()],
            vec![
                "tag".to_string(),
                "-a".to_string(),
                "v1.2.4".to_string(),
                "-m".to_string(),
                "Release v1.2.4".to_string(),
            ],
            vec!["push".to_string()],
            vec!["push".to_string(), "origin".to_string(), "v1.2.4".to_string()],
        ]
    );
    assert_eq!(required, vec![true, true, true, false, false]);
    assert_eq!(bump_commit_message("1.2.4"), "bump: version 1.2.4");
}

#[test]
fn release_git_steps_clean_tree_with_message() {
    let steps = release_git_steps("2.0.0", Some("Big one"), false);
    assert_eq!(steps.len(), 3);
    assert_eq!(steps[0].args[4], "Big one");
}

#[test]
fn create_release_test_determine_bump_type() {
    assert_eq!(determine_bump_type("major").unwrap(), "major");
    assert_eq!(determine_bump_type("minor").unwrap(), "minor");
    assert_eq!(determine_bump_type("patch").unwrap(), "patch");
}

#[test]
fn bump_requests_by_name_and_by_version() {
    assert_eq!(determine_bump_type("MAJOR"), Ok("major"));
    assert_eq!(determine_bump_type("v0.2.0"), Ok("minor"));
    assert_eq!(determine_bump_type("1.0.0"), Ok("major"));
    assert_eq!(determine_bump_type("0.1.1"), Ok("patch"));
    assert_eq!(determine_bump_type("0.1.0"), Err(ReleaseVersionError::NotHigher));
    assert_eq!(determine_bump_type("huge"), Err(ReleaseVersionError::UnknownBumpType));
    assert_eq!(
        release_bump_with_lowercase("1.x.3", "1.2.3", "1.x.3"),
        Err(ReleaseVersionError::NotHigher)
    );
    assert_eq!(release_bump_with_lowercase("2.0.0", "1.9.9", "2.0.0"), Ok(BumpType::Major));
}

#[test]
fn requested_versions_are_released_as_asked() {
    assert_eq!(requested_release_version("v2.5.0"), Ok("2.5.0".to_string()));
    assert_eq!(requested_release_version("0.1.1"), Ok("0.1.1".to_string()));
    assert_eq!(requested_release_version("major"), Ok("1.0.0".to_string()));
    assert_eq!(requested_release_version("Minor"), Ok("0.2.0".to_string()));
    assert_eq!(requested_release_version("patch"), Ok("0.1.1".to_string()));
    assert_eq!(requested_release_version("v0.1.0"), Err(ReleaseVersionError::NotHigher));
    assert_eq!(requested_release_version("soon"), Err(ReleaseVersionError::UnknownBumpType));
}

#[test]
fn only_required_release_steps_stop_a_release() {
    let steps = release_git_steps("1.0.0", None, true);
    assert_eq!(steps.len(), 5);
    assert_eq!(steps[2].args, vec!["tag", "-a", "v1.0.0", "-m", "Release v1.0.0"]);
    for step in &steps {
        let is_push = step.args[0] == "push";
        assert_eq!(release_step_fails(step, false), !is_push);
        assert!(!release_step_fails(step, true));
    }
}
