use nitroterm::release_notes::{
    categorize_commits, clean_tag_name, compare_version_tags, current_commit_tag,
    format_github_username_with_stats, generate_compare_url, generate_smart_tag,
    get_contributors_with_stats, is_prerelease, is_version_tag, release_notes_file_name,
    release_notes_text, repository_info_from_url, select_tag_range, tag_numbers, CommitInfo,
    RepositoryInfo,
};

fn commit(hash: &str, message: &str, name: &str, email: &str, timestamp: i64) -> CommitInfo {
    CommitInfo {
        hash: hash.to_string(),
        message: message.to_string(),
        author_name: name.to_string(),
        author_email: email.to_string(),
        timestamp,
    }
}

#[test]
fn test_clean_tag_name_simple() {
    assert_eq!(clean_tag_name("v1.0.0"), "v1.0.0");
    assert_eq!(clean_tag_name("1.2.3"), "1.2.3");
}

#[test]
fn test_clean_tag_name_with_hash() {
    assert_eq!(clean_tag_name("v1.0.0.abc1234"), "v1.0.0");
    assert_eq!(clean_tag_name("v2.1.0.b9a7534"), "v2.1.0");
}

#[test]
fn test_clean_tag_name_with_main_branch() {
    assert_eq!(clean_tag_name("v0.1.0-main.2025.05.26.b9a7534"), "v0.1.0");
    assert_eq!(clean_tag_name("v1.5.0-main.2024.12.01"), "v1.5.0");
}

#[test]
fn test_clean_tag_name_with_prerelease() {
    assert_eq!(clean_tag_name("v1.0.0-alpha"), "v1.0.0");
    assert_eq!(clean_tag_name("v1.0.0-beta"), "v1.0.0");
    assert_eq!(clean_tag_name("v1.0.0-rc"), "v1.0.0");
    assert_eq!(clean_tag_name("v1.0.0-pre"), "v1.0.0");
}

#[test]
fn test_clean_tag_name_with_special_chars() {
    assert_eq!(clean_tag_name("v1.0.0/feature"), "v1.0.0_feature");
    assert_eq!(clean_tag_name("v1.0.0:hotfix"), "v1.0.0_hotfix");
    assert_eq!(clean_tag_name("v1.0.0 final"), "v1.0.0_final");
}

#[test]
fn test_clean_tag_name_empty() {
    assert_eq!(clean_tag_name(""), "v0.1.0");
    assert_eq!(clean_tag_name("   "), "v0.1.0");
    assert_eq!(clean_tag_name("///"), "v0.1.0");
}

#[test]
fn test_is_prerelease() {
    assert!(is_prerelease("v1.0.0-alpha"));
    assert!(is_prerelease("v1.0.0-beta"));
    assert!(is_prerelease("v1.0.0-rc1"));
    assert!(is_prerelease("v1.0.0-snapshot"));
    assert!(!is_prerelease("v1.0.0"));
    assert!(!is_prerelease("1.2.3"));
}

#[test]
fn test_is_version_tag() {
    assert!(is_version_tag("v1.0.0"));
    assert!(is_version_tag("1.2.3"));
    assert!(is_version_tag("v10.20.30"));
    assert!(!is_version_tag("feature-branch"));
    assert!(!is_version_tag("release"));
    assert!(!is_version_tag(""));
}

#[test]
fn test_categorize_commits() {
    let commits = vec![
        commit("abc123", "feat: add new feature", "John Doe", "john@example.com", 1640995200),
        commit("def456", "fix: resolve bug in parser", "Jane Smith", "jane@example.com", 1640995200),
        commit("ghi789", "docs: update README", "Bob Wilson", "bob@example.com", 1640995200),
        commit(
            "jkl012",
            "BREAKING CHANGE: remove deprecated API",
            "Alice Brown",
            "alice@example.com",
            1640995200,
        ),
    ];

    let categorized = categorize_commits(&commits);

    println!("Features: {:?}", categorized.features);
    println!("Fixes: {:?}", categorized.fixes);
    println!("Docs: {:?}", categorized.docs);
    println!("Breaking: {:?}", categorized.breaking_changes);
    println!("Others: {:?}", categorized.others);

    assert_eq!(categorized.features.len(), 1);
    assert_eq!(categorized.fixes.len(), 1);
    assert_eq!(categorized.docs.len(), 1);
    assert_eq!(categorized.breaking_changes.len(), 1);

    assert!(categorized.features[0].contains("add new feature"));
    assert!(categorized.fixes[0].contains("resolve bug in parser"));
    assert!(categorized.docs[0].contains("update README"));
    assert!(categorized.breaking_changes[0].contains("remove deprecated API"));
}

#[test]
fn test_categorize_commits_simple() {
    let commits = vec![commit("abc123", "feat: add new feature", "John Doe", "john@example.com", 1640995200)];

    let categorized = categorize_commits(&commits);

    assert!(!categorized.features.is_empty() || !categorized.others.is_empty());
}

#[test]
fn test_get_contributors_with_stats() {
    let commits = vec![
        commit("abc123", "feat: add feature", "John Doe", "john@example.com", 1640995200),
        commit("def456", "fix: bug fix", "John Doe", "john@example.com", 1640995200),
        commit("ghi789", "docs: update docs", "Jane Smith", "jane@example.com", 1640995200),
    ];

    let contributors = get_contributors_with_stats(&commits);

    assert_eq!(contributors.len(), 2);

    assert_eq!(contributors[0].0, "john@example.com");
    assert_eq!(contributors[0].1, "John Doe");
    assert_eq!(contributors[0].2, 2);

    assert_eq!(contributors[1].0, "jane@example.com");
    assert_eq!(contributors[1].1, "Jane Smith");
    assert_eq!(contributors[1].2, 1);
}

#[test]
fn entries_carry_first_line_and_short_hash() {
    let commits = vec![commit(
        "0123456789abcdef",
        "fix: crash on start\n\nlong body",
        "A",
        "a@x.io",
        0,
    )];
    let c = categorize_commits(&commits);
    assert_eq!(c.fixes, vec!["fix: crash on start (0123456)".to_string()]);
    assert!(c.features.is_empty() && c.others.is_empty());
}

#[test]
fn every_commit_lands_in_exactly_one_category() {
    let messages = [
        "security: patch CVE",
        "Add login",
        "bump deps",
        "i18n: german",
        "refactor core",
        "misc",
        "readme typo",
        "hotfix crash",
    ];
    let commits: Vec<CommitInfo> = messages
        .iter()
        .enumerate()
        .map(|(i, m)| commit(&format!("{:07}", i), m, "N", "n@x", 0))
        .collect();
    let c = categorize_commits(&commits);
    let total = c.features.len()
        + c.fixes.len()
        + c.improvements.len()
        + c.docs.len()
        + c.deps.len()
        + c.translations.len()
        + c.breaking_changes.len()
        + c.security.len()
        + c.others.len();
    assert_eq!(total, commits.len());
    assert_eq!(c.security.len(), 1);
    assert_eq!(c.translations.len(), 1);
    assert_eq!(c.others.len(), 1);
}

#[test]
fn contributor_counts_add_up_and_ties_keep_first_appearance() {
    let commits = vec![
        commit("1111111", "a", "Bo", "bo@x", 0),
        commit("2222222", "b", "Al", "al@x", 0),
        commit("3333333", "c", "Al2", "al@x", 0),
        commit("4444444", "d", "Cy", "cy@x", 0),
        commit("5555555", "e", "Bob", "bo@x", 0),
    ];
    let rows = get_contributors_with_stats(&commits);
    let total: usize = rows.iter().map(|r| r.2).sum();
    assert_eq!(total, commits.len());
    assert_eq!(
        rows,
        vec![
            ("bo@x".to_string(), "Bo".to_string(), 2),
            ("al@x".to_string(), "Al".to_string(), 2),
            ("cy@x".to_string(), "Cy".to_string(), 1),
        ]
    );
}

#[test]
fn github_noreply_contributor_line() {
    let info = repository_info_from_url("https://github.com/acme/tool.git");
    assert_eq!(
        format_github_username_with_stats("123+octo@users.noreply.github.com", "Octo", 1, &info),
        "- [@octo](https://github.com/octo) (Octo) - 1 commit"
    );
    assert_eq!(
        format_github_username_with_stats("a@b.c", "Ann", 12, &info),
        "- Ann (a@b.c) - 12 commits"
    );
}

#[test]
fn repository_addresses_are_read() {
    let gh = repository_info_from_url("git@github.com:acme/tool.git");
    assert!(gh.is_github && !gh.is_gitlab && !gh.is_bitbucket);
    assert_eq!((gh.owner.as_str(), gh.name.as_str()), ("acme", "tool"));
    let gl = repository_info_from_url("https://gitlab.com/team/app");
    assert!(gl.is_gitlab);
    assert_eq!((gl.owner.as_str(), gl.name.as_str()), ("team", "app"));
    let other = repository_info_from_url("https://example.org/x/y/z.git");
    assert!(!other.is_github && !other.is_gitlab && !other.is_bitbucket);
    assert_eq!((other.owner.as_str(), other.name.as_str()), ("y", "z"));
    let d = RepositoryInfo::default();
    assert_eq!(d.url, "unknown");
}

#[test]
fn compare_links_by_host() {
    let gh = repository_info_from_url("https://github.com/acme/tool.git");
    assert_eq!(
        generate_compare_url(&gh, "v1.0.0", "v1.1.0"),
        "https://github.com/acme/tool/compare/v1.0.0...v1.1.0"
    );
    let bb = repository_info_from_url("https://bitbucket.org/acme/tool");
    assert_eq!(
        generate_compare_url(&bb, "a", "b"),
        "https://bitbucket.org/acme/tool/compare/a..b"
    );
    let other = repository_info_from_url("https://example.org/acme/tool");
    assert_eq!(generate_compare_url(&other, "a", "b"), "https://example.org/acme/tool/commits/b");
}

#[test]
fn version_tags_are_ordered_by_numbers() {
    assert_eq!(tag_numbers("v1.10.2-beta"), vec![1, 10, 2]);
    assert_eq!(compare_version_tags("v1.10.0", "v1.9.0"), std::cmp::Ordering::Greater);
    assert_eq!(compare_version_tags("1.0", "1.0.0"), std::cmp::Ordering::Less);
    assert_eq!(compare_version_tags("v2.0.0", "2.0.0"), std::cmp::Ordering::Equal);
}

#[test]
fn tag_range_picks_newest_and_previous() {
    let tags: Vec<String> = ["v1.0.0", "backup-1.5", "v1.2.0", "docs", "v1.10.0", "1.2.0"]
        .iter()
        .map(|s| s.to_string())
        .collect();
    let (latest, previous) = select_tag_range(&tags).unwrap();
    assert_eq!(latest, "v1.10.0");
    assert_eq!(previous, Some("1.2.0".to_string()));
    let none: Vec<String> = vec!["docs".to_string()];
    assert_eq!(select_tag_range(&none), None);
    let one: Vec<String> = vec!["v3.0.0".to_string()];
    assert_eq!(select_tag_range(&one), Some(("v3.0.0".to_string(), None)));
}

#[test]
fn smart_tags_for_untagged_commits() {
    assert_eq!(generate_smart_tag("release/2.3.4", "2024.01.02", "abc1234", "chore"), "v2.3.4");
    assert_eq!(
        generate_smart_tag("main", "2024.01.02", "abc1234", "Breaking: drop api"),
        "v1.0.0-dev.2024.01.02.abc1234"
    );
    assert_eq!(
        generate_smart_tag("Feature/Login", "d", "h", "chore"),
        "v0.1.0-feature.d.h"
    );
    assert_eq!(generate_smart_tag("topic/x", "d", "h", "chore"), "v0.1.0-topic-x.d.h");
    assert_eq!(generate_smart_tag("master", "d", "h", "misc"), "v0.1.0-main.d.h");
}

#[test]
fn commit_tag_uses_utc_date_and_short_hash() {
    let tag = current_commit_tag("develop", "0123456789abcdef", 1640995200, "misc");
    assert_eq!(tag, "v0.1.0-dev.2022.01.01.0123456");
}

#[test]
fn commit_dates_and_times() {
    let c = commit("abcdef0123", "x", "n", "e", 1640995200 + 3600 * 13 + 60 * 5);
    assert_eq!(c.format_date(), "2022-01-01");
    assert_eq!(c.format_time(), "13:05");
    assert_eq!(c.short_hash(), "abcdef0");
    let short = commit("abc", "x", "n", "e", i64::MAX);
    assert_eq!(short.short_hash(), "abc");
    assert_eq!(short.format_date(), "unknown");
}

#[test]
fn notes_file_names() {
    assert_eq!(release_notes_file_name("release/v1.0"), "RELEASE_NOTES_release_v1.0.md");
}

#[test]
fn release_notes_document_sections() {
    let info = repository_info_from_url("https://github.com/acme/rust-tool.git");
    let commits = vec![
        commit("1111111aaaa", "feat: add export", "Ann", "ann@x.io", 1640995200),
        commit("2222222bbbb", "fix: crash", "Bob", "bob@x.io", 1640908800),
    ];
    let notes = release_notes_text(&info, "v1.1.0-beta", &Some("v1.0.0".to_string()), &commits, "2022-01-02");
    assert!(notes.starts_with("# Release v1.1.0-beta\n\n## 📋 Changes since v1.0.0\n\n"));
    assert!(notes.contains("- **Release Date:** 2022-01-02\n"));
    assert!(notes.contains("- **Total Commits:** 2\n"));
    assert!(notes.contains("- **Commit Range:** 2021-12-31 to 2022-01-01\n"));
    assert!(notes.contains("🚨 **This is a pre-release version**"));
    assert!(notes.contains("## ✨ New Features\n\n- feat: add export (1111111)\n\n"));
    assert!(notes.contains("## 🐛 Bug Fixes\n\n- fix: crash (2222222)\n\n"));
    assert!(notes.contains("cargo build --release\n"));
    assert!(notes.contains("| 2022-01-01 | 00:00 | `1111111` | Ann | feat: add export |\n"));
    assert!(notes.contains(
        "**Full Changelog**: https://github.com/acme/rust-tool/compare/v1.0.0...v1.1.0-beta\n"
    ));
    assert!(notes.contains("[GitHub Discussions](https://github.com/acme/rust-tool/discussions)"));
    assert!(notes.ends_with("**Enjoy building with rust-tool! 🚀**\n"));
}
