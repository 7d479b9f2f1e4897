use nitroterm::release_notes::{
    category_from_lower, commit_entry_text, compare_numbers, extract_repo_path, format_timestamp,
    generate_commits_url, generate_comprehensive_release_notes, generate_issues_url,
    generate_new_issue_url, numbers_from_text, parse_git_url, pick_tag_range, smart_tag_with,
    CommitInfo, RepositoryInfo,
};
use nitroterm::text::chars_of;

fn github_repo() -> RepositoryInfo {
    let mut info = RepositoryInfo::default();
    info.url = "https://github.com/nitrokit/nitroterm.git".to_string();
    parse_git_url(&mut info, "https://github.com/nitrokit/nitroterm.git");
    info
}

#[test]
fn repository_paths_by_url_shape() {
    assert_eq!(
        extract_repo_path("https://github.com/owner/repo", "github.com"),
        Some("owner/repo".to_string())
    );
    assert_eq!(extract_repo_path("git@github.com:owner/repo", "github.com"), Some("owner/repo".to_string()));
    assert_eq!(extract_repo_path("ftp://github.com/owner/repo", "github.com"), None);
}

#[test]
fn git_urls_fill_in_owner_and_name() {
    let info = github_repo();
    assert!(info.is_github && !info.is_gitlab && !info.is_bitbucket);
    assert_eq!(info.owner, "nitrokit");
    assert_eq!(info.name, "nitroterm");

    let mut lab = RepositoryInfo::default();
    parse_git_url(&mut lab, "git@gitlab.com:team/tool.git");
    assert!(lab.is_gitlab);
    assert_eq!((lab.owner.as_str(), lab.name.as_str()), ("team", "tool"));

    let mut other = RepositoryInfo::default();
    parse_git_url(&mut other, "https://git.example.org/group/project.git");
    assert!(!other.is_github && !other.is_gitlab && !other.is_bitbucket);
    assert_eq!((other.owner.as_str(), other.name.as_str()), ("group", "project"));
}

#[test]
fn links_to_commits_and_issues() {
    let info = github_repo();
    assert_eq!(generate_commits_url(&info, "v1.2.0"), "https://github.com/nitrokit/nitroterm/commits/v1.2.0");
    assert_eq!(generate_issues_url(&info), "https://github.com/nitrokit/nitroterm/issues");
    assert_eq!(generate_new_issue_url(&info), "https://github.com/nitrokit/nitroterm/issues/new");
}

#[test]
fn commit_categories_by_first_line() {
    assert_eq!(category_from_lower("breaking: drop api"), 0);
    assert_eq!(category_from_lower("patch cve-2024-1"), 1);
    assert_eq!(category_from_lower("feat: add login"), 2);
    assert_eq!(category_from_lower("fix: crash"), 3);
    assert_eq!(category_from_lower("docs: update readme"), 4);
    assert_eq!(category_from_lower("refactor parser"), 5);
    assert_eq!(category_from_lower("bump serde"), 6);
    assert_eq!(category_from_lower("i18n strings"), 7);
    assert_eq!(category_from_lower("chore: tidy"), 8);
}

#[test]
fn commit_entries_and_dates() {
    let c = CommitInfo {
        message: "feat: add login\n\nlong body".to_string(),
        author_name: "Ada".to_string(),
        author_email: "ada@example.com".to_string(),
        hash: "0123456789abcdef".to_string(),
        timestamp: 0,
    };
    assert_eq!(commit_entry_text(&c), "feat: add login (0123456)");
    assert_eq!(format_timestamp(0, "%Y-%m-%d"), "1970-01-01");
    assert_eq!(format_timestamp(86399, "%H:%M"), "23:59");
    assert_eq!(format_timestamp(1_700_000_000, "%Y.%m.%d"), "2023.11.14");
    assert_eq!(format_timestamp(i64::MAX, "%Y-%m-%d"), "unknown");
}

#[test]
fn version_numbers_are_compared_part_by_part() {
    assert_eq!(numbers_from_text(&chars_of("1.10.3")), vec![1, 10, 3]);
    assert_eq!(numbers_from_text(&chars_of("2..x.4")), vec![2, 4]);
    assert_eq!(compare_numbers(&vec![1, 10], &vec![1, 9, 9]), 1);
    assert_eq!(compare_numbers(&vec![1, 2], &vec![1, 2, 0]), -1);
    assert_eq!(compare_numbers(&vec![3], &vec![3]), 0);
}

#[test]
fn tag_range_from_numbers() {
    let tags = vec!["v1.0.0".to_string(), "v1.2.0".to_string(), "v1.1.0".to_string()];
    let nums = vec![vec![1, 0, 0], vec![1, 2, 0], vec![1, 1, 0]];
    assert_eq!(
        pick_tag_range(&tags, &nums),
        Some(("v1.2.0".to_string(), Some("v1.1.0".to_string())))
    );
    assert_eq!(
        pick_tag_range(&vec!["v0.1.0".to_string()], &vec![vec![0, 1, 0]]),
        Some(("v0.1.0".to_string(), None))
    );
    assert_eq!(pick_tag_range(&vec![], &vec![]), None);
}

#[test]
fn smart_tag_rules() {
    assert_eq!(smart_tag_with("release/2.0", "anything", Some("2.0.1".to_string()), "20240101", "abc1234"), "v2.0.1");
    assert_eq!(smart_tag_with("main", "breaking change", None, "20240101", "abc1234"), "v1.0.0-dev.20240101.abc1234");
    assert_eq!(smart_tag_with("main", "add feature", None, "20240101", "abc1234"), "v0.2.0-dev.20240101.abc1234");
    assert_eq!(smart_tag_with("main", "hotfix typo", None, "20240101", "abc1234"), "v0.1.1-dev.20240101.abc1234");
    assert_eq!(smart_tag_with("master", "tidy", None, "d", "h"), "v0.1.0-main.d.h");
    assert_eq!(smart_tag_with("dev", "tidy", None, "d", "h"), "v0.1.0-dev.d.h");
    assert_eq!(smart_tag_with("feature/x", "tidy", None, "d", "h"), "v0.1.0-feature.d.h");
    assert_eq!(smart_tag_with("hotfix/y", "tidy", None, "d", "h"), "v0.1.0-hotfix.d.h");
    assert_eq!(smart_tag_with("team/topic", "tidy", None, "d", "h"), "v0.1.0-team-topic.d.h");
}

#[test]
fn comprehensive_notes_mention_the_tags() {
    let info = github_repo();
    let commits = vec![CommitInfo {
        message: "fix: crash on start".to_string(),
        author_name: "Ada".to_string(),
        author_email: "ada@example.com".to_string(),
        hash: "feedbeefcafe".to_string(),
        timestamp: 1_700_000_000,
    }];
    let notes = generate_comprehensive_release_notes(&info, "v1.1.0", &Some("v1.0.0".to_string()), &commits);
    assert!(notes.contains("v1.1.0"));
    assert!(notes.contains("fix: crash on start (feedbee)"));
    assert!(notes.contains("https://github.com/nitrokit/nitroterm/compare/v1.0.0...v1.1.0"));
}

#[test]
fn notes_header_block() {
    let info = github_repo();
    let commits = vec![CommitInfo {
        message: "feat: first".to_string(),
        author_name: "Ada".to_string(),
        author_email: "ada@example.com".to_string(),
        hash: "abcdef0123".to_string(),
        timestamp: 0,
    }];
    let notes = nitroterm::release_notes::release_notes_text(&info, "v1.1.0", &None, &commits, "2024-01-01");
    assert!(notes.starts_with(
        "# Release v1.1.0\n\n## 📋 Initial release\n\n- **Release Date:** 2024-01-01\n"
    ));
    assert!(notes.contains("- **Total Commits:** 1\n"));
    assert!(notes.contains("- **Commit Range:** 1970-01-01 to 1970-01-01\n"));
    assert!(notes.contains("## 📊 Detailed Timeline"));
    let empty = nitroterm::release_notes::release_notes_text(&info, "v1.1.0", &Some("v1.0.0".to_string()), &[], "d");
    assert!(empty.starts_with("# Release v1.1.0\n\n## 📋 Changes since v1.0.0\n\n"));
    assert!(!empty.contains("Commit Range"));
}
