use nitroterm::version_check::{
    clean_version_string, compare_versions, new_version_cache, should_check_for_updates,
    update_notice, GitHubRelease, UpdateNotice, VersionCache, VersionCompareError, CACHE_FILE,
    CHECK_INTERVAL_HOURS, GITHUB_API_URL,
};
use std::cmp::Ordering;
use std::time::{SystemTime, UNIX_EPOCH};

#[test]
fn test_constants() {
    assert!(!GITHUB_API_URL.is_empty());
    assert!(GITHUB_API_URL.starts_with("https://api.github.com/"));
    assert!(GITHUB_API_URL.contains("releases/latest"));

    assert!(!CACHE_FILE.is_empty());
    assert!(CACHE_FILE.contains("nitroterm"));

    assert!(CHECK_INTERVAL_HOURS > 0);
    assert_eq!(CHECK_INTERVAL_HOURS, 24);
}

#[test]
fn test_time_calculations() {
    let now = SystemTime::now().duration_since(UNIX_EPOCH).unwrap().as_secs();

    let one_hour_ago = now - 3600;
    let hours_diff = (now - one_hour_ago) / 3600;
    assert_eq!(hours_diff, 1);

    let twenty_five_hours_ago = now - (25 * 3600);
    let hours_diff = (now - twenty_five_hours_ago) / 3600;
    assert_eq!(hours_diff, 25);
}

#[test]
fn test_github_release_struct() {
    let release = GitHubRelease {
        tag_name: "v1.0.0".to_string(),
        name: "Release v1.0.0".to_string(),
        published_at: "2023-01-01T00:00:00Z".to_string(),
        html_url: "https://github.com/user/repo/releases/tag/v1.0.0".to_string(),
        prerelease: false,
    };

    assert_eq!(release.tag_name, "v1.0.0");
    assert_eq!(release.name, "Release v1.0.0");
    assert!(!release.prerelease);
}

#[test]
fn test_version_cache_struct() {
    let cache = VersionCache {
        last_check: 1640995200,
        latest_version: "v1.0.0".to_string(),
        check_interval_hours: 24,
    };

    assert_eq!(cache.last_check, 1640995200);
    assert_eq!(cache.latest_version, "v1.0.0");
    assert_eq!(cache.check_interval_hours, 24);
}

#[test]
fn test_clean_version_string() {
    assert_eq!(clean_version_string("v1.0.0"), "1.0.0");
    assert_eq!(clean_version_string("v2.1.3"), "2.1.3");
    assert_eq!(clean_version_string("1.0.0"), "1.0.0");
    assert_eq!(clean_version_string("0.1.0"), "0.1.0");
    assert_eq!(clean_version_string(""), "");
    assert_eq!(clean_version_string("vv1.0.0"), "v1.0.0");
}

#[test]
fn test_compare_versions_equal() {
    let result = compare_versions("1.0.0", "v1.0.0");
    assert!(result.is_ok());
    assert_eq!(result.unwrap(), Ordering::Equal);

    let result = compare_versions("v2.1.3", "2.1.3");
    assert!(result.is_ok());
    assert_eq!(result.unwrap(), Ordering::Equal);
}

#[test]
fn test_compare_versions_current_less() {
    assert_eq!(compare_versions("1.0.0", "1.0.1"), Ok(Ordering::Less));
    assert_eq!(compare_versions("1.0.0", "1.1.0"), Ok(Ordering::Less));
    assert_eq!(compare_versions("1.0.0", "2.0.0"), Ok(Ordering::Less));
}

#[test]
fn test_compare_versions_current_greater() {
    assert_eq!(compare_versions("1.0.1", "1.0.0"), Ok(Ordering::Greater));
    assert_eq!(compare_versions("1.1.0", "1.0.0"), Ok(Ordering::Greater));
    assert_eq!(compare_versions("2.0.0", "1.0.0"), Ok(Ordering::Greater));
}

#[test]
fn test_compare_versions_invalid() {
    assert!(compare_versions("invalid", "1.0.0").is_err());
    assert!(compare_versions("1.0.0", "invalid").is_err());
    assert!(compare_versions("1.0", "1.0.0").is_err());
    assert!(compare_versions("", "1.0.0").is_err());
    assert_eq!(compare_versions("1.0", "1.0.0"), Err(VersionCompareError::InvalidCurrent));
    assert_eq!(compare_versions("1.0.0", "x"), Err(VersionCompareError::InvalidLatest));
}

#[test]
fn test_version_comparison_basic() {
    assert_eq!(compare_versions("1.0.0", "1.0.1"), Ok(Ordering::Less));
    assert_eq!(compare_versions("2.0.0", "1.9.9"), Ok(Ordering::Greater));
    assert_eq!(compare_versions("1.5.0", "1.5.0"), Ok(Ordering::Equal));
}

#[test]
fn test_version_string_variations() {
    let test_cases = vec![
        ("1.0.0", "v1.0.0", Ordering::Equal),
        ("v1.0.0", "1.0.0", Ordering::Equal),
        ("v1.0.0", "v1.0.0", Ordering::Equal),
        ("1.0.0", "1.0.0", Ordering::Equal),
        ("v2.0.0", "v1.9.9", Ordering::Greater),
        ("v1.0.0", "v1.0.1", Ordering::Less),
    ];

    for (current, latest, expected) in test_cases {
        let result = compare_versions(current, latest);
        assert!(result.is_ok(), "Failed to compare '{}' vs '{}'", current, latest);
        assert_eq!(result.unwrap(), expected, "Wrong comparison result for '{}' vs '{}'", current, latest);
    }
}

#[test]
fn prerelease_is_older_than_release() {
    assert_eq!(compare_versions("1.0.0-beta", "1.0.0"), Ok(Ordering::Less));
}

#[test]
fn checks_happen_once_the_interval_has_passed() {
    let cache = new_version_cache(1_000_000, "v1.0.0");
    assert_eq!(cache.check_interval_hours, 24);
    assert!(should_check_for_updates(2_000_000, None));
    assert!(!should_check_for_updates(1_000_000 + 23 * 3600 + 3599, Some(&cache)));
    assert!(should_check_for_updates(1_000_000 + 24 * 3600, Some(&cache)));
}

#[test]
fn notices_after_a_check() {
    assert_eq!(update_notice(false, true, Some(Ordering::Less)), UpdateNotice::UpdateAvailable);
    assert_eq!(update_notice(false, true, Some(Ordering::Equal)), UpdateNotice::Nothing);
    assert_eq!(update_notice(true, true, Some(Ordering::Equal)), UpdateNotice::Latest);
    assert_eq!(update_notice(true, true, Some(Ordering::Greater)), UpdateNotice::Development);
    assert_eq!(update_notice(true, false, None), UpdateNotice::CheckFailed);
    assert_eq!(update_notice(false, false, None), UpdateNotice::Nothing);
    assert_eq!(update_notice(true, true, None), UpdateNotice::Nothing);
}

#[test]
fn test_should_check_for_updates_no_cache() {
    assert!(should_check_for_updates(0, None));
    assert!(should_check_for_updates(u64::MAX, None));
}

#[test]
fn equal_version_texts_compare_equal() {
    assert_eq!(compare_versions("v1.2.3-beta.1", "1.2.3-beta.1"), Ok(Ordering::Equal));
    assert_eq!(compare_versions("2.0.0+build.5", "v2.0.0+build.5"), Ok(Ordering::Equal));
}
