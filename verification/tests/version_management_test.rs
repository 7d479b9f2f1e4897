use nitroterm::version::{
    bump_version, bump_version_from, get_current_version, parse_version_numbers, release_tag_name,
    version_history, BumpError,
};

#[derive(Debug)]
struct VersionEntry {
    version: String,
    timestamp: String,
    changes: Vec<String>,
}

fn validate_semver(version: &str) -> bool {
    if version.starts_with('v') || version.is_empty() {
        return false;
    }

    let parts: Vec<&str> = version.split('-').collect();
    let version_part = parts[0];

    let version_numbers: Result<Vec<u32>, _> =
        version_part.split('.').map(|v| v.parse::<u32>()).collect();

    match version_numbers {
        Ok(numbers) => numbers.len() == 3,
        Err(_) => false,
    }
}

#[test]
fn test_semver_parsing() {
    let valid_versions = vec![
        ("1.0.0", (1, 0, 0, None)),
        ("2.5.10", (2, 5, 10, None)),
        ("0.1.0", (0, 1, 0, None)),
        ("10.20.30", (10, 20, 30, None)),
        ("1.0.0-alpha", (1, 0, 0, Some("alpha"))),
        ("2.1.0-beta.1", (2, 1, 0, Some("beta.1"))),
        ("1.0.0-rc.2", (1, 0, 0, Some("rc.2"))),
    ];

    for (version_str, expected) in valid_versions {
        let clean_version = version_str.trim_start_matches('v');
        let parts: Vec<&str> = clean_version.split('-').collect();
        let version_part = parts[0];
        let prerelease = if parts.len() > 1 { Some(parts[1]) } else { None };

        let version_numbers: Vec<u32> =
            version_part.split('.').map(|v| v.parse().unwrap()).collect();

        assert_eq!(version_numbers.len(), 3);
        assert_eq!(
            (version_numbers[0], version_numbers[1], version_numbers[2], prerelease),
            expected
        );
        assert_eq!(
            parse_version_numbers(version_part),
            Ok((expected.0, expected.1, expected.2))
        );
    }
}

#[test]
fn test_invalid_semver_parsing() {
    let invalid_versions = vec!["1.0", "1", "1.0.0.0", "a.b.c", "1.0.a", "", "v", "1.-1.0"];

    for version_str in invalid_versions {
        let clean_version = version_str.trim_start_matches('v');
        let parts: Vec<&str> = clean_version.split('-').collect();
        let version_part = parts[0];

        if version_part.is_empty() {
            continue;
        }

        let version_numbers: Result<Vec<u32>, _> =
            version_part.split('.').map(|v| v.parse::<u32>()).collect();

        let is_valid = version_numbers.is_ok() && version_numbers.as_ref().unwrap().len() == 3;

        assert!(!is_valid, "Version '{}' should be invalid", version_str);
        assert!(parse_version_numbers(version_part).is_err());
    }
}

#[test]
fn test_version_comparison() {
    let version_pairs = vec![
        ("1.0.0", "1.0.1", std::cmp::Ordering::Less),
        ("1.1.0", "1.0.0", std::cmp::Ordering::Greater),
        ("2.0.0", "1.9.9", std::cmp::Ordering::Greater),
        ("1.0.0", "1.0.0", std::cmp::Ordering::Equal),
        ("0.1.0", "0.2.0", std::cmp::Ordering::Less),
        ("10.0.0", "9.0.0", std::cmp::Ordering::Greater),
    ];

    for (v1_str, v2_str, expected) in version_pairs {
        let v1_parts: Vec<u32> = v1_str.split('.').map(|v| v.parse().unwrap()).collect();
        let v2_parts: Vec<u32> = v2_str.split('.').map(|v| v.parse().unwrap()).collect();

        let comparison = v1_parts.cmp(&v2_parts);
        assert_eq!(comparison, expected, "Comparing {} with {}", v1_str, v2_str);
    }
}

#[test]
fn test_version_increment() {
    let test_cases = vec![
        ("1.0.0", "major", "2.0.0"),
        ("1.2.3", "minor", "1.3.0"),
        ("1.2.3", "patch", "1.2.4"),
        ("0.1.0", "major", "1.0.0"),
        ("9.9.9", "major", "10.0.0"),
        ("1.9.9", "minor", "1.10.0"),
        ("1.2.9", "patch", "1.2.10"),
    ];

    for (current, bump_type, expected) in test_cases {
        let new_version = bump_version_from(bump_type, current).unwrap();
        assert_eq!(new_version, expected);
    }
}

#[test]
fn test_prerelease_version_handling() {
    let versions = vec![
        "1.0.0-alpha",
        "1.0.0-alpha.1",
        "1.0.0-beta",
        "1.0.0-beta.2",
        "1.0.0-rc.1",
        "2.0.0-dev",
    ];

    for version in versions {
        let parts: Vec<&str> = version.split('-').collect();
        assert_eq!(parts.len(), 2);

        let version_part = parts[0];
        let prerelease_part = parts[1];

        let version_numbers: Vec<u32> =
            version_part.split('.').map(|v| v.parse().unwrap()).collect();
        assert_eq!(version_numbers.len(), 3);

        assert!(!prerelease_part.is_empty());
        assert!(prerelease_part.chars().all(|c| c.is_ascii_alphanumeric() || c == '.'));
    }
}

#[test]
fn test_version_tag_formatting() {
    let versions = vec![
        ("1.0.0", "v1.0.0"),
        ("2.1.3", "v2.1.3"),
        ("0.1.0-alpha", "v0.1.0-alpha"),
        ("1.0.0-rc.1", "v1.0.0-rc.1"),
    ];

    for (version, expected_tag) in versions {
        let tag = release_tag_name(version);
        assert_eq!(tag, expected_tag);
        assert!(tag.starts_with('v'));
    }
}

#[test]
fn test_version_validation_rules() {
    let validation_cases = vec![
        ("1.0.0", true, "Valid semantic version"),
        ("0.0.0", true, "Valid zero version"),
        ("999.999.999", true, "Valid large numbers"),
        ("1.0.0-alpha", true, "Valid prerelease"),
        ("1.0", false, "Missing patch version"),
        ("1.0.0.0", false, "Too many version parts"),
        ("v1.0.0", false, "Contains 'v' prefix"),
        ("-1.0.0", false, "Negative major version"),
        ("1.-1.0", false, "Negative minor version"),
        ("1.0.-1", false, "Negative patch version"),
    ];

    for (version, should_be_valid, description) in validation_cases {
        let is_valid = validate_semver(version);
        assert_eq!(is_valid, should_be_valid, "{}: {}", description, version);
    }
}

#[test]
fn test_version_history_tracking() {
    let version_history = vec![
        VersionEntry {
            version: "1.0.0".to_string(),
            timestamp: "2025-01-01".to_string(),
            changes: vec!["Initial release".to_string()],
        },
        VersionEntry {
            version: "1.1.0".to_string(),
            timestamp: "2025-02-01".to_string(),
            changes: vec!["Added new features".to_string(), "Bug fixes".to_string()],
        },
        VersionEntry {
            version: "2.0.0".to_string(),
            timestamp: "2025-03-01".to_string(),
            changes: vec!["Breaking changes".to_string(), "Major refactor".to_string()],
        },
    ];

    assert_eq!(version_history.len(), 3);
    assert_eq!(version_history[0].version, "1.0.0");
    assert_eq!(version_history[0].timestamp, "2025-01-01");
    assert_eq!(version_history[2].changes.len(), 2);
}

#[test]
fn test_version_rollback_scenario() {
    let current_version = "2.1.0";
    let previous_version = "2.0.0";

    let rollback_needed = true;

    if rollback_needed {
        let rollback_version = previous_version;
        assert_eq!(rollback_version, "2.0.0");

        let current_parts: Vec<u32> =
            current_version.split('.').map(|v| v.parse().unwrap()).collect();
        let rollback_parts: Vec<u32> =
            rollback_version.split('.').map(|v| v.parse().unwrap()).collect();

        assert!(rollback_parts < current_parts);
    }
}

#[test]
fn test_version_constraint_checking() {
    let constraints = vec![
        ("^1.0.0", "1.2.3", true),
        ("^1.0.0", "2.0.0", false),
        ("~1.2.0", "1.2.5", true),
        ("~1.2.0", "1.3.0", false),
        (">=1.0.0", "1.5.0", true),
        (">=1.0.0", "0.9.0", false),
    ];

    for (constraint, version, should_match) in constraints {
        let matches = match constraint.chars().next().unwrap() {
            '^' => {
                let constraint_version = &constraint[1..];
                let constraint_major: u32 =
                    constraint_version.split('.').next().unwrap().parse().unwrap();
                let version_major: u32 = version.split('.').next().unwrap().parse().unwrap();
                constraint_major == version_major
            }
            '~' => {
                let constraint_version = &constraint[1..];
                let constraint_parts: Vec<u32> =
                    constraint_version.split('.').map(|v| v.parse().unwrap()).collect();
                let version_parts: Vec<u32> =
                    version.split('.').map(|v| v.parse().unwrap()).collect();
                constraint_parts[0] == version_parts[0] && constraint_parts[1] == version_parts[1]
            }
            '>' => {
                let constraint_version = &constraint[2..];
                let constraint_parts: Vec<u32> =
                    constraint_version.split('.').map(|v| v.parse().unwrap()).collect();
                let version_parts: Vec<u32> =
                    version.split('.').map(|v| v.parse().unwrap()).collect();
                version_parts >= constraint_parts
            }
            _ => false,
        };

        assert_eq!(matches, should_match, "Constraint {} with version {}", constraint, version);
    }
}

#[test]
fn bump_errors_name_the_bad_part() {
    assert_eq!(bump_version_from("patch", "1.2"), Err(BumpError::InvalidFormat));
    assert_eq!(bump_version_from("patch", "x.2.3"), Err(BumpError::InvalidMajor));
    assert_eq!(bump_version_from("patch", "1.y.3"), Err(BumpError::InvalidMinor));
    assert_eq!(bump_version_from("patch", "1.2.z"), Err(BumpError::InvalidPatch));
    assert_eq!(bump_version_from("huge", "1.2.3"), Err(BumpError::InvalidBumpType));
}

#[test]
fn package_version_bumps() {
    assert_eq!(get_current_version(), "0.1.0");
    assert_eq!(bump_version("minor"), Ok("0.2.0".to_string()));
    assert_eq!(bump_version("major"), Ok("1.0.0".to_string()));
    assert_eq!(bump_version("patch"), Ok("0.1.1".to_string()));
}

#[test]
fn history_shows_first_ten_trimmed_tags() {
    let listing: String = (0..12).map(|i| format!(" v1.{}.0 \n", 12 - i)).collect();
    let h = version_history(&listing);
    assert_eq!(h.len(), 10);
    assert_eq!(h[0], "v1.12.0");
    assert!(version_history("  \n ").is_empty());
}
