//! Checking for a newer release: the release endpoint, the cache of the
//! last check, and the comparison of version numbers with the semver crate.
use vstd::prelude::*;
use crate::text::{chars_of, copy_text, slice_chars, string_of};

verus! {

/// The endpoint that describes the latest release.
pub const GITHUB_API_URL: &'static str =
    "https://api.github.com/repos/mustafagenc/nitroterm/releases/latest";

/// The file that caches the last check.
pub const CACHE_FILE: &'static str = ".nitroterm_version_cache.json";

/// Hours between two automatic checks.
pub const CHECK_INTERVAL_HOURS: u64 = 24;

/// A release as the endpoint describes it.
#[derive(Debug)]
pub struct GitHubRelease {
    pub tag_name: String,
    pub name: String,
    pub published_at: String,
    pub html_url: String,
    pub prerelease: bool,
}

/// The cache of the last check: when it ran (seconds since the epoch), the
/// version it found, and the hours until the next check.
#[derive(Debug)]
pub struct VersionCache {
    pub last_check: u64,
    pub latest_version: String,
    pub check_interval_hours: u64,
}

#[verifier::external_type_specification]
#[verifier::external_body]
pub struct ExSemverVersion(semver::Version);

#[verifier::external_type_specification]
#[verifier::external_body]
pub struct ExSemverError(semver::Error);

/// What `semver::Version::parse` reads from a text: major, minor and patch
/// numbers with the pre-release and build texts, or `None` when the text is
/// not a version. A function of the text alone.
pub uninterp spec fn semver_parse(text: Seq<char>) -> Option<(u64, u64, u64, Seq<char>, Seq<char>)>;

/// How `semver::Version`'s order ranks two versions with the same numbers,
/// by their pre-release and build texts (-1, 0 or 1). A function of the
/// four texts alone.
pub uninterp spec fn semver_tail_order(
    a_pre: Seq<char>,
    a_build: Seq<char>,
    b_pre: Seq<char>,
    b_build: Seq<char>,
) -> int;

/// A version read by the semver crate, with its parts; only
/// `parse_semver` builds one, so the parts are those of the version.
pub struct SemVersion {
    inner: semver::Version,
    major: u64,
    minor: u64,
    patch: u64,
    pre: String,
    build: String,
}

/// The parts of a version.
pub closed spec fn parts(v: &SemVersion) -> (u64, u64, u64, Seq<char>, Seq<char>) {
    (v.major, v.minor, v.patch, v.pre@, v.build@)
}

/// Calls `semver::Version::parse` and keeps the parsed numbers and texts
/// beside the version. The contract names the result: the grammar of
/// versions is the semver crate's.
#[verifier::external_body]
fn parse_semver(text: &str) -> (r: Result<SemVersion, semver::Error>)
    ensures
        match r {
            Ok(v) => semver_parse(text@) == Some(parts(&v)),
            Err(_) => semver_parse(text@) is None,
        },
{
    match semver::Version::parse(text) {
        Ok(v) => Ok(SemVersion {
            major: v.major,
            minor: v.minor,
            patch: v.patch,
            pre: v.pre.as_str().to_string(),
            build: v.build.as_str().to_string(),
            inner: v,
        }),
        Err(e) => Err(e),
    }
}

/// The order of two versions' numbers (-1, 0 or 1): major, then minor,
/// then patch.
pub open spec fn numbers_order(a: (u64, u64, u64), b: (u64, u64, u64)) -> int {
    if a.0 != b.0 {
        if a.0 < b.0 {
            -1
        } else {
            1
        }
    } else if a.1 != b.1 {
        if a.1 < b.1 {
            -1
        } else {
            1
        }
    } else if a.2 != b.2 {
        if a.2 < b.2 {
            -1
        } else {
            1
        }
    } else {
        0
    }
}

/// The order `semver::Version` gives two parsed versions: by the numbers,
/// then by the pre-release and build texts.
pub open spec fn version_order(
    a: (u64, u64, u64, Seq<char>, Seq<char>),
    b: (u64, u64, u64, Seq<char>, Seq<char>),
) -> int {
    let n = numbers_order((a.0, a.1, a.2), (b.0, b.1, b.2));
    if n != 0 {
        n
    } else {
        semver_tail_order(a.3, a.4, b.3, b.4)
    }
}

/// Compares two versions with `Ord` for `semver::Version`, which the crate
/// derives over major, minor, patch, pre-release and build in that order;
/// the result is -1, 0 or 1. The contract states the numeric part and names
/// the order of the pre-release and build parts; of those it states only
/// that equal versions are equal.
#[verifier::external_body]
fn semver_cmp(a: &SemVersion, b: &SemVersion) -> (r: i8)
    ensures
        r == if numbers_order((a.major, a.minor, a.patch), (b.major, b.minor, b.patch)) != 0 {
            numbers_order((a.major, a.minor, a.patch), (b.major, b.minor, b.patch))
        } else {
            semver_tail_order(a.pre@, a.build@, b.pre@, b.build@)
        },
        parts(a) == parts(b) ==> r == 0,
{
    match a.inner.cmp(&b.inner) {
        std::cmp::Ordering::Less => -1,
        std::cmp::Ordering::Equal => 0,
        std::cmp::Ordering::Greater => 1,
    }
}

/// A version text without its leading `v`, if it has one (`v1.2.3` gives
/// `1.2.3`; only one `v` is removed).
pub open spec fn cleaned(version: Seq<char>) -> Seq<char> {
    if version.len() > 0 && version[0] == 'v' {
        version.drop_first()
    } else {
        version
    }
}

/// A version text without its leading `v`, if it has one.
pub fn clean_version_string(version: &str) -> (r: String)
    ensures
        r@ == cleaned(version@),
{
    let all = chars_of(version);
    if all.len() > 0 && all[0] == 'v' {
        let rest = slice_chars(&all, 1, all.len());
        assert(rest@ =~= version@.drop_first());
        string_of(&rest)
    } else {
        string_of(&all)
    }
}

/// Why two versions could not be compared.
#[derive(Debug, Clone, Copy, PartialEq, Eq, Structural)]
pub enum VersionCompareError {
    /// The current version is not a semantic version.
    InvalidCurrent,
    /// The latest version is not a semantic version.
    InvalidLatest,
}

/// The spelled-out order of a three-way comparison.
pub open spec fn ordering_of(c: int) -> std::cmp::Ordering {
    if c < 0 {
        std::cmp::Ordering::Less
    } else if c == 0 {
        std::cmp::Ordering::Equal
    } else {
        std::cmp::Ordering::Greater
    }
}

/// Compares the current version with the latest one, both read without
/// their leading `v`s as semantic versions.
pub fn compare_versions(current: &str, latest: &str) -> (r: Result<
    std::cmp::Ordering,
    VersionCompareError,
>)
    ensures
        match r {
            Ok(o) => {
                &&& semver_parse(cleaned(current@)) is Some
                &&& semver_parse(cleaned(latest@)) is Some
                &&& o == ordering_of(
                    version_order(
                        semver_parse(cleaned(current@))->0,
                        semver_parse(cleaned(latest@))->0,
                    ),
                )
            },
            Err(VersionCompareError::InvalidCurrent) => semver_parse(cleaned(current@)) is None,
            Err(VersionCompareError::InvalidLatest) => semver_parse(cleaned(current@)) is Some
                && semver_parse(cleaned(latest@)) is None,
        },
        semver_parse(cleaned(current@)) is Some && cleaned(current@) == cleaned(latest@) ==> r
            == Ok::<std::cmp::Ordering, VersionCompareError>(std::cmp::Ordering::Equal),
{
    let c = clean_version_string(current);
    let l = clean_version_string(latest);
    let cv = match parse_semver(c.as_str()) {
        Ok(v) => v,
        Err(_) => return Err(VersionCompareError::InvalidCurrent),
    };
    let lv = match parse_semver(l.as_str()) {
        Ok(v) => v,
        Err(_) => return Err(VersionCompareError::InvalidLatest),
    };
    let o = semver_cmp(&cv, &lv);
    if o < 0 {
        Ok(std::cmp::Ordering::Less)
    } else if o == 0 {
        Ok(std::cmp::Ordering::Equal)
    } else {
        Ok(std::cmp::Ordering::Greater)
    }
}

/// Whole hours from `last_check` to `now`.
pub open spec fn hours_between(now: u64, last_check: u64) -> int {
    (now - last_check) / 3600
}

/// Whether to check for a new release at time `now`: always without a cache,
/// else once the cache's interval has passed since its check.
pub fn should_check_for_updates(now: u64, cache: Option<&VersionCache>) -> (r: bool)
    requires
        cache matches Some(c) ==> c.last_check <= now,
    ensures
        r == match cache {
            Some(c) => hours_between(now, c.last_check) >= c.check_interval_hours,
            None => true,
        },
{
    match cache {
        Some(c) => (now - c.last_check) / 3600 >= c.check_interval_hours,
        None => true,
    }
}

/// The cache written after a check at time `now` that found `latest_version`.
pub fn new_version_cache(now: u64, latest_version: &str) -> (r: VersionCache)
    ensures
        r.last_check == now,
        r.latest_version@ == latest_version@,
        r.check_interval_hours == CHECK_INTERVAL_HOURS,
{
    VersionCache {
        last_check: now,
        latest_version: copy_text(latest_version),
        check_interval_hours: CHECK_INTERVAL_HOURS,
    }
}

/// What to tell after a check for updates.
#[derive(Debug, Clone, Copy, PartialEq, Eq, Structural)]
pub enum UpdateNotice {
    Nothing,
    UpdateAvailable,
    Latest,
    Development,
    CheckFailed,
}

/// What to tell after a check, from whether the release could be fetched,
/// how the current version compares with it (when both are versions), and
/// whether the user asked for the check: a newer release is always shown;
/// being up to date, ahead, or unable to check is told only on request.
pub open spec fn notice_for(
    force: bool,
    fetched: bool,
    comparison: Option<std::cmp::Ordering>,
) -> UpdateNotice {
    if !fetched {
        if force {
            UpdateNotice::CheckFailed
        } else {
            UpdateNotice::Nothing
        }
    } else {
        match comparison {
            Some(std::cmp::Ordering::Less) => UpdateNotice::UpdateAvailable,
            Some(std::cmp::Ordering::Equal) => if force {
                UpdateNotice::Latest
            } else {
                UpdateNotice::Nothing
            },
            Some(std::cmp::Ordering::Greater) => if force {
                UpdateNotice::Development
            } else {
                UpdateNotice::Nothing
            },
            None => UpdateNotice::Nothing,
        }
    }
}

/// What to tell after a check for updates.
pub fn update_notice(
    force: bool,
    fetched: bool,
    comparison: Option<std::cmp::Ordering>,
) -> (r: UpdateNotice)
    ensures
        r == notice_for(force, fetched, comparison),
{
    if !fetched {
        if force {
            UpdateNotice::CheckFailed
        } else {
            UpdateNotice::Nothing
        }
    } else {
        match comparison {
            Some(std::cmp::Ordering::Less) => UpdateNotice::UpdateAvailable,
            Some(std::cmp::Ordering::Equal) => if force {
                UpdateNotice::Latest
            } else {
                UpdateNotice::Nothing
            },
            Some(std::cmp::Ordering::Greater) => if force {
                UpdateNotice::Development
            } else {
                UpdateNotice::Nothing
            },
            None => UpdateNotice::Nothing,
        }
    }
}

/// A newer release is always announced, whether or not the check was asked
/// for; an automatic check says nothing else.
pub proof fn lemma_newer_release_always_shown(force: bool, fetched: bool, comparison: Option<std::cmp::Ordering>)
    ensures
        notice_for(force, true, Some(std::cmp::Ordering::Less)) == UpdateNotice::UpdateAvailable,
        !force ==> (notice_for(force, fetched, comparison) == UpdateNotice::Nothing || notice_for(
            force,
            fetched,
            comparison,
        ) == UpdateNotice::UpdateAvailable),
{
}

} // verus!
