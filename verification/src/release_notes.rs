//! Release notes: commits, repository addresses, version tags and the
//! Markdown document that describes a release.
use vstd::prelude::*;
use chrono::TimeZone;
use crate::text::{
    string_views, is_digit, is_numeric_char, lowercase_of, numeric_char, parse_u32, to_lowercase, byte_prefix, byte_prefix_exec, chars_of, concat_chars, contains, contains_exec, copy_text,
    dec, ends_with, is_boundary, push_chars, push_dec, push_text, replace, replace_exec, split,
    split_exec, starts_with, starts_with_exec, string_of, text_contains, trim_end_matches,
    trim_end_matches_exec, utf8_len, views, lemma_split_nonempty,
};

verus! {

// ---------------------------------------------------------------------------
// Dates
// ---------------------------------------------------------------------------

/// What chrono gives for a Unix timestamp in seconds, read as UTC
/// (`Utc.timestamp_opt(t, 0).single()`) and formatted with `pattern`:
/// `None` where the timestamp is out of chrono's range. A function of the
/// timestamp and the pattern alone.
pub uninterp spec fn utc_formatted(timestamp: i64, pattern: Seq<char>) -> Option<Seq<char>>;

/// The date patterns this library formats with.
pub open spec fn known_pattern(p: Seq<char>) -> bool {
    p == "%Y-%m-%d"@ || p == "%H:%M"@ || p == "%Y.%m.%d"@ || p == "%H:%M:%S"@
}

/// Calls chrono's `Utc.timestamp_opt(timestamp, 0).single()` and formats the
/// date with `pattern`. The contract names the result; the calendar
/// arithmetic behind it is chrono's and is not restated.
#[verifier::external_body]
fn utc_format(timestamp: i64, pattern: &str) -> (r: Option<String>)
    requires
        known_pattern(pattern@),
    ensures
        match r {
            Some(s) => utc_formatted(timestamp, pattern@) == Some(s@),
            None => utc_formatted(timestamp, pattern@) is None,
        },
{
    match chrono::Utc.timestamp_opt(timestamp, 0).single() {
        Some(dt) => Some(dt.format(pattern).to_string()),
        None => None,
    }
}

/// The present time in UTC (chrono's `Utc::now()`) formatted with
/// `pattern`. Which time it is depends on the clock and is not stated; what
/// is stated is that the text is the formatting of some whole-second
/// timestamp, since none of the library's patterns shows fractions of a
/// second.
#[verifier::external_body]
pub(crate) fn utc_now_text(pattern: &str) -> (r: String)
    requires
        known_pattern(pattern@),
    ensures
        exists|t: i64| utc_formatted(t, pattern@) == Some(r@),
{
    chrono::Utc::now().format(pattern).to_string()
}

/// A formatted timestamp, or `unknown` where chrono has no date for it.
pub open spec fn date_or_unknown(timestamp: i64, pattern: Seq<char>) -> Seq<char> {
    match utc_formatted(timestamp, pattern) {
        Some(s) => s,
        None => "unknown"@,
    }
}

/// Formats a timestamp with one of the library's patterns, `unknown` where
/// chrono has no date for it.
pub fn format_timestamp(timestamp: i64, pattern: &str) -> (r: String)
    requires
        known_pattern(pattern@),
    ensures
        r@ == date_or_unknown(timestamp, pattern@),
{
    match utc_format(timestamp, pattern) {
        Some(s) => s,
        None => copy_text("unknown"),
    }
}

// ---------------------------------------------------------------------------
// Commits
// ---------------------------------------------------------------------------

/// One commit of the history.
#[derive(Debug)]
pub struct CommitInfo {
    pub message: String,
    pub author_name: String,
    pub author_email: String,
    pub hash: String,
    pub timestamp: i64,
}

/// A commit hash can be cut to its first seven bytes: it is shorter, or the
/// seventh byte ends a character.
pub open spec fn hash_cuttable(h: Seq<char>) -> bool {
    utf8_len(h) < 7 || is_boundary(h, 7)
}

/// The short form of a hash: its first seven bytes, or all of it when it is
/// shorter.
pub open spec fn short_hash_of(h: Seq<char>) -> Seq<char> {
    if utf8_len(h) >= 7 {
        byte_prefix(h, 7)
    } else {
        h
    }
}

/// Number of UTF-8 bytes of a character vector.
pub fn utf8_len_exec(s: &Vec<char>) -> (n: usize)
    ensures
        n == utf8_len(s@) || (n == usize::MAX && utf8_len(s@) >= usize::MAX),
{
    let mut i: usize = 0;
    let mut n: usize = 0;
    assert(s@.take(0) =~= seq![]);
    while i < s.len()
        invariant
            i <= s.len(),
            n == utf8_len(s@.take(i as int)),
        decreases s.len() - i,
    {
        let w = crate::text::char_utf8_len_exec(s[i]);
        assert(s@.take(i + 1).drop_last() =~= s@.take(i as int));
        if w > usize::MAX - n {
            proof {
                lemma_utf8_len_prefix(s@, i + 1);
            }
            return usize::MAX;
        }
        n = n + w;
        i = i + 1;
    }
    assert(s@.take(i as int) =~= s@);
    n
}

/// A prefix takes no more bytes than the whole.
pub proof fn lemma_utf8_len_prefix(s: Seq<char>, k: int)
    requires
        0 <= k <= s.len(),
    ensures
        utf8_len(s.take(k)) <= utf8_len(s),
    decreases s.len() - k,
{
    if k < s.len() {
        lemma_utf8_len_prefix(s, k + 1);
        assert(s.take(k + 1).drop_last() =~= s.take(k));
    } else {
        assert(s.take(k) =~= s);
    }
}

impl CommitInfo {
    /// The first seven bytes of the hash, or the whole hash when shorter.
    pub fn short_hash(&self) -> (r: String)
        requires
            hash_cuttable(self.hash@),
        ensures
            r@ == short_hash_of(self.hash@),
    {
        let h = chars_of(self.hash.as_str());
        let n = utf8_len_exec(&h);
        if n >= 7 {
            string_of(&byte_prefix_exec(&h, 7))
        } else {
            self.hash.clone()
        }
    }

    /// The commit's date as `YYYY-MM-DD`, or `unknown`.
    pub fn format_date(&self) -> (r: String)
        ensures
            r@ == date_or_unknown(self.timestamp, "%Y-%m-%d"@),
    {
        format_timestamp(self.timestamp, "%Y-%m-%d")
    }

    /// The commit's time of day as `HH:MM`, or `unknown`.
    pub fn format_time(&self) -> (r: String)
        ensures
            r@ == date_or_unknown(self.timestamp, "%H:%M"@),
    {
        format_timestamp(self.timestamp, "%H:%M")
    }
}

// ---------------------------------------------------------------------------
// Repository addresses
// ---------------------------------------------------------------------------

/// Where the repository lives and which host it is on.
#[derive(Debug)]
pub struct RepositoryInfo {
    pub url: String,
    pub name: String,
    pub owner: String,
    pub is_github: bool,
    pub is_gitlab: bool,
    pub is_bitbucket: bool,
}

/// The model of repository information.
pub struct RepoView {
    pub url: Seq<char>,
    pub name: Seq<char>,
    pub owner: Seq<char>,
    pub is_github: bool,
    pub is_gitlab: bool,
    pub is_bitbucket: bool,
}

impl View for RepositoryInfo {
    type V = RepoView;

    open spec fn view(&self) -> RepoView {
        RepoView {
            url: self.url@,
            name: self.name@,
            owner: self.owner@,
            is_github: self.is_github,
            is_gitlab: self.is_gitlab,
            is_bitbucket: self.is_bitbucket,
        }
    }
}

/// Repository information before anything is known: `unknown` everywhere,
/// on no known host.
pub open spec fn unknown_repo() -> RepoView {
    RepoView {
        url: "unknown"@,
        name: "unknown"@,
        owner: "unknown"@,
        is_github: false,
        is_gitlab: false,
        is_bitbucket: false,
    }
}

impl Default for RepositoryInfo {
    fn default() -> (r: Self)
        ensures
            r@ == unknown_repo(),
    {
        RepositoryInfo {
            url: copy_text("unknown"),
            name: copy_text("unknown"),
            owner: copy_text("unknown"),
            is_github: false,
            is_gitlab: false,
            is_bitbucket: false,
        }
    }
}

/// The `owner/name` part of a repository address on `domain`: what follows
/// `domain/` in an HTTPS address, or what follows the first `:` in an SSH
/// address (`git@...`).
pub open spec fn repo_path(url: Seq<char>, domain: Seq<char>) -> Option<Seq<char>> {
    if starts_with(url, "https://"@) {
        let parts = split(url, domain + seq!['/']);
        if parts.len() > 1 {
            Some(parts[1])
        } else {
            None
        }
    } else if starts_with(url, "git@"@) {
        let parts = split(url, seq![':']);
        if parts.len() > 1 {
            Some(parts[1])
        } else {
            None
        }
    } else {
        None
    }
}

/// The view of an optional string.
pub open spec fn opt_view(o: Option<String>) -> Option<Seq<char>> {
    match o {
        Some(s) => Some(s@),
        None => None,
    }
}

/// Second piece of a split, when there is one.
fn second_piece(pieces: &Vec<Vec<char>>) -> (r: Option<String>)
    ensures
        r matches Some(s) ==> pieces.len() > 1 && s@ == pieces@[1]@,
        r is None ==> pieces.len() <= 1,
{
    if pieces.len() > 1 {
        Some(string_of(&pieces[1]))
    } else {
        None
    }
}

/// The `owner/name` part of a repository address on `domain`.
pub fn extract_repo_path(url: &str, domain: &str) -> (r: Option<String>)
    ensures
        opt_view(r) == repo_path(url@, domain@),
{
    let u = chars_of(url);
    if starts_with_exec(&u, &chars_of("https://")) {
        let mut pat = chars_of(domain);
        pat.push('/');
        assert(pat@ =~= domain@ + seq!['/']);
        let pieces = split_exec(&u, &pat);
        let r = second_piece(&pieces);
        assert(views(pieces@).len() == pieces@.len());
        r
    } else if starts_with_exec(&u, &chars_of("git@")) {
        let colon = vec![':'];
        assert(colon@ =~= seq![':']);
        let pieces = split_exec(&u, &colon);
        assert(views(pieces@).len() == pieces@.len());
        second_piece(&pieces)
    } else {
        None
    }
}

/// Owner and name read from an `owner/name` path: its first two pieces
/// between `/`, when there are at least two.
pub open spec fn owner_and_name(path: Option<Seq<char>>) -> Option<(Seq<char>, Seq<char>)> {
    match path {
        Some(p) => {
            let parts = split(p, seq!['/']);
            if parts.len() >= 2 {
                Some((parts[0], parts[1]))
            } else {
                None
            }
        },
        None => None,
    }
}

/// Sets owner and name when the address gave them.
pub open spec fn with_owner_name(r: RepoView, on: Option<(Seq<char>, Seq<char>)>) -> RepoView {
    match on {
        Some((o, n)) => RepoView { owner: o, name: n, ..r },
        None => r,
    }
}

/// What reading the address `url` does to repository information: the host
/// is recognised by its domain (GitHub, then GitLab, then Bitbucket) and
/// owner and name are read from the path; on another host, the last piece
/// of the address between `/` is the name and the one before it the owner.
/// A trailing `.git` is ignored.
pub open spec fn parsed_repo(r: RepoView, url: Seq<char>) -> RepoView {
    let clean = trim_end_matches(url, ".git"@);
    if contains(clean, "github.com"@) {
        with_owner_name(
            RepoView { is_github: true, ..r },
            owner_and_name(repo_path(clean, "github.com"@)),
        )
    } else if contains(clean, "gitlab.com"@) {
        with_owner_name(
            RepoView { is_gitlab: true, ..r },
            owner_and_name(repo_path(clean, "gitlab.com"@)),
        )
    } else if contains(clean, "bitbucket.org"@) {
        with_owner_name(
            RepoView { is_bitbucket: true, ..r },
            owner_and_name(repo_path(clean, "bitbucket.org"@)),
        )
    } else {
        let parts = split(clean, seq!['/']);
        let named = RepoView { name: parts.last(), ..r };
        if parts.len() >= 2 {
            RepoView { owner: parts[parts.len() - 2], ..named }
        } else {
            named
        }
    }
}

/// Sets owner and name from an `owner/name` path, when it has both.
fn set_owner_name(info: &mut RepositoryInfo, path: Option<String>)
    ensures
        final(info)@ == with_owner_name(old(info)@, owner_and_name(opt_view(path))),
{
    match path {
        Some(p) => {
            let slash = vec!['/'];
            assert(slash@ =~= seq!['/']);
            let parts = split_exec(&chars_of(p.as_str()), &slash);
            assert(views(parts@).len() == parts@.len());
            if parts.len() >= 2 {
                info.owner = string_of(&parts[0]);
                info.name = string_of(&parts[1]);
            }
        },
        None => {},
    }
}

/// Reads host, owner and name from a repository address.
pub fn parse_git_url(repo_info: &mut RepositoryInfo, url: &str)
    ensures
        final(repo_info)@ == parsed_repo(old(repo_info)@, url@),
{
    proof {
        reveal_strlit(".git");
    }
    let clean_chars = trim_end_matches_exec(&chars_of(url), &chars_of(".git"));
    let clean = string_of(&clean_chars);
    if contains_exec(&clean_chars, &chars_of("github.com")) {
        repo_info.is_github = true;
        set_owner_name(repo_info, extract_repo_path(clean.as_str(), "github.com"));
    } else if contains_exec(&clean_chars, &chars_of("gitlab.com")) {
        repo_info.is_gitlab = true;
        set_owner_name(repo_info, extract_repo_path(clean.as_str(), "gitlab.com"));
    } else if contains_exec(&clean_chars, &chars_of("bitbucket.org")) {
        repo_info.is_bitbucket = true;
        set_owner_name(repo_info, extract_repo_path(clean.as_str(), "bitbucket.org"));
    } else {
        let slash = vec!['/'];
        assert(slash@ =~= seq!['/']);
        let parts = split_exec(&clean_chars, &slash);
        proof {
            lemma_split_nonempty(clean_chars@, seq!['/']);
        }
        assert(views(parts@).len() == parts@.len());
        let n = parts.len();
        repo_info.name = string_of(&parts[n - 1]);
        if n >= 2 {
            repo_info.owner = string_of(&parts[n - 2]);
        }
    }
}

/// Repository information for a remote address.
pub fn repository_info_from_url(url: &str) -> (r: RepositoryInfo)
    ensures
        r@ == parsed_repo(RepoView { url: url@, ..unknown_repo() }, url@),
{
    let mut info = RepositoryInfo::default();
    info.url = copy_text(url);
    parse_git_url(&mut info, url);
    info
}

/// Release tooling helpers.
pub struct ReleaseManager;

/// The `owner/name` form of a GitHub address (HTTPS or SSH); an address
/// that is neither is returned without its `.git`.
pub open spec fn github_slug(url: Seq<char>) -> Seq<char> {
    let clean = trim_end_matches(url, ".git"@);
    match repo_path(clean, "github.com"@) {
        Some(p) => p,
        None => clean,
    }
}

impl ReleaseManager {
    /// The `owner/name` form of a GitHub repository address.
    pub fn normalize_github_url(url: &str) -> (r: String)
        ensures
            r@ == github_slug(url@),
    {
        proof {
            reveal_strlit(".git");
        }
        let clean = string_of(&trim_end_matches_exec(&chars_of(url), &chars_of(".git")));
        match extract_repo_path(clean.as_str(), "github.com") {
            Some(p) => p,
            None => clean,
        }
    }
}


// ---------------------------------------------------------------------------
// Version tags
// ---------------------------------------------------------------------------

/// Length of the run of ASCII digits of `s` that starts at `i`.
pub open spec fn digit_run(s: Seq<char>, i: int) -> nat
    decreases s.len() - i,
{
    if 0 <= i < s.len() && is_digit(s[i]) {
        1 + digit_run(s, i + 1)
    } else {
        0
    }
}

/// End of a leading version core `v?N.N.N` (each `N` one or more ASCII
/// digits, taken greedily), or `-1` when `s` does not start with one.
pub open spec fn core_end(s: Seq<char>) -> int {
    let a: int = if s.len() > 0 && s[0] == 'v' {
        1
    } else {
        0
    };
    let d1 = digit_run(s, a);
    let e1 = a + d1;
    if d1 == 0 || !(e1 < s.len() && s[e1] == '.') {
        -1
    } else {
        let d2 = digit_run(s, e1 + 1);
        let e2 = e1 + 1 + d2;
        if d2 == 0 || !(e2 < s.len() && s[e2] == '.') {
            -1
        } else {
            let d3 = digit_run(s, e2 + 1);
            if d3 == 0 {
                -1
            } else {
                e2 + 1 + d3
            }
        }
    }
}

/// A character that cannot stand in a file name: `/`, `:` or a space.
pub open spec fn is_name_separator(c: char) -> bool {
    c == '/' || c == ':' || c == ' '
}

/// `s` with every `/`, `:` and space replaced by `_`.
pub open spec fn underscored(s: Seq<char>) -> Seq<char> {
    s.map_values(|c: char| if is_name_separator(c) { '_' } else { c })
}

/// The tag name used in file names: surrounding white space removed; a
/// leading `v?N.N.N` followed by `-` or `.` is cut to that core; otherwise
/// `/`, `:` and spaces become `_` and outer `_` are removed; an empty
/// result becomes `v0.1.0`.
pub open spec fn clean_tag(s: Seq<char>) -> Seq<char> {
    let t = crate::text::trim(s);
    let e = core_end(t);
    if 0 <= e < t.len() && (t[e] == '-' || t[e] == '.') {
        t.take(e)
    } else {
        let r = crate::text::trim_end_char(
            crate::text::trim_start_char(underscored(t), '_'),
            '_',
        );
        if r.len() == 0 {
            "v0.1.0"@
        } else {
            r
        }
    }
}

/// Index just after the run of ASCII digits that starts at `i`.
fn digit_run_end(s: &Vec<char>, i: usize) -> (e: usize)
    requires
        i <= s.len(),
    ensures
        e == i + digit_run(s@, i as int),
        e <= s.len(),
{
    let mut e = i;
    while e < s.len() && '0' <= s[e] && s[e] <= '9'
        invariant
            i <= e <= s.len(),
            digit_run(s@, i as int) == (e - i) + digit_run(s@, e as int),
        decreases s.len() - e,
    {
        e += 1;
    }
    e
}

/// End of a leading version core `v?N.N.N`, when `s` starts with one.
fn core_end_exec(s: &Vec<char>) -> (r: Option<usize>)
    ensures
        match r {
            Some(e) => core_end(s@) == e,
            None => core_end(s@) == -1,
        },
{
    let a: usize = if s.len() > 0 && s[0] == 'v' {
        1
    } else {
        0
    };
    let e1 = digit_run_end(s, a);
    if e1 == a || !(e1 < s.len() && s[e1] == '.') {
        return None;
    }
    let e2 = digit_run_end(s, e1 + 1);
    if e2 == e1 + 1 || !(e2 < s.len() && s[e2] == '.') {
        return None;
    }
    let e3 = digit_run_end(s, e2 + 1);
    if e3 == e2 + 1 {
        return None;
    }
    Some(e3)
}

/// A tag name made fit for a file name: the version core of a tag such as
/// `v1.2.3-beta` or `v1.2.3.abc1234`, or the tag with `/`, `:` and spaces
/// replaced by `_`; `v0.1.0` when nothing is left.
pub fn clean_tag_name(tag: &str) -> (r: String)
    ensures
        r@ == clean_tag(tag@),
{
    let t = crate::text::trim_text(tag);
    match core_end_exec(&t) {
        Some(e) => {
            if e < t.len() && (t[e] == '-' || t[e] == '.') {
                return string_of(&crate::text::slice_chars(&t, 0, e));
            }
        },
        None => {},
    }
    let mut u: Vec<char> = Vec::new();
    let mut i: usize = 0;
    while i < t.len()
        invariant
            i <= t.len(),
            u@ == underscored(t@.take(i as int)),
        decreases t.len() - i,
    {
        let c = t[i];
        u.push(if c == '/' || c == ':' || c == ' ' { '_' } else { c });
        assert(underscored(t@.take(i + 1)) =~= underscored(t@.take(i as int)).push(
            if is_name_separator(c) { '_' } else { c },
        ));
        i += 1;
    }
    assert(t@.take(i as int) =~= t@);
    let r = crate::text::trim_end_char_exec(&crate::text::trim_start_char_exec(&u, '_'), '_');
    if r.len() == 0 {
        copy_text("v0.1.0")
    } else {
        string_of(&r)
    }
}

/// A tag marks a pre-release: it contains `-alpha`, `-beta`, `-rc`, `-pre`
/// or `-snapshot`.
pub open spec fn prerelease_tag(tag: Seq<char>) -> bool {
    contains(tag, "-alpha"@) || contains(tag, "-beta"@) || contains(tag, "-rc"@) || contains(
        tag,
        "-pre"@,
    ) || contains(tag, "-snapshot"@)
}

/// Whether a tag marks a pre-release.
pub fn is_prerelease(tag: &str) -> (r: bool)
    ensures
        r == prerelease_tag(tag@),
{
    text_contains(tag, "-alpha") || text_contains(tag, "-beta") || text_contains(tag, "-rc")
        || text_contains(tag, "-pre") || text_contains(tag, "-snapshot")
}

/// Some character of `t` is numeric.
pub open spec fn has_numeric(t: Seq<char>) -> bool {
    exists|i: int| 0 <= i < t.len() && numeric_char(t[i])
}

/// The version-tag rule, given the tag, its lowercase form and which of its
/// characters are numeric: it has a numeric character, does not look like a
/// backup, temporary, test or old tag, and starts with `v` or a numeric
/// character, or mentions a release or version, or contains a `.`.
pub open spec fn version_tag_rule(
    tag: Seq<char>,
    lower: Seq<char>,
    any_numeric: bool,
    first_numeric: bool,
) -> bool {
    &&& any_numeric
    &&& !(contains(lower, "backup"@) || contains(lower, "temp"@) || contains(lower, "test"@)
        || contains(lower, "old"@))
    &&& (starts_with(lower, "v"@) || first_numeric || contains(lower, "release"@) || contains(
        lower,
        "version"@,
    ) || contains(lower, "rel-"@) || contains(tag, seq!['.']))
}

/// Whether a tag names a version.
pub open spec fn version_tag(tag: Seq<char>) -> bool {
    version_tag_rule(
        tag,
        lowercase_of(tag),
        has_numeric(tag),
        tag.len() > 0 && numeric_char(tag[0]),
    )
}

/// The version-tag rule applied to a tag, its lowercase form and which of its
/// characters are numeric.
pub fn version_tag_from(tag: &str, lower: &str, any_numeric: bool, first_numeric: bool) -> (r:
    bool)
    ensures
        r == version_tag_rule(tag@, lower@, any_numeric, first_numeric),
{
    if !any_numeric {
        return false;
    }
    if text_contains(lower, "backup") || text_contains(lower, "temp") || text_contains(lower, "test")
        || text_contains(lower, "old") {
        return false;
    }
    let dot = vec!['.'];
    assert(dot@ =~= seq!['.']);
    starts_with_exec(&chars_of(lower), &chars_of("v")) || first_numeric || text_contains(
        lower,
        "release",
    ) || text_contains(lower, "version") || text_contains(lower, "rel-") || contains_exec(
        &chars_of(tag),
        &dot,
    )
}

/// Whether a tag looks like a version (`v1.0.0`, `1.0.0`, `v2.1.0-beta`, ...).
pub fn is_version_tag(tag: &str) -> (r: bool)
    ensures
        r == version_tag(tag@),
{
    let t = chars_of(tag);
    let mut any = false;
    let mut i: usize = 0;
    while i < t.len()
        invariant
            i <= t.len(),
            t@ == tag@,
            any == exists|j: int| 0 <= j < i && numeric_char(t@[j]),
        decreases t.len() - i,
    {
        let n = is_numeric_char(t[i]);
        any = any || n;
        i += 1;
    }
    let first = t.len() > 0 && is_numeric_char(t[0]);
    let lower = to_lowercase(tag);
    version_tag_from(tag, lower.as_str(), any, first)
}

/// The numeric characters and dots of a tag, in order.
pub open spec fn numeric_part(t: Seq<char>) -> Seq<char>
    decreases t.len(),
{
    if t.len() == 0 {
        seq![]
    } else if numeric_char(t.last()) || t.last() == '.' {
        numeric_part(t.drop_last()).push(t.last())
    } else {
        numeric_part(t.drop_last())
    }
}

/// The pieces that read as `u32` numbers, in order.
pub open spec fn parsed_numbers(pieces: Seq<Seq<char>>) -> Seq<u32>
    decreases pieces.len(),
{
    if pieces.len() == 0 {
        seq![]
    } else {
        match parse_u32(pieces.last()) {
            Some(v) => parsed_numbers(pieces.drop_last()).push(v),
            None => parsed_numbers(pieces.drop_last()),
        }
    }
}

/// The numbers of a tag: its numeric characters and dots, split at the dots,
/// each piece that reads as a `u32`.
pub open spec fn tag_numbers_of(t: Seq<char>) -> Seq<u32> {
    parsed_numbers(split(numeric_part(t), seq!['.']))
}

/// The numbers written in a text made of digits and dots: the pieces between
/// dots that read as `u32`, in order.
pub fn numbers_from_text(text: &Vec<char>) -> (r: Vec<u32>)
    ensures
        r@ == parsed_numbers(split(text@, seq!['.'])),
{
    let dot = vec!['.'];
    assert(dot@ =~= seq!['.']);
    let pieces = split_exec(text, &dot);
    let ghost ps = views(pieces@);
    let mut r: Vec<u32> = Vec::new();
    let mut i: usize = 0;
    assert(ps.take(0) =~= seq![]);
    while i < pieces.len()
        invariant
            i <= pieces.len(),
            ps == views(pieces@),
            ps == split(text@, seq!['.']),
            r@ == parsed_numbers(ps.take(i as int)),
        decreases pieces.len() - i,
    {
        assert(ps.take(i + 1).drop_last() =~= ps.take(i as int));
        assert(ps.take(i + 1).last() == pieces@[i as int]@);
        match crate::text::parse_u32_exec(&pieces[i]) {
            Some(v) => r.push(v),
            None => {},
        }
        i += 1;
    }
    assert(ps.take(i as int) =~= ps);
    r
}

/// The numbers of a version tag, in order (`v1.2.3-beta` gives 1, 2, 3).
pub fn tag_numbers(tag: &str) -> (r: Vec<u32>)
    ensures
        r@ == tag_numbers_of(tag@),
{
    let t = chars_of(tag);
    let mut kept: Vec<char> = Vec::new();
    let mut i: usize = 0;
    assert(t@.take(0) =~= seq![]);
    while i < t.len()
        invariant
            i <= t.len(),
            t@ == tag@,
            kept@ == numeric_part(t@.take(i as int)),
        decreases t.len() - i,
    {
        let c = t[i];
        assert(t@.take(i + 1).drop_last() =~= t@.take(i as int));
        if is_numeric_char(c) || c == '.' {
            kept.push(c);
        }
        i += 1;
    }
    assert(t@.take(i as int) =~= t@);
    numbers_from_text(&kept)
}

/// Three-way comparison of number sequences: element by element, and a
/// sequence that is a proper prefix of the other is smaller (-1, 0 or 1).
pub open spec fn numbers_compare(a: Seq<u32>, b: Seq<u32>) -> int
    decreases a.len(),
{
    if a.len() == 0 || b.len() == 0 {
        if a.len() < b.len() {
            -1
        } else if a.len() == b.len() {
            0
        } else {
            1
        }
    } else if a[0] < b[0] {
        -1
    } else if a[0] > b[0] {
        1
    } else {
        numbers_compare(a.drop_first(), b.drop_first())
    }
}

/// Swapping the arguments negates the comparison.
pub proof fn lemma_compare_flip(a: Seq<u32>, b: Seq<u32>)
    ensures
        numbers_compare(a, b) == -numbers_compare(b, a),
        -1 <= numbers_compare(a, b) <= 1,
    decreases a.len(),
{
    if a.len() > 0 && b.len() > 0 && a[0] == b[0] {
        lemma_compare_flip(a.drop_first(), b.drop_first());
    }
}

/// The comparison is transitive, for `<=` and for `<` on either side.
pub proof fn lemma_compare_trans(a: Seq<u32>, b: Seq<u32>, c: Seq<u32>)
    ensures
        numbers_compare(a, b) <= 0 && numbers_compare(b, c) <= 0 ==> numbers_compare(a, c) <= 0,
        numbers_compare(a, b) < 0 && numbers_compare(b, c) <= 0 ==> numbers_compare(a, c) < 0,
        numbers_compare(a, b) <= 0 && numbers_compare(b, c) < 0 ==> numbers_compare(a, c) < 0,
    decreases a.len(),
{
    if a.len() > 0 && b.len() > 0 && c.len() > 0 {
        lemma_compare_trans(a.drop_first(), b.drop_first(), c.drop_first());
    }
}

/// Compares the number sequences of two tags.
pub fn compare_numbers(a: &Vec<u32>, b: &Vec<u32>) -> (r: i8)
    ensures
        r == numbers_compare(a@, b@),
{
    let mut i: usize = 0;
    assert(a@.skip(0) =~= a@);
    assert(b@.skip(0) =~= b@);
    while i < a.len() && i < b.len() && a[i] == b[i]
        invariant
            i <= a.len(),
            i <= b.len(),
            numbers_compare(a@, b@) == numbers_compare(a@.skip(i as int), b@.skip(i as int)),
        decreases a.len() - i,
    {
        assert(a@.skip(i as int).drop_first() =~= a@.skip(i + 1));
        assert(b@.skip(i as int).drop_first() =~= b@.skip(i + 1));
        i += 1;
    }
    if i < a.len() && i < b.len() {
        if a[i] < b[i] {
            -1
        } else {
            1
        }
    } else if a.len() - i < b.len() - i {
        -1
    } else if a.len() - i == b.len() - i {
        0
    } else {
        1
    }
}

/// The spelled-out order of a three-way comparison.
pub open spec fn order_of(c: int) -> std::cmp::Ordering {
    if c < 0 {
        std::cmp::Ordering::Less
    } else if c == 0 {
        std::cmp::Ordering::Equal
    } else {
        std::cmp::Ordering::Greater
    }
}

/// Orders two tags by their version numbers.
pub fn compare_version_tags(a: &str, b: &str) -> (r: std::cmp::Ordering)
    ensures
        r == order_of(numbers_compare(tag_numbers_of(a@), tag_numbers_of(b@))),
{
    let c = compare_numbers(&tag_numbers(a), &tag_numbers(b));
    if c < 0 {
        std::cmp::Ordering::Less
    } else if c == 0 {
        std::cmp::Ordering::Equal
    } else {
        std::cmp::Ordering::Greater
    }
}


/// The number sequences of a list of tags' numbers.
pub open spec fn number_views(v: Seq<Vec<u32>>) -> Seq<Seq<u32>> {
    v.map_values(|x: Vec<u32>| x@)
}

/// Index `i` holds the newest version among the entries other than `skip`,
/// and no later entry other than `skip` is as new: the first entry once the
/// entries are sorted by version, ties kept in order, and reversed.
pub open spec fn is_top_except(ns: Seq<Seq<u32>>, skip: int, i: int) -> bool {
    &&& 0 <= i < ns.len()
    &&& i != skip
    &&& forall|j: int| 0 <= j < ns.len() && j != skip ==> numbers_compare(ns[j], ns[i]) <= 0
    &&& forall|j: int| i < j < ns.len() && j != skip ==> numbers_compare(ns[j], ns[i]) < 0
}

/// Among the entries other than `skip`, at most one is on top.
pub proof fn lemma_top_unique(ns: Seq<Seq<u32>>, skip: int, i: int, k: int)
    requires
        is_top_except(ns, skip, i),
        is_top_except(ns, skip, k),
    ensures
        i == k,
{
    if i < k {
        lemma_compare_flip(ns[k], ns[i]);
        assert(numbers_compare(ns[k], ns[i]) < 0);
        assert(numbers_compare(ns[i], ns[k]) <= 0);
    } else if k < i {
        lemma_compare_flip(ns[k], ns[i]);
        assert(numbers_compare(ns[i], ns[k]) < 0);
        assert(numbers_compare(ns[k], ns[i]) <= 0);
    }
}

/// The index of the newest version among the entries other than `skip`
/// (the last such index among equals), if there is another entry.
pub fn last_top_except(nums: &Vec<Vec<u32>>, skip: usize) -> (r: Option<usize>)
    ensures
        match r {
            Some(k) => is_top_except(number_views(nums@), skip as int, k as int),
            None => nums.len() == 0 || (nums.len() == 1 && skip == 0),
        },
{
    let ghost ns = number_views(nums@);
    let mut best: Option<usize> = None;
    let mut i: usize = 0;
    while i < nums.len()
        invariant
            i <= nums.len(),
            ns == number_views(nums@),
            match best {
                Some(b) => {
                    &&& b < i
                    &&& b != skip
                    &&& forall|j: int|
                        0 <= j < i && j != skip ==> numbers_compare(ns[j], ns[b as int]) <= 0
                    &&& forall|j: int|
                        b < j < i && j != skip ==> numbers_compare(ns[j], ns[b as int]) < 0
                },
                None => i == 0 || (i == 1 && skip == 0),
            },
        decreases nums.len() - i,
    {
        if i != skip {
            match best {
                None => {
                    best = Some(i);
                    proof {
                        lemma_compare_flip(ns[i as int], ns[i as int]);
                    }
                },
                Some(b) => {
                    let c = compare_numbers(&nums[i], &nums[b]);
                    if c >= 0 {
                        proof {
                            lemma_compare_flip(ns[i as int], ns[b as int]);
                            assert forall|j: int| 0 <= j < i + 1 && j != skip implies numbers_compare(
                                ns[j],
                                ns[i as int],
                            ) <= 0 by {
                                lemma_compare_trans(ns[j], ns[b as int], ns[i as int]);
                                lemma_compare_flip(ns[j], ns[j]);
                            }
                            assert forall|j: int| i < j < i + 1 && j != skip implies numbers_compare(
                                ns[j],
                                ns[i as int],
                            ) < 0 by {}
                        }
                        best = Some(i);
                    }
                },
            }
        }
        i += 1;
    }
    best
}

/// The tags to compare releases with: the newest version tag, and the newest
/// of the others when there is one (`None` when there is no tag). `nums`
/// holds the version numbers of each tag.
pub fn pick_tag_range(tags: &Vec<String>, nums: &Vec<Vec<u32>>) -> (r: Option<(String, Option<String>)>)
    requires
        tags.len() == nums.len(),
    ensures
        r is None <==> tags.len() == 0,
        r matches Some((latest, previous)) ==> exists|l: int|
            {
                &&& #[trigger] is_top_except(number_views(nums@), -1, l)
                &&& latest@ == tags@[l]@
                &&& (previous is None <==> tags.len() == 1)
                &&& previous matches Some(p) ==> exists|m: int|
                    #[trigger] is_top_except(number_views(nums@), l, m) && p@ == tags@[m]@
            },
{
    let ghost ns = number_views(nums@);
    if tags.len() == 0 {
        return None;
    }
    let l = match last_top_except(nums, usize::MAX) {
        Some(l) => l,
        None => {
            assert(0 == usize::MAX);
            return None;
        },
    };
    assert(is_top_except(ns, -1, l as int));
    let previous = match last_top_except(nums, l) {
        Some(m) => {
            assert(tags.len() != 1);
            Some(tags[m].clone())
        },
        None => {
            if tags.len() > 1 {
                let k: usize = if l == 0 { 1 } else { 0 };
                assert(k < nums.len() && k != l);
            }
            None
        },
    };
    Some((tags[l].clone(), previous))
}

/// The version tags among `tags`, in order.
pub open spec fn version_tag_list(ts: Seq<Seq<char>>) -> Seq<Seq<char>>
    decreases ts.len(),
{
    if ts.len() == 0 {
        seq![]
    } else if version_tag(ts.last()) {
        version_tag_list(ts.drop_last()).push(ts.last())
    } else {
        version_tag_list(ts.drop_last())
    }
}

/// The version numbers of each tag.
pub open spec fn numbers_of_tags(ts: Seq<Seq<char>>) -> Seq<Seq<u32>> {
    ts.map_values(|t: Seq<char>| tag_numbers_of(t))
}

/// The tags to generate release notes for, from all tags of the repository:
/// among the version tags, the newest (the last of equals), and the newest
/// of the others when there is one; `None` when no tag is a version tag.
pub fn select_tag_range(tags: &Vec<String>) -> (r: Option<(String, Option<String>)>)
    ensures
        ({
            let vt = version_tag_list(string_views(tags@));
            let ns = numbers_of_tags(vt);
            &&& r is None <==> vt.len() == 0
            &&& r matches Some((latest, previous)) ==> exists|l: int|
                {
                    &&& #[trigger] is_top_except(ns, -1, l)
                    &&& latest@ == vt[l]
                    &&& (previous is None <==> vt.len() == 1)
                    &&& previous matches Some(p) ==> exists|m: int|
                        #[trigger] is_top_except(ns, l, m) && p@ == vt[m]
                }
        }),
{
    let ghost ts = string_views(tags@);
    let mut kept: Vec<String> = Vec::new();
    let mut nums: Vec<Vec<u32>> = Vec::new();
    let mut i: usize = 0;
    assert(ts.take(0) =~= seq![]);
    assert(string_views(kept@) =~= seq![]);
    assert(number_views(nums@) =~= numbers_of_tags(string_views(kept@)));
    while i < tags.len()
        invariant
            i <= tags.len(),
            ts == string_views(tags@),
            kept.len() == nums.len(),
            string_views(kept@) == version_tag_list(ts.take(i as int)),
            number_views(nums@) == numbers_of_tags(string_views(kept@)),
        decreases tags.len() - i,
    {
        assert(ts.take(i + 1).drop_last() =~= ts.take(i as int));
        assert(ts.take(i + 1).last() == tags@[i as int]@);
        if is_version_tag(tags[i].as_str()) {
            let t = tags[i].clone();
            let ghost tv = t@;
            let ghost old_kept = string_views(kept@);
            let ghost old_nums = number_views(nums@);
            let tn = tag_numbers(tags[i].as_str());
            kept.push(t);
            nums.push(tn);
            assert(string_views(kept@) =~= old_kept.push(tv));
            assert(number_views(nums@) =~= old_nums.push(tag_numbers_of(tv)));
            assert(numbers_of_tags(old_kept.push(tv)) =~= numbers_of_tags(old_kept).push(
                tag_numbers_of(tv),
            ));
            assert(string_views(kept@) =~= version_tag_list(ts.take(i + 1)));
            assert(number_views(nums@) =~= numbers_of_tags(string_views(kept@)));
        }
        i += 1;
    }
    assert(ts.take(i as int) =~= ts);
    let r = pick_tag_range(&kept, &nums);
    assert(kept@.len() == string_views(kept@).len());
    r
}


// ---------------------------------------------------------------------------
// Tags for untagged commits
// ---------------------------------------------------------------------------

/// What the first capture group of the pattern
/// `v?(\d+\.\d+\.\d+(?:-[a-zA-Z0-9]+)?)` holds at its leftmost match in
/// `text` (a version such as `1.2.3` or `2.0.0-beta`), `None` without a
/// match. A function of the text alone.
pub uninterp spec fn version_in_text(text: Seq<char>) -> Option<Seq<char>>;

/// Finds a version number in a text such as `release/1.2.3` with the regex
/// crate. The contract names the result; the regular-expression matching
/// itself is the regex crate's.
#[verifier::external_body]
fn extract_version_from_string(text: &str) -> (r: Option<String>)
    ensures
        opt_view(r) == version_in_text(text@),
{
    let re = match regex::Regex::new(r"v?(\d+\.\d+\.\d+(?:-[a-zA-Z0-9]+)?)") {
        Ok(re) => re,
        Err(_) => return None,
    };
    match re.captures(text) {
        Some(c) => match c.get(1) {
            Some(m) => Some(m.as_str().to_string()),
            None => None,
        },
        None => None,
    }
}

/// `prefix` followed by `.date.hash`.
pub open spec fn dated(prefix: Seq<char>, date: Seq<char>, hash: Seq<char>) -> Seq<char> {
    prefix + seq!['.'] + date + seq!['.'] + hash
}

/// The tag made up for an untagged commit, from the lowercase branch name,
/// the lowercase commit message, the version found in the branch name, the
/// commit date and its short hash: a release branch that names a version
/// gives that version; otherwise the message (major or breaking, then minor
/// or feature, then patch or fix) and then the branch decide.
pub open spec fn smart_tag_rule(
    branch_lower: Seq<char>,
    commit_lower: Seq<char>,
    version: Option<Seq<char>>,
    date: Seq<char>,
    hash: Seq<char>,
) -> Seq<char> {
    if contains(branch_lower, "rel"@) && version is Some {
        "v"@ + version->0
    } else if contains(commit_lower, "major"@) || contains(commit_lower, "breaking"@) {
        dated("v1.0.0-dev"@, date, hash)
    } else if contains(commit_lower, "minor"@) || contains(commit_lower, "feature"@) || contains(
        commit_lower,
        "feat"@,
    ) {
        dated("v0.2.0-dev"@, date, hash)
    } else if contains(commit_lower, "patch"@) || contains(commit_lower, "fix"@) || contains(
        commit_lower,
        "hotfix"@,
    ) {
        dated("v0.1.1-dev"@, date, hash)
    } else if branch_lower == "main"@ || branch_lower == "master"@ {
        dated("v0.1.0-main"@, date, hash)
    } else if branch_lower == "develop"@ || branch_lower == "dev"@ {
        dated("v0.1.0-dev"@, date, hash)
    } else if starts_with(branch_lower, "feature/"@) {
        dated("v0.1.0-feature"@, date, hash)
    } else if starts_with(branch_lower, "hotfix/"@) {
        dated("v0.1.0-hotfix"@, date, hash)
    } else {
        dated("v0.1.0-"@ + replace(branch_lower, seq!['/'], seq!['-']), date, hash)
    }
}

/// `prefix.date.hash` as a string.
fn dated_text(prefix: &str, date: &str, hash: &str) -> (r: String)
    ensures
        r@ == dated(prefix@, date@, hash@),
{
    let mut r = copy_text(prefix);
    crate::text::push_char(&mut r, '.');
    push_text(&mut r, date);
    crate::text::push_char(&mut r, '.');
    push_text(&mut r, hash);
    assert(r@ =~= dated(prefix@, date@, hash@));
    r
}

/// The made-up tag of an untagged commit, from the lowercase branch name and
/// commit message, the version found in the branch name, the date and the
/// short hash.
pub fn smart_tag_with(
    branch_lower: &str,
    commit_lower: &str,
    version: Option<String>,
    date: &str,
    hash: &str,
) -> (r: String)
    ensures
        r@ == smart_tag_rule(branch_lower@, commit_lower@, opt_view(version), date@, hash@),
{
    if text_contains(branch_lower, "rel") {
        match version {
            Some(v) => {
                let mut r = copy_text("v");
                push_text(&mut r, v.as_str());
                return r;
            },
            None => {},
        }
    }
    if text_contains(commit_lower, "major") || text_contains(commit_lower, "breaking") {
        dated_text("v1.0.0-dev", date, hash)
    } else if text_contains(commit_lower, "minor") || text_contains(commit_lower, "feature")
        || text_contains(commit_lower, "feat") {
        dated_text("v0.2.0-dev", date, hash)
    } else if text_contains(commit_lower, "patch") || text_contains(commit_lower, "fix")
        || text_contains(commit_lower, "hotfix") {
        dated_text("v0.1.1-dev", date, hash)
    } else if crate::text::text_eq(branch_lower, "main") || crate::text::text_eq(
        branch_lower,
        "master",
    ) {
        dated_text("v0.1.0-main", date, hash)
    } else if crate::text::text_eq(branch_lower, "develop") || crate::text::text_eq(
        branch_lower,
        "dev",
    ) {
        dated_text("v0.1.0-dev", date, hash)
    } else if starts_with_exec(&chars_of(branch_lower), &chars_of("feature/")) {
        dated_text("v0.1.0-feature", date, hash)
    } else if starts_with_exec(&chars_of(branch_lower), &chars_of("hotfix/")) {
        dated_text("v0.1.0-hotfix", date, hash)
    } else {
        let slash = vec!['/'];
        let dash = vec!['-'];
        assert(slash@ =~= seq!['/']);
        assert(dash@ =~= seq!['-']);
        let b = string_of(&replace_exec(&chars_of(branch_lower), &slash, &dash));
        let mut prefix = copy_text("v0.1.0-");
        push_text(&mut prefix, b.as_str());
        dated_text(prefix.as_str(), date, hash)
    }
}

/// The made-up tag of an untagged commit on `branch`.
pub fn generate_smart_tag(branch: &str, date: &str, hash: &str, commit_msg: &str) -> (r: String)
    ensures
        r@ == smart_tag_rule(
            lowercase_of(branch@),
            lowercase_of(commit_msg@),
            version_in_text(branch@),
            date@,
            hash@,
        ),
{
    let branch_lower = to_lowercase(branch);
    let commit_lower = to_lowercase(commit_msg);
    let version = if text_contains(branch_lower.as_str(), "rel") {
        extract_version_from_string(branch)
    } else {
        None
    };
    smart_tag_with(branch_lower.as_str(), commit_lower.as_str(), version, date, hash)
}

/// The tag for the current commit when the repository has no version tag:
/// made up from the branch, the commit date (`YYYY.MM.DD`, or `unknown`),
/// the first seven bytes of the hash and the message.
pub fn current_commit_tag(branch: &str, hash: &str, timestamp: i64, message: &str) -> (r: String)
    requires
        utf8_len(hash@) >= 7,
        is_boundary(hash@, 7),
    ensures
        r@ == smart_tag_rule(
            lowercase_of(branch@),
            lowercase_of(message@),
            version_in_text(branch@),
            date_or_unknown(timestamp, "%Y.%m.%d"@),
            byte_prefix(hash@, 7),
        ),
{
    let short = string_of(&byte_prefix_exec(&chars_of(hash), 7));
    let date = format_timestamp(timestamp, "%Y.%m.%d");
    generate_smart_tag(branch, date.as_str(), short.as_str(), message)
}


// ---------------------------------------------------------------------------
// Commit categories
// ---------------------------------------------------------------------------

/// The category of a commit by the lowercase first line of its message:
/// 0 breaking changes, 1 security, 2 features, 3 fixes, 4 documentation,
/// 5 improvements, 6 dependencies, 7 translations, 8 other. The first rule
/// that matches decides.
pub open spec fn category_of(l: Seq<char>) -> nat {
    if contains(l, "breaking"@) {
        0
    } else if contains(l, "security"@) || contains(l, "vulnerability"@) || contains(l, "cve"@) {
        1
    } else if contains(l, "feat"@) || contains(l, "feature"@) || contains(l, "add"@) {
        2
    } else if contains(l, "fix"@) || contains(l, "bug"@) || contains(l, "hotfix"@) {
        3
    } else if contains(l, "doc"@) || contains(l, "readme"@) {
        4
    } else if contains(l, "improve"@) || contains(l, "enhance"@) || contains(l, "update"@)
        || contains(l, "refactor"@) {
        5
    } else if contains(l, "dep"@) || contains(l, "bump"@) || contains(l, "upgrade"@) || contains(
        l,
        "yarn"@,
    ) || contains(l, "npm"@) || contains(l, "cargo"@) {
        6
    } else if contains(l, "translation"@) || contains(l, "i18n"@) || contains(l, "locale"@) {
        7
    } else {
        8
    }
}

/// The category of a lowercase first line.
pub fn category_from_lower(l: &str) -> (k: u8)
    ensures
        k == category_of(l@),
{
    if text_contains(l, "breaking") {
        0
    } else if text_contains(l, "security") || text_contains(l, "vulnerability") || text_contains(
        l,
        "cve",
    ) {
        1
    } else if text_contains(l, "feat") || text_contains(l, "feature") || text_contains(l, "add") {
        2
    } else if text_contains(l, "fix") || text_contains(l, "bug") || text_contains(l, "hotfix") {
        3
    } else if text_contains(l, "doc") || text_contains(l, "readme") {
        4
    } else if text_contains(l, "improve") || text_contains(l, "enhance") || text_contains(
        l,
        "update",
    ) || text_contains(l, "refactor") {
        5
    } else if text_contains(l, "dep") || text_contains(l, "bump") || text_contains(l, "upgrade")
        || text_contains(l, "yarn") || text_contains(l, "npm") || text_contains(l, "cargo") {
        6
    } else if text_contains(l, "translation") || text_contains(l, "i18n") || text_contains(
        l,
        "locale",
    ) {
        7
    } else {
        8
    }
}

/// The category of a commit.
pub open spec fn commit_category(c: CommitInfo) -> nat {
    category_of(lowercase_of(crate::text::first_line(c.message@)))
}

/// How a commit is listed: the first line of its message and its short
/// hash in parentheses.
pub open spec fn commit_entry(c: CommitInfo) -> Seq<char> {
    crate::text::first_line(c.message@) + " ("@ + short_hash_of(c.hash@) + ")"@
}

/// The entries of the commits of category `k`, in order.
pub open spec fn entries_in(cs: Seq<CommitInfo>, k: nat) -> Seq<Seq<char>>
    decreases cs.len(),
{
    if cs.len() == 0 {
        seq![]
    } else if commit_category(cs.last()) == k {
        entries_in(cs.drop_last(), k).push(commit_entry(cs.last()))
    } else {
        entries_in(cs.drop_last(), k)
    }
}

/// Every hash of the commits can be shortened.
pub open spec fn hashes_cuttable(cs: Seq<CommitInfo>) -> bool {
    forall|i: int| 0 <= i < cs.len() ==> hash_cuttable(#[trigger] cs[i].hash@)
}

/// Commit entries sorted into categories.
#[derive(Debug)]
pub struct CategorizedCommits {
    pub features: Vec<String>,
    pub fixes: Vec<String>,
    pub improvements: Vec<String>,
    pub docs: Vec<String>,
    pub deps: Vec<String>,
    pub translations: Vec<String>,
    pub breaking_changes: Vec<String>,
    pub security: Vec<String>,
    pub others: Vec<String>,
}

impl CategorizedCommits {
    /// The entries of category `k` (numbered as in `category_of`).
    pub open spec fn list(&self, k: nat) -> Seq<Seq<char>> {
        string_views(
            if k == 0 {
                self.breaking_changes@
            } else if k == 1 {
                self.security@
            } else if k == 2 {
                self.features@
            } else if k == 3 {
                self.fixes@
            } else if k == 4 {
                self.docs@
            } else if k == 5 {
                self.improvements@
            } else if k == 6 {
                self.deps@
            } else if k == 7 {
                self.translations@
            } else {
                self.others@
            },
        )
    }

    /// No entries in any category.
    pub fn new() -> (r: Self)
        ensures
            forall|k: nat| #[trigger] r.list(k) == Seq::<Seq<char>>::empty(),
    {
        let r = CategorizedCommits {
            features: Vec::new(),
            fixes: Vec::new(),
            improvements: Vec::new(),
            docs: Vec::new(),
            deps: Vec::new(),
            translations: Vec::new(),
            breaking_changes: Vec::new(),
            security: Vec::new(),
            others: Vec::new(),
        };
        assert forall|k: nat| #[trigger] r.list(k) == Seq::<Seq<char>>::empty() by {
            assert(r.list(k) =~= Seq::<Seq<char>>::empty());
        }
        r
    }

    /// Appends an entry to category `k`.
    fn add(&mut self, k: u8, entry: String)
        requires
            k <= 8,
        ensures
            forall|j: nat| #[trigger] final(self).list(j) == if j == k as nat || (k == 8 && j > 8) {
                old(self).list(j).push(entry@)
            } else {
                old(self).list(j)
            },
    {
        let ghost e = entry@;
        if k == 0 {
            self.breaking_changes.push(entry);
        } else if k == 1 {
            self.security.push(entry);
        } else if k == 2 {
            self.features.push(entry);
        } else if k == 3 {
            self.fixes.push(entry);
        } else if k == 4 {
            self.docs.push(entry);
        } else if k == 5 {
            self.improvements.push(entry);
        } else if k == 6 {
            self.deps.push(entry);
        } else if k == 7 {
            self.translations.push(entry);
        } else {
            self.others.push(entry);
        }
        assert forall|j: nat| #[trigger] self.list(j) == if j == k as nat || (k == 8 && j > 8) {
            old(self).list(j).push(e)
        } else {
            old(self).list(j)
        } by {
            if j == k as nat || (k == 8 && j > 8) {
                assert(self.list(j) =~= old(self).list(j).push(e));
            } else {
                assert(self.list(j) =~= old(self).list(j));
            }
        }
    }
}

/// The listing entry of a commit.
pub fn commit_entry_text(c: &CommitInfo) -> (r: String)
    requires
        hash_cuttable(c.hash@),
    ensures
        r@ == commit_entry(*c),
{
    let first = crate::text::first_line_exec(&chars_of(c.message.as_str()));
    let mut r = string_of(&first);
    push_text(&mut r, " (");
    let h = c.short_hash();
    push_text(&mut r, h.as_str());
    push_text(&mut r, ")");
    r
}

/// Sorts the commits into categories by the first line of their messages.
pub fn categorize_commits(commits: &[CommitInfo]) -> (r: CategorizedCommits)
    requires
        hashes_cuttable(commits@),
    ensures
        forall|k: nat| k <= 8 ==> #[trigger] r.list(k) == entries_in(commits@, k),
{
    let mut out = CategorizedCommits::new();
    let mut i: usize = 0;
    assert(commits@.take(0) =~= seq![]);
    while i < commits.len()
        invariant
            i <= commits.len(),
            hashes_cuttable(commits@),
            forall|k: nat| k <= 8 ==> #[trigger] out.list(k) == entries_in(commits@.take(i as int), k),
        decreases commits.len() - i,
    {
        let c = &commits[i];
        assert(hash_cuttable(commits@[i as int].hash@));
        let first = string_of(&crate::text::first_line_exec(&chars_of(c.message.as_str())));
        let lower = to_lowercase(first.as_str());
        let k = category_from_lower(lower.as_str());
        let entry = commit_entry_text(c);
        let ghost before = out;
        out.add(k, entry);
        assert(commits@.take(i + 1).drop_last() =~= commits@.take(i as int));
        assert(commits@.take(i + 1).last() == commits@[i as int]);
        assert forall|j: nat| j <= 8 implies #[trigger] out.list(j) == entries_in(
            commits@.take(i + 1),
            j,
        ) by {
            assert(before.list(j) == entries_in(commits@.take(i as int), j));
        }
        i += 1;
    }
    assert(commits@.take(i as int) =~= commits@);
    out
}


// ---------------------------------------------------------------------------
// Contributors
// ---------------------------------------------------------------------------

/// The author emails of the commits, each once, in order of first
/// appearance.
pub open spec fn distinct_emails(cs: Seq<CommitInfo>) -> Seq<Seq<char>>
    decreases cs.len(),
{
    if cs.len() == 0 {
        seq![]
    } else {
        let d = distinct_emails(cs.drop_last());
        if d.contains(cs.last().author_email@) {
            d
        } else {
            d.push(cs.last().author_email@)
        }
    }
}

/// Number of commits by the author with email `e`.
pub open spec fn email_count(cs: Seq<CommitInfo>, e: Seq<char>) -> nat
    decreases cs.len(),
{
    if cs.len() == 0 {
        0
    } else {
        email_count(cs.drop_last(), e) + if cs.last().author_email@ == e {
            1nat
        } else {
            0nat
        }
    }
}

/// The author name of the first commit with email `e`.
pub open spec fn first_name(cs: Seq<CommitInfo>, e: Seq<char>) -> Seq<char>
    decreases cs.len(),
{
    if cs.len() == 0 {
        seq![]
    } else if distinct_emails(cs.drop_last()).contains(e) {
        first_name(cs.drop_last(), e)
    } else if cs.last().author_email@ == e {
        cs.last().author_name@
    } else {
        first_name(cs.drop_last(), e)
    }
}

/// One line of contributor statistics per author email: the email, the name
/// of the author's first commit and the number of commits, in order of
/// first appearance.
pub open spec fn contributor_rows(cs: Seq<CommitInfo>) -> Seq<(Seq<char>, Seq<char>, nat)> {
    distinct_emails(cs).map_values(
        |e: Seq<char>| (e, first_name(cs, e), email_count(cs, e)),
    )
}

/// The views of contributor statistics.
pub open spec fn row_views(r: Seq<(String, String, usize)>) -> Seq<(Seq<char>, Seq<char>, nat)> {
    r.map_values(|t: (String, String, usize)| (t.0@, t.1@, t.2 as nat))
}

/// An email that does not occur has no commits.
proof fn lemma_absent_count(cs: Seq<CommitInfo>, e: Seq<char>)
    requires
        !distinct_emails(cs).contains(e),
    ensures
        email_count(cs, e) == 0,
    decreases cs.len(),
{
    if cs.len() > 0 {
        let d = distinct_emails(cs.drop_last());
        if d.contains(cs.last().author_email@) {
            lemma_absent_count(cs.drop_last(), e);
        } else {
            assert(d.push(cs.last().author_email@).contains(e) == (d.contains(e) || cs.last().author_email@ == e)) by {
                if d.contains(e) {
                    let j = choose|j: int| 0 <= j < d.len() && d[j] == e;
                    assert(d.push(cs.last().author_email@)[j] == e);
                }
                if cs.last().author_email@ == e {
                    assert(d.push(cs.last().author_email@)[d.len() as int] == e);
                }
            }
            lemma_absent_count(cs.drop_last(), e);
        }
    }
}

/// Each email occurs once among the distinct emails.
proof fn lemma_distinct_unique(cs: Seq<CommitInfo>)
    ensures
        forall|a: int, b: int|
            0 <= a < b < distinct_emails(cs).len() ==> distinct_emails(cs)[a]
                != distinct_emails(cs)[b],
    decreases cs.len(),
{
    if cs.len() > 0 {
        lemma_distinct_unique(cs.drop_last());
        let d = distinct_emails(cs.drop_last());
        if !d.contains(cs.last().author_email@) {
            let d2 = d.push(cs.last().author_email@);
            assert forall|a: int, b: int| 0 <= a < b < d2.len() implies d2[a] != d2[b] by {
                if b == d.len() {
                    assert(d2[a] == d[a]);
                    if d[a] == cs.last().author_email@ {
                        assert(d.contains(cs.last().author_email@));
                    }
                }
            }
        }
    }
}

/// No author has more commits than there are commits.
proof fn lemma_count_bound(cs: Seq<CommitInfo>, e: Seq<char>)
    ensures
        email_count(cs, e) <= cs.len(),
    decreases cs.len(),
{
    if cs.len() > 0 {
        lemma_count_bound(cs.drop_last(), e);
    }
}

/// Authors (emails, names, counts) in order of first appearance, as
/// `distinct_emails`, `first_name` and `email_count` give them for `cs`.
pub open spec fn groups_match(
    emails: Seq<String>,
    names: Seq<String>,
    counts: Seq<usize>,
    cs: Seq<CommitInfo>,
) -> bool {
    &&& emails.len() == names.len() == counts.len()
    &&& string_views(emails) == distinct_emails(cs)
    &&& forall|j: int|
        0 <= j < emails.len() ==> #[trigger] names[j]@ == first_name(cs, emails[j]@)
            && counts[j] == email_count(cs, emails[j]@)
}

/// Authors with their commit counts, in order of first appearance.
fn group_authors(commits: &[CommitInfo]) -> (r: (Vec<String>, Vec<String>, Vec<usize>))
    ensures
        groups_match(r.0@, r.1@, r.2@, commits@),
{
    let mut emails: Vec<String> = Vec::new();
    let mut names: Vec<String> = Vec::new();
    let mut counts: Vec<usize> = Vec::new();
    let mut i: usize = 0;
    assert(commits@.take(0) =~= seq![]);
    assert(string_views(emails@) =~= seq![]);
    while i < commits.len()
        invariant
            i <= commits.len(),
            groups_match(emails@, names@, counts@, commits@.take(i as int)),
        decreases commits.len() - i,
    {
        let ghost pre = commits@.take(i as int);
        let ghost cur = commits@.take(i + 1);
        assert(cur.drop_last() =~= pre);
        assert(cur.last() == commits@[i as int]);
        let e = &commits[i].author_email;
        let mut k: usize = 0;
        let mut found = false;
        while k < emails.len() && !found
            invariant
                k <= emails.len(),
                found ==> k < emails.len() && emails@[k as int]@ == e@,
                !found ==> forall|q: int| 0 <= q < k ==> emails@[q]@ != e@,
            decreases emails.len() - k + if found { 0int } else { 1int },
        {
            if crate::text::text_eq(emails[k].as_str(), e.as_str()) {
                found = true;
            } else {
                k += 1;
            }
        }
        let ghost d = distinct_emails(pre);
        proof {
            lemma_distinct_unique(pre);
        }
        if found {
            assert(d[k as int] == e@);
            assert(d.contains(e@));
            assert(distinct_emails(cur) == d);
            proof {
                lemma_count_bound(cur, e@);
            }
            assert(names@[k as int]@ == first_name(pre, emails@[k as int]@));
            let c = counts[k];
            let ghost old_counts = counts@;
            counts.set(k, c + 1);
            assert forall|j: int| 0 <= j < emails.len() implies names@[j]@ == first_name(
                cur,
                emails@[j]@,
            ) && counts@[j] == email_count(cur, emails@[j]@) by {
                assert(names@[j]@ == first_name(pre, emails@[j]@));
                assert(d[j] == emails@[j]@);
                assert(d.contains(emails@[j]@));
                assert(first_name(cur, emails@[j]@) == first_name(pre, emails@[j]@));
                assert(email_count(cur, emails@[j]@) == email_count(pre, emails@[j]@) + if e@
                    == emails@[j]@ {
                    1nat
                } else {
                    0nat
                });
                if j != k {
                    assert(d[j] != d[k as int]);
                    assert(counts@[j] == old_counts[j]);
                }
            }
            assert(groups_match(emails@, names@, counts@, cur));
        } else {
            assert(!d.contains(e@)) by {
                if d.contains(e@) {
                    let q = choose|q: int| 0 <= q < d.len() && d[q] == e@;
                    assert(emails@[q]@ == d[q]);
                }
            }
            proof {
                lemma_absent_count(pre, e@);
            }
            let ghost old_emails = string_views(emails@);
            let ghost old_e = emails@;
            let ghost old_n = names@;
            let ghost old_c = counts@;
            emails.push(e.clone());
            names.push(commits[i].author_name.clone());
            counts.push(1);
            assert(string_views(emails@) =~= old_emails.push(e@));
            assert(distinct_emails(cur) == d.push(e@));
            assert forall|j: int| 0 <= j < emails.len() implies names@[j]@ == first_name(
                cur,
                emails@[j]@,
            ) && counts@[j] == email_count(cur, emails@[j]@) by {
                if j < emails.len() - 1 {
                    assert(emails@[j] == old_e[j] && names@[j] == old_n[j] && counts@[j] == old_c[j]);
                    assert(old_n[j]@ == first_name(pre, old_e[j]@));
                    assert(d[j] == emails@[j]@);
                    assert(d.contains(emails@[j]@));
                    assert(emails@[j]@ != e@);
                    assert(first_name(cur, emails@[j]@) == first_name(pre, emails@[j]@));
                } else {
                    assert(emails@[j]@ == e@);
                    assert(names@[j]@ == commits@[i as int].author_name@);
                }
            }
            assert(groups_match(emails@, names@, counts@, cur));
        }
        i += 1;
    }
    assert(commits@.take(i as int) =~= commits@);
    (emails, names, counts)
}

/// `s` with `x` inserted after every row with at least as many commits.
pub open spec fn insert_by_count(
    s: Seq<(Seq<char>, Seq<char>, nat)>,
    x: (Seq<char>, Seq<char>, nat),
) -> Seq<(Seq<char>, Seq<char>, nat)>
    decreases s.len(),
{
    if s.len() == 0 {
        seq![x]
    } else if s[0].2 >= x.2 {
        seq![s[0]] + insert_by_count(s.drop_first(), x)
    } else {
        seq![x] + s
    }
}

/// The rows sorted by commit count, most first, rows with equal counts kept
/// in their order (a stable sort).
pub open spec fn sort_by_count(rows: Seq<(Seq<char>, Seq<char>, nat)>) -> Seq<(Seq<char>, Seq<char>, nat)>
    decreases rows.len(),
{
    if rows.len() == 0 {
        seq![]
    } else {
        insert_by_count(sort_by_count(rows.drop_last()), rows.last())
    }
}

/// Inserting by count places the row at the first position whose row has
/// fewer commits.
proof fn lemma_insert_by_count_at(
    s: Seq<(Seq<char>, Seq<char>, nat)>,
    x: (Seq<char>, Seq<char>, nat),
    p: int,
)
    requires
        0 <= p <= s.len(),
        forall|q: int| 0 <= q < p ==> s[q].2 >= x.2,
        p < s.len() ==> s[p].2 < x.2,
    ensures
        insert_by_count(s, x) == s.insert(p, x),
    decreases s.len(),
{
    if s.len() == 0 {
        assert(s.insert(p, x) =~= seq![x]);
    } else if p == 0 {
        assert(s.insert(p, x) =~= seq![x] + s);
    } else {
        let t = s.drop_first();
        assert forall|q: int| 0 <= q < p - 1 implies t[q].2 >= x.2 by {
            assert(t[q] == s[q + 1]);
        }
        if p - 1 < t.len() {
            assert(t[p - 1] == s[p]);
        }
        lemma_insert_by_count_at(t, x, p - 1);
        assert(seq![s[0]] + t.insert(p - 1, x) =~= s.insert(p, x));
    }
}

/// A sequence of statistics rows is sorted by commit count, most first.
pub open spec fn by_count_desc(r: Seq<(Seq<char>, Seq<char>, nat)>) -> bool {
    forall|a: int, b: int| 0 <= a < b < r.len() ==> r[a].2 >= r[b].2
}

/// The contributors of the commits with their commit counts, most commits
/// first: one row per author email, with the name of the author's first
/// commit; rows with equal counts keep the order in which their emails first
/// appear among the commits.
pub fn get_contributors_with_stats(commits: &[CommitInfo]) -> (r: Vec<(String, String, usize)>)
    ensures
        row_views(r@) == sort_by_count(contributor_rows(commits@)),
        by_count_desc(row_views(r@)),
        row_views(r@).to_multiset() == contributor_rows(commits@).to_multiset(),
{
    let groups = group_authors(commits);
    let emails = groups.0;
    let names = groups.1;
    let counts = groups.2;
    let ghost rows = contributor_rows(commits@);
    let mut r: Vec<(String, String, usize)> = Vec::new();
    let mut i: usize = 0;
    broadcast use vstd::seq_lib::group_to_multiset_ensures;
    assert(rows.take(0) =~= seq![]);
    assert(row_views(r@) =~= seq![]);
    while i < emails.len()
        invariant
            i <= emails.len(),
            rows == contributor_rows(commits@),
            groups_match(emails@, names@, counts@, commits@),
            by_count_desc(row_views(r@)),
            row_views(r@).to_multiset() == rows.take(i as int).to_multiset(),
            row_views(r@) == sort_by_count(rows.take(i as int)),
        decreases emails.len() - i,
    {
        let n = counts[i];
        let mut p: usize = 0;
        while p < r.len() && r[p].2 >= n
            invariant
                p <= r.len(),
                forall|q: int| 0 <= q < p ==> r@[q].2 >= n,
            decreases r.len() - p,
        {
            p += 1;
        }
        let row = (emails[i].clone(), names[i].clone(), n);
        let ghost x = (row.0@, row.1@, n as nat);
        assert(x == rows[i as int]) by {
            assert(string_views(emails@)[i as int] == emails@[i as int]@);
            assert(names@[i as int]@ == first_name(commits@, emails@[i as int]@));
        }
        let ghost before = row_views(r@);
        assert(forall|q: int| 0 <= q < p ==> before[q].2 >= x.2);
        assert(p < before.len() ==> before[p as int].2 < x.2);
        r.insert(p, row);
        let ghost after = row_views(r@);
        assert(after =~= before.insert(p as int, x));
        assert forall|a: int, b: int| 0 <= a < b < after.len() implies after[a].2 >= after[b].2 by {
            if b < p {
            } else if a < p && b == p {
            } else if a < p && b > p {
                assert(after[b] == before[b - 1]);
            } else if a == p {
                assert(after[b] == before[b - 1]);
            } else {
                assert(after[a] == before[a - 1] && after[b] == before[b - 1]);
            }
        }
        proof {
            lemma_insert_by_count_at(before, x, p as int);
            assert(rows.take(i + 1).drop_last() =~= rows.take(i as int));
            assert(after.remove(p as int) =~= before);
            assert(rows.take(i + 1) =~= rows.take(i as int).push(rows[i as int]));
            crate::text::lemma_multiset_insert(after, p as int);
            assert(after[p as int] == x);
            rows.take(i as int).to_multiset_ensures();
        }
        i += 1;
    }
    assert(rows.len() == emails.len());
    assert(rows.take(i as int) =~= rows);
    r
}


// ---------------------------------------------------------------------------
// Links and contributor lines
// ---------------------------------------------------------------------------

/// The repository address without a trailing `.git`.
pub open spec fn clean_url(r: RepoView) -> Seq<char> {
    trim_end_matches(r.url, ".git"@)
}

/// The repository address without a trailing `.git`.
fn clean_url_text(info: &RepositoryInfo) -> (r: String)
    ensures
        r@ == clean_url(info@),
{
    proof {
        reveal_strlit(".git");
    }
    string_of(&trim_end_matches_exec(&chars_of(info.url.as_str()), &chars_of(".git")))
}

/// The page comparing two tags (GitHub and GitLab use `...`, Bitbucket
/// `..`); on another host, the commits up to `to`.
pub open spec fn compare_url(r: RepoView, from: Seq<char>, to: Seq<char>) -> Seq<char> {
    if r.is_github || r.is_gitlab {
        clean_url(r) + "/compare/"@ + from + "..."@ + to
    } else if r.is_bitbucket {
        clean_url(r) + "/compare/"@ + from + ".."@ + to
    } else {
        clean_url(r) + "/commits/"@ + to
    }
}

/// The page of the commits up to a tag.
pub open spec fn commits_url(r: RepoView, tag: Seq<char>) -> Seq<char> {
    clean_url(r) + "/commits/"@ + tag
}

/// The issues page.
pub open spec fn issues_url(r: RepoView) -> Seq<char> {
    clean_url(r) + "/issues"@
}

/// The page for opening an issue.
pub open spec fn new_issue_url(r: RepoView) -> Seq<char> {
    clean_url(r) + "/issues/new"@
}

/// The page comparing two tags.
pub fn generate_compare_url(repo_info: &RepositoryInfo, from_tag: &str, to_tag: &str) -> (r: String)
    ensures
        r@ == compare_url(repo_info@, from_tag@, to_tag@),
{
    let mut r = clean_url_text(repo_info);
    if repo_info.is_github || repo_info.is_gitlab {
        push_text(&mut r, "/compare/");
        push_text(&mut r, from_tag);
        push_text(&mut r, "...");
        push_text(&mut r, to_tag);
    } else if repo_info.is_bitbucket {
        push_text(&mut r, "/compare/");
        push_text(&mut r, from_tag);
        push_text(&mut r, "..");
        push_text(&mut r, to_tag);
    } else {
        push_text(&mut r, "/commits/");
        push_text(&mut r, to_tag);
    }
    r
}

/// The page of the commits up to a tag.
pub fn generate_commits_url(repo_info: &RepositoryInfo, tag: &str) -> (r: String)
    ensures
        r@ == commits_url(repo_info@, tag@),
{
    let mut r = clean_url_text(repo_info);
    push_text(&mut r, "/commits/");
    push_text(&mut r, tag);
    r
}

/// The issues page.
pub fn generate_issues_url(repo_info: &RepositoryInfo) -> (r: String)
    ensures
        r@ == issues_url(repo_info@),
{
    let mut r = clean_url_text(repo_info);
    push_text(&mut r, "/issues");
    r
}

/// The page for opening an issue.
pub fn generate_new_issue_url(repo_info: &RepositoryInfo) -> (r: String)
    ensures
        r@ == new_issue_url(repo_info@),
{
    let mut r = clean_url_text(repo_info);
    push_text(&mut r, "/issues/new");
    r
}

/// `1 commit`, or the number followed by `commits`.
pub open spec fn commits_text(n: nat) -> Seq<char> {
    if n == 1 {
        "1 commit"@
    } else {
        dec(n) + " commits"@
    }
}

/// The GitHub user of a no-reply address `id+user@users.noreply.github.com`:
/// the address without its domain, after its last `+`.
pub open spec fn noreply_user(email: Seq<char>) -> Seq<char> {
    split(replace(email, "@users.noreply.github.com"@, seq![]), seq!['+']).last()
}

/// The contributor line of an author: a link to the GitHub profile for a
/// GitHub no-reply address on GitHub, otherwise name and email; then the
/// number of commits.
pub open spec fn contributor_line(email: Seq<char>, name: Seq<char>, n: nat, r: RepoView) -> Seq<
    char,
> {
    if contains(email, "@users.noreply.github.com"@) && r.is_github {
        let u = noreply_user(email);
        "- [@"@ + u + "](https://github.com/"@ + u + ") ("@ + name + ") - "@ + commits_text(n)
    } else {
        "- "@ + name + " ("@ + email + ") - "@ + commits_text(n)
    }
}

/// The contributor line of an author with `commit_count` commits.
pub fn format_github_username_with_stats(
    email: &str,
    name: &str,
    commit_count: usize,
    repo_info: &RepositoryInfo,
) -> (r: String)
    ensures
        r@ == contributor_line(email@, name@, commit_count as nat, repo_info@),
{
    let mut ct = String::new();
    if commit_count == 1 {
        push_text(&mut ct, "1 commit");
    } else {
        push_dec(&mut ct, commit_count as u64);
        push_text(&mut ct, " commits");
    }
    assert(ct@ =~= commits_text(commit_count as nat));
    let mut r = String::new();
    if text_contains(email, "@users.noreply.github.com") && repo_info.is_github {
        proof {
            reveal_strlit("@users.noreply.github.com");
            lemma_split_nonempty(
                replace(email@, "@users.noreply.github.com"@, seq![]),
                seq!['+'],
            );
        }
        let none: Vec<char> = Vec::new();
        assert(none@ =~= Seq::<char>::empty());
        let plus = vec!['+'];
        assert(plus@ =~= seq!['+']);
        let bare = replace_exec(&chars_of(email), &chars_of("@users.noreply.github.com"), &none);
        let parts = split_exec(&bare, &plus);
        assert(views(parts@).len() == parts@.len());
        let u = string_of(&parts[parts.len() - 1]);
        push_text(&mut r, "- [@");
        push_text(&mut r, u.as_str());
        push_text(&mut r, "](https://github.com/");
        push_text(&mut r, u.as_str());
        push_text(&mut r, ") (");
        push_text(&mut r, name);
        push_text(&mut r, ") - ");
        push_text(&mut r, ct.as_str());
    } else {
        push_text(&mut r, "- ");
        push_text(&mut r, name);
        push_text(&mut r, " (");
        push_text(&mut r, email);
        push_text(&mut r, ") - ");
        push_text(&mut r, ct.as_str());
    }
    r
}


// ---------------------------------------------------------------------------
// The release notes document
// ---------------------------------------------------------------------------

/// A Markdown list: each item on a line of its own after `- `.
pub open spec fn bullets(items: Seq<Seq<char>>) -> Seq<char>
    decreases items.len(),
{
    if items.len() == 0 {
        seq![]
    } else {
        bullets(items.drop_last()) + "- "@ + items.last() + "\n"@
    }
}

/// A section of entries: nothing when there are none, otherwise the title,
/// the introduction, the list and a blank line.
pub open spec fn section(title: Seq<char>, intro: Seq<char>, items: Seq<Seq<char>>) -> Seq<char> {
    if items.len() == 0 {
        seq![]
    } else {
        title + "\n\n"@ + intro + bullets(items) + "\n"@
    }
}

/// Appends a Markdown list of the items.
fn push_bullets(out: &mut String, items: &Vec<String>)
    ensures
        final(out)@ == old(out)@ + bullets(string_views(items@)),
{
    let ghost start = out@;
    let ghost v = string_views(items@);
    let mut i: usize = 0;
    assert(v.take(0) =~= seq![]);
    assert(out@ =~= start + bullets(v.take(0)));
    while i < items.len()
        invariant
            i <= items.len(),
            v == string_views(items@),
            out@ == start + bullets(v.take(i as int)),
        decreases items.len() - i,
    {
        assert(v.take(i + 1).drop_last() =~= v.take(i as int));
        assert(v.take(i + 1).last() == items@[i as int]@);
        push_text(out, "- ");
        push_text(out, items[i].as_str());
        push_text(out, "\n");
        assert(out@ =~= start + bullets(v.take(i + 1)));
        i += 1;
    }
    assert(v.take(i as int) =~= v);
}

/// Appends a section of entries.
fn push_section(out: &mut String, title: &str, intro: &str, items: &Vec<String>)
    ensures
        final(out)@ == old(out)@ + section(title@, intro@, string_views(items@)),
{
    if items.len() == 0 {
        assert(string_views(items@).len() == 0);
        assert(out@ =~= out@ + Seq::<char>::empty());
        return;
    }
    let ghost start = out@;
    push_text(out, title);
    push_text(out, "\n\n");
    push_text(out, intro);
    push_bullets(out, items);
    push_text(out, "\n");
    assert(out@ =~= start + section(title@, intro@, string_views(items@)));
}

/// The sections of categorised entries, in the order of the document:
/// breaking changes, security, features, fixes, improvements, translations,
/// documentation, dependencies, and other changes when there are at most
/// ten of them.
pub open spec fn category_sections(cs: Seq<CommitInfo>) -> Seq<char> {
    let others = entries_in(cs, 8);
    section(
        "## ⚠️ Breaking Changes"@,
        "🚨 **Important:** This release contains breaking changes. Please review the migration guide before upgrading.\n\n"@,
        entries_in(cs, 0),
    ) + section(
        "## 🔒 Security Updates"@,
        "🛡️ **Security patches included in this release:**\n\n"@,
        entries_in(cs, 1),
    ) + section("## ✨ New Features"@, ""@, entries_in(cs, 2)) + section(
        "## 🐛 Bug Fixes"@,
        ""@,
        entries_in(cs, 3),
    ) + section("## 🔧 Improvements"@, ""@, entries_in(cs, 5)) + section(
        "## 🌍 Translation Updates"@,
        ""@,
        entries_in(cs, 7),
    ) + section("## 📚 Documentation"@, ""@, entries_in(cs, 4)) + section(
        "## 📦 Dependencies"@,
        ""@,
        entries_in(cs, 6),
    ) + if others.len() <= 10 {
        section("## 🔄 Other Changes"@, ""@, others)
    } else {
        seq![]
    }
}

/// Appending in two steps appends the concatenation.
pub proof fn lemma_append_step(start: Seq<char>, acc: Seq<char>, x: Seq<char>)
    ensures
        start + acc + x == start + (acc + x),
{
    assert(start + acc + x =~= start + (acc + x));
}

/// Appends the sections of categorised entries.
#[verifier::rlimit(30)]
fn push_category_sections(out: &mut String, commits: &[CommitInfo])
    requires
        hashes_cuttable(commits@),
    ensures
        final(out)@ == old(out)@ + category_sections(commits@),
{
    let ghost start = out@;
    let c = categorize_commits(commits);
    let ghost cs = commits@;
    assert(c.list(0) == entries_in(cs, 0));
    assert(c.list(1) == entries_in(cs, 1));
    assert(c.list(2) == entries_in(cs, 2));
    assert(c.list(3) == entries_in(cs, 3));
    assert(c.list(4) == entries_in(cs, 4));
    assert(c.list(5) == entries_in(cs, 5));
    assert(c.list(6) == entries_in(cs, 6));
    assert(c.list(7) == entries_in(cs, 7));
    assert(c.list(8) == entries_in(cs, 8));
    push_section(
        out,
        "## ⚠️ Breaking Changes",
        "🚨 **Important:** This release contains breaking changes. Please review the migration guide before upgrading.\n\n",
        &c.breaking_changes,
    );
    let ghost mut acc = section(
        "## ⚠️ Breaking Changes"@,
        "🚨 **Important:** This release contains breaking changes. Please review the migration guide before upgrading.\n\n"@,
        entries_in(cs, 0),
    );
    push_section(
        out,
        "## 🔒 Security Updates",
        "🛡️ **Security patches included in this release:**\n\n",
        &c.security,
    );
    proof {
        let x = section(
            "## 🔒 Security Updates"@,
            "🛡️ **Security patches included in this release:**\n\n"@,
            entries_in(cs, 1),
        );
        lemma_append_step(start, acc, x);
        acc = acc + x;
    }
    push_section(out, "## ✨ New Features", "", &c.features);
    proof {
        let x = section("## ✨ New Features"@, ""@, entries_in(cs, 2));
        lemma_append_step(start, acc, x);
        acc = acc + x;
    }
    push_section(out, "## 🐛 Bug Fixes", "", &c.fixes);
    proof {
        let x = section("## 🐛 Bug Fixes"@, ""@, entries_in(cs, 3));
        lemma_append_step(start, acc, x);
        acc = acc + x;
    }
    push_section(out, "## 🔧 Improvements", "", &c.improvements);
    proof {
        let x = section("## 🔧 Improvements"@, ""@, entries_in(cs, 5));
        lemma_append_step(start, acc, x);
        acc = acc + x;
    }
    push_section(out, "## 🌍 Translation Updates", "", &c.translations);
    proof {
        let x = section("## 🌍 Translation Updates"@, ""@, entries_in(cs, 7));
        lemma_append_step(start, acc, x);
        acc = acc + x;
    }
    push_section(out, "## 📚 Documentation", "", &c.docs);
    proof {
        let x = section("## 📚 Documentation"@, ""@, entries_in(cs, 4));
        lemma_append_step(start, acc, x);
        acc = acc + x;
    }
    push_section(out, "## 📦 Dependencies", "", &c.deps);
    proof {
        let x = section("## 📦 Dependencies"@, ""@, entries_in(cs, 6));
        lemma_append_step(start, acc, x);
        acc = acc + x;
    }
    let ghost others = entries_in(cs, 8);
    if c.others.len() <= 10 {
        push_section(out, "## 🔄 Other Changes", "", &c.others);
    } else {
        assert(out@ =~= out@ + Seq::<char>::empty());
    }
    proof {
        let x = if others.len() <= 10 {
            section("## 🔄 Other Changes"@, ""@, others)
        } else {
            seq![]
        };
        lemma_append_step(start, acc, x);
        acc = acc + x;
    }
}

/// The heading: the release tag and what it is compared with.
pub open spec fn notes_heading(tag: Seq<char>, previous: Option<Seq<char>>) -> Seq<char> {
    "# Release "@ + tag + "\n\n"@ + "## 📋 "@ + match previous {
        Some(p) => "Changes since "@ + p,
        None => "Initial release"@,
    } + "\n\n"@
}

/// Release date, repository, number of commits and, when there are commits,
/// the dates of the oldest (last) and newest (first) of them.
pub open spec fn notes_stats(r: RepoView, cs: Seq<CommitInfo>, date: Seq<char>) -> Seq<char> {
    "- **Release Date:** "@ + date + "\n"@ + "- **Repository:** "@ + clean_url(r) + "\n"@
        + "- **Total Commits:** "@ + dec(cs.len()) + "\n"@ + if cs.len() > 0 {
        "- **Commit Range:** "@ + date_or_unknown(cs.last().timestamp, "%Y-%m-%d"@) + " to "@
            + date_or_unknown(cs[0].timestamp, "%Y-%m-%d"@) + "\n"@
    } else {
        seq![]
    } + "\n"@
}

/// The warning shown for a pre-release tag.
pub open spec fn prerelease_warning(tag: Seq<char>) -> Seq<char> {
    if prerelease_tag(tag) {
        "🚨 **This is a pre-release version** - Use with caution in production environments.\n\n"@
    } else {
        seq![]
    }
}

/// Appends the heading.
fn push_heading(out: &mut String, current_tag: &str, previous_tag: &Option<String>)
    ensures
        final(out)@ == old(out)@ + notes_heading(current_tag@, opt_view(*previous_tag)),
{
    let ghost start = out@;
    let mut h = copy_text("# Release ");
    push_text(&mut h, current_tag);
    push_text(&mut h, "\n\n");
    push_text(&mut h, "## 📋 ");
    let mut cmp_text = String::new();
    match previous_tag {
        Some(p) => {
            push_text(&mut cmp_text, "Changes since ");
            push_text(&mut cmp_text, p.as_str());
        },
        None => push_text(&mut cmp_text, "Initial release"),
    }
    assert(cmp_text@ =~= match opt_view(*previous_tag) {
        Some(p) => "Changes since "@ + p,
        None => "Initial release"@,
    });
    push_text(&mut h, cmp_text.as_str());
    push_text(&mut h, "\n\n");
    assert(h@ =~= notes_heading(current_tag@, opt_view(*previous_tag)));
    push_text(out, h.as_str());
}

/// The commit date range line of the statistics.
pub open spec fn range_line(cs: Seq<CommitInfo>) -> Seq<char> {
    if cs.len() > 0 {
        "- **Commit Range:** "@ + date_or_unknown(cs.last().timestamp, "%Y-%m-%d"@) + " to "@
            + date_or_unknown(cs[0].timestamp, "%Y-%m-%d"@) + "\n"@
    } else {
        seq![]
    }
}

/// Appends the commit date range line.
fn push_range_line(out: &mut String, commits: &[CommitInfo])
    ensures
        final(out)@ == old(out)@ + range_line(commits@),
{
    let mut l = String::new();
    if commits.len() > 0 {
        push_text(&mut l, "- **Commit Range:** ");
        let oldest = commits[commits.len() - 1].format_date();
        push_text(&mut l, oldest.as_str());
        push_text(&mut l, " to ");
        let newest = commits[0].format_date();
        push_text(&mut l, newest.as_str());
        push_text(&mut l, "\n");
    }
    assert(l@ =~= range_line(commits@));
    push_text(out, l.as_str());
}

/// Appends the statistics.
fn push_stats(out: &mut String, repo_info: &RepositoryInfo, commits: &[CommitInfo], release_date: &str)
    ensures
        final(out)@ == old(out)@ + notes_stats(repo_info@, commits@, release_date@),
{
    let mut t = copy_text("- **Release Date:** ");
    push_text(&mut t, release_date);
    push_text(&mut t, "\n");
    push_text(&mut t, "- **Repository:** ");
    let clean = clean_url_text(repo_info);
    push_text(&mut t, clean.as_str());
    push_text(&mut t, "\n");
    push_text(&mut t, "- **Total Commits:** ");
    push_dec(&mut t, commits.len() as u64);
    push_text(&mut t, "\n");
    let ghost before_range = t@;
    push_range_line(&mut t, commits);
    push_text(&mut t, "\n");
    assert(t@ =~= notes_stats(repo_info@, commits@, release_date@));
    push_text(out, t.as_str());
}

/// Appends the pre-release warning.
fn push_prerelease_warning(out: &mut String, current_tag: &str)
    ensures
        final(out)@ == old(out)@ + prerelease_warning(current_tag@),
{
    if is_prerelease(current_tag) {
        push_text(
            out,
            "🚨 **This is a pre-release version** - Use with caution in production environments.\n\n",
        );
    } else {
        assert(out@ =~= out@ + Seq::<char>::empty());
    }
}

/// The contributor lines of the sorted statistics rows.
pub open spec fn contributor_lines(rows: Seq<(Seq<char>, Seq<char>, nat)>, r: RepoView) -> Seq<
    char,
>
    decreases rows.len(),
{
    if rows.len() == 0 {
        seq![]
    } else {
        contributor_lines(rows.drop_last(), r) + contributor_line(
            rows.last().0,
            rows.last().1,
            rows.last().2,
            r,
        ) + "\n"@
    }
}

/// The contributors section: nothing without commits, otherwise the
/// contributors sorted by their number of commits.
pub open spec fn contributors_section(cs: Seq<CommitInfo>, r: RepoView) -> Seq<char> {
    let rows = sort_by_count(contributor_rows(cs));
    if rows.len() == 0 {
        seq![]
    } else {
        "## 👥 Contributors\n\n"@
            + "Thanks to all the contributors who made this release possible:\n\n"@
            + contributor_lines(rows, r) + "\n"@
    }
}

/// Appends the contributors section.
fn push_contributors(out: &mut String, commits: &[CommitInfo], repo_info: &RepositoryInfo)
    ensures
        final(out)@ == old(out)@ + contributors_section(commits@, repo_info@),
{
    let ghost start = out@;
    let rows = get_contributors_with_stats(commits);
    let ghost rv = row_views(rows@);
    if rows.len() == 0 {
        assert(rv.len() == 0);
        assert(out@ =~= start + contributors_section(commits@, repo_info@));
        return;
    }
    push_text(out, "## 👥 Contributors\n\n");
    push_text(out, "Thanks to all the contributors who made this release possible:\n\n");
    let ghost body = out@;
    let mut i: usize = 0;
    assert(rv.take(0) =~= seq![]);
    assert(out@ =~= body + contributor_lines(rv.take(0), repo_info@));
    while i < rows.len()
        invariant
            i <= rows.len(),
            rv == row_views(rows@),
            out@ == body + contributor_lines(rv.take(i as int), repo_info@),
        decreases rows.len() - i,
    {
        assert(rv.take(i + 1).drop_last() =~= rv.take(i as int));
        assert(rv.take(i + 1).last() == rv[i as int]);
        let line = format_github_username_with_stats(
            rows[i].0.as_str(),
            rows[i].1.as_str(),
            rows[i].2,
            repo_info,
        );
        push_text(out, line.as_str());
        push_text(out, "\n");
        assert(out@ =~= body + contributor_lines(rv.take(i + 1), repo_info@));
        i += 1;
    }
    assert(rv.take(i as int) =~= rv);
    push_text(out, "\n");
    assert(out@ =~= start + contributors_section(commits@, repo_info@));
}


/// The kind of project, guessed from the repository name (lowercase) and
/// address: 0 Rust, 1 Node.js, 2 Python, 3 other.
pub open spec fn project_kind(r: RepoView) -> nat {
    let n = lowercase_of(r.name);
    if contains(n, "rust"@) || contains(r.url, "rust"@) {
        0
    } else if contains(n, "node"@) || contains(r.url, "node"@) || contains(n, "js"@) {
        1
    } else if contains(n, "python"@) || contains(r.url, "python"@) {
        2
    } else {
        3
    }
}

/// The kind of project of the repository.
fn project_kind_of(repo_info: &RepositoryInfo) -> (k: u8)
    ensures
        k == project_kind(repo_info@),
{
    let n = to_lowercase(repo_info.name.as_str());
    let u = repo_info.url.as_str();
    if text_contains(n.as_str(), "rust") || text_contains(u, "rust") {
        0
    } else if text_contains(n.as_str(), "node") || text_contains(u, "node") || text_contains(
        n.as_str(),
        "js",
    ) {
        1
    } else if text_contains(n.as_str(), "python") || text_contains(u, "python") {
        2
    } else {
        3
    }
}

/// The build commands for a new checkout of a project of kind `k`.
pub open spec fn build_steps(k: nat) -> Seq<char> {
    if k == 0 {
        "cargo build --release\n"@
    } else if k == 1 {
        "npm install\n"@ + "npm run build\n"@
    } else if k == 2 {
        "pip install -r requirements.txt\n"@
    } else {
        "# Follow project-specific build instructions\n"@
    }
}

/// The update commands for an existing checkout of a project of kind `k`.
pub open spec fn update_steps(k: nat) -> Seq<char> {
    if k == 0 {
        "cargo update\n"@ + "cargo build --release\n"@
    } else if k == 1 {
        "npm update\n"@ + "npm run build\n"@
    } else if k == 2 {
        "pip install --upgrade -r requirements.txt\n"@
    } else {
        "# Follow project-specific update instructions\n"@
    }
}

/// The instructions for new projects.
pub open spec fn new_project_steps(r: RepoView, tag: Seq<char>) -> Seq<char> {
    "## 🚀 Installation & Upgrade\n\n"@ + "### For new projects:\n"@ + "```bash\n"@ + "git clone "@
        + r.url + "\n"@ + "cd "@ + r.name + "\n"@ + "git checkout "@ + tag + "\n"@ + build_steps(
        project_kind(r),
    ) + "```\n\n"@
}

/// The instructions for existing projects.
pub open spec fn existing_project_steps(r: RepoView, tag: Seq<char>) -> Seq<char> {
    "### For existing projects:\n"@ + "```bash\n"@ + "git pull origin main\n"@ + "git checkout "@
        + tag + "\n"@ + update_steps(project_kind(r)) + "```\n\n"@
}

/// Appends the instructions for new and existing projects.
fn push_install(out: &mut String, repo_info: &RepositoryInfo, current_tag: &str)
    ensures
        final(out)@ == old(out)@ + new_project_steps(repo_info@, current_tag@)
            + existing_project_steps(repo_info@, current_tag@),
{
    let k = project_kind_of(repo_info);
    let mut b = String::new();
    let mut u = String::new();
    if k == 0 {
        push_text(&mut b, "cargo build --release\n");
        push_text(&mut u, "cargo update\n");
        push_text(&mut u, "cargo build --release\n");
    } else if k == 1 {
        push_text(&mut b, "npm install\n");
        push_text(&mut b, "npm run build\n");
        push_text(&mut u, "npm update\n");
        push_text(&mut u, "npm run build\n");
    } else if k == 2 {
        push_text(&mut b, "pip install -r requirements.txt\n");
        push_text(&mut u, "pip install --upgrade -r requirements.txt\n");
    } else {
        push_text(&mut b, "# Follow project-specific build instructions\n");
        push_text(&mut u, "# Follow project-specific update instructions\n");
    }
    assert(b@ =~= build_steps(k as nat));
    assert(u@ =~= update_steps(k as nat));
    let mut n = copy_text("## 🚀 Installation & Upgrade\n\n");
    push_text(&mut n, "### For new projects:\n");
    push_text(&mut n, "```bash\n");
    push_text(&mut n, "git clone ");
    push_text(&mut n, repo_info.url.as_str());
    push_text(&mut n, "\n");
    push_text(&mut n, "cd ");
    push_text(&mut n, repo_info.name.as_str());
    push_text(&mut n, "\n");
    push_text(&mut n, "git checkout ");
    push_text(&mut n, current_tag);
    push_text(&mut n, "\n");
    push_text(&mut n, b.as_str());
    push_text(&mut n, "```\n\n");
    assert(n@ =~= new_project_steps(repo_info@, current_tag@));
    let mut e = copy_text("### For existing projects:\n");
    push_text(&mut e, "```bash\n");
    push_text(&mut e, "git pull origin main\n");
    push_text(&mut e, "git checkout ");
    push_text(&mut e, current_tag);
    push_text(&mut e, "\n");
    push_text(&mut e, u.as_str());
    push_text(&mut e, "```\n\n");
    assert(e@ =~= existing_project_steps(repo_info@, current_tag@));
    push_text(out, n.as_str());
    push_text(out, e.as_str());
}

/// The first `n` characters of `s` (all of it when shorter).
pub open spec fn first_chars(s: Seq<char>, n: nat) -> Seq<char> {
    if s.len() <= n {
        s
    } else {
        s.take(n as int)
    }
}

/// The message column of the timeline: the first line, cut to fifty
/// characters and marked with `...` when it is longer than fifty bytes.
pub open spec fn short_message(msg: Seq<char>) -> Seq<char> {
    let fl = crate::text::first_line(msg);
    if utf8_len(fl) > 50 {
        first_chars(fl, 50) + "..."@
    } else {
        first_chars(fl, 50)
    }
}

/// One row of the timeline table: date, time, short hash, author, message.
pub open spec fn timeline_row(c: CommitInfo) -> Seq<char> {
    "| "@ + date_or_unknown(c.timestamp, "%Y-%m-%d"@) + " | "@ + date_or_unknown(
        c.timestamp,
        "%H:%M"@,
    ) + " | `"@ + short_hash_of(c.hash@) + "` | "@ + c.author_name@ + " | "@ + short_message(
        c.message@,
    ) + " |\n"@
}

/// The timeline rows of the commits, in order.
pub open spec fn timeline_rows(cs: Seq<CommitInfo>) -> Seq<char>
    decreases cs.len(),
{
    if cs.len() == 0 {
        seq![]
    } else {
        timeline_rows(cs.drop_last()) + timeline_row(cs.last())
    }
}

/// The timeline table, for releases of at most twenty commits.
pub open spec fn timeline_section(cs: Seq<CommitInfo>) -> Seq<char> {
    if cs.len() <= 20 {
        "## 📊 Detailed Timeline\n\n"@ + "| Date | Time | Commit | Author | Message |\n"@
            + "|------|------|--------|--------|---------|\n"@ + timeline_rows(cs) + "\n"@
    } else {
        seq![]
    }
}

/// The message column of the timeline.
fn short_message_text(msg: &str) -> (r: String)
    ensures
        r@ == short_message(msg@),
{
    let fl = crate::text::first_line_exec(&chars_of(msg));
    let cut = if fl.len() <= 50 {
        crate::text::slice_chars(&fl, 0, fl.len())
    } else {
        crate::text::slice_chars(&fl, 0, 50)
    };
    assert(cut@ =~= first_chars(fl@, 50));
    let mut r = string_of(&cut);
    if utf8_len_exec(&fl) > 50 {
        push_text(&mut r, "...");
    }
    r
}

/// One row of the timeline table.
fn timeline_row_text(c: &CommitInfo) -> (r: String)
    requires
        hash_cuttable(c.hash@),
    ensures
        r@ == timeline_row(*c),
{
    let mut r = copy_text("| ");
    let d = c.format_date();
    push_text(&mut r, d.as_str());
    push_text(&mut r, " | ");
    let t = c.format_time();
    push_text(&mut r, t.as_str());
    push_text(&mut r, " | `");
    let h = c.short_hash();
    push_text(&mut r, h.as_str());
    push_text(&mut r, "` | ");
    push_text(&mut r, c.author_name.as_str());
    push_text(&mut r, " | ");
    let m = short_message_text(c.message.as_str());
    push_text(&mut r, m.as_str());
    push_text(&mut r, " |\n");
    assert(r@ =~= timeline_row(*c));
    r
}

/// Appends the timeline table.
fn push_timeline(out: &mut String, commits: &[CommitInfo])
    requires
        hashes_cuttable(commits@),
    ensures
        final(out)@ == old(out)@ + timeline_section(commits@),
{
    if commits.len() > 20 {
        assert(out@ =~= out@ + Seq::<char>::empty());
        return;
    }
    let mut t = copy_text("## 📊 Detailed Timeline\n\n");
    push_text(&mut t, "| Date | Time | Commit | Author | Message |\n");
    push_text(&mut t, "|------|------|--------|--------|---------|\n");
    let ghost head = t@;
    let mut i: usize = 0;
    assert(commits@.take(0) =~= seq![]);
    assert(t@ =~= head + timeline_rows(commits@.take(0)));
    while i < commits.len()
        invariant
            i <= commits.len(),
            hashes_cuttable(commits@),
            t@ == head + timeline_rows(commits@.take(i as int)),
        decreases commits.len() - i,
    {
        assert(commits@.take(i + 1).drop_last() =~= commits@.take(i as int));
        assert(commits@.take(i + 1).last() == commits@[i as int]);
        assert(hash_cuttable(commits@[i as int].hash@));
        let row = timeline_row_text(&commits[i]);
        push_text(&mut t, row.as_str());
        assert(t@ =~= head + timeline_rows(commits@.take(i + 1)));
        i += 1;
    }
    assert(commits@.take(i as int) =~= commits@);
    push_text(&mut t, "\n");
    assert(t@ =~= timeline_section(commits@));
    push_text(out, t.as_str());
}

/// The full changelog link: the comparison with the previous tag, or the
/// commits up to this one.
pub open spec fn changelog_section(r: RepoView, tag: Seq<char>, previous: Option<Seq<char>>) -> Seq<
    char,
> {
    "## 📝 Full Changelog\n\n"@ + "**Full Changelog**: "@ + match previous {
        Some(p) => compare_url(r, p, tag),
        None => commits_url(r, tag),
    } + "\n"@ + "\n"@
}

/// Links to documentation, discussions (on GitHub) and issues.
pub open spec fn links_section(r: RepoView) -> Seq<char> {
    "---\n\n"@ + "### 🔗 Useful Links\n\n"@ + "- 📖 **Documentation**: [README.md]("@ + clean_url(r)
        + "#readme)\n"@ + if r.is_github {
        "- 💬 **Discussions**: [GitHub Discussions]("@ + clean_url(r) + "/discussions)\n"@
    } else {
        seq![]
    } + "- 🐛 **Report Issues**: [Issues]("@ + issues_url(r) + ")\n"@ + "\n"@
}

/// Where to get help.
pub open spec fn help_section(r: RepoView) -> Seq<char> {
    "### 🆘 Getting Help\n\n"@ + "If you encounter any issues with this release:\n\n"@
        + "1. Check the project documentation and README\n"@ + "2. Search [existing issues]("@
        + issues_url(r) + ")\n"@ + "3. Create a [new issue]("@ + new_issue_url(r)
        + ") with detailed information\n"@ + "\n"@
}

/// The closing line.
pub open spec fn footer(r: RepoView) -> Seq<char> {
    "---\n\n"@ + "**Enjoy building with "@ + r.name + "! 🚀**\n"@
}

/// Appends the changelog link.
fn push_changelog(
    out: &mut String,
    repo_info: &RepositoryInfo,
    current_tag: &str,
    previous_tag: &Option<String>,
)
    ensures
        final(out)@ == old(out)@ + changelog_section(
            repo_info@,
            current_tag@,
            opt_view(*previous_tag),
        ),
{
    let mut t = copy_text("## 📝 Full Changelog\n\n");
    push_text(&mut t, "**Full Changelog**: ");
    let link = match previous_tag {
        Some(p) => generate_compare_url(repo_info, p.as_str(), current_tag),
        None => generate_commits_url(repo_info, current_tag),
    };
    push_text(&mut t, link.as_str());
    push_text(&mut t, "\n");
    push_text(&mut t, "\n");
    assert(t@ =~= changelog_section(repo_info@, current_tag@, opt_view(*previous_tag)));
    push_text(out, t.as_str());
}

/// Appends the links, the help and the closing line.
fn push_closing(out: &mut String, repo_info: &RepositoryInfo)
    ensures
        final(out)@ == old(out)@ + links_section(repo_info@) + help_section(repo_info@) + footer(
            repo_info@,
        ),
{
    let clean = clean_url_text(repo_info);
    let issues = generate_issues_url(repo_info);
    let mut l = copy_text("---\n\n");
    push_text(&mut l, "### 🔗 Useful Links\n\n");
    push_text(&mut l, "- 📖 **Documentation**: [README.md](");
    push_text(&mut l, clean.as_str());
    push_text(&mut l, "#readme)\n");
    let mut d = String::new();
    if repo_info.is_github {
        push_text(&mut d, "- 💬 **Discussions**: [GitHub Discussions](");
        push_text(&mut d, clean.as_str());
        push_text(&mut d, "/discussions)\n");
    }
    push_text(&mut l, d.as_str());
    push_text(&mut l, "- 🐛 **Report Issues**: [Issues](");
    push_text(&mut l, issues.as_str());
    push_text(&mut l, ")\n");
    push_text(&mut l, "\n");
    assert(l@ =~= links_section(repo_info@));
    let mut h = copy_text("### 🆘 Getting Help\n\n");
    push_text(&mut h, "If you encounter any issues with this release:\n\n");
    push_text(&mut h, "1. Check the project documentation and README\n");
    push_text(&mut h, "2. Search [existing issues](");
    push_text(&mut h, issues.as_str());
    push_text(&mut h, ")\n");
    push_text(&mut h, "3. Create a [new issue](");
    let new_issue = generate_new_issue_url(repo_info);
    push_text(&mut h, new_issue.as_str());
    push_text(&mut h, ") with detailed information\n");
    push_text(&mut h, "\n");
    assert(h@ =~= help_section(repo_info@));
    let mut f = copy_text("---\n\n");
    push_text(&mut f, "**Enjoy building with ");
    push_text(&mut f, repo_info.name.as_str());
    push_text(&mut f, "! 🚀**\n");
    assert(f@ =~= footer(repo_info@));
    push_text(out, l.as_str());
    push_text(out, h.as_str());
    push_text(out, f.as_str());
}

/// The release notes document: heading, statistics, pre-release warning,
/// categorised changes, contributors, installation, timeline, changelog
/// link, useful links, help and closing line.
pub open spec fn notes_doc(
    r: RepoView,
    tag: Seq<char>,
    previous: Option<Seq<char>>,
    cs: Seq<CommitInfo>,
    date: Seq<char>,
) -> Seq<char> {
    notes_heading(tag, previous) + notes_stats(r, cs, date) + prerelease_warning(tag)
        + category_sections(cs) + contributors_section(cs, r) + new_project_steps(r, tag)
        + existing_project_steps(r, tag) + timeline_section(cs) + changelog_section(
        r,
        tag,
        previous,
    ) + links_section(r) + help_section(r) + footer(r)
}

/// The release notes for `current_tag`, released on `release_date`.
pub fn release_notes_text(
    repo_info: &RepositoryInfo,
    current_tag: &str,
    previous_tag: &Option<String>,
    commits: &[CommitInfo],
    release_date: &str,
) -> (r: String)
    requires
        hashes_cuttable(commits@),
    ensures
        r@ == notes_doc(
            repo_info@,
            current_tag@,
            opt_view(*previous_tag),
            commits@,
            release_date@,
        ),
{
    let mut out = String::new();
    push_heading(&mut out, current_tag, previous_tag);
    let ghost mut acc = notes_heading(current_tag@, opt_view(*previous_tag));
    assert(out@ =~= acc);
    push_stats(&mut out, repo_info, commits, release_date);
    proof {
        acc = acc + notes_stats(repo_info@, commits@, release_date@);
    }
    push_prerelease_warning(&mut out, current_tag);
    proof {
        acc = acc + prerelease_warning(current_tag@);
    }
    push_category_sections(&mut out, commits);
    proof {
        acc = acc + category_sections(commits@);
    }
    push_contributors(&mut out, commits, repo_info);
    proof {
        acc = acc + contributors_section(commits@, repo_info@);
    }
    push_install(&mut out, repo_info, current_tag);
    proof {
        acc = acc + new_project_steps(repo_info@, current_tag@) + existing_project_steps(
            repo_info@,
            current_tag@,
        );
    }
    push_timeline(&mut out, commits);
    proof {
        acc = acc + timeline_section(commits@);
    }
    push_changelog(&mut out, repo_info, current_tag, previous_tag);
    proof {
        acc = acc + changelog_section(repo_info@, current_tag@, opt_view(*previous_tag));
    }
    push_closing(&mut out, repo_info);
    proof {
        acc = acc + links_section(repo_info@) + help_section(repo_info@) + footer(repo_info@);
    }
    out
}

/// The release notes for `current_tag`, released today: the document of
/// `release_notes_text` for the UTC date (`%Y-%m-%d`) of some timestamp
/// (the clock gives it).
pub fn generate_comprehensive_release_notes(
    repo_info: &RepositoryInfo,
    current_tag: &str,
    previous_tag: &Option<String>,
    commits: &[CommitInfo],
) -> (r: String)
    requires
        hashes_cuttable(commits@),
    ensures
        exists|t: i64, date: Seq<char>|
            #[trigger] utc_formatted(t, "%Y-%m-%d"@) == Some(date) && r@ == #[trigger] notes_doc(
                repo_info@,
                current_tag@,
                opt_view(*previous_tag),
                commits@,
                date,
            ),
{
    proof {
        reveal_strlit("%Y-%m-%d");
    }
    let today = utc_now_text("%Y-%m-%d");
    release_notes_text(repo_info, current_tag, previous_tag, commits, today.as_str())
}

/// The file the release notes of a tag are written to.
pub open spec fn notes_file_name(tag: Seq<char>) -> Seq<char> {
    "RELEASE_NOTES_"@ + replace(tag, seq!['/'], seq!['_']) + ".md"@
}

/// The file the release notes of a tag are written to:
/// `RELEASE_NOTES_<tag>.md`, with `/` in the tag replaced by `_`.
pub fn release_notes_file_name(tag: &str) -> (r: String)
    ensures
        r@ == notes_file_name(tag@),
{
    let slash = vec!['/'];
    let under = vec!['_'];
    assert(slash@ =~= seq!['/']);
    assert(under@ =~= seq!['_']);
    let mut r = copy_text("RELEASE_NOTES_");
    push_chars(&mut r, &replace_exec(&chars_of(tag), &slash, &under));
    push_text(&mut r, ".md");
    r
}


// ---------------------------------------------------------------------------
// Laws
// ---------------------------------------------------------------------------

/// Number of entries over all nine categories.
pub open spec fn entries_total(cs: Seq<CommitInfo>) -> nat {
    entries_in(cs, 0).len() + entries_in(cs, 1).len() + entries_in(cs, 2).len() + entries_in(
        cs,
        3,
    ).len() + entries_in(cs, 4).len() + entries_in(cs, 5).len() + entries_in(cs, 6).len()
        + entries_in(cs, 7).len() + entries_in(cs, 8).len()
}

/// Every commit is listed in exactly one category: the categories together
/// hold as many entries as there are commits.
pub proof fn lemma_categories_cover(cs: Seq<CommitInfo>)
    ensures
        entries_total(cs) == cs.len(),
    decreases cs.len(),
{
    if cs.len() > 0 {
        lemma_categories_cover(cs.drop_last());
    }
}

/// Sum of the commit counts of the given emails.
pub open spec fn count_sum(cs: Seq<CommitInfo>, es: Seq<Seq<char>>) -> nat
    decreases es.len(),
{
    if es.len() == 0 {
        0
    } else {
        count_sum(cs, es.drop_last()) + email_count(cs, es.last())
    }
}

/// Number of times `x` occurs in `es`.
pub open spec fn occurrences(es: Seq<Seq<char>>, x: Seq<char>) -> nat
    decreases es.len(),
{
    if es.len() == 0 {
        0
    } else {
        occurrences(es.drop_last(), x) + if es.last() == x {
            1nat
        } else {
            0nat
        }
    }
}

/// One more commit adds one to the sum for each time its email is listed.
proof fn lemma_count_sum_step(cs: Seq<CommitInfo>, es: Seq<Seq<char>>)
    requires
        cs.len() > 0,
    ensures
        count_sum(cs, es) == count_sum(cs.drop_last(), es) + occurrences(
            es,
            cs.last().author_email@,
        ),
    decreases es.len(),
{
    if es.len() > 0 {
        lemma_count_sum_step(cs, es.drop_last());
    }
}

/// An email that is not listed does not occur; a listed distinct email
/// occurs once.
proof fn lemma_occurrences(es: Seq<Seq<char>>, x: Seq<char>)
    requires
        forall|a: int, b: int| 0 <= a < b < es.len() ==> es[a] != es[b],
    ensures
        occurrences(es, x) == if es.contains(x) {
            1nat
        } else {
            0nat
        },
    decreases es.len(),
{
    if es.len() > 0 {
        let p = es.drop_last();
        assert forall|a: int, b: int| 0 <= a < b < p.len() implies p[a] != p[b] by {
            assert(p[a] == es[a] && p[b] == es[b]);
        }
        lemma_occurrences(p, x);
        if es.last() == x {
            if p.contains(x) {
                let j = choose|j: int| 0 <= j < p.len() && p[j] == x;
                assert(es[j] == x && es[es.len() - 1] == x);
            }
            assert(es.contains(x)) by {
                assert(es[es.len() - 1] == x);
            }
        } else {
            if es.contains(x) {
                let j = choose|j: int| 0 <= j < es.len() && es[j] == x;
                assert(j < es.len() - 1);
                assert(p[j] == x);
            }
            if p.contains(x) {
                let j = choose|j: int| 0 <= j < p.len() && p[j] == x;
                assert(es[j] == x);
            }
        }
    }
}

/// The commit counts of the contributors add up to the number of commits.
pub proof fn lemma_contributor_counts_total(cs: Seq<CommitInfo>)
    ensures
        count_sum(cs, distinct_emails(cs)) == cs.len(),
    decreases cs.len(),
{
    if cs.len() > 0 {
        let p = cs.drop_last();
        let x = cs.last().author_email@;
        let d = distinct_emails(p);
        lemma_contributor_counts_total(p);
        lemma_distinct_unique(p);
        lemma_distinct_unique(cs);
        lemma_count_sum_step(cs, distinct_emails(cs));
        lemma_occurrences(distinct_emails(cs), x);
        if d.contains(x) {
            assert(distinct_emails(cs) == d);
        } else {
            let d2 = d.push(x);
            assert(distinct_emails(cs) == d2);
            assert(d2.contains(x)) by {
                assert(d2[d.len() as int] == x);
            }
            assert(d2.drop_last() =~= d);
            lemma_count_sum_step(cs, d);
            lemma_occurrences(d, x);
            lemma_absent_count(p, x);
        }
    }
}

/// A cleaned tag name is never empty.
pub proof fn lemma_clean_tag_nonempty(s: Seq<char>)
    ensures
        clean_tag(s).len() > 0,
{
    reveal_strlit("v0.1.0");
    let t = crate::text::trim(s);
    let e = core_end(t);
    if 0 <= e < t.len() && (t[e] == '-' || t[e] == '.') {
        let a: int = if t.len() > 0 && t[0] == 'v' { 1 } else { 0 };
        let d1 = digit_run(t, a);
        assert(d1 > 0);
        assert(e > 0);
    }
}

/// The total of the commit counts of statistics rows.
pub open spec fn rows_total(rows: Seq<(Seq<char>, Seq<char>, nat)>) -> nat
    decreases rows.len(),
{
    if rows.len() == 0 {
        0
    } else {
        rows_total(rows.drop_last()) + rows.last().2
    }
}

/// Rows built from emails total the counts of those emails.
proof fn lemma_rows_total_counts(cs: Seq<CommitInfo>, es: Seq<Seq<char>>)
    ensures
        rows_total(es.map_values(|e: Seq<char>| (e, first_name(cs, e), email_count(cs, e))))
            == count_sum(cs, es),
    decreases es.len(),
{
    if es.len() > 0 {
        lemma_rows_total_counts(cs, es.drop_last());
        assert(es.map_values(|e: Seq<char>| (e, first_name(cs, e), email_count(cs, e))).drop_last()
            =~= es.drop_last().map_values(
            |e: Seq<char>| (e, first_name(cs, e), email_count(cs, e)),
        ));
    }
}

/// An email is listed exactly when some commit has it.
proof fn lemma_distinct_emails_cover(cs: Seq<CommitInfo>, e: Seq<char>)
    ensures
        distinct_emails(cs).contains(e) <==> is_author_email(cs, e),
    decreases cs.len(),
{
    if cs.len() > 0 {
        let p = cs.drop_last();
        let d = distinct_emails(p);
        let x = cs.last().author_email@;
        lemma_distinct_emails_cover(p, e);
        if distinct_emails(cs).contains(e) {
            if d.contains(e) {
                let i = choose|i: int| 0 <= i < p.len() && #[trigger] p[i].author_email@ == e;
                assert(cs[i] == p[i]);
                assert(cs[i].author_email@ == e);
            } else {
                assert(!d.contains(x) ==> distinct_emails(cs) == d.push(x));
                assert(d.contains(x) ==> distinct_emails(cs) == d);
                let k = choose|k: int| 0 <= k < distinct_emails(cs).len() && distinct_emails(cs)[k] == e;
                assert(k == d.len());
                assert(cs[cs.len() - 1].author_email@ == e);
            }
        }
        if is_author_email(cs, e) {
            let i = choose|i: int| 0 <= i < cs.len() && #[trigger] cs[i].author_email@ == e;
            if i < cs.len() - 1 {
                assert(p[i] == cs[i]);
                assert(p[i].author_email@ == e);
                assert(d.contains(e));
                if !d.contains(x) {
                    let k = choose|k: int| 0 <= k < d.len() && d[k] == e;
                    assert(d.push(x)[k] == e);
                }
            } else {
                assert(x == e);
                if !d.contains(x) {
                    assert(d.push(x)[d.len() as int] == e);
                }
            }
        }
    }
}

/// Whether some commit has author email `e`.
pub open spec fn is_author_email(cs: Seq<CommitInfo>, e: Seq<char>) -> bool {
    exists|i: int| 0 <= i < cs.len() && #[trigger] cs[i].author_email@ == e
}

/// Whether some statistics row is for email `e`.
pub open spec fn has_row(rows: Seq<(Seq<char>, Seq<char>, nat)>, e: Seq<char>) -> bool {
    exists|a: int| 0 <= a < rows.len() && #[trigger] rows[a].0 == e
}

/// The contributor rows: one per author email, emails pairwise distinct and
/// exactly those of the commits, with counts that add up to the number of
/// commits.
pub proof fn lemma_contributor_rows_law(cs: Seq<CommitInfo>)
    ensures
        forall|a: int, b: int|
            0 <= a < b < contributor_rows(cs).len() ==> #[trigger] contributor_rows(cs)[a].0
                != #[trigger] contributor_rows(cs)[b].0,
        forall|e: Seq<char>|
            #[trigger] has_row(contributor_rows(cs), e) <==> is_author_email(cs, e),
        forall|a: int|
            0 <= a < contributor_rows(cs).len() ==> #[trigger] contributor_rows(cs)[a].2
                == email_count(cs, contributor_rows(cs)[a].0),
        rows_total(contributor_rows(cs)) == cs.len(),
{
    let d = distinct_emails(cs);
    let rows = contributor_rows(cs);
    lemma_distinct_unique(cs);
    assert forall|a: int, b: int| 0 <= a < b < rows.len() implies #[trigger] rows[a].0
        != #[trigger] rows[b].0 by {
        assert(rows[a].0 == d[a] && rows[b].0 == d[b]);
    }
    assert forall|e: Seq<char>| #[trigger] has_row(rows, e) <==> is_author_email(cs, e) by {
        lemma_distinct_emails_cover(cs, e);
        if has_row(rows, e) {
            let a = choose|a: int| 0 <= a < rows.len() && #[trigger] rows[a].0 == e;
            assert(d[a] == e);
        }
        if d.contains(e) {
            let a = choose|a: int| 0 <= a < d.len() && d[a] == e;
            assert(rows[a].0 == e);
        }
    }
    lemma_rows_total_counts(cs, d);
    lemma_contributor_counts_total(cs);
}

/// A text starts with its first part.
proof fn lemma_prefix_self(x: Seq<char>, y: Seq<char>)
    ensures
        starts_with(x + y, x),
{
    assert((x + y).subrange(0, x.len() as int) =~= x);
}

/// Appending keeps a prefix.
proof fn lemma_prefix_append(x: Seq<char>, p: Seq<char>, y: Seq<char>)
    requires
        starts_with(x, p),
    ensures
        starts_with(x + y, p),
{
    assert((x + y).subrange(0, p.len() as int) =~= x.subrange(0, p.len() as int));
}

/// The document opens with the heading (`# Release <tag>`, then `## 📋`
/// with `Changes since <previous>` or `Initial release`) followed by the
/// statistics: release date, repository, `- **Total Commits:** <n>`, and a
/// commit range line exactly when there are commits.
pub proof fn lemma_notes_header(
    r: RepoView,
    tag: Seq<char>,
    previous: Option<Seq<char>>,
    cs: Seq<CommitInfo>,
    date: Seq<char>,
)
    ensures
        starts_with(notes_doc(r, tag, previous, cs, date), notes_heading(tag, previous) + notes_stats(r, cs, date)),
        notes_stats(r, cs, date) == "- **Release Date:** "@ + date + "\n"@ + "- **Repository:** "@
            + clean_url(r) + "\n"@ + "- **Total Commits:** "@ + dec(cs.len()) + "\n"@ + range_line(cs)
            + "\n"@,
        range_line(cs).len() > 0 <==> cs.len() > 0,
{
    reveal_strlit("- **Commit Range:** ");
    let hs = notes_heading(tag, previous) + notes_stats(r, cs, date);
    let t1 = hs + prerelease_warning(tag);
    lemma_prefix_self(hs, prerelease_warning(tag));
    let t2 = t1 + category_sections(cs);
    lemma_prefix_append(t1, hs, category_sections(cs));
    let t3 = t2 + contributors_section(cs, r);
    lemma_prefix_append(t2, hs, contributors_section(cs, r));
    let t4 = t3 + new_project_steps(r, tag);
    lemma_prefix_append(t3, hs, new_project_steps(r, tag));
    let t5 = t4 + existing_project_steps(r, tag);
    lemma_prefix_append(t4, hs, existing_project_steps(r, tag));
    let t6 = t5 + timeline_section(cs);
    lemma_prefix_append(t5, hs, timeline_section(cs));
    let t7 = t6 + changelog_section(r, tag, previous);
    lemma_prefix_append(t6, hs, changelog_section(r, tag, previous));
    let t8 = t7 + links_section(r);
    lemma_prefix_append(t7, hs, links_section(r));
    let t9 = t8 + help_section(r);
    lemma_prefix_append(t8, hs, help_section(r));
    lemma_prefix_append(t9, hs, footer(r));
    assert(notes_doc(r, tag, previous, cs, date) == t9 + footer(r));
    assert(notes_stats(r, cs, date) =~= "- **Release Date:** "@ + date + "\n"@ + "- **Repository:** "@
        + clean_url(r) + "\n"@ + "- **Total Commits:** "@ + dec(cs.len()) + "\n"@ + range_line(cs)
        + "\n"@);
}

/// A section is the title, the introduction, the list and a blank line when
/// it has entries, and nothing otherwise; so with a title it appears exactly
/// when it has entries.
pub proof fn lemma_section_shape(title: Seq<char>, intro: Seq<char>, items: Seq<Seq<char>>)
    ensures
        items.len() == 0 ==> section(title, intro, items) == Seq::<char>::empty(),
        items.len() > 0 ==> section(title, intro, items) == title + "\n\n"@ + intro + bullets(items)
            + "\n"@,
        title.len() > 0 ==> (section(title, intro, items).len() > 0 <==> items.len() > 0),
{
}

/// A list of several parts is the lists of the parts, in order.
pub proof fn lemma_bullets_concat(a: Seq<Seq<char>>, b: Seq<Seq<char>>)
    ensures
        bullets(a + b) == bullets(a) + bullets(b),
    decreases b.len(),
{
    if b.len() == 0 {
        assert(a + b =~= a);
        assert(bullets(b) =~= Seq::<char>::empty());
        assert(bullets(a) + bullets(b) =~= bullets(a));
    } else {
        lemma_bullets_concat(a, b.drop_last());
        assert((a + b).drop_last() =~= a + b.drop_last());
        assert((a + b).last() == b.last());
        assert(bullets(a + b) =~= bullets(a) + bullets(b));
    }
}

/// One entry is listed as the line `- <entry>`.
pub proof fn lemma_bullets_single(x: Seq<char>)
    ensures
        bullets(seq![x]) == "- "@ + x + "\n"@,
{
    let e = Seq::<Seq<char>>::empty();
    assert(bullets(e) == Seq::<char>::empty());
    assert(seq![x].drop_last() =~= e);
    assert(seq![x].last() == x);
    assert(Seq::<char>::empty() + "- "@ + x + "\n"@ =~= "- "@ + x + "\n"@);
}

/// The categorised part of the document: the sections of breaking changes,
/// security, features, fixes, improvements, translations, documentation and
/// dependencies, in that order, each present exactly when it has entries,
/// then the other changes exactly when there are one to ten of them.
pub proof fn lemma_category_sections_order(cs: Seq<CommitInfo>)
    ensures
        category_sections(cs) == section(
            "## ⚠️ Breaking Changes"@,
            "🚨 **Important:** This release contains breaking changes. Please review the migration guide before upgrading.\n\n"@,
            entries_in(cs, 0),
        ) + section(
            "## 🔒 Security Updates"@,
            "🛡️ **Security patches included in this release:**\n\n"@,
            entries_in(cs, 1),
        ) + section("## ✨ New Features"@, ""@, entries_in(cs, 2)) + section(
            "## 🐛 Bug Fixes"@,
            ""@,
            entries_in(cs, 3),
        ) + section("## 🔧 Improvements"@, ""@, entries_in(cs, 5)) + section(
            "## 🌍 Translation Updates"@,
            ""@,
            entries_in(cs, 7),
        ) + section("## 📚 Documentation"@, ""@, entries_in(cs, 4)) + section(
            "## 📦 Dependencies"@,
            ""@,
            entries_in(cs, 6),
        ) + if 1 <= entries_in(cs, 8).len() <= 10 {
            section("## 🔄 Other Changes"@, ""@, entries_in(cs, 8))
        } else {
            Seq::<char>::empty()
        },
{
    let others = entries_in(cs, 8);
    if others.len() == 0 {
        assert(section("## 🔄 Other Changes"@, ""@, others) =~= Seq::<char>::empty());
    }
}

/// The timeline rows of several parts are the rows of the parts, in order.
pub proof fn lemma_timeline_rows_concat(a: Seq<CommitInfo>, b: Seq<CommitInfo>)
    ensures
        timeline_rows(a + b) == timeline_rows(a) + timeline_rows(b),
    decreases b.len(),
{
    if b.len() == 0 {
        assert(a + b =~= a);
        assert(timeline_rows(a) + timeline_rows(b) =~= timeline_rows(a));
    } else {
        lemma_timeline_rows_concat(a, b.drop_last());
        assert((a + b).drop_last() =~= a + b.drop_last());
        assert((a + b).last() == b.last());
        assert(timeline_rows(a + b) =~= timeline_rows(a) + timeline_rows(b));
    }
}

/// The timeline: present exactly for releases of at most twenty commits,
/// with one row per commit in order (date, time, short hash, author, and the
/// first line cut to fifty characters, marked with `...` when it is longer
/// than fifty bytes).
pub proof fn lemma_timeline_law(cs: Seq<CommitInfo>, c: CommitInfo)
    ensures
        timeline_section(cs).len() > 0 <==> cs.len() <= 20,
        cs.len() <= 20 ==> timeline_section(cs) == "## 📊 Detailed Timeline\n\n"@
            + "| Date | Time | Commit | Author | Message |\n"@
            + "|------|------|--------|--------|---------|\n"@ + timeline_rows(cs) + "\n"@,
        timeline_rows(seq![c]) == timeline_row(c),
        timeline_rows(cs.push(c)) == timeline_rows(cs) + timeline_row(c),
        short_message(c.message@) == if utf8_len(crate::text::first_line(c.message@)) > 50 {
            first_chars(crate::text::first_line(c.message@), 50) + "..."@
        } else {
            first_chars(crate::text::first_line(c.message@), 50)
        },
{
    reveal_strlit("## 📊 Detailed Timeline\n\n");
    let e = Seq::<CommitInfo>::empty();
    assert(timeline_rows(e) == Seq::<char>::empty());
    assert(seq![c].drop_last() =~= e);
    assert(seq![c].last() == c);
    assert(Seq::<char>::empty() + timeline_row(c) =~= timeline_row(c));
    assert(cs.push(c).drop_last() =~= cs);
}

/// Version numbers are compared by their values: the first position where
/// two sequences differ decides, the larger number being newer; when one
/// sequence is a proper prefix of the other, the longer is newer; equal
/// sequences compare equal.
pub proof fn lemma_numbers_compare_by_value(a: Seq<u32>, b: Seq<u32>, i: int)
    ensures
        0 <= i < a.len() && i < b.len() && a.take(i) == b.take(i) && a[i] < b[i]
            ==> numbers_compare(a, b) == -1,
        0 <= i < a.len() && i < b.len() && a.take(i) == b.take(i) && a[i] > b[i]
            ==> numbers_compare(a, b) == 1,
        a.len() < b.len() && a == b.take(a.len() as int) ==> numbers_compare(a, b) == -1,
        numbers_compare(a, a) == 0,
    decreases a.len(),
{
    if a.len() > 0 && b.len() > 0 && a[0] == b[0] {
        lemma_numbers_compare_by_value(a.drop_first(), b.drop_first(), i - 1);
        if 0 < i < a.len() && i < b.len() && a.take(i) == b.take(i) {
            assert(a.drop_first().take(i - 1) =~= a.take(i).drop_first());
            assert(b.drop_first().take(i - 1) =~= b.take(i).drop_first());
        }
        if a.len() < b.len() && a == b.take(a.len() as int) {
            assert(a.drop_first() =~= b.drop_first().take(a.drop_first().len() as int));
        }
    }
    if 0 < i < a.len() && i < b.len() && a.take(i) == b.take(i) {
        assert(a[0] == a.take(i)[0] && b[0] == b.take(i)[0]);
    }
    if a.len() < b.len() && a == b.take(a.len() as int) && a.len() > 0 {
        assert(a[0] == b.take(a.len() as int)[0]);
    }
    if a.len() > 0 {
        lemma_numbers_compare_by_value(a.drop_first(), a.drop_first(), 0);
    }
}

/// Which section a commit's lowercase first line puts it in, by the words it
/// contains, the earlier sections taking precedence: breaking changes
/// (`breaking`), security (`security`, `vulnerability`, `cve`), features
/// (`feat`, `feature`, `add`), fixes (`fix`, `bug`, `hotfix`), documentation
/// (`doc`, `readme`), improvements (`improve`, `enhance`, `update`,
/// `refactor`), dependencies (`dep`, `bump`, `upgrade`, `yarn`, `npm`,
/// `cargo`), translations (`translation`, `i18n`, `locale`), else others.
pub proof fn lemma_category_keywords(l: Seq<char>)
    ensures
        contains(l, "breaking"@) ==> category_of(l) == 0,
        !contains(l, "breaking"@) && (contains(l, "security"@) || contains(l, "vulnerability"@)
            || contains(l, "cve"@)) ==> category_of(l) == 1,
        !contains(l, "breaking"@) && !contains(l, "security"@) && !contains(l, "vulnerability"@)
            && !contains(l, "cve"@) && (contains(l, "feat"@) || contains(l, "feature"@) || contains(
            l,
            "add"@,
        )) ==> category_of(l) == 2,
        !contains(l, "breaking"@) && !contains(l, "security"@) && !contains(l, "vulnerability"@)
            && !contains(l, "cve"@) && !contains(l, "feat"@) && !contains(l, "feature"@)
            && !contains(l, "add"@) && (contains(l, "fix"@) || contains(l, "bug"@) || contains(
            l,
            "hotfix"@,
        )) ==> category_of(l) == 3,
        !contains(l, "breaking"@) && !contains(l, "security"@) && !contains(l, "vulnerability"@)
            && !contains(l, "cve"@) && !contains(l, "feat"@) && !contains(l, "feature"@)
            && !contains(l, "add"@) && !contains(l, "fix"@) && !contains(l, "bug"@) && !contains(
            l,
            "hotfix"@,
        ) && (contains(l, "doc"@) || contains(l, "readme"@)) ==> category_of(l) == 4,
        category_of(l) <= 8,
        category_of(l) == 5 ==> contains(l, "improve"@) || contains(l, "enhance"@) || contains(
            l,
            "update"@,
        ) || contains(l, "refactor"@),
        category_of(l) == 6 ==> contains(l, "dep"@) || contains(l, "bump"@) || contains(
            l,
            "upgrade"@,
        ) || contains(l, "yarn"@) || contains(l, "npm"@) || contains(l, "cargo"@),
        category_of(l) == 7 ==> contains(l, "translation"@) || contains(l, "i18n"@) || contains(
            l,
            "locale"@,
        ),
        category_of(l) == 8 ==> !contains(l, "breaking"@) && !contains(l, "security"@)
            && !contains(l, "vulnerability"@) && !contains(l, "cve"@) && !contains(l, "feat"@)
            && !contains(l, "feature"@) && !contains(l, "add"@) && !contains(l, "fix"@)
            && !contains(l, "bug"@) && !contains(l, "hotfix"@) && !contains(l, "doc"@)
            && !contains(l, "readme"@) && !contains(l, "improve"@) && !contains(l, "enhance"@)
            && !contains(l, "update"@) && !contains(l, "refactor"@) && !contains(l, "dep"@)
            && !contains(l, "bump"@) && !contains(l, "upgrade"@) && !contains(l, "yarn"@)
            && !contains(l, "npm"@) && !contains(l, "cargo"@) && !contains(l, "translation"@)
            && !contains(l, "i18n"@) && !contains(l, "locale"@),
{
}

} // verus!
