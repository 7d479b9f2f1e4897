//! Version numbers: the package version, bumping, and the release-tag texts
//! built from a version.
use vstd::prelude::*;
use crate::text::{
    chars_of, copy_text, dec, lemma_find_from, occurs_at, parse_u32, parse_u32_exec, push_char,
    push_dec, split, split_exec, text_eq, views, find, find_from, digits_value, lowercase_of,
    to_lowercase, string_of, slice_chars, replace, replace_exec, push_text, trim, trim_text,
    trim_exec, lines, lines_exec,
};

verus! {

/// The version of this package (the `version` of its manifest).
pub const VERSION: &'static str = "0.1.0";

/// A kind of version bump.
#[derive(Debug, Clone, Copy, PartialEq, Eq, Structural, PartialOrd, Ord, Hash)]
pub enum BumpType {
    Patch,
    Minor,
    Major,
}

/// Why a version could not be bumped.
#[derive(Debug, Clone, Copy, PartialEq, Eq)]
pub enum BumpError {
    /// The version does not have exactly three dot-separated parts.
    InvalidFormat,
    /// The first part is not a 32-bit unsigned number.
    InvalidMajor,
    /// The second part is not a 32-bit unsigned number.
    InvalidMinor,
    /// The third part is not a 32-bit unsigned number.
    InvalidPatch,
    /// The bump type is not `major`, `minor` or `patch`.
    InvalidBumpType,
}

/// The bump type a name stands for.
pub open spec fn bump_type_named(name: Seq<char>) -> Option<BumpType> {
    if name == "major"@ {
        Some(BumpType::Major)
    } else if name == "minor"@ {
        Some(BumpType::Minor)
    } else if name == "patch"@ {
        Some(BumpType::Patch)
    } else {
        None
    }
}

/// The dot-separated parts of a version text.
pub open spec fn version_parts(v: Seq<char>) -> Seq<Seq<char>> {
    split(v, seq!['.'])
}

/// The three numbers of a version text, or which of them is not a number.
pub open spec fn version_numbers(v: Seq<char>) -> Result<(u32, u32, u32), BumpError> {
    let parts = version_parts(v);
    if parts.len() != 3 {
        Err(BumpError::InvalidFormat)
    } else if parse_u32(parts[0]) is None {
        Err(BumpError::InvalidMajor)
    } else if parse_u32(parts[1]) is None {
        Err(BumpError::InvalidMinor)
    } else if parse_u32(parts[2]) is None {
        Err(BumpError::InvalidPatch)
    } else {
        Ok((parse_u32(parts[0])->0, parse_u32(parts[1])->0, parse_u32(parts[2])->0))
    }
}

/// The text `major.minor.patch`.
pub open spec fn version_text(major: nat, minor: nat, patch: nat) -> Seq<char> {
    dec(major) + seq!['.'] + dec(minor) + seq!['.'] + dec(patch)
}

/// The version that a bump of `current` by the bump type named `name` gives.
pub open spec fn bumped(name: Seq<char>, current: Seq<char>) -> Result<Seq<char>, BumpError> {
    match version_numbers(current) {
        Err(e) => Err(e),
        Ok((major, minor, patch)) => match bump_type_named(name) {
            Some(BumpType::Major) => Ok(version_text((major + 1) as nat, 0, 0)),
            Some(BumpType::Minor) => Ok(version_text(major as nat, (minor + 1) as nat, 0)),
            Some(BumpType::Patch) => Ok(version_text(major as nat, minor as nat, (patch + 1) as nat)),
            None => Err(BumpError::InvalidBumpType),
        },
    }
}

/// The bump would take a 32-bit version number past `u32::MAX`, where the
/// increment overflows.
pub open spec fn bump_overflows(name: Seq<char>, current: Seq<char>) -> bool {
    match version_numbers(current) {
        Ok((major, minor, patch)) => match bump_type_named(name) {
            Some(BumpType::Major) => major == u32::MAX,
            Some(BumpType::Minor) => minor == u32::MAX,
            Some(BumpType::Patch) => patch == u32::MAX,
            None => false,
        },
        Err(_) => false,
    }
}

/// The bump type named by `name`, if any.
pub fn bump_type_from_name(name: &str) -> (r: Option<BumpType>)
    ensures
        r == bump_type_named(name@),
{
    if text_eq(name, "major") {
        Some(BumpType::Major)
    } else if text_eq(name, "minor") {
        Some(BumpType::Minor)
    } else if text_eq(name, "patch") {
        Some(BumpType::Patch)
    } else {
        None
    }
}

/// The three numbers of a version text.
pub fn parse_version_numbers(current: &str) -> (r: Result<(u32, u32, u32), BumpError>)
    ensures
        r == version_numbers(current@),
{
    let dot: Vec<char> = vec!['.'];
    assert(dot@ =~= seq!['.']);
    let parts = split_exec(&chars_of(current), &dot);
    assert(views(parts@) == version_parts(current@));
    if parts.len() != 3 {
        return Err(BumpError::InvalidFormat);
    }
    assert(views(parts@)[0] == parts@[0]@ && views(parts@)[1] == parts@[1]@ && views(parts@)[2]
        == parts@[2]@);
    let major = match parse_u32_exec(&parts[0]) {
        Some(v) => v,
        None => return Err(BumpError::InvalidMajor),
    };
    let minor = match parse_u32_exec(&parts[1]) {
        Some(v) => v,
        None => return Err(BumpError::InvalidMinor),
    };
    let patch = match parse_u32_exec(&parts[2]) {
        Some(v) => v,
        None => return Err(BumpError::InvalidPatch),
    };
    Ok((major, minor, patch))
}

/// The text `major.minor.patch`.
pub fn format_version(major: u64, minor: u64, patch: u64) -> (r: String)
    ensures
        r@ == version_text(major as nat, minor as nat, patch as nat),
{
    let mut r = String::new();
    push_dec(&mut r, major);
    push_char(&mut r, '.');
    push_dec(&mut r, minor);
    push_char(&mut r, '.');
    push_dec(&mut r, patch);
    assert(r@ =~= version_text(major as nat, minor as nat, patch as nat));
    r
}

/// Bumps the version `current` by the bump type named `bump_type`
/// (`major`, `minor` or `patch`): a major bump resets minor and patch, a
/// minor bump resets patch.
pub fn bump_version_from(bump_type: &str, current: &str) -> (r: Result<String, BumpError>)
    requires
        !bump_overflows(bump_type@, current@),
    ensures
        match r {
            Ok(v) => bumped(bump_type@, current@) == Ok::<Seq<char>, BumpError>(v@),
            Err(e) => bumped(bump_type@, current@) == Err::<Seq<char>, BumpError>(e),
        },
{
    let (major, minor, patch) = match parse_version_numbers(current) {
        Ok(t) => t,
        Err(e) => return Err(e),
    };
    match bump_type_from_name(bump_type) {
        Some(BumpType::Major) => Ok(format_version(major as u64 + 1, 0, 0)),
        Some(BumpType::Minor) => Ok(format_version(major as u64, minor as u64 + 1, 0)),
        Some(BumpType::Patch) => Ok(format_version(major as u64, minor as u64, patch as u64 + 1)),
        None => Err(BumpError::InvalidBumpType),
    }
}

impl BumpType {
    /// The name of the bump type: `major`, `minor` or `patch`.
    pub open spec fn name(self) -> Seq<char> {
        match self {
            BumpType::Major => "major"@,
            BumpType::Minor => "minor"@,
            BumpType::Patch => "patch"@,
        }
    }

    /// The name of the bump type.
    pub fn as_str(self) -> (r: &'static str)
        ensures
            r@ == self.name(),
    {
        match self {
            BumpType::Major => "major",
            BumpType::Minor => "minor",
            BumpType::Patch => "patch",
        }
    }
}

/// Why a requested release version gives no bump type.
#[derive(Debug, Clone, Copy, PartialEq, Eq)]
pub enum ReleaseVersionError {
    /// A full version that does not have three numbers.
    InvalidFormat,
    /// A full version that raises none of the current version's numbers.
    NotHigher,
    /// Neither a full version nor `major`, `minor` or `patch`.
    UnknownBumpType,
}

/// Number of occurrences of `c` in `s`.
pub open spec fn count_char(s: Seq<char>, c: char) -> nat
    decreases s.len(),
{
    if s.len() == 0 {
        0
    } else {
        count_char(s.drop_last(), c) + if s.last() == c {
            1nat
        } else {
            0nat
        }
    }
}

/// `s.strip_prefix('v').unwrap_or(s)`.
pub open spec fn strip_v(s: Seq<char>) -> Seq<char> {
    if s.len() > 0 && s[0] == 'v' {
        s.drop_first()
    } else {
        s
    }
}

/// The numbers of a version text, where a part that is not a number counts
/// as zero (`part.parse().unwrap_or(0)`).
pub open spec fn numbers_or_zero(v: Seq<char>) -> Seq<u32> {
    version_parts(v).map_values(|p: Seq<char>| if parse_u32(p) is Some {
        parse_u32(p)->0
    } else {
        0u32
    })
}

/// The bump type of a release request `version` against the version
/// `current`, where `lowered` is the lowercase form of the request without
/// its `v` prefix: a full version `x.y.z` is compared number by number with
/// the current one (the first raised number decides); otherwise the request
/// must name a bump type.
pub open spec fn release_bump(version: Seq<char>, current: Seq<char>, lowered: Seq<char>) -> Result<
    BumpType,
    ReleaseVersionError,
> {
    let v = strip_v(version);
    if count_char(v, '.') == 2 {
        let new = numbers_or_zero(v);
        let cur = numbers_or_zero(current);
        if new.len() != 3 || cur.len() != 3 {
            Err(ReleaseVersionError::InvalidFormat)
        } else if new[0] > cur[0] {
            Ok(BumpType::Major)
        } else if new[1] > cur[1] {
            Ok(BumpType::Minor)
        } else if new[2] > cur[2] {
            Ok(BumpType::Patch)
        } else {
            Err(ReleaseVersionError::NotHigher)
        }
    } else {
        match bump_type_named(lowered) {
            Some(t) => Ok(t),
            None => Err(ReleaseVersionError::UnknownBumpType),
        }
    }
}

/// Number of occurrences of `c` in `s`.
pub fn count_char_exec(s: &Vec<char>, c: char) -> (n: usize)
    ensures
        n == count_char(s@, c),
{
    let mut n: usize = 0;
    let mut i: usize = 0;
    while i < s.len()
        invariant
            i <= s.len(),
            n == count_char(s@.take(i as int), c),
            n <= i,
        decreases s.len() - i,
    {
        assert(s@.take(i + 1).drop_last() =~= s@.take(i as int));
        if s[i] == c {
            n += 1;
        }
        i += 1;
    }
    assert(s@.take(s.len() as int) =~= s@);
    n
}

/// The numbers of a version text, a part that is not a number counting as zero.
pub fn parse_numbers_or_zero(v: &Vec<char>) -> (r: Vec<u32>)
    ensures
        r@ == numbers_or_zero(v@),
{
    let dot: Vec<char> = vec!['.'];
    assert(dot@ =~= seq!['.']);
    let parts = split_exec(v, &dot);
    let mut r: Vec<u32> = Vec::new();
    let mut i: usize = 0;
    while i < parts.len()
        invariant
            i <= parts.len(),
            views(parts@) == version_parts(v@),
            r@ == numbers_or_zero(v@).take(i as int),
        decreases parts.len() - i,
    {
        assert(views(parts@)[i as int] == parts@[i as int]@);
        let n = match parse_u32_exec(&parts[i]) {
            Some(x) => x,
            None => 0,
        };
        r.push(n);
        assert(r@ =~= numbers_or_zero(v@).take(i + 1));
        i += 1;
    }
    assert(numbers_or_zero(v@).take(i as int) =~= numbers_or_zero(v@));
    r
}

/// The bump type of a release request against the version `current`, given
/// the lowercase form of the request without its `v` prefix.
pub fn release_bump_with_lowercase(version: &str, current: &str, lowered: &str) -> (r: Result<
    BumpType,
    ReleaseVersionError,
>)
    ensures
        r == release_bump(version@, current@, lowered@),
{
    let all = chars_of(version);
    let v = if all.len() > 0 && all[0] == 'v' {
        slice_chars(&all, 1, all.len())
    } else {
        all
    };
    assert(v@ =~= strip_v(version@));
    if count_char_exec(&v, '.') == 2 {
        let new = parse_numbers_or_zero(&v);
        let cur = parse_numbers_or_zero(&chars_of(current));
        if new.len() != 3 || cur.len() != 3 {
            Err(ReleaseVersionError::InvalidFormat)
        } else if new[0] > cur[0] {
            Ok(BumpType::Major)
        } else if new[1] > cur[1] {
            Ok(BumpType::Minor)
        } else if new[2] > cur[2] {
            Ok(BumpType::Patch)
        } else {
            Err(ReleaseVersionError::NotHigher)
        }
    } else {
        match bump_type_from_name(lowered) {
            Some(t) => Ok(t),
            None => Err(ReleaseVersionError::UnknownBumpType),
        }
    }
}

/// The bump type of a release request (`major`, `minor`, `patch` in any
/// case, or a full version higher than this package's version), by name.
pub fn determine_bump_type(version: &str) -> (r: Result<&'static str, ReleaseVersionError>)
    ensures
        match r {
            Ok(name) => exists|t: BumpType|
                release_bump(version@, VERSION@, lowercase_of(strip_v(version@))) == Ok::<
                    BumpType,
                    ReleaseVersionError,
                >(t) && name@ == t.name(),
            Err(e) => release_bump(version@, VERSION@, lowercase_of(strip_v(version@))) == Err::<
                BumpType,
                ReleaseVersionError,
            >(e),
        },
{
    let all = chars_of(version);
    let v = if all.len() > 0 && all[0] == 'v' {
        slice_chars(&all, 1, all.len())
    } else {
        all
    };
    assert(v@ =~= strip_v(version@));
    let lowered = to_lowercase(&string_of(&v));
    match release_bump_with_lowercase(version, VERSION, &lowered) {
        Ok(t) => Ok(t.as_str()),
        Err(e) => Err(e),
    }
}

/// The version a release request asks for, against the version `current`
/// (`lowered` is the request lowercased, without its `v` prefix): a full
/// version `x.y.z` that raises the current one is released as it is written
/// (without its `v`); a bump type gives the current version bumped by it.
pub open spec fn requested_version(version: Seq<char>, current: Seq<char>, lowered: Seq<char>) -> Result<
    Seq<char>,
    ReleaseVersionError,
> {
    match release_bump(version, current, lowered) {
        Err(e) => Err(e),
        Ok(t) => if count_char(strip_v(version), '.') == 2 {
            Ok(strip_v(version))
        } else {
            match bumped(t.name(), current) {
                Ok(s) => Ok(s),
                Err(_) => Err(ReleaseVersionError::InvalidFormat),
            }
        },
    }
}

/// The version to release for a request such as `v2.5.0` or `minor`,
/// against this package's version: the requested version itself when it is a
/// full version higher than the current one, or the bumped current version.
pub fn requested_release_version(version: &str) -> (r: Result<String, ReleaseVersionError>)
    ensures
        match r {
            Ok(v) => requested_version(version@, VERSION@, lowercase_of(strip_v(version@))) == Ok::<
                Seq<char>,
                ReleaseVersionError,
            >(v@),
            Err(e) => requested_version(version@, VERSION@, lowercase_of(strip_v(version@)))
                == Err::<Seq<char>, ReleaseVersionError>(e),
        },
{
    let all = chars_of(version);
    let v = if all.len() > 0 && all[0] == 'v' {
        slice_chars(&all, 1, all.len())
    } else {
        all
    };
    assert(v@ =~= strip_v(version@));
    let lowered = to_lowercase(&string_of(&v));
    match release_bump_with_lowercase(version, VERSION, &lowered) {
        Err(e) => Err(e),
        Ok(t) => {
            if count_char_exec(&v, '.') == 2 {
                Ok(string_of(&v))
            } else {
                match bump_version(t.as_str()) {
                    Ok(s) => Ok(s),
                    Err(_) => Err(ReleaseVersionError::InvalidFormat),
                }
            }
        },
    }
}

/// The manifest line that holds a package version: `version = "<v>"`.
pub open spec fn version_line(v: Seq<char>) -> Seq<char> {
    "version = \""@ + v + "\""@
}

/// The manifest line for version `v`.
pub fn version_line_exec(v: &str) -> (r: Vec<char>)
    ensures
        r@ == version_line(v@),
{
    let mut s = String::new();
    push_text(&mut s, "version = \"");
    push_text(&mut s, v);
    push_text(&mut s, "\"");
    chars_of(s.as_str())
}

/// The manifest text `content` with every `version = "<current>"` replaced
/// by `version = "<new_version>"`.
pub fn cargo_toml_with_version(content: &str, current: &str, new_version: &str) -> (r: String)
    ensures
        r@ == replace(content@, version_line(current@), version_line(new_version@)),
{
    let from = version_line_exec(current);
    let to = version_line_exec(new_version);
    proof {
        reveal_strlit("version = \"");
    }
    assert(from@.len() > 0);
    string_of(&replace_exec(&chars_of(content), &from, &to))
}

/// The tag of a release version: `v<version>`.
pub fn release_tag_name(version: &str) -> (r: String)
    ensures
        r@ == seq!['v'] + version@,
{
    let mut r = String::new();
    push_char(&mut r, 'v');
    push_text(&mut r, version);
    r
}

/// The message of the commit that records a version bump.
pub fn bump_commit_message(version: &str) -> (r: String)
    ensures
        r@ == "bump: version "@ + version@,
{
    let mut r = String::new();
    push_text(&mut r, "bump: version ");
    push_text(&mut r, version);
    r
}

/// The message of a release tag: the given message, or `Release <tag>`.
pub fn tag_message(message: Option<&str>, tag_name: &str) -> (r: String)
    ensures
        match message {
            Some(m) => r@ == m@,
            None => r@ == "Release "@ + tag_name@,
        },
{
    match message {
        Some(m) => copy_text(m),
        None => {
            let mut r = String::new();
            push_text(&mut r, "Release ");
            push_text(&mut r, tag_name);
            r
        },
    }
}

/// The latest tag that `git describe --tags --abbrev=0` reported: its
/// trimmed output when the command succeeded with a non-empty output.
pub fn latest_tag_from_describe(success: bool, stdout: &str) -> (r: Option<String>)
    ensures
        match r {
            Some(t) => success && trim(stdout@).len() > 0 && t@ == trim(stdout@),
            None => !success || trim(stdout@).len() == 0,
        },
{
    if success {
        let t = trim_text(stdout);
        if t.len() == 0 {
            None
        } else {
            Some(string_of(&t))
        }
    } else {
        None
    }
}

/// The tag that `git describe --tags --abbrev=0` reported, trimmed, when the
/// command succeeded.
pub fn described_tag(success: bool, stdout: &str) -> (r: Option<String>)
    ensures
        match r {
            Some(t) => success && t@ == trim(stdout@),
            None => !success,
        },
{
    if success {
        Some(string_of(&trim_text(stdout)))
    } else {
        None
    }
}

/// The version tags to show from a `git tag` listing: none when the listing
/// is blank, else its first ten lines, each trimmed.
pub fn version_history(listing: &str) -> (r: Vec<String>)
    ensures
        trim(listing@).len() == 0 ==> r@.len() == 0,
        trim(listing@).len() > 0 ==> r@.len() == if lines(listing@).len() < 10 {
            lines(listing@).len()
        } else {
            10
        },
        trim(listing@).len() > 0 ==> forall|i: int|
            0 <= i < r@.len() ==> #[trigger] r@[i]@ == trim(lines(listing@)[i]),
{
    let mut r: Vec<String> = Vec::new();
    if trim_text(listing).len() == 0 {
        return r;
    }
    let ls = lines_exec(&chars_of(listing));
    let mut i: usize = 0;
    while i < ls.len() && i < 10
        invariant
            i <= ls.len(),
            i <= 10,
            views(ls@) == lines(listing@),
            r@.len() == i,
            forall|j: int| 0 <= j < i ==> #[trigger] r@[j]@ == trim(lines(listing@)[j]),
        decreases ls.len() - i,
    {
        assert(views(ls@)[i as int] == ls@[i as int]@);
        r.push(string_of(&trim_exec(&ls[i])));
        i += 1;
    }
    assert(views(ls@).len() == ls@.len());
    r
}

/// The version of this package.
pub fn get_current_version() -> (r: String)
    ensures
        r@ == VERSION@,
{
    copy_text(VERSION)
}

/// Bumps the version of this package by the bump type named `bump_type`.
pub fn bump_version(bump_type: &str) -> (r: Result<String, BumpError>)
    ensures
        match r {
            Ok(v) => bumped(bump_type@, VERSION@) == Ok::<Seq<char>, BumpError>(v@),
            Err(e) => bumped(bump_type@, VERSION@) == Err::<Seq<char>, BumpError>(e),
        },
{
    proof {
        reveal_strlit("0.1.0");
        lemma_package_version_numbers();
    }
    bump_version_from(bump_type, VERSION)
}

/// The package version is `0.1.0`.
proof fn lemma_package_version_numbers()
    ensures
        version_numbers(VERSION@) == Ok::<(u32, u32, u32), BumpError>((0, 1, 0)),
{
    reveal_strlit("0.1.0");
    let s = VERSION@;
    let dot = seq!['.'];
    assert(s =~= seq!['0', '.', '1', '.', '0']);
    lemma_split_digit_dot(s);
    lemma_split_digit_dot(s.skip(2));
    let t = s.skip(4);
    assert(t =~= seq!['0']);
    lemma_find_from(t, dot, 0);
    assert(!occurs_at(t, dot, 0)) by {
        assert(t.subrange(0, 1)[0] == '0');
    }
    assert(split(t, dot) == seq![t]);
    assert(s.skip(2).skip(2) =~= t);
    assert(s.take(1) =~= seq!['0']);
    assert(s.skip(2).take(1) =~= seq!['1']);
    assert(split(s.skip(2), dot) == seq![seq!['1']] + seq![t]);
    assert(version_parts(s) =~= seq![seq!['0'], seq!['1'], seq!['0']]);
    assert(parse_u32(seq!['0']) == Some(0u32)) by {
        assert(digits_value(seq!['0']) == 0) by {
            assert(seq!['0'].drop_last() =~= Seq::<char>::empty());
            assert(digits_value(Seq::<char>::empty()) == 0);
            assert(seq!['0'].last() == '0');
            assert(('0' as u32) == 48);
        }
    }
    assert(parse_u32(seq!['1']) == Some(1u32)) by {
        assert(digits_value(seq!['1']) == 1) by {
            assert(seq!['1'].drop_last() =~= Seq::<char>::empty());
            assert(digits_value(Seq::<char>::empty()) == 0);
            assert(seq!['1'].last() == '1');
            assert(('1' as u32) == 49);
        }
    }
}

/// Splitting a text that starts with one non-dot character and a dot.
proof fn lemma_split_digit_dot(s: Seq<char>)
    requires
        s.len() >= 2,
        s[0] != '.',
        s[1] == '.',
    ensures
        split(s, seq!['.']) == seq![s.take(1)] + split(s.skip(2), seq!['.']),
{
    let dot = seq!['.'];
    assert(!occurs_at(s, dot, 0)) by {
        assert(s.subrange(0, 1)[0] != dot[0]);
    }
    assert(occurs_at(s, dot, 1)) by {
        assert(s.subrange(1, 2) =~= dot);
    }
    assert(find_from(s, dot, 1) == 1);
    assert(find(s, dot) == 1);
}


/// The bump chosen in the interactive release: `1` or `patch`, `2` or
/// `minor`, `3` or `major` (the answer trimmed); anything else is a patch.
pub open spec fn chosen_bump(answer: Seq<char>) -> Seq<char> {
    let a = trim(answer);
    if a == "1"@ || a == "patch"@ {
        "patch"@
    } else if a == "2"@ || a == "minor"@ {
        "minor"@
    } else if a == "3"@ || a == "major"@ {
        "major"@
    } else {
        "patch"@
    }
}

/// Whether the interactive answer named a bump (else the patch default is
/// used and a notice is shown).
pub open spec fn names_bump(answer: Seq<char>) -> bool {
    let a = trim(answer);
    a == "1"@ || a == "patch"@ || a == "2"@ || a == "minor"@ || a == "3"@ || a == "major"@
}

/// The bump chosen in the interactive release, and whether the answer named
/// one.
pub fn release_choice(answer: &str) -> (r: (&'static str, bool))
    ensures
        r.0@ == chosen_bump(answer@),
        r.1 == names_bump(answer@),
{
    let a = string_of(&trim_text(answer));
    let a = a.as_str();
    if text_eq(a, "1") || text_eq(a, "patch") {
        ("patch", true)
    } else if text_eq(a, "2") || text_eq(a, "minor") {
        ("minor", true)
    } else if text_eq(a, "3") || text_eq(a, "major") {
        ("major", true)
    } else {
        ("patch", false)
    }
}

/// The release message given interactively: the trimmed answer, none when
/// it is empty.
pub fn optional_message(answer: &str) -> (r: Option<String>)
    ensures
        match r {
            Some(m) => trim(answer@).len() > 0 && m@ == trim(answer@),
            None => trim(answer@).len() == 0,
        },
{
    let t = trim_text(answer);
    if t.len() == 0 {
        None
    } else {
        Some(string_of(&t))
    }
}

/// One `git` command of a release, and whether the release fails when it
/// fails (pushing is allowed to fail).
#[derive(Debug)]
pub struct GitStep {
    pub args: Vec<String>,
    pub required: bool,
}

/// The `git` commands of a release, as argument lists with whether each is
/// required: when the working tree has changes, stage `Cargo.toml` and
/// commit the bump; then create the annotated tag; then push the commits
/// and the tag (both optional).
pub open spec fn release_steps(version: Seq<char>, message: Option<Seq<char>>, has_changes: bool) -> Seq<
    (Seq<Seq<char>>, bool),
> {
    let tag = seq!['v'] + version;
    let msg = match message {
        Some(m) => m,
        None => "Release "@ + tag,
    };
    let commit_steps = if has_changes {
        seq![
            (seq!["add"@, "Cargo.toml"@], true),
            (seq!["commit"@, "-m"@, "bump: version "@ + version], true),
        ]
    } else {
        seq![]
    };
    commit_steps + seq![
        (seq!["tag"@, "-a"@, tag, "-m"@, msg], true),
        (seq!["push"@], false),
        (seq!["push"@, "origin"@, tag], false),
    ]
}

/// The views of release steps.
pub open spec fn step_views(v: Seq<GitStep>) -> Seq<(Seq<Seq<char>>, bool)> {
    v.map_values(|s: GitStep| (crate::text::string_views(s.args@), s.required))
}

/// A `git` step from its words.
fn git_step(words: Vec<String>, required: bool) -> (r: GitStep)
    ensures
        r.args == words,
        r.required == required,
{
    GitStep { args: words, required }
}

/// The `git` commands of a release of `version`.
pub fn release_git_steps(version: &str, message: Option<&str>, has_changes: bool) -> (r: Vec<GitStep>)
    ensures
        step_views(r@) == release_steps(
            version@,
            match message {
                Some(m) => Some(m@),
                None => None,
            },
            has_changes,
        ),
{
    let tag = release_tag_name(version);
    let msg = tag_message(message, tag.as_str());
    let mut r: Vec<GitStep> = Vec::new();
    if has_changes {
        let mut a: Vec<String> = Vec::new();
        a.push(copy_text("add"));
        a.push(copy_text("Cargo.toml"));
        r.push(git_step(a, true));
        let mut c: Vec<String> = Vec::new();
        c.push(copy_text("commit"));
        c.push(copy_text("-m"));
        c.push(bump_commit_message(version));
        r.push(git_step(c, true));
    }
    let mut t: Vec<String> = Vec::new();
    t.push(copy_text("tag"));
    t.push(copy_text("-a"));
    t.push(tag.clone());
    t.push(copy_text("-m"));
    t.push(msg);
    r.push(git_step(t, true));
    let mut p: Vec<String> = Vec::new();
    p.push(copy_text("push"));
    r.push(git_step(p, false));
    let mut q: Vec<String> = Vec::new();
    q.push(copy_text("push"));
    q.push(copy_text("origin"));
    q.push(tag);
    r.push(git_step(q, false));
    assert(step_views(r@) =~~= release_steps(
        version@,
        match message {
            Some(m) => Some(m@),
            None => None,
        },
        has_changes,
    ));
    r
}


/// No character of `s` is a dot.
pub open spec fn dot_free(s: Seq<char>) -> bool {
    forall|i: int| 0 <= i < s.len() ==> s[i] != '.'
}

/// Splitting at dots a text that starts with a dot-free piece and a dot
/// gives that piece first.
proof fn lemma_split_first(x: Seq<char>, rest: Seq<char>)
    requires
        dot_free(x),
    ensures
        split(x + seq!['.'] + rest, seq!['.']) == seq![x] + split(rest, seq!['.']),
{
    let s = x + seq!['.'] + rest;
    lemma_find_from(s, seq!['.'], 0);
    assert(occurs_at(s, seq!['.'], x.len() as int)) by {
        assert(s.subrange(x.len() as int, x.len() + 1int) =~= seq!['.']);
    }
    let k = find(s, seq!['.']);
    if k < x.len() {
        assert(s.subrange(k, k + 1) == seq!['.']);
        assert(s[k] == s.subrange(k, k + 1)[0]);
        assert(s[k] == x[k]);
    }
    assert(k == x.len());
    assert(s.take(k) =~= x);
    assert(s.skip(k + 1) =~= rest);
}

/// Splitting a dot-free text at dots gives the text itself.
proof fn lemma_split_none(z: Seq<char>)
    requires
        dot_free(z),
    ensures
        split(z, seq!['.']) == seq![z],
{
    lemma_find_from(z, seq!['.'], 0);
    let k = find(z, seq!['.']);
    if k <= z.len() {
        assert(z.subrange(k, k + 1) == seq!['.']);
        assert(z[k] == z.subrange(k, k + 1)[0]);
    }
}

/// A decimal text has no dot.
proof fn lemma_dec_dot_free(n: nat)
    ensures
        dot_free(dec(n)),
{
    crate::text::lemma_dec_digits(n);
    assert forall|i: int| 0 <= i < dec(n).len() implies dec(n)[i] != '.' by {
        assert(crate::text::is_digit(dec(n)[i]));
    }
}

/// The decimal text of a 32-bit number reads back as that number.
proof fn lemma_parse_dec_u32(n: u32)
    ensures
        parse_u32(dec(n as nat)) == Some(n),
{
    crate::text::lemma_dec_digits(n as nat);
    let d = dec(n as nat);
    assert(crate::text::is_digit(d[0]));
    assert(crate::text::unsigned_body(d) == d);
}

/// The version text of three numbers reads back as those numbers.
pub proof fn lemma_version_text_round_trip(major: u32, minor: u32, patch: u32)
    ensures
        version_numbers(version_text(major as nat, minor as nat, patch as nat)) == Ok::<
            (u32, u32, u32),
            BumpError,
        >((major, minor, patch)),
{
    let a = dec(major as nat);
    let b = dec(minor as nat);
    let c = dec(patch as nat);
    lemma_dec_dot_free(major as nat);
    lemma_dec_dot_free(minor as nat);
    lemma_dec_dot_free(patch as nat);
    lemma_parse_dec_u32(major);
    lemma_parse_dec_u32(minor);
    lemma_parse_dec_u32(patch);
    let v = version_text(major as nat, minor as nat, patch as nat);
    assert(v =~= a + seq!['.'] + (b + seq!['.'] + c));
    lemma_split_first(a, b + seq!['.'] + c);
    lemma_split_first(b, c);
    lemma_split_none(c);
    assert(version_parts(v) =~= seq![a, b, c]);
}

/// Versions ordered by their numbers: major, then minor, then patch.
pub open spec fn numbers_less(a: (u32, u32, u32), b: (u32, u32, u32)) -> bool {
    a.0 < b.0 || (a.0 == b.0 && (a.1 < b.1 || (a.1 == b.1 && a.2 < b.2)))
}

/// A bump gives a version whose numbers read back and are greater than the
/// numbers of the version bumped (where no number overflows).
pub proof fn lemma_bump_increases(name: Seq<char>, current: Seq<char>)
    requires
        bumped(name, current) is Ok,
        !bump_overflows(name, current),
    ensures
        version_numbers(bumped(name, current)->Ok_0) is Ok,
        numbers_less(
            version_numbers(current)->Ok_0,
            version_numbers(bumped(name, current)->Ok_0)->Ok_0,
        ),
{
    let (major, minor, patch) = version_numbers(current)->Ok_0;
    match bump_type_named(name) {
        Some(BumpType::Major) => {
            lemma_version_text_round_trip((major + 1) as u32, 0, 0);
        },
        Some(BumpType::Minor) => {
            lemma_version_text_round_trip(major, (minor + 1) as u32, 0);
        },
        Some(BumpType::Patch) => {
            lemma_version_text_round_trip(major, minor, (patch + 1) as u32);
        },
        None => {},
    }
}

/// Whether a release stops at a step: a required step (staging, committing,
/// tagging) that did not succeed stops it; a push that fails does not.
pub fn release_step_fails(step: &GitStep, succeeded: bool) -> (r: bool)
    ensures
        r == (step.required && !succeeded),
{
    step.required && !succeeded
}

/// The shape of a release: staging and committing the bump happen exactly
/// when the working tree has changes; then the only tag step, `git tag -a
/// v<version> -m <message or "Release v<version>">`; then the two pushes,
/// which alone are allowed to fail.
pub proof fn lemma_release_steps_shape(version: Seq<char>, message: Option<Seq<char>>, has_changes: bool)
    ensures
        ({
            let s = release_steps(version, message, has_changes);
            let tag = seq!['v'] + version;
            let msg = match message {
                Some(m) => m,
                None => "Release "@ + tag,
            };
            &&& s.len() == if has_changes { 5int } else { 3int }
            &&& s[s.len() - 3] == (seq!["tag"@, "-a"@, tag, "-m"@, msg], true)
            &&& s[s.len() - 2] == (seq!["push"@], false)
            &&& s[s.len() - 1] == (seq!["push"@, "origin"@, tag], false)
            &&& forall|i: int| 0 <= i < s.len() - 2 ==> #[trigger] s[i].1
            &&& has_changes ==> s[0] == (seq!["add"@, "Cargo.toml"@], true) && s[1] == (
                seq!["commit"@, "-m"@, "bump: version "@ + version],
                true,
            )
        }),
{
}

/// What a bump gives: it succeeds exactly when the version has three 32-bit
/// numbers and the bump type is `major`, `minor` or `patch`, and then raises
/// that number and resets the ones after it.
pub proof fn lemma_bump_values(name: Seq<char>, current: Seq<char>)
    ensures
        bumped(name, current) is Ok <==> (version_numbers(current) is Ok && bump_type_named(name)
            is Some),
        version_numbers(current) matches Ok((major, minor, patch)) ==> {
            &&& name == "major"@ ==> bumped(name, current) == Ok::<Seq<char>, BumpError>(
                version_text((major + 1) as nat, 0, 0),
            )
            &&& name == "minor"@ ==> bumped(name, current) == Ok::<Seq<char>, BumpError>(
                version_text(major as nat, (minor + 1) as nat, 0),
            )
            &&& name == "patch"@ ==> bumped(name, current) == Ok::<Seq<char>, BumpError>(
                version_text(major as nat, minor as nat, (patch + 1) as nat),
            )
        },
{
    reveal_strlit("major");
    reveal_strlit("minor");
    reveal_strlit("patch");
    assert("minor"@[1] != "major"@[1]);
    assert("patch"@[0] != "major"@[0]);
    assert("patch"@[0] != "minor"@[0]);
}

} // verus!
