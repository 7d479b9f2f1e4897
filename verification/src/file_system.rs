//! Which project files are present in the working directory.
use vstd::prelude::*;
use crate::text::{copy_text, string_views};

verus! {

/// Whether a file or directory exists at `path` (`Path::exists`). What it
/// returns depends on the file system, so nothing is stated of it.
#[verifier::external_body]
pub fn file_exists(path: &str) -> bool {
    std::path::Path::new(path).exists()
}

/// `seq![name]` when `present`, else the empty sequence.
pub open spec fn when(present: bool, name: Seq<char>) -> Seq<Seq<char>> {
    if present {
        seq![name]
    } else {
        seq![]
    }
}

/// The dependency manifests that are looked for, in order.
pub open spec fn manifest_file_names() -> Seq<Seq<char>> {
    seq!["package.json"@, "Cargo.toml"@, "requirements.txt"@, "composer.json"@]
}

/// The dependency manifests that are looked for: `package.json`,
/// `Cargo.toml`, `requirements.txt`, `composer.json`.
pub fn manifest_names() -> (r: Vec<String>)
    ensures
        string_views(r@) == manifest_file_names(),
{
    let mut r: Vec<String> = Vec::new();
    r.push(copy_text("package.json"));
    r.push(copy_text("Cargo.toml"));
    r.push(copy_text("requirements.txt"));
    r.push(copy_text("composer.json"));
    assert(string_views(r@) =~= manifest_file_names());
    r
}

/// The lock files that tell the Node.js package manager, in order of
/// preference.
pub open spec fn lock_file_names_of() -> Seq<Seq<char>> {
    seq!["pnpm-lock.yaml"@, "yarn.lock"@, "package-lock.json"@]
}

/// The lock files that tell the Node.js package manager: `pnpm-lock.yaml`,
/// `yarn.lock`, `package-lock.json`.
pub fn lock_file_names() -> (r: Vec<String>)
    ensures
        string_views(r@) == lock_file_names_of(),
{
    let mut r: Vec<String> = Vec::new();
    r.push(copy_text("pnpm-lock.yaml"));
    r.push(copy_text("yarn.lock"));
    r.push(copy_text("package-lock.json"));
    assert(string_views(r@) =~= lock_file_names_of());
    r
}

/// The dependency manifests that are present, in the order `package.json`,
/// `Cargo.toml`, `requirements.txt`, `composer.json`.
pub open spec fn present_manifests(
    package_json: bool,
    cargo_toml: bool,
    requirements_txt: bool,
    composer_json: bool,
) -> Seq<Seq<char>> {
    let n = manifest_file_names();
    when(package_json, n[0]) + when(cargo_toml, n[1]) + when(requirements_txt, n[2]) + when(
        composer_json,
        n[3],
    )
}

/// The dependency manifests among the four known ones, given which are present.
pub fn manifests_present(
    package_json: bool,
    cargo_toml: bool,
    requirements_txt: bool,
    composer_json: bool,
) -> (r: Vec<String>)
    ensures
        string_views(r@) == present_manifests(
            package_json,
            cargo_toml,
            requirements_txt,
            composer_json,
        ),
{
    let mut files: Vec<String> = Vec::new();
    if package_json {
        files.push(copy_text("package.json"));
    }
    if cargo_toml {
        files.push(copy_text("Cargo.toml"));
    }
    if requirements_txt {
        files.push(copy_text("requirements.txt"));
    }
    if composer_json {
        files.push(copy_text("composer.json"));
    }
    assert(string_views(files@) =~= present_manifests(
        package_json,
        cargo_toml,
        requirements_txt,
        composer_json,
    ));
    files
}

/// The dependency manifests present in the working directory: each of
/// `manifest_names` (probed in that order) that exists, in that order.
pub fn find_project_files() -> (r: Vec<String>)
    ensures
        exists|a: bool, b: bool, c: bool, d: bool|
            string_views(r@) == #[trigger] present_manifests(a, b, c, d),
{
    let names = manifest_names();
    assert(names@.len() == string_views(names@).len());
    let a = file_exists(names[0].as_str());
    let b = file_exists(names[1].as_str());
    let c = file_exists(names[2].as_str());
    let d = file_exists(names[3].as_str());
    manifests_present(a, b, c, d)
}

/// The Node.js package manager a lock file points to, the first present of
/// `pnpm-lock.yaml` (pnpm), `yarn.lock` (yarn), `package-lock.json` (npm).
pub open spec fn lock_file_manager(pnpm_lock: bool, yarn_lock: bool, npm_lock: bool) -> Option<
    Seq<char>,
> {
    if pnpm_lock {
        Some("pnpm"@)
    } else if yarn_lock {
        Some("yarn"@)
    } else if npm_lock {
        Some("npm"@)
    } else {
        None
    }
}

/// The package manager named by the lock files present.
pub fn package_manager_for_lock_files(pnpm_lock: bool, yarn_lock: bool, npm_lock: bool) -> (r:
    Option<String>)
    ensures
        match r {
            Some(s) => lock_file_manager(pnpm_lock, yarn_lock, npm_lock) == Some(s@),
            None => lock_file_manager(pnpm_lock, yarn_lock, npm_lock) is None,
        },
{
    if pnpm_lock {
        Some(copy_text("pnpm"))
    } else if yarn_lock {
        Some(copy_text("yarn"))
    } else if npm_lock {
        Some(copy_text("npm"))
    } else {
        None
    }
}

/// The Node.js package manager that the lock files in the working directory
/// point to: each of `lock_file_names` is probed, in that order, and the
/// first present one decides.
pub fn detect_node_package_manager() -> (r: Option<String>)
    ensures
        exists|a: bool, b: bool, c: bool|
            match r {
                Some(s) => #[trigger] lock_file_manager(a, b, c) == Some(s@),
                None => #[trigger] lock_file_manager(a, b, c) is None,
            },
{
    let names = lock_file_names();
    assert(names@.len() == string_views(names@).len());
    let a = file_exists(names[0].as_str());
    let b = file_exists(names[1].as_str());
    let c = file_exists(names[2].as_str());
    package_manager_for_lock_files(a, b, c)
}

/// The Node.js package manager for dependency updates: the one a lock file
/// points to, else the first available of pnpm, yarn, npm.
pub open spec fn node_manager_choice(
    pnpm_lock: bool,
    yarn_lock: bool,
    npm_lock: bool,
    pnpm_available: bool,
    yarn_available: bool,
    npm_available: bool,
) -> Option<Seq<char>> {
    match lock_file_manager(pnpm_lock, yarn_lock, npm_lock) {
        Some(m) => Some(m),
        None => lock_file_manager(pnpm_available, yarn_available, npm_available),
    }
}

/// The package manager for dependency updates, given which lock files are
/// present and which commands are available.
pub fn choose_node_package_manager(
    pnpm_lock: bool,
    yarn_lock: bool,
    npm_lock: bool,
    pnpm_available: bool,
    yarn_available: bool,
    npm_available: bool,
) -> (r: Option<String>)
    ensures
        match r {
            Some(s) => node_manager_choice(
                pnpm_lock,
                yarn_lock,
                npm_lock,
                pnpm_available,
                yarn_available,
                npm_available,
            ) == Some(s@),
            None => node_manager_choice(
                pnpm_lock,
                yarn_lock,
                npm_lock,
                pnpm_available,
                yarn_available,
                npm_available,
            ) is None,
        },
{
    match package_manager_for_lock_files(pnpm_lock, yarn_lock, npm_lock) {
        Some(m) => Some(m),
        None => package_manager_for_lock_files(pnpm_available, yarn_available, npm_available),
    }
}

} // verus!
