//! Code quality checks: what kind of project a directory holds, which
//! checks suit it, and the summary of their results.
use vstd::prelude::*;
use crate::json::{json_member, keys_of, member, member_keys, JsonValue, JsonView};
use crate::text::{chars_of, copy_text, ends_with_exec, string_views, text_eq, ends_with};

verus! {

/// Options of a quality run.
#[derive(Debug)]
pub struct CodeQualityConfig {
    pub enabled_checks: Vec<String>,
    pub skip_dependencies: bool,
    pub max_parallel_jobs: usize,
    pub timeout_seconds: u64,
}

impl Default for CodeQualityConfig {
    /// Lint, format, security and test checks, four jobs, five minutes.
    fn default() -> (r: Self)
        ensures
            string_views(r.enabled_checks@) == seq!["lint"@, "format"@, "security"@, "test"@],
            !r.skip_dependencies,
            r.max_parallel_jobs == 4,
            r.timeout_seconds == 300,
    {
        let mut checks: Vec<String> = Vec::new();
        checks.push(copy_text("lint"));
        checks.push(copy_text("format"));
        checks.push(copy_text("security"));
        checks.push(copy_text("test"));
        assert(string_views(checks@) =~= seq!["lint"@, "format"@, "security"@, "test"@]);
        CodeQualityConfig {
            enabled_checks: checks,
            skip_dependencies: false,
            max_parallel_jobs: 4,
            timeout_seconds: 300,
        }
    }
}

/// The kind of project.
#[derive(Debug, Clone, Copy, PartialEq, Eq, Structural)]
pub enum ProjectType {
    NextJs,
    Angular,
    React,
    Vue,
    NodeJs,
    TypeScript,
    JavaScript,
    Rust,
    Python,
    Unknown,
}

/// The package manager of a project.
#[derive(Debug, Clone, Copy, PartialEq, Eq, Structural)]
pub enum PackageManager {
    Npm,
    Yarn,
    Pnpm,
    Bun,
    Cargo,
    Pip,
    Unknown,
}

/// What was found out about a project.
#[derive(Debug)]
pub struct ProjectInfo {
    pub project_type: ProjectType,
    pub package_manager: PackageManager,
    pub root_path: String,
    pub config_files: Vec<String>,
    pub has_typescript: bool,
    pub frameworks: Vec<String>,
}

/// The model of project information.
pub struct InfoView {
    pub project_type: ProjectType,
    pub package_manager: PackageManager,
    pub root_path: Seq<char>,
    pub config_files: Seq<Seq<char>>,
    pub has_typescript: bool,
    pub frameworks: Seq<Seq<char>>,
}

impl View for ProjectInfo {
    type V = InfoView;

    open spec fn view(&self) -> InfoView {
        InfoView {
            project_type: self.project_type,
            package_manager: self.package_manager,
            root_path: self.root_path@,
            config_files: string_views(self.config_files@),
            has_typescript: self.has_typescript,
            frameworks: string_views(self.frameworks@),
        }
    }
}

/// One check to run: a named command with its arguments, run in a
/// directory with a time limit in seconds.
#[derive(Debug)]
pub struct QualityCheck {
    pub name: String,
    pub command: String,
    pub args: Vec<String>,
    pub working_dir: String,
    pub timeout: u64,
}

/// The model of a check: name, command, arguments, directory, time limit.
pub type CheckView = (Seq<char>, Seq<char>, Seq<Seq<char>>, Seq<char>, u64);

impl View for QualityCheck {
    type V = CheckView;

    open spec fn view(&self) -> CheckView {
        (self.name@, self.command@, string_views(self.args@), self.working_dir@, self.timeout)
    }
}

/// The views of a list of checks.
pub open spec fn check_views(v: Seq<QualityCheck>) -> Seq<CheckView> {
    v.map_values(|c: QualityCheck| c@)
}

/// The outcome of one check.
#[derive(Debug)]
pub struct CheckResult {
    pub check_name: String,
    pub success: bool,
    pub output: String,
    pub error: Option<String>,
    pub duration_ms: u128,
}

/// Chooses and summarises the quality checks of a project.
pub struct CodeQualityManager {
    pub config: CodeQualityConfig,
}

/// Whether a file name is among those present.
pub open spec fn has_file(present: Seq<Seq<char>>, name: Seq<char>) -> bool {
    present.contains(name)
}

/// Whether `name` is among the present file names.
pub fn file_present(present: &Vec<String>, name: &str) -> (r: bool)
    ensures
        r == has_file(string_views(present@), name@),
{
    let ghost ps = string_views(present@);
    let mut i: usize = 0;
    while i < present.len()
        invariant
            i <= present.len(),
            ps == string_views(present@),
            forall|j: int| 0 <= j < i ==> ps[j] != name@,
        decreases present.len() - i,
    {
        if text_eq(present[i].as_str(), name) {
            assert(ps[i as int] == name@);
            return true;
        }
        i += 1;
    }
    assert(!ps.contains(name@)) by {
        if ps.contains(name@) {
            let j = choose|j: int| 0 <= j < ps.len() && ps[j] == name@;
            assert(ps[j] != name@);
        }
    }
    false
}

/// The package manager told by the first lock or manifest file present, in
/// the order npm, Yarn, pnpm, Bun, Cargo, then pip (`requirements.txt`,
/// `pyproject.toml`, `poetry.lock`).
pub open spec fn pm_from(present: Seq<Seq<char>>) -> PackageManager {
    if has_file(present, "package-lock.json"@) {
        PackageManager::Npm
    } else if has_file(present, "yarn.lock"@) {
        PackageManager::Yarn
    } else if has_file(present, "pnpm-lock.yaml"@) {
        PackageManager::Pnpm
    } else if has_file(present, "bun.lockb"@) {
        PackageManager::Bun
    } else if has_file(present, "Cargo.toml"@) {
        PackageManager::Cargo
    } else if has_file(present, "requirements.txt"@) || has_file(present, "pyproject.toml"@)
        || has_file(present, "poetry.lock"@) {
        PackageManager::Pip
    } else {
        PackageManager::Unknown
    }
}

/// Project kind, frameworks and TypeScript use as detection goes along.
pub struct Detection {
    pub project_type: ProjectType,
    pub frameworks: Seq<Seq<char>>,
    pub has_typescript: bool,
}

/// What one dependency name tells: Next.js, Angular, React (unless a kind
/// is known already), Vue, or TypeScript.
pub open spec fn dep_step(d: Detection, name: Seq<char>) -> Detection {
    if name == "next"@ {
        Detection { project_type: ProjectType::NextJs, frameworks: d.frameworks.push("Next.js"@), ..d }
    } else if name == "@angular/core"@ {
        Detection { project_type: ProjectType::Angular, frameworks: d.frameworks.push("Angular"@), ..d }
    } else if name == "react"@ {
        Detection {
            project_type: if d.project_type == ProjectType::Unknown {
                ProjectType::React
            } else {
                d.project_type
            },
            frameworks: d.frameworks.push("React"@),
            ..d
        }
    } else if name == "vue"@ {
        Detection { project_type: ProjectType::Vue, frameworks: d.frameworks.push("Vue"@), ..d }
    } else if name == "typescript"@ {
        Detection { has_typescript: true, ..d }
    } else {
        d
    }
}

/// What the dependency names tell, read in order.
pub open spec fn deps_fold(d: Detection, names: Seq<Seq<char>>) -> Detection
    decreases names.len(),
{
    if names.len() == 0 {
        d
    } else {
        dep_step(deps_fold(d, names.drop_last()), names.last())
    }
}

/// The dependency names of a `package.json` section (none when it is not
/// an object).
pub open spec fn section_names(doc: JsonView, key: Seq<char>) -> Seq<Seq<char>> {
    match json_member(doc, key) {
        Some(v) => if v is Object { member_keys(v) } else { seq![] },
        None => seq![],
    }
}

/// What a `package.json` document tells: its dependencies, then its
/// development dependencies; a project with scripts or a main entry and no
/// known kind is a Node.js project.
pub open spec fn analyzed(doc: JsonView, d: Detection) -> Detection {
    let d1 = deps_fold(
        deps_fold(d, section_names(doc, "dependencies"@)),
        section_names(doc, "devDependencies"@),
    );
    if d1.project_type == ProjectType::Unknown && (json_member(doc, "scripts"@) is Some
        || json_member(doc, "main"@) is Some) {
        Detection { project_type: ProjectType::NodeJs, ..d1 }
    } else {
        d1
    }
}

/// Detection for a project that is not a Rust project: Python files; then
/// TypeScript configuration; then `package.json`; then Angular and Next.js
/// configuration; and a `package.json` project of no known kind is a
/// TypeScript or JavaScript project.
pub open spec fn detection(present: Seq<Seq<char>>, pkg: Option<JsonView>) -> Detection {
    let d3 = detection_through_package(present, pkg);
    let d4 = if has_file(present, "angular.json"@) {
        Detection { project_type: ProjectType::Angular, frameworks: d3.frameworks.push("Angular"@), ..d3 }
    } else {
        d3
    };
    let d5 = if has_file(present, "next.config.js"@) || has_file(present, "next.config.ts"@) {
        Detection { project_type: ProjectType::NextJs, frameworks: d4.frameworks.push("Next.js"@), ..d4 }
    } else {
        d4
    };
    if d5.project_type == ProjectType::Unknown && has_file(present, "package.json"@) {
        Detection {
            project_type: if d5.has_typescript {
                ProjectType::TypeScript
            } else {
                ProjectType::JavaScript
            },
            ..d5
        }
    } else {
        d5
    }
}

/// Detection up to and including `package.json`.
pub open spec fn detection_through_package(present: Seq<Seq<char>>, pkg: Option<JsonView>) -> Detection {
    let d0 = Detection { project_type: ProjectType::Unknown, frameworks: seq![], has_typescript: false };
    let d1 = if has_file(present, "requirements.txt"@) || has_file(present, "pyproject.toml"@)
        || has_file(present, "setup.py"@) || has_file(present, "poetry.lock"@) {
        Detection { project_type: ProjectType::Python, frameworks: seq!["Python"@], ..d0 }
    } else {
        d0
    };
    let d2 = if has_file(present, "tsconfig.json"@) || has_file(present, "tsconfig.base.json"@) {
        Detection {
            has_typescript: true,
            project_type: if d1.project_type == ProjectType::Unknown {
                ProjectType::TypeScript
            } else {
                d1.project_type
            },
            ..d1
        }
    } else {
        d1
    };
    match pkg {
        Some(doc) => analyzed(doc, d2),
        None => d2,
    }
}

/// `Path::join` of a directory and a relative file name.
pub open spec fn joined(root: Seq<char>, name: Seq<char>) -> Seq<char> {
    if root.len() == 0 {
        name
    } else if ends_with(root, seq!['/']) {
        root + name
    } else {
        root + seq!['/'] + name
    }
}

/// The configuration files looked for, in order.
pub open spec fn config_file_names() -> Seq<Seq<char>> {
    seq![".eslintrc.js"@, ".eslintrc.json"@, ".eslintrc.yaml"@, ".prettierrc"@, ".prettierrc.json"@, ".prettierrc.js"@, "tsconfig.json"@, "jest.config.js"@, "webpack.config.js"@, "vite.config.js"@, "vite.config.ts"@, "tailwind.config.js"@, "next.config.js"@, "angular.json"@, ".gitignore"@, "Dockerfile"@]
}

/// The paths of the names that are present, in order.
pub open spec fn present_paths(root: Seq<char>, names: Seq<Seq<char>>, present: Seq<Seq<char>>) -> Seq<
    Seq<char>,
>
    decreases names.len(),
{
    if names.len() == 0 {
        seq![]
    } else if has_file(present, names.last()) {
        present_paths(root, names.drop_last(), present).push(joined(root, names.last()))
    } else {
        present_paths(root, names.drop_last(), present)
    }
}

/// What detection finds in directory `root` holding the files `present`,
/// with `pkg` the parsed `package.json` when it could be read: a Rust
/// project as soon as `Cargo.toml` is there (with no configuration files
/// listed); otherwise as `detection` says, with the configuration files
/// present.
pub open spec fn project_view(root: Seq<char>, present: Seq<Seq<char>>, pkg: Option<JsonView>) -> InfoView {
    if has_file(present, "Cargo.toml"@) {
        InfoView {
            project_type: ProjectType::Rust,
            package_manager: pm_from(present),
            root_path: root,
            config_files: seq![],
            has_typescript: false,
            frameworks: seq!["Rust"@],
        }
    } else {
        let d = detection(present, pkg);
        InfoView {
            project_type: d.project_type,
            package_manager: pm_from(present),
            root_path: root,
            config_files: present_paths(root, config_file_names(), present),
            has_typescript: d.has_typescript,
            frameworks: d.frameworks,
        }
    }
}

/// The model of an optional JSON value.
pub open spec fn opt_model(v: Option<&JsonValue>) -> Option<JsonView> {
    match v {
        Some(x) => Some(x.model()),
        None => None,
    }
}

/// A directory joined with a relative file name.
pub fn join_path(root: &str, name: &str) -> (r: String)
    ensures
        r@ == joined(root@, name@),
{
    let rc = chars_of(root);
    let slash = vec!['/'];
    assert(slash@ =~= seq!['/']);
    let mut r = copy_text(root);
    if rc.len() == 0 {
        return copy_text(name);
    } else if !ends_with_exec(&rc, &slash) {
        crate::text::push_char(&mut r, '/');
    }
    crate::text::push_text(&mut r, name);
    r
}

impl CodeQualityManager {
    /// A manager with the given options.
    pub fn new(config: CodeQualityConfig) -> (r: Self)
        ensures
            r.config == config,
    {
        CodeQualityManager { config }
    }

    /// The package manager told by the files present.
    pub fn package_manager_from_files(present: &Vec<String>) -> (r: PackageManager)
        ensures
            r == pm_from(string_views(present@)),
    {
        if file_present(present, "package-lock.json") {
            PackageManager::Npm
        } else if file_present(present, "yarn.lock") {
            PackageManager::Yarn
        } else if file_present(present, "pnpm-lock.yaml") {
            PackageManager::Pnpm
        } else if file_present(present, "bun.lockb") {
            PackageManager::Bun
        } else if file_present(present, "Cargo.toml") {
            PackageManager::Cargo
        } else if file_present(present, "requirements.txt") || file_present(
            present,
            "pyproject.toml",
        ) || file_present(present, "poetry.lock") {
            PackageManager::Pip
        } else {
            PackageManager::Unknown
        }
    }

    /// Applies the dependency names of a `package.json` section.
    fn apply_dependency_names(
        names: &Vec<String>,
        project_type: &mut ProjectType,
        frameworks: &mut Vec<String>,
        has_typescript: &mut bool,
    )
        ensures
            ({
                let d = deps_fold(
                    Detection {
                        project_type: *old(project_type),
                        frameworks: string_views(old(frameworks)@),
                        has_typescript: *old(has_typescript),
                    },
                    string_views(names@),
                );
                &&& *final(project_type) == d.project_type
                &&& string_views(final(frameworks)@) == d.frameworks
                &&& *final(has_typescript) == d.has_typescript
            }),
    {
        let ghost start = Detection {
            project_type: *project_type,
            frameworks: string_views(frameworks@),
            has_typescript: *has_typescript,
        };
        let ghost ns = string_views(names@);
        let mut i: usize = 0;
        assert(ns.take(0) =~= seq![]);
        while i < names.len()
            invariant
                i <= names.len(),
                ns == string_views(names@),
                ({
                    let d = deps_fold(start, ns.take(i as int));
                    &&& *project_type == d.project_type
                    &&& string_views(frameworks@) == d.frameworks
                    &&& *has_typescript == d.has_typescript
                }),
            decreases names.len() - i,
        {
            assert(ns.take(i + 1).drop_last() =~= ns.take(i as int));
            assert(ns.take(i + 1).last() == names@[i as int]@);
            let name = names[i].as_str();
            let ghost before = string_views(frameworks@);
            if text_eq(name, "next") {
                *project_type = ProjectType::NextJs;
                frameworks.push(copy_text("Next.js"));
            } else if text_eq(name, "@angular/core") {
                *project_type = ProjectType::Angular;
                frameworks.push(copy_text("Angular"));
            } else if text_eq(name, "react") {
                if *project_type == ProjectType::Unknown {
                    *project_type = ProjectType::React;
                }
                frameworks.push(copy_text("React"));
            } else if text_eq(name, "vue") {
                *project_type = ProjectType::Vue;
                frameworks.push(copy_text("Vue"));
            } else if text_eq(name, "typescript") {
                *has_typescript = true;
            }
            assert(string_views(frameworks@) =~= deps_fold(start, ns.take(i + 1)).frameworks);
            i += 1;
        }
        assert(ns.take(i as int) =~= ns);
    }

    /// The dependency names of a `package.json` section.
    fn section_dependency_names(doc: &JsonValue, key: &str) -> (r: Vec<String>)
        ensures
            string_views(r@) == section_names(doc.model(), key@),
    {
        match member(doc, key) {
            Some(v) => match v {
                JsonValue::Object(_) => keys_of(v),
                _ => Vec::new(),
            },
            None => Vec::new(),
        }
    }

    /// What a `package.json` document tells about a project.
    pub fn analyze_package_json(&self, package_json: &JsonValue, project_info: ProjectInfo) -> (r:
        ProjectInfo)
        ensures
            ({
                let d = analyzed(
                    package_json.model(),
                    Detection {
                        project_type: project_info.project_type,
                        frameworks: string_views(project_info.frameworks@),
                        has_typescript: project_info.has_typescript,
                    },
                );
                &&& r.project_type == d.project_type
                &&& string_views(r.frameworks@) == d.frameworks
                &&& r.has_typescript == d.has_typescript
                &&& r.package_manager == project_info.package_manager
                &&& r.root_path == project_info.root_path
                &&& r.config_files == project_info.config_files
            }),
    {
        let mut info = project_info;
        let deps = Self::section_dependency_names(package_json, "dependencies");
        Self::apply_dependency_names(
            &deps,
            &mut info.project_type,
            &mut info.frameworks,
            &mut info.has_typescript,
        );
        let dev = Self::section_dependency_names(package_json, "devDependencies");
        Self::apply_dependency_names(
            &dev,
            &mut info.project_type,
            &mut info.frameworks,
            &mut info.has_typescript,
        );
        if info.project_type == ProjectType::Unknown && (member(package_json, "scripts").is_some()
            || member(package_json, "main").is_some()) {
            info.project_type = ProjectType::NodeJs;
        }
        info
    }

    /// The configuration files present in `path`, as paths.
    pub fn find_config_files(&self, path: &str, present: &Vec<String>) -> (r: Vec<String>)
        ensures
            string_views(r@) == present_paths(path@, config_file_names(), string_views(present@)),
    {
        let mut names: Vec<String> = Vec::new();
        names.push(copy_text(".eslintrc.js"));
        names.push(copy_text(".eslintrc.json"));
        names.push(copy_text(".eslintrc.yaml"));
        names.push(copy_text(".prettierrc"));
        names.push(copy_text(".prettierrc.json"));
        names.push(copy_text(".prettierrc.js"));
        names.push(copy_text("tsconfig.json"));
        names.push(copy_text("jest.config.js"));
        names.push(copy_text("webpack.config.js"));
        names.push(copy_text("vite.config.js"));
        names.push(copy_text("vite.config.ts"));
        names.push(copy_text("tailwind.config.js"));
        names.push(copy_text("next.config.js"));
        names.push(copy_text("angular.json"));
        names.push(copy_text(".gitignore"));
        names.push(copy_text("Dockerfile"));
        assert(string_views(names@) =~= config_file_names());
        let ghost ns = string_views(names@);
        let mut r: Vec<String> = Vec::new();
        let mut i: usize = 0;
        assert(ns.take(0) =~= seq![]);
        assert(string_views(r@) =~= seq![]);
        while i < names.len()
            invariant
                i <= names.len(),
                ns == string_views(names@),
                string_views(r@) == present_paths(path@, ns.take(i as int), string_views(present@)),
            decreases names.len() - i,
        {
            assert(ns.take(i + 1).drop_last() =~= ns.take(i as int));
            assert(ns.take(i + 1).last() == names@[i as int]@);
            if file_present(present, names[i].as_str()) {
                let ghost before = string_views(r@);
                r.push(join_path(path, names[i].as_str()));
                assert(string_views(r@) =~= before.push(joined(path@, names@[i as int]@)));
            }
            i += 1;
        }
        assert(ns.take(i as int) =~= ns);
        r
    }

    /// What kind of project directory `path` holds, given the names of the
    /// files present in it and its parsed `package.json`, if any.
    pub fn detect_project_type(
        &self,
        path: &str,
        present: &Vec<String>,
        package_json: Option<&JsonValue>,
    ) -> (r: ProjectInfo)
        ensures
            r@ == project_view(path@, string_views(present@), opt_model(package_json)),
    {
        let pm = Self::package_manager_from_files(present);
        let ghost ps = string_views(present@);
        let ghost pkg = opt_model(package_json);
        if file_present(present, "Cargo.toml") {
            let mut fw: Vec<String> = Vec::new();
            fw.push(copy_text("Rust"));
            let info = ProjectInfo {
                project_type: ProjectType::Rust,
                package_manager: pm,
                root_path: copy_text(path),
                config_files: Vec::new(),
                has_typescript: false,
                frameworks: fw,
            };
            assert(info@.frameworks =~= seq!["Rust"@]);
            assert(info@.config_files =~= Seq::<Seq<char>>::empty());
            return info;
        }
        let mut info = ProjectInfo {
            project_type: ProjectType::Unknown,
            package_manager: pm,
            root_path: copy_text(path),
            config_files: Vec::new(),
            has_typescript: false,
            frameworks: Vec::new(),
        };
        let ghost d0 = Detection {
            project_type: ProjectType::Unknown,
            frameworks: seq![],
            has_typescript: false,
        };
        assert(string_views(info.frameworks@) =~= d0.frameworks);
        if file_present(present, "requirements.txt") || file_present(present, "pyproject.toml")
            || file_present(present, "setup.py") || file_present(present, "poetry.lock") {
            info.project_type = ProjectType::Python;
            info.frameworks.push(copy_text("Python"));
            assert(string_views(info.frameworks@) =~= seq!["Python"@]);
        }
        let ghost d1 = if has_file(ps, "requirements.txt"@) || has_file(ps, "pyproject.toml"@)
            || has_file(ps, "setup.py"@) || has_file(ps, "poetry.lock"@) {
            Detection { project_type: ProjectType::Python, frameworks: seq!["Python"@], ..d0 }
        } else {
            d0
        };
        assert(info.project_type == d1.project_type && string_views(info.frameworks@)
            == d1.frameworks && info.has_typescript == d1.has_typescript);
        if file_present(present, "tsconfig.json") || file_present(present, "tsconfig.base.json") {
            info.has_typescript = true;
            if info.project_type == ProjectType::Unknown {
                info.project_type = ProjectType::TypeScript;
            }
        }
        match package_json {
            Some(doc) => {
                info = self.analyze_package_json(doc, info);
            },
            None => {},
        }
        let ghost d3 = detection_through_package(ps, pkg);
        assert(info.project_type == d3.project_type && string_views(info.frameworks@)
            == d3.frameworks && info.has_typescript == d3.has_typescript);
        if file_present(present, "angular.json") {
            let ghost before = string_views(info.frameworks@);
            info.project_type = ProjectType::Angular;
            info.frameworks.push(copy_text("Angular"));
            assert(string_views(info.frameworks@) =~= before.push("Angular"@));
        }
        if file_present(present, "next.config.js") || file_present(present, "next.config.ts") {
            let ghost before = string_views(info.frameworks@);
            info.project_type = ProjectType::NextJs;
            info.frameworks.push(copy_text("Next.js"));
            assert(string_views(info.frameworks@) =~= before.push("Next.js"@));
        }
        if info.project_type == ProjectType::Unknown && file_present(present, "package.json") {
            if info.has_typescript {
                info.project_type = ProjectType::TypeScript;
            } else {
                info.project_type = ProjectType::JavaScript;
            }
        }
        let ghost d = detection(ps, pkg);
        assert(info.project_type == d.project_type && string_views(info.frameworks@)
            == d.frameworks && info.has_typescript == d.has_typescript);
        info.config_files = self.find_config_files(path, present);
        info
    }
}


/// The command of a package manager (`npm` for an unknown one).
pub open spec fn pm_command(pm: PackageManager) -> Seq<char> {
    match pm {
        PackageManager::Npm => "npm"@,
        PackageManager::Yarn => "yarn"@,
        PackageManager::Pnpm => "pnpm"@,
        PackageManager::Bun => "bun"@,
        PackageManager::Cargo => "cargo"@,
        PackageManager::Pip => "pip"@,
        PackageManager::Unknown => "npm"@,
    }
}

/// Python checks: flake8, black, pytest and bandit.
pub open spec fn python_checks(root: Seq<char>, t: u64) -> Seq<CheckView> {
    seq![
        ("lint"@, "flake8"@, seq!["."@], root, t),
        ("format"@, "black"@, seq!["--check"@, "."@], root, t),
        ("test"@, "pytest"@, seq![], root, t),
        ("security"@, "bandit"@, seq!["-r"@, "."@], root, t),
    ]
}

/// Front-end checks with the package manager's command: lint, type check
/// (TypeScript projects only), test and audit.
pub open spec fn frontend_checks(pm: Seq<char>, ts: bool, root: Seq<char>, t: u64) -> Seq<CheckView> {
    seq![("lint"@, pm, seq!["run"@, "lint"@], root, t)] + if ts {
        seq![("typecheck"@, pm, seq!["run"@, "type-check"@], root, t)]
    } else {
        seq![]
    } + seq![("test"@, pm, seq!["test"@], root, t), ("security"@, pm, seq!["audit"@], root, t)]
}

/// Node.js checks with the package manager's command: lint, test, audit.
pub open spec fn nodejs_checks(pm: Seq<char>, root: Seq<char>, t: u64) -> Seq<CheckView> {
    seq![
        ("lint"@, pm, seq!["run"@, "lint"@], root, t),
        ("test"@, pm, seq!["test"@], root, t),
        ("security"@, pm, seq!["audit"@], root, t),
    ]
}

/// Rust checks: rustfmt, clippy with warnings denied, and the tests.
pub open spec fn rust_checks(root: Seq<char>, t: u64) -> Seq<CheckView> {
    seq![
        ("format"@, "cargo"@, seq!["fmt"@, "--check"@], root, t),
        ("lint"@, "cargo"@, seq!["clippy"@, "--"@, "-D"@, "warnings"@], root, t),
        ("test"@, "cargo"@, seq!["test"@], root, t),
    ]
}

/// The fallback check.
pub open spec fn basic_checks(root: Seq<char>, t: u64) -> Seq<CheckView> {
    seq![("validate"@, "echo"@, seq!["Basic validation completed"@], root, t)]
}

/// The checks that suit a project: front-end checks for Next.js, React,
/// Angular and Vue; Node.js checks for Node.js, TypeScript and JavaScript;
/// Rust and Python checks; the fallback otherwise.
pub open spec fn checks_for(info: InfoView, t: u64) -> Seq<CheckView> {
    let pm = pm_command(info.package_manager);
    match info.project_type {
        ProjectType::NextJs | ProjectType::React | ProjectType::Angular | ProjectType::Vue => {
            frontend_checks(pm, info.has_typescript, info.root_path, t)
        },
        ProjectType::NodeJs | ProjectType::TypeScript | ProjectType::JavaScript => {
            nodejs_checks(pm, info.root_path, t)
        },
        ProjectType::Rust => rust_checks(info.root_path, t),
        ProjectType::Python => python_checks(info.root_path, t),
        ProjectType::Unknown => basic_checks(info.root_path, t),
    }
}

/// One word.
fn words1(a: &str) -> (r: Vec<String>)
    ensures
        string_views(r@) == seq![a@],
{
    let mut r: Vec<String> = Vec::new();
    r.push(copy_text(a));
    assert(string_views(r@) =~= seq![a@]);
    r
}

/// Two words.
fn words2(a: &str, b: &str) -> (r: Vec<String>)
    ensures
        string_views(r@) == seq![a@, b@],
{
    let mut r: Vec<String> = Vec::new();
    r.push(copy_text(a));
    r.push(copy_text(b));
    assert(string_views(r@) =~= seq![a@, b@]);
    r
}

/// Four words.
fn words4(a: &str, b: &str, c: &str, d: &str) -> (r: Vec<String>)
    ensures
        string_views(r@) == seq![a@, b@, c@, d@],
{
    let mut r: Vec<String> = Vec::new();
    r.push(copy_text(a));
    r.push(copy_text(b));
    r.push(copy_text(c));
    r.push(copy_text(d));
    assert(string_views(r@) =~= seq![a@, b@, c@, d@]);
    r
}

/// A check.
fn check(name: &str, command: &str, args: Vec<String>, dir: &str, timeout: u64) -> (r: QualityCheck)
    ensures
        r@ == (name@, command@, string_views(args@), dir@, timeout),
{
    QualityCheck {
        name: copy_text(name),
        command: copy_text(command),
        args,
        working_dir: copy_text(dir),
        timeout,
    }
}

impl CodeQualityManager {
    /// The command of a package manager.
    pub fn get_package_manager_command(&self, pm: &PackageManager) -> (r: String)
        ensures
            r@ == pm_command(*pm),
    {
        match pm {
            PackageManager::Npm => copy_text("npm"),
            PackageManager::Yarn => copy_text("yarn"),
            PackageManager::Pnpm => copy_text("pnpm"),
            PackageManager::Bun => copy_text("bun"),
            PackageManager::Cargo => copy_text("cargo"),
            PackageManager::Pip => copy_text("pip"),
            PackageManager::Unknown => copy_text("npm"),
        }
    }

    /// The Python checks of a project.
    pub fn generate_python_checks(&self, project_info: &ProjectInfo) -> (r: Vec<QualityCheck>)
        ensures
            check_views(r@) == python_checks(project_info.root_path@, self.config.timeout_seconds),
    {
        let t = self.config.timeout_seconds;
        let root = project_info.root_path.as_str();
        let mut v: Vec<QualityCheck> = Vec::new();
        v.push(check("lint", "flake8", words1("."), root, t));
        v.push(check("format", "black", words2("--check", "."), root, t));
        let none: Vec<String> = Vec::new();
        assert(string_views(none@) =~= Seq::<Seq<char>>::empty());
        v.push(check("test", "pytest", none, root, t));
        v.push(check("security", "bandit", words2("-r", "."), root, t));
        assert(check_views(v@) =~~= python_checks(project_info.root_path@, t));
        v
    }

    /// The front-end checks of a project.
    pub fn generate_frontend_checks(&self, project_info: &ProjectInfo) -> (r: Vec<QualityCheck>)
        ensures
            check_views(r@) == frontend_checks(
                pm_command(project_info.package_manager),
                project_info.has_typescript,
                project_info.root_path@,
                self.config.timeout_seconds,
            ),
    {
        let t = self.config.timeout_seconds;
        let root = project_info.root_path.as_str();
        let pm = self.get_package_manager_command(&project_info.package_manager);
        let mut v: Vec<QualityCheck> = Vec::new();
        v.push(check("lint", pm.as_str(), words2("run", "lint"), root, t));
        if project_info.has_typescript {
            v.push(check("typecheck", pm.as_str(), words2("run", "type-check"), root, t));
        }
        v.push(check("test", pm.as_str(), words1("test"), root, t));
        v.push(check("security", pm.as_str(), words1("audit"), root, t));
        assert(check_views(v@) =~~= frontend_checks(
            pm_command(project_info.package_manager),
            project_info.has_typescript,
            project_info.root_path@,
            t,
        ));
        v
    }

    /// The Node.js checks of a project.
    pub fn generate_nodejs_checks(&self, project_info: &ProjectInfo) -> (r: Vec<QualityCheck>)
        ensures
            check_views(r@) == nodejs_checks(
                pm_command(project_info.package_manager),
                project_info.root_path@,
                self.config.timeout_seconds,
            ),
    {
        let t = self.config.timeout_seconds;
        let root = project_info.root_path.as_str();
        let pm = self.get_package_manager_command(&project_info.package_manager);
        let mut v: Vec<QualityCheck> = Vec::new();
        v.push(check("lint", pm.as_str(), words2("run", "lint"), root, t));
        v.push(check("test", pm.as_str(), words1("test"), root, t));
        v.push(check("security", pm.as_str(), words1("audit"), root, t));
        assert(check_views(v@) =~~= nodejs_checks(
            pm_command(project_info.package_manager),
            project_info.root_path@,
            t,
        ));
        v
    }

    /// The Rust checks of a project.
    pub fn generate_rust_checks(&self, project_info: &ProjectInfo) -> (r: Vec<QualityCheck>)
        ensures
            check_views(r@) == rust_checks(project_info.root_path@, self.config.timeout_seconds),
    {
        let t = self.config.timeout_seconds;
        let root = project_info.root_path.as_str();
        let mut v: Vec<QualityCheck> = Vec::new();
        v.push(check("format", "cargo", words2("fmt", "--check"), root, t));
        v.push(check("lint", "cargo", words4("clippy", "--", "-D", "warnings"), root, t));
        v.push(check("test", "cargo", words1("test"), root, t));
        assert(check_views(v@) =~~= rust_checks(project_info.root_path@, t));
        v
    }

    /// The fallback check of a project.
    pub fn generate_basic_checks(&self, project_info: &ProjectInfo) -> (r: Vec<QualityCheck>)
        ensures
            check_views(r@) == basic_checks(project_info.root_path@, self.config.timeout_seconds),
    {
        let t = self.config.timeout_seconds;
        let mut v: Vec<QualityCheck> = Vec::new();
        v.push(
            check(
                "validate",
                "echo",
                words1("Basic validation completed"),
                project_info.root_path.as_str(),
                t,
            ),
        );
        assert(check_views(v@) =~~= basic_checks(project_info.root_path@, t));
        v
    }

    /// The checks that suit a project.
    pub fn generate_quality_checks(&self, project_info: &ProjectInfo) -> (r: Vec<QualityCheck>)
        ensures
            check_views(r@) == checks_for(project_info@, self.config.timeout_seconds),
    {
        match project_info.project_type {
            ProjectType::NextJs | ProjectType::React | ProjectType::Angular | ProjectType::Vue => {
                self.generate_frontend_checks(project_info)
            },
            ProjectType::NodeJs | ProjectType::TypeScript | ProjectType::JavaScript => {
                self.generate_nodejs_checks(project_info)
            },
            ProjectType::Rust => self.generate_rust_checks(project_info),
            ProjectType::Python => self.generate_python_checks(project_info),
            ProjectType::Unknown => self.generate_basic_checks(project_info),
        }
    }
}

/// The checks whose names are enabled, in order.
pub open spec fn enabled_only(checks: Seq<CheckView>, enabled: Seq<Seq<char>>) -> Seq<CheckView>
    decreases checks.len(),
{
    if checks.len() == 0 {
        seq![]
    } else if enabled.contains(checks.last().0) {
        enabled_only(checks.drop_last(), enabled).push(checks.last())
    } else {
        enabled_only(checks.drop_last(), enabled)
    }
}

impl CodeQualityManager {
    /// The checks to run: those whose names are enabled, in order.
    pub fn select_enabled_checks(&self, checks: Vec<QualityCheck>) -> (r: Vec<QualityCheck>)
        ensures
            check_views(r@) == enabled_only(check_views(checks@), string_views(self.config.enabled_checks@)),
    {
        let ghost cv = check_views(checks@);
        let ghost en = string_views(self.config.enabled_checks@);
        let mut r: Vec<QualityCheck> = Vec::new();
        let mut rest = checks;
        let mut i: usize = 0;
        let n = rest.len();
        assert(cv.take(0) =~= seq![]);
        assert(check_views(rest@) =~= cv.skip(0));
        while rest.len() > 0
            invariant
                i + rest.len() == n,
                n == cv.len(),
                check_views(rest@) == cv.skip(i as int),
                check_views(r@) == enabled_only(cv.take(i as int), en),
                en == string_views(self.config.enabled_checks@),
            decreases rest.len(),
        {
            let ghost before_rest = check_views(rest@);
            let ghost old_rest = rest@;
            let c = rest.remove(0);
            assert(c@ == before_rest[0]);
            assert(before_rest[0] == cv[i as int]);
            assert(rest@ =~= old_rest.subrange(1, old_rest.len() as int));
            assert forall|j: int| 0 <= j < rest.len() implies check_views(rest@)[j] == cv.skip(
                i + 1,
            )[j] by {
                assert(rest@[j] == old_rest[j + 1]);
                assert(before_rest[j + 1] == old_rest[j + 1]@);
            }
            assert(check_views(rest@) =~= cv.skip(i + 1));
            assert(cv.take(i + 1).drop_last() =~= cv.take(i as int));
            let keep = file_present(&self.config.enabled_checks, c.name.as_str());
            if keep {
                let ghost before = check_views(r@);
                r.push(c);
                assert(check_views(r@) =~= before.push(cv[i as int]));
            }
            i += 1;
        }
        assert(cv.take(i as int) =~= cv);
        r
    }
}

/// Number of successful results.
pub open spec fn passed_count(rs: Seq<CheckResult>) -> nat
    decreases rs.len(),
{
    if rs.len() == 0 {
        0
    } else {
        passed_count(rs.drop_last()) + if rs.last().success {
            1nat
        } else {
            0nat
        }
    }
}

/// Total duration of the results, in milliseconds.
pub open spec fn total_duration(rs: Seq<CheckResult>) -> nat
    decreases rs.len(),
{
    if rs.len() == 0 {
        0
    } else {
        total_duration(rs.drop_last()) + rs.last().duration_ms as nat
    }
}

/// The names of the failed checks, in order.
pub open spec fn failed_names(rs: Seq<CheckResult>) -> Seq<Seq<char>>
    decreases rs.len(),
{
    if rs.len() == 0 {
        seq![]
    } else if rs.last().success {
        failed_names(rs.drop_last())
    } else {
        failed_names(rs.drop_last()).push(rs.last().check_name@)
    }
}

/// Summary of a quality run.
#[derive(Debug)]
pub struct CheckSummary {
    pub total: usize,
    pub passed: usize,
    pub failed: usize,
    pub total_duration_ms: u128,
    pub failed_checks: Vec<String>,
}

/// The passed count never exceeds the number of results.
proof fn lemma_passed_bound(rs: Seq<CheckResult>)
    ensures
        passed_count(rs) <= rs.len(),
    decreases rs.len(),
{
    if rs.len() > 0 {
        lemma_passed_bound(rs.drop_last());
    }
}

/// Failed results are those that did not pass.
proof fn lemma_failed_len(rs: Seq<CheckResult>)
    ensures
        failed_names(rs).len() == rs.len() - passed_count(rs),
    decreases rs.len(),
{
    if rs.len() > 0 {
        lemma_failed_len(rs.drop_last());
        lemma_passed_bound(rs.drop_last());
    }
}

/// Totals of a quality run: checks run, passed, failed, total time and the
/// names of the failed checks.
pub fn summarize_results(results: &Vec<CheckResult>) -> (r: CheckSummary)
    requires
        total_duration(results@) <= u128::MAX,
    ensures
        r.total == results.len(),
        r.passed == passed_count(results@),
        r.failed == results.len() - passed_count(results@),
        r.total_duration_ms == total_duration(results@),
        string_views(r.failed_checks@) == failed_names(results@),
{
    let ghost rs = results@;
    let mut passed: usize = 0;
    let mut total: u128 = 0;
    let mut failed: Vec<String> = Vec::new();
    let mut i: usize = 0;
    assert(rs.take(0) =~= seq![]);
    assert(string_views(failed@) =~= seq![]);
    while i < results.len()
        invariant
            i <= results.len(),
            rs == results@,
            total_duration(rs) <= u128::MAX,
            passed == passed_count(rs.take(i as int)),
            total == total_duration(rs.take(i as int)),
            string_views(failed@) == failed_names(rs.take(i as int)),
            passed <= i,
        decreases results.len() - i,
    {
        assert(rs.take(i + 1).drop_last() =~= rs.take(i as int));
        proof {
            lemma_duration_prefix(rs, i + 1);
        }
        let r = &results[i];
        if r.success {
            passed = passed + 1;
        } else {
            let ghost before = string_views(failed@);
            failed.push(r.check_name.clone());
            assert(string_views(failed@) =~= before.push(r.check_name@));
        }
        total = total + r.duration_ms;
        i += 1;
    }
    assert(rs.take(i as int) =~= rs);
    CheckSummary {
        total: results.len(),
        passed,
        failed: results.len() - passed,
        total_duration_ms: total,
        failed_checks: failed,
    }
}

/// A prefix takes no longer than the whole.
proof fn lemma_duration_prefix(rs: Seq<CheckResult>, k: int)
    requires
        0 <= k <= rs.len(),
    ensures
        total_duration(rs.take(k)) <= total_duration(rs),
    decreases rs.len() - k,
{
    if k < rs.len() {
        lemma_duration_prefix(rs, k + 1);
        assert(rs.take(k + 1).drop_last() =~= rs.take(k));
    } else {
        assert(rs.take(k) =~= rs);
    }
}

/// The exit status of a quality run: 1 when a check failed, else 0.
pub fn quality_exit_code(results: &Vec<CheckResult>) -> (r: i32)
    ensures
        r == if passed_count(results@) < results.len() {
            1i32
        } else {
            0i32
        },
{
    let ghost rs = results@;
    let mut passed: usize = 0;
    let mut i: usize = 0;
    assert(rs.take(0) =~= seq![]);
    while i < results.len()
        invariant
            i <= results.len(),
            rs == results@,
            passed == passed_count(rs.take(i as int)),
            passed <= i,
        decreases results.len() - i,
    {
        assert(rs.take(i + 1).drop_last() =~= rs.take(i as int));
        if results[i].success {
            passed = passed + 1;
        }
        i += 1;
    }
    assert(rs.take(i as int) =~= rs);
    if passed < results.len() {
        1
    } else {
        0
    }
}


/// The checks run are exactly the enabled ones: each selected check has an
/// enabled name, and each check with an enabled name is selected.
pub proof fn lemma_selected_exactly_enabled(checks: Seq<CheckView>, enabled: Seq<Seq<char>>)
    ensures
        forall|i: int|
            0 <= i < enabled_only(checks, enabled).len() ==> enabled.contains(
                #[trigger] enabled_only(checks, enabled)[i].0,
            ),
        forall|j: int|
            0 <= j < checks.len() && enabled.contains(#[trigger] checks[j].0) ==> enabled_only(
                checks,
                enabled,
            ).contains(checks[j]),
    decreases checks.len(),
{
    if checks.len() > 0 {
        let p = checks.drop_last();
        lemma_selected_exactly_enabled(p, enabled);
        let sp = enabled_only(p, enabled);
        let s = enabled_only(checks, enabled);
        assert forall|i: int| 0 <= i < s.len() implies enabled.contains(#[trigger] s[i].0) by {
            if i < sp.len() {
                assert(s[i] == sp[i]);
            }
        }
        assert forall|j: int|
            0 <= j < checks.len() && enabled.contains(#[trigger] checks[j].0) implies s.contains(
            checks[j],
        ) by {
            if j < p.len() {
                assert(p[j] == checks[j]);
                let k = choose|k: int| 0 <= k < sp.len() && sp[k] == p[j];
                assert(s[k] == sp[k]);
            } else {
                assert(s[s.len() - 1] == checks.last());
            }
        }
    }
}

/// The package manager is told by the first kind of file present, in the
/// order npm (`package-lock.json`), Yarn (`yarn.lock`), pnpm
/// (`pnpm-lock.yaml`), Bun (`bun.lockb`), Cargo (`Cargo.toml`), pip
/// (`requirements.txt`, `pyproject.toml`, `poetry.lock`); with none of them
/// it is unknown.
pub proof fn lemma_package_manager_files(present: Seq<Seq<char>>)
    ensures
        present.contains("package-lock.json"@) ==> pm_from(present) == PackageManager::Npm,
        !present.contains("package-lock.json"@) && present.contains("yarn.lock"@) ==> pm_from(present)
            == PackageManager::Yarn,
        !present.contains("package-lock.json"@) && !present.contains("yarn.lock"@)
            && present.contains("pnpm-lock.yaml"@) ==> pm_from(present) == PackageManager::Pnpm,
        !present.contains("package-lock.json"@) && !present.contains("yarn.lock"@)
            && !present.contains("pnpm-lock.yaml"@) && present.contains("bun.lockb"@) ==> pm_from(
            present,
        ) == PackageManager::Bun,
        !present.contains("package-lock.json"@) && !present.contains("yarn.lock"@)
            && !present.contains("pnpm-lock.yaml"@) && !present.contains("bun.lockb"@)
            && present.contains("Cargo.toml"@) ==> pm_from(present) == PackageManager::Cargo,
        !present.contains("package-lock.json"@) && !present.contains("yarn.lock"@)
            && !present.contains("pnpm-lock.yaml"@) && !present.contains("bun.lockb"@)
            && !present.contains("Cargo.toml"@) && (present.contains("requirements.txt"@)
            || present.contains("pyproject.toml"@) || present.contains("poetry.lock"@)) ==> pm_from(
            present,
        ) == PackageManager::Pip,
        pm_from(present) == PackageManager::Unknown ==> !present.contains("package-lock.json"@)
            && !present.contains("yarn.lock"@) && !present.contains("pnpm-lock.yaml"@)
            && !present.contains("bun.lockb"@) && !present.contains("Cargo.toml"@)
            && !present.contains("requirements.txt"@) && !present.contains("pyproject.toml"@)
            && !present.contains("poetry.lock"@),
{
}

} // verus!
