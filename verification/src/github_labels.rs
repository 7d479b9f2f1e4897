//! GitHub labels: the labels a repository is given, the standard labels
//! that are renamed, and the steps and `gh` commands that apply them.
use vstd::prelude::*;
use crate::text::{
    chars_of, copy_text, first_word, first_word_exec, lines, lines_exec, string_of, string_views,
    text_eq, views,
};

verus! {

/// A label to create.
#[derive(Debug)]
pub struct GitHubLabel {
    pub name: String,
    pub description: String,
    pub color: String,
}

/// A standard label to rename and restyle.
#[derive(Debug)]
pub struct LabelUpdate {
    pub old_name: String,
    pub new_name: String,
    pub description: String,
    pub color: String,
}

impl View for GitHubLabel {
    type V = (Seq<char>, Seq<char>, Seq<char>);

    open spec fn view(&self) -> (Seq<char>, Seq<char>, Seq<char>) {
        (self.name@, self.description@, self.color@)
    }
}

impl View for LabelUpdate {
    type V = (Seq<char>, Seq<char>, Seq<char>, Seq<char>);

    open spec fn view(&self) -> (Seq<char>, Seq<char>, Seq<char>, Seq<char>) {
        (self.old_name@, self.new_name@, self.description@, self.color@)
    }
}

/// The standard GitHub labels and what each becomes: old name, new name,
/// description, colour.
pub open spec fn standard_label_updates() -> Seq<(Seq<char>, Seq<char>, Seq<char>, Seq<char>)> {
    seq![
        ("bug"@, "🐛 bug"@, "Software bugs and defects"@, "D73A49"@),
        ("dependencies"@, "📦 dependencies"@, "Dependency updates and package management"@, "0366D6"@),
        ("documentation"@, "📚 documentation"@, "Documentation improvements and updates"@, "0075CA"@),
        ("duplicate"@, "🔄 duplicate"@, "Duplicate issues already reported"@, "CFD3D7"@),
        ("enhancement"@, "✨ enhancement"@, "New features and improvements"@, "A2EEEF"@),
        ("github_actions"@, "⚙️ github_actions"@, "CI/CD and GitHub Actions workflow"@, "000000"@),
        ("good first issue"@, "🌟 good first issue"@, "Beginner-friendly issues for new contributors"@, "7057FF"@),
        ("help wanted"@, "🙏 help wanted"@, "Issues where community help is needed"@, "008672"@),
        ("invalid"@, "❌ invalid"@, "Invalid or incorrectly reported issues"@, "E4E669"@),
        ("question"@, "❓ question"@, "Questions about usage or implementation"@, "CC317C"@),
        ("wontfix"@, "🚫 wontfix"@, "Issues that won't be addressed"@, "FFFFFF"@),
    ]
}

/// The labels to create: name, description, colour (priority, status,
/// component, difficulty and type labels).
pub open spec fn new_labels() -> Seq<(Seq<char>, Seq<char>, Seq<char>)> {
    seq![
        ("🔴 priority: critical"@, "Critical issues that need immediate attention"@, "B60205"@),
        ("🟠 priority: high"@, "High priority issues"@, "D93F0B"@),
        ("🟡 priority: medium"@, "Medium priority issues"@, "FBCA04"@),
        ("🟢 priority: low"@, "Low priority issues"@, "0E8A16"@),
        ("🔄 status: in progress"@, "Currently being worked on"@, "0052CC"@),
        ("👀 status: needs review"@, "Waiting for code review"@, "006B75"@),
        ("🚧 status: blocked"@, "Blocked by external dependencies"@, "D4C5F9"@),
        ("✅ status: ready"@, "Ready to be implemented"@, "0E8A16"@),
        ("🎨 ui/ux"@, "User interface and experience"@, "F9D0C4"@),
        ("🌍 translation"@, "Translation and internationalization"@, "1D76DB"@),
        ("🔧 cli"@, "Command line interface"@, "5319E7"@),
        ("📦 release"@, "Release management and versioning"@, "0366D6"@),
        ("🔍 code-quality"@, "Code quality checks and linting"@, "D93F0B"@),
        ("🌱 easy"@, "Easy to implement, good for beginners"@, "C2E0C6"@),
        ("🌿 medium"@, "Moderate complexity"@, "FEF2C0"@),
        ("🌳 hard"@, "Complex implementation required"@, "F9D0C4"@),
        ("🔒 security"@, "Security related issues"@, "D73A49"@),
        ("⚡ performance"@, "Performance optimization"@, "FBCA04"@),
        ("♿ accessibility"@, "Accessibility improvements"@, "0052CC"@),
        ("🧪 testing"@, "Testing related issues"@, "BFD4F2"@),
        ("🐞 fix"@, "Bug fixes"@, "D73A49"@),
        ("✨ feature"@, "New feature implementation"@, "A2EEEF"@),
    ]
}

/// The views of label updates.
pub open spec fn update_views(v: Seq<LabelUpdate>) -> Seq<(Seq<char>, Seq<char>, Seq<char>, Seq<char>)> {
    v.map_values(|u: LabelUpdate| u@)
}

/// The views of labels.
pub open spec fn label_views(v: Seq<GitHubLabel>) -> Seq<(Seq<char>, Seq<char>, Seq<char>)> {
    v.map_values(|l: GitHubLabel| l@)
}

fn label_update(old_name: &str, new_name: &str, description: &str, color: &str) -> (r: LabelUpdate)
    ensures
        r@ == (old_name@, new_name@, description@, color@),
{
    LabelUpdate {
        old_name: copy_text(old_name),
        new_name: copy_text(new_name),
        description: copy_text(description),
        color: copy_text(color),
    }
}

fn new_label(name: &str, description: &str, color: &str) -> (r: GitHubLabel)
    ensures
        r@ == (name@, description@, color@),
{
    GitHubLabel { name: copy_text(name), description: copy_text(description), color: copy_text(color) }
}

/// Options of a label run.
#[derive(Debug, Clone, Copy)]
pub struct GitHubLabelsConfig {
    pub skip_auth: bool,
    pub skip_install: bool,
    pub dry_run: bool,
    pub list_only: bool,
    pub delete_all: bool,
    pub update_only: bool,
}

impl Default for GitHubLabelsConfig {
    fn default() -> (r: Self)
        ensures
            !r.skip_auth && !r.skip_install && !r.dry_run && !r.list_only && !r.delete_all
                && !r.update_only,
    {
        GitHubLabelsConfig {
            skip_auth: false,
            skip_install: false,
            dry_run: false,
            list_only: false,
            delete_all: false,
            update_only: false,
        }
    }
}

/// Applies the label set to a repository with the `gh` tool.
pub struct GitHubLabelsManager {
    pub config: GitHubLabelsConfig,
}

impl GitHubLabelsManager {
    /// A manager with the given options.
    pub fn new(config: GitHubLabelsConfig) -> (r: Self)
        ensures
            r.config == config,
    {
        GitHubLabelsManager { config }
    }

    /// The standard labels to rename, with their new names, descriptions
    /// and colours.
    pub fn get_existing_labels_to_update(&self) -> (r: Vec<LabelUpdate>)
        ensures
            update_views(r@) == standard_label_updates(),
    {
        let mut v: Vec<LabelUpdate> = Vec::new();
        v.push(label_update("bug", "🐛 bug", "Software bugs and defects", "D73A49"));
        v.push(label_update("dependencies", "📦 dependencies", "Dependency updates and package management", "0366D6"));
        v.push(label_update("documentation", "📚 documentation", "Documentation improvements and updates", "0075CA"));
        v.push(label_update("duplicate", "🔄 duplicate", "Duplicate issues already reported", "CFD3D7"));
        v.push(label_update("enhancement", "✨ enhancement", "New features and improvements", "A2EEEF"));
        v.push(label_update("github_actions", "⚙️ github_actions", "CI/CD and GitHub Actions workflow", "000000"));
        v.push(label_update("good first issue", "🌟 good first issue", "Beginner-friendly issues for new contributors", "7057FF"));
        v.push(label_update("help wanted", "🙏 help wanted", "Issues where community help is needed", "008672"));
        v.push(label_update("invalid", "❌ invalid", "Invalid or incorrectly reported issues", "E4E669"));
        v.push(label_update("question", "❓ question", "Questions about usage or implementation", "CC317C"));
        v.push(label_update("wontfix", "🚫 wontfix", "Issues that won't be addressed", "FFFFFF"));
        assert(update_views(v@) =~= standard_label_updates());
        v
    }

    /// The labels to create.
    pub fn get_new_labels_to_create(&self) -> (r: Vec<GitHubLabel>)
        ensures
            label_views(r@) == new_labels(),
    {
        let mut v: Vec<GitHubLabel> = Vec::new();
        v.push(new_label("🔴 priority: critical", "Critical issues that need immediate attention", "B60205"));
        v.push(new_label("🟠 priority: high", "High priority issues", "D93F0B"));
        v.push(new_label("🟡 priority: medium", "Medium priority issues", "FBCA04"));
        v.push(new_label("🟢 priority: low", "Low priority issues", "0E8A16"));
        v.push(new_label("🔄 status: in progress", "Currently being worked on", "0052CC"));
        v.push(new_label("👀 status: needs review", "Waiting for code review", "006B75"));
        v.push(new_label("🚧 status: blocked", "Blocked by external dependencies", "D4C5F9"));
        v.push(new_label("✅ status: ready", "Ready to be implemented", "0E8A16"));
        v.push(new_label("🎨 ui/ux", "User interface and experience", "F9D0C4"));
        v.push(new_label("🌍 translation", "Translation and internationalization", "1D76DB"));
        v.push(new_label("🔧 cli", "Command line interface", "5319E7"));
        v.push(new_label("📦 release", "Release management and versioning", "0366D6"));
        v.push(new_label("🔍 code-quality", "Code quality checks and linting", "D93F0B"));
        v.push(new_label("🌱 easy", "Easy to implement, good for beginners", "C2E0C6"));
        v.push(new_label("🌿 medium", "Moderate complexity", "FEF2C0"));
        v.push(new_label("🌳 hard", "Complex implementation required", "F9D0C4"));
        v.push(new_label("🔒 security", "Security related issues", "D73A49"));
        v.push(new_label("⚡ performance", "Performance optimization", "FBCA04"));
        v.push(new_label("♿ accessibility", "Accessibility improvements", "0052CC"));
        v.push(new_label("🧪 testing", "Testing related issues", "BFD4F2"));
        v.push(new_label("🐞 fix", "Bug fixes", "D73A49"));
        v.push(new_label("✨ feature", "New feature implementation", "A2EEEF"));
        assert(label_views(v@) =~= new_labels());
        v
    }
}


/// One step of a label run.
#[derive(Debug, Clone, Copy, PartialEq, Eq, Structural)]
pub enum LabelStep {
    /// Make sure the `gh` tool is installed.
    CheckInstall,
    /// Make sure `gh` is signed in to GitHub.
    CheckAuth,
    /// Show the repository's labels.
    ListLabels,
    /// Delete every label of the repository.
    DeleteAll,
    /// Rename and restyle the standard labels.
    UpdateExisting,
    /// Create the new labels.
    CreateNew,
    /// Report the result.
    ShowCompletion,
}

/// The steps of a label run, in order: the installation and sign-in checks
/// unless skipped; then only the listing in list mode; otherwise deletion
/// when asked, the updates of the standard labels, the creation of the new
/// labels unless in update-only mode, and the report. A run stops at the
/// first step that fails.
pub open spec fn run_steps(c: GitHubLabelsConfig) -> Seq<LabelStep> {
    let checks = if c.skip_install {
        seq![]
    } else {
        seq![LabelStep::CheckInstall]
    } + if c.skip_auth {
        seq![]
    } else {
        seq![LabelStep::CheckAuth]
    };
    if c.list_only {
        checks.push(LabelStep::ListLabels)
    } else {
        checks + if c.delete_all {
            seq![LabelStep::DeleteAll]
        } else {
            seq![]
        } + seq![LabelStep::UpdateExisting] + if c.update_only {
            seq![]
        } else {
            seq![LabelStep::CreateNew]
        } + seq![LabelStep::ShowCompletion]
    }
}

impl GitHubLabelsManager {
    /// The steps of this manager's run.
    pub fn run_plan(&self) -> (r: Vec<LabelStep>)
        ensures
            r@ == run_steps(self.config),
    {
        let c = self.config;
        let mut v: Vec<LabelStep> = Vec::new();
        if !c.skip_install {
            v.push(LabelStep::CheckInstall);
        }
        if !c.skip_auth {
            v.push(LabelStep::CheckAuth);
        }
        if c.list_only {
            v.push(LabelStep::ListLabels);
        } else {
            if c.delete_all {
                v.push(LabelStep::DeleteAll);
            }
            v.push(LabelStep::UpdateExisting);
            if !c.update_only {
                v.push(LabelStep::CreateNew);
            }
            v.push(LabelStep::ShowCompletion);
        }
        assert(v@ =~= run_steps(c));
        v
    }

    /// The operating system name used to choose an installer, from the
    /// platform (`macos`, `linux`, `windows`, ...) and, on Linux, which
    /// release file exists (Debian, then Fedora, then CentOS).
    pub fn detect_os_from(platform: &str, debian: bool, fedora: bool, centos: bool) -> (r: String)
        ensures
            r@ == os_name(platform@, debian, fedora, centos),
    {
        if text_eq(platform, "macos") {
            copy_text("macos")
        } else if text_eq(platform, "linux") {
            if debian {
                copy_text("ubuntu")
            } else if fedora {
                copy_text("fedora")
            } else if centos {
                copy_text("centos")
            } else {
                copy_text("linux")
            }
        } else if text_eq(platform, "windows") {
            copy_text("windows")
        } else {
            copy_text("unknown")
        }
    }
}

/// The operating system name for a platform and the Linux release files
/// present.
pub open spec fn os_name(platform: Seq<char>, debian: bool, fedora: bool, centos: bool) -> Seq<char> {
    if platform == "macos"@ {
        "macos"@
    } else if platform == "linux"@ {
        if debian {
            "ubuntu"@
        } else if fedora {
            "fedora"@
        } else if centos {
            "centos"@
        } else {
            "linux"@
        }
    } else if platform == "windows"@ {
        "windows"@
    } else {
        "unknown"@
    }
}

/// How `gh` is installed on an operating system.
#[derive(Debug, Clone, Copy, PartialEq, Eq, Structural)]
pub enum InstallMethod {
    Homebrew,
    Apt,
    Yum,
    Dnf,
    ManualWindows,
    Unsupported,
}

/// The installer for an operating system name.
pub open spec fn install_method_for(os: Seq<char>) -> InstallMethod {
    if os == "macos"@ {
        InstallMethod::Homebrew
    } else if os == "ubuntu"@ || os == "debian"@ {
        InstallMethod::Apt
    } else if os == "centos"@ || os == "rhel"@ {
        InstallMethod::Yum
    } else if os == "fedora"@ {
        InstallMethod::Dnf
    } else if os == "windows"@ {
        InstallMethod::ManualWindows
    } else {
        InstallMethod::Unsupported
    }
}

/// The installer for an operating system name.
pub fn install_method(os: &str) -> (r: InstallMethod)
    ensures
        r == install_method_for(os@),
{
    if text_eq(os, "macos") {
        InstallMethod::Homebrew
    } else if text_eq(os, "ubuntu") || text_eq(os, "debian") {
        InstallMethod::Apt
    } else if text_eq(os, "centos") || text_eq(os, "rhel") {
        InstallMethod::Yum
    } else if text_eq(os, "fedora") {
        InstallMethod::Dnf
    } else if text_eq(os, "windows") {
        InstallMethod::ManualWindows
    } else {
        InstallMethod::Unsupported
    }
}

/// The views of a list of commands, each a program and its arguments.
pub open spec fn command_views(v: Seq<Vec<String>>) -> Seq<Seq<Seq<char>>> {
    v.map_values(|c: Vec<String>| string_views(c@))
}

/// The commands an installer runs, in order (none for a manual install).
pub open spec fn install_commands_for(m: InstallMethod) -> Seq<Seq<Seq<char>>> {
    match m {
        InstallMethod::Homebrew => seq![seq!["brew"@, "install"@, "gh"@]],
        InstallMethod::Apt => seq![
            seq![
                "curl"@,
                "-fsSL"@,
                "https://cli.github.com/packages/githubcli-archive-keyring.gpg"@,
            ],
            seq!["sudo"@, "apt"@, "update"@],
            seq!["sudo"@, "apt"@, "install"@, "gh"@, "-y"@],
        ],
        InstallMethod::Yum => seq![
            seq!["sudo"@, "yum"@, "install"@, "-y"@, "dnf-plugins-core"@],
            seq![
                "sudo"@,
                "yum"@,
                "config-manager"@,
                "--add-repo"@,
                "https://cli.github.com/packages/rpm/gh-cli.repo"@,
            ],
            seq!["sudo"@, "yum"@, "install"@, "gh"@, "-y"@],
        ],
        InstallMethod::Dnf => seq![seq!["sudo"@, "dnf"@, "install"@, "gh"@, "-y"@]],
        _ => seq![],
    }
}

/// A command of three words.
fn command3(a: &str, b: &str, c: &str) -> (r: Vec<String>)
    ensures
        string_views(r@) == seq![a@, b@, c@],
{
    let mut r: Vec<String> = Vec::new();
    r.push(copy_text(a));
    r.push(copy_text(b));
    r.push(copy_text(c));
    assert(string_views(r@) =~= seq![a@, b@, c@]);
    r
}

/// A command of five words.
fn command5(a: &str, b: &str, c: &str, d: &str, e: &str) -> (r: Vec<String>)
    ensures
        string_views(r@) == seq![a@, b@, c@, d@, e@],
{
    let mut r: Vec<String> = Vec::new();
    r.push(copy_text(a));
    r.push(copy_text(b));
    r.push(copy_text(c));
    r.push(copy_text(d));
    r.push(copy_text(e));
    assert(string_views(r@) =~= seq![a@, b@, c@, d@, e@]);
    r
}

/// The commands an installer runs, in order.
pub fn install_commands(m: InstallMethod) -> (r: Vec<Vec<String>>)
    ensures
        command_views(r@) == install_commands_for(m),
{
    let mut r: Vec<Vec<String>> = Vec::new();
    match m {
        InstallMethod::Homebrew => {
            r.push(command3("brew", "install", "gh"));
        },
        InstallMethod::Apt => {
            r.push(
                command3(
                    "curl",
                    "-fsSL",
                    "https://cli.github.com/packages/githubcli-archive-keyring.gpg",
                ),
            );
            r.push(command3("sudo", "apt", "update"));
            r.push(command5("sudo", "apt", "install", "gh", "-y"));
        },
        InstallMethod::Yum => {
            r.push(command5("sudo", "yum", "install", "-y", "dnf-plugins-core"));
            r.push(
                command5(
                    "sudo",
                    "yum",
                    "config-manager",
                    "--add-repo",
                    "https://cli.github.com/packages/rpm/gh-cli.repo",
                ),
            );
            r.push(command5("sudo", "yum", "install", "gh", "-y"));
        },
        InstallMethod::Dnf => {
            r.push(command5("sudo", "dnf", "install", "gh", "-y"));
        },
        _ => {},
    }
    assert(command_views(r@) =~= install_commands_for(m));
    r
}

/// The `gh` arguments that rename and restyle a label.
pub open spec fn edit_args(u: (Seq<char>, Seq<char>, Seq<char>, Seq<char>)) -> Seq<Seq<char>> {
    seq!["label"@, "edit"@, u.0, "--name"@, u.1, "--description"@, u.2, "--color"@, u.3]
}

/// The `gh` arguments that create a label.
pub open spec fn create_args(l: (Seq<char>, Seq<char>, Seq<char>)) -> Seq<Seq<char>> {
    seq!["label"@, "create"@, l.0, "--description"@, l.1, "--color"@, l.2]
}

/// The `gh` arguments that delete a label.
pub open spec fn delete_args(name: Seq<char>) -> Seq<Seq<char>> {
    seq!["label"@, "delete"@, name, "--yes"@]
}

/// The `gh` arguments that rename and restyle a label.
pub fn label_edit_args(u: &LabelUpdate) -> (r: Vec<String>)
    ensures
        string_views(r@) == edit_args(u@),
{
    let mut r: Vec<String> = Vec::new();
    r.push(copy_text("label"));
    r.push(copy_text("edit"));
    r.push(u.old_name.clone());
    r.push(copy_text("--name"));
    r.push(u.new_name.clone());
    r.push(copy_text("--description"));
    r.push(u.description.clone());
    r.push(copy_text("--color"));
    r.push(u.color.clone());
    assert(string_views(r@) =~= edit_args(u@));
    r
}

/// The `gh` arguments that create a label.
pub fn label_create_args(l: &GitHubLabel) -> (r: Vec<String>)
    ensures
        string_views(r@) == create_args(l@),
{
    let mut r: Vec<String> = Vec::new();
    r.push(copy_text("label"));
    r.push(copy_text("create"));
    r.push(l.name.clone());
    r.push(copy_text("--description"));
    r.push(l.description.clone());
    r.push(copy_text("--color"));
    r.push(l.color.clone());
    assert(string_views(r@) =~= create_args(l@));
    r
}

/// The `gh` arguments that delete a label.
pub fn label_delete_args(name: &str) -> (r: Vec<String>)
    ensures
        string_views(r@) == delete_args(name@),
{
    let mut r: Vec<String> = Vec::new();
    r.push(copy_text("label"));
    r.push(copy_text("delete"));
    r.push(copy_text(name));
    r.push(copy_text("--yes"));
    assert(string_views(r@) =~= delete_args(name@));
    r
}

/// The label names of a `gh label list` listing: the first word of each
/// line that has one.
pub open spec fn listed_names(ls: Seq<Seq<char>>) -> Seq<Seq<char>>
    decreases ls.len(),
{
    if ls.len() == 0 {
        seq![]
    } else {
        match first_word(ls.last()) {
            Some(w) => listed_names(ls.drop_last()).push(w),
            None => listed_names(ls.drop_last()),
        }
    }
}

/// The label names of a `gh label list` listing, in order.
pub fn label_names_from_listing(listing: &str) -> (r: Vec<String>)
    ensures
        string_views(r@) == listed_names(lines(listing@)),
{
    let ls = lines_exec(&chars_of(listing));
    let ghost lv = views(ls@);
    let mut r: Vec<String> = Vec::new();
    let mut i: usize = 0;
    assert(lv.take(0) =~= seq![]);
    assert(string_views(r@) =~= seq![]);
    while i < ls.len()
        invariant
            i <= ls.len(),
            lv == views(ls@),
            string_views(r@) == listed_names(lv.take(i as int)),
        decreases ls.len() - i,
    {
        assert(lv.take(i + 1).drop_last() =~= lv.take(i as int));
        assert(lv.take(i + 1).last() == ls@[i as int]@);
        match first_word_exec(&ls[i]) {
            Some(w) => {
                let ghost before = string_views(r@);
                r.push(string_of(&w));
                assert(string_views(r@) =~= before.push(w@));
            },
            None => {},
        }
        i += 1;
    }
    assert(lv.take(i as int) =~= lv);
    r
}


/// The `gh` commands that change labels in a step, as argument lists:
/// deleting each listed label, renaming the standard labels, creating the
/// new labels (not in update-only mode); none in a dry run or in another
/// step.
pub open spec fn step_commands_for(
    c: GitHubLabelsConfig,
    step: LabelStep,
    listed: Seq<Seq<char>>,
) -> Seq<Seq<Seq<char>>> {
    match step {
        LabelStep::DeleteAll => if c.dry_run {
            seq![]
        } else {
            listed.map_values(|n: Seq<char>| delete_args(n))
        },
        LabelStep::UpdateExisting => if c.dry_run {
            seq![]
        } else {
            standard_label_updates().map_values(
                |u: (Seq<char>, Seq<char>, Seq<char>, Seq<char>)| edit_args(u),
            )
        },
        LabelStep::CreateNew => if c.update_only || c.dry_run {
            seq![]
        } else {
            new_labels().map_values(|l: (Seq<char>, Seq<char>, Seq<char>)| create_args(l))
        },
        _ => seq![],
    }
}

impl GitHubLabelsManager {
    /// The `gh` commands that change labels in a step of this run, given the
    /// label names listed in the repository.
    pub fn step_commands(&self, step: LabelStep, listed: &Vec<String>) -> (r: Vec<Vec<String>>)
        ensures
            command_views(r@) == step_commands_for(self.config, step, string_views(listed@)),
    {
        let mut r: Vec<Vec<String>> = Vec::new();
        match step {
            LabelStep::DeleteAll => {
                if !self.config.dry_run {
                    let ghost ls = string_views(listed@);
                    let mut i: usize = 0;
                    while i < listed.len()
                        invariant
                            i <= listed.len(),
                            ls == string_views(listed@),
                            command_views(r@) == ls.take(i as int).map_values(
                                |n: Seq<char>| delete_args(n),
                            ),
                        decreases listed.len() - i,
                    {
                        let ghost before = command_views(r@);
                        r.push(label_delete_args(listed[i].as_str()));
                        assert(command_views(r@) =~= before.push(delete_args(ls[i as int])));
                        assert(ls.take(i + 1).map_values(|n: Seq<char>| delete_args(n))
                            =~= ls.take(i as int).map_values(|n: Seq<char>| delete_args(n)).push(
                            delete_args(ls[i as int]),
                        ));
                        i += 1;
                    }
                    assert(ls.take(i as int) =~= ls);
                }
            },
            LabelStep::UpdateExisting => {
                if !self.config.dry_run {
                    let updates = self.get_existing_labels_to_update();
                    let ghost us = update_views(updates@);
                    let mut i: usize = 0;
                    while i < updates.len()
                        invariant
                            i <= updates.len(),
                            us == update_views(updates@),
                            us == standard_label_updates(),
                            command_views(r@) == us.take(i as int).map_values(
                                |u: (Seq<char>, Seq<char>, Seq<char>, Seq<char>)| edit_args(u),
                            ),
                        decreases updates.len() - i,
                    {
                        let ghost before = command_views(r@);
                        r.push(label_edit_args(&updates[i]));
                        assert(command_views(r@) =~= before.push(edit_args(us[i as int])));
                        assert(us.take(i + 1).map_values(
                            |u: (Seq<char>, Seq<char>, Seq<char>, Seq<char>)| edit_args(u),
                        ) =~= us.take(i as int).map_values(
                            |u: (Seq<char>, Seq<char>, Seq<char>, Seq<char>)| edit_args(u),
                        ).push(edit_args(us[i as int])));
                        i += 1;
                    }
                    assert(us.take(i as int) =~= us);
                }
            },
            LabelStep::CreateNew => {
                if !self.config.update_only && !self.config.dry_run {
                    let labels = self.get_new_labels_to_create();
                    let ghost ls = label_views(labels@);
                    let mut i: usize = 0;
                    while i < labels.len()
                        invariant
                            i <= labels.len(),
                            ls == label_views(labels@),
                            ls == new_labels(),
                            command_views(r@) == ls.take(i as int).map_values(
                                |l: (Seq<char>, Seq<char>, Seq<char>)| create_args(l),
                            ),
                        decreases labels.len() - i,
                    {
                        let ghost before = command_views(r@);
                        r.push(label_create_args(&labels[i]));
                        assert(command_views(r@) =~= before.push(create_args(ls[i as int])));
                        assert(ls.take(i + 1).map_values(
                            |l: (Seq<char>, Seq<char>, Seq<char>)| create_args(l),
                        ) =~= ls.take(i as int).map_values(
                            |l: (Seq<char>, Seq<char>, Seq<char>)| create_args(l),
                        ).push(create_args(ls[i as int])));
                        i += 1;
                    }
                    assert(ls.take(i as int) =~= ls);
                }
            },
            _ => {},
        }
        assert(command_views(r@) =~= step_commands_for(self.config, step, string_views(listed@)));
        r
    }
}

/// A dry run changes nothing: no step runs a command that changes labels.
pub proof fn lemma_dry_run_changes_nothing(
    c: GitHubLabelsConfig,
    step: LabelStep,
    listed: Seq<Seq<char>>,
)
    requires
        c.dry_run,
    ensures
        step_commands_for(c, step, listed).len() == 0,
{
}

/// In list mode a run only checks and lists: it neither deletes, renames nor
/// creates labels.
pub proof fn lemma_list_only_reads(c: GitHubLabelsConfig)
    requires
        c.list_only,
    ensures
        !run_steps(c).contains(LabelStep::DeleteAll),
        !run_steps(c).contains(LabelStep::UpdateExisting),
        !run_steps(c).contains(LabelStep::CreateNew),
{
    let steps = run_steps(c);
    assert forall|i: int| 0 <= i < steps.len() implies steps[i] != LabelStep::DeleteAll
        && steps[i] != LabelStep::UpdateExisting && steps[i] != LabelStep::CreateNew by {
        let checks = if c.skip_install {
            seq![]
        } else {
            seq![LabelStep::CheckInstall]
        } + if c.skip_auth {
            seq![]
        } else {
            seq![LabelStep::CheckAuth]
        };
        assert(steps == checks.push(LabelStep::ListLabels));
        if i < checks.len() {
            assert(checks[i] == LabelStep::CheckInstall || checks[i] == LabelStep::CheckAuth);
        }
    }
}

/// In update-only mode the standard labels are still updated (unless in list
/// mode), and no label is created.
pub proof fn lemma_update_only_creates_nothing(c: GitHubLabelsConfig, listed: Seq<Seq<char>>)
    requires
        c.update_only,
    ensures
        step_commands_for(c, LabelStep::CreateNew, listed).len() == 0,
        !run_steps(c).contains(LabelStep::CreateNew),
        !c.list_only ==> run_steps(c).contains(LabelStep::UpdateExisting),
        !c.dry_run ==> step_commands_for(c, LabelStep::UpdateExisting, listed).len()
            == standard_label_updates().len(),
{
    let steps = run_steps(c);
    let checks = if c.skip_install {
        seq![]
    } else {
        seq![LabelStep::CheckInstall]
    } + if c.skip_auth {
        seq![]
    } else {
        seq![LabelStep::CheckAuth]
    };
    let del = if c.delete_all {
        seq![LabelStep::DeleteAll]
    } else {
        seq![]
    };
    assert forall|i: int| 0 <= i < steps.len() implies steps[i] != LabelStep::CreateNew by {
        if c.list_only {
            assert(steps == checks.push(LabelStep::ListLabels));
            if i < checks.len() {
                assert(checks[i] == LabelStep::CheckInstall || checks[i] == LabelStep::CheckAuth);
            }
        } else {
            assert(steps =~= checks + del + seq![LabelStep::UpdateExisting] + seq![
                LabelStep::ShowCompletion,
            ]);
            if i < checks.len() {
                assert(checks[i] == LabelStep::CheckInstall || checks[i] == LabelStep::CheckAuth);
            } else if i < checks.len() + del.len() {
                assert(del[i - checks.len()] == LabelStep::DeleteAll);
            }
        }
    }
    if !c.list_only {
        assert(steps =~= checks + del + seq![LabelStep::UpdateExisting] + seq![
            LabelStep::ShowCompletion,
        ]);
        assert(steps[(checks.len() + del.len()) as int] == LabelStep::UpdateExisting);
    }
}

/// What to do after checking that `gh` is installed, or signed in.
#[derive(Debug, Clone, Copy, PartialEq, Eq, Structural)]
pub enum ToolCheck {
    /// Installed, or signed in: go on.
    Ready,
    /// Missing in a dry run: report what would be done and go on.
    WouldFix,
    /// Missing: ask whether to install, or to sign in.
    AskToFix,
}

/// What to do after a check of `gh`, given the dry-run option and whether
/// the check passed: go on when it passed; otherwise only report in a dry
/// run, and ask the user (who may then install or sign in) otherwise.
pub open spec fn tool_check_of(dry_run: bool, passed: bool) -> ToolCheck {
    if passed {
        ToolCheck::Ready
    } else if dry_run {
        ToolCheck::WouldFix
    } else {
        ToolCheck::AskToFix
    }
}

/// What to do after a check of `gh`.
pub fn tool_check(dry_run: bool, passed: bool) -> (r: ToolCheck)
    ensures
        r == tool_check_of(dry_run, passed),
{
    if passed {
        ToolCheck::Ready
    } else if dry_run {
        ToolCheck::WouldFix
    } else {
        ToolCheck::AskToFix
    }
}

/// A dry run changes nothing: no step runs a command that changes labels,
/// and neither a missing `gh` nor a missing sign-in leads to asking for an
/// installation or a sign-in.
pub proof fn lemma_dry_run_asks_nothing(c: GitHubLabelsConfig, passed: bool)
    requires
        c.dry_run,
    ensures
        forall|step: LabelStep, listed: Seq<Seq<char>>|
            #[trigger] step_commands_for(c, step, listed).len() == 0,
        tool_check_of(c.dry_run, passed) != ToolCheck::AskToFix,
{
}

/// Whether a character is a hexadecimal digit.
pub open spec fn is_hex_digit(c: char) -> bool {
    ('0' <= c && c <= '9') || ('a' <= c && c <= 'f') || ('A' <= c && c <= 'F')
}

/// Whether a text is a colour of six hexadecimal digits.
pub open spec fn is_hex_color(s: Seq<char>) -> bool {
    s.len() == 6 && forall|k: int| 0 <= k < 6 ==> is_hex_digit(#[trigger] s[k])
}

/// The labels created are twenty-two, each with a distinct name that starts
/// with an emoji (a character outside ASCII, different for each label), a
/// description of more than five characters and a six-digit hexadecimal
/// colour.
#[verifier::rlimit(50)]
pub proof fn lemma_new_labels_table()
    ensures
        new_labels().len() == 22,
        forall|i: int|
            0 <= i < 22 ==> {
                &&& new_labels()[i].0.len() > 0
                &&& new_labels()[i].0[0] > '\x7f'
                &&& new_labels()[i].1.len() > 5
                &&& is_hex_color(#[trigger] new_labels()[i].2)
            },
        forall|i: int, j: int|
            0 <= i < j < 22 ==> #[trigger] new_labels()[i].0[0] != #[trigger] new_labels()[j].0[0],
        forall|i: int, j: int|
            0 <= i < j < 22 ==> #[trigger] new_labels()[i].0 != #[trigger] new_labels()[j].0,
{
    reveal_strlit("🔴 priority: critical");
    reveal_strlit("Critical issues that need immediate attention");
    reveal_strlit("B60205");
    reveal_strlit("🟠 priority: high");
    reveal_strlit("High priority issues");
    reveal_strlit("D93F0B");
    reveal_strlit("🟡 priority: medium");
    reveal_strlit("Medium priority issues");
    reveal_strlit("FBCA04");
    reveal_strlit("🟢 priority: low");
    reveal_strlit("Low priority issues");
    reveal_strlit("0E8A16");
    reveal_strlit("🔄 status: in progress");
    reveal_strlit("Currently being worked on");
    reveal_strlit("0052CC");
    reveal_strlit("👀 status: needs review");
    reveal_strlit("Waiting for code review");
    reveal_strlit("006B75");
    reveal_strlit("🚧 status: blocked");
    reveal_strlit("Blocked by external dependencies");
    reveal_strlit("D4C5F9");
    reveal_strlit("✅ status: ready");
    reveal_strlit("Ready to be implemented");
    reveal_strlit("0E8A16");
    reveal_strlit("🎨 ui/ux");
    reveal_strlit("User interface and experience");
    reveal_strlit("F9D0C4");
    reveal_strlit("🌍 translation");
    reveal_strlit("Translation and internationalization");
    reveal_strlit("1D76DB");
    reveal_strlit("🔧 cli");
    reveal_strlit("Command line interface");
    reveal_strlit("5319E7");
    reveal_strlit("📦 release");
    reveal_strlit("Release management and versioning");
    reveal_strlit("0366D6");
    reveal_strlit("🔍 code-quality");
    reveal_strlit("Code quality checks and linting");
    reveal_strlit("D93F0B");
    reveal_strlit("🌱 easy");
    reveal_strlit("Easy to implement, good for beginners");
    reveal_strlit("C2E0C6");
    reveal_strlit("🌿 medium");
    reveal_strlit("Moderate complexity");
    reveal_strlit("FEF2C0");
    reveal_strlit("🌳 hard");
    reveal_strlit("Complex implementation required");
    reveal_strlit("F9D0C4");
    reveal_strlit("🔒 security");
    reveal_strlit("Security related issues");
    reveal_strlit("D73A49");
    reveal_strlit("⚡ performance");
    reveal_strlit("Performance optimization");
    reveal_strlit("FBCA04");
    reveal_strlit("♿ accessibility");
    reveal_strlit("Accessibility improvements");
    reveal_strlit("0052CC");
    reveal_strlit("🧪 testing");
    reveal_strlit("Testing related issues");
    reveal_strlit("BFD4F2");
    reveal_strlit("🐞 fix");
    reveal_strlit("Bug fixes");
    reveal_strlit("D73A49");
    reveal_strlit("✨ feature");
    reveal_strlit("New feature implementation");
    reveal_strlit("A2EEEF");
    let ls = new_labels();
    assert forall|i: int| 0 <= i < 22 implies {
        &&& ls[i].0.len() > 0
        &&& ls[i].0[0] > '\x7f'
        &&& ls[i].1.len() > 5
        &&& is_hex_color(#[trigger] ls[i].2)
    } by {
        assert(0 <= i < 22);
    }
    assert forall|i: int, j: int| 0 <= i < j < 22 implies #[trigger] ls[i].0[0] != #[trigger] ls[j].0[0] by {
        assert(0 <= i < j < 22);
    }
    assert forall|i: int, j: int| 0 <= i < j < 22 implies #[trigger] ls[i].0 != #[trigger] ls[j].0 by {
        assert(ls[i].0[0] != ls[j].0[0]);
    }
}

} // verus!
