//! Dependency updates: the dependency lists read from manifests, and the
//! decisions of the update runs of each package manager.
use vstd::prelude::*;
use crate::json::{json_member, keys_of, member, member_keys, JsonValue, JsonView};
use crate::text::{
    chars_of, contains, copy_text, lines, lines_exec, push_text, starts_with, starts_with_exec,
    string_of, string_views, text_contains, text_eq, trim, trim_exec, trim_text, views,
};

verus! {

/// The kind of a dependency manifest.
#[derive(Debug, Clone, Copy, PartialEq, Eq, Structural)]
pub enum ManifestKind {
    Node,
    Cargo,
    Pip,
    Composer,
    Unknown,
}

/// The kind of a manifest by its file name.
pub open spec fn manifest_kind_of(name: Seq<char>) -> ManifestKind {
    if name == "package.json"@ {
        ManifestKind::Node
    } else if name == "Cargo.toml"@ {
        ManifestKind::Cargo
    } else if name == "requirements.txt"@ {
        ManifestKind::Pip
    } else if name == "composer.json"@ {
        ManifestKind::Composer
    } else {
        ManifestKind::Unknown
    }
}

/// The kind of a manifest by its file name.
pub fn manifest_kind(name: &str) -> (r: ManifestKind)
    ensures
        r == manifest_kind_of(name@),
{
    if text_eq(name, "package.json") {
        ManifestKind::Node
    } else if text_eq(name, "Cargo.toml") {
        ManifestKind::Cargo
    } else if text_eq(name, "requirements.txt") {
        ManifestKind::Pip
    } else if text_eq(name, "composer.json") {
        ManifestKind::Composer
    } else {
        ManifestKind::Unknown
    }
}

/// State of the scan of a `Cargo.toml`: inside `[dependencies]`, past its
/// end, and the dependency lines found so far.
pub struct CargoScan {
    pub inside: bool,
    pub done: bool,
    pub found: Seq<Seq<char>>,
}

/// The scan after one more line: the `[dependencies]` header opens the
/// section; inside it, a line starting with `[` ends the scan, and a line
/// with `=` is a dependency (trimmed).
pub open spec fn cargo_step(s: CargoScan, line: Seq<char>) -> CargoScan {
    if s.done {
        s
    } else if trim(line) == "[dependencies]"@ {
        CargoScan { inside: true, ..s }
    } else if s.inside {
        if starts_with(line, "["@) {
            CargoScan { done: true, ..s }
        } else if contains(line, "="@) && trim(line).len() > 0 {
            CargoScan { found: s.found.push(trim(line)), ..s }
        } else {
            s
        }
    } else {
        s
    }
}

/// The scan of a sequence of lines.
pub open spec fn cargo_scan(ls: Seq<Seq<char>>) -> CargoScan
    decreases ls.len(),
{
    if ls.len() == 0 {
        CargoScan { inside: false, done: false, found: seq![] }
    } else {
        cargo_step(cargo_scan(ls.drop_last()), ls.last())
    }
}

/// The dependency lines of a `Cargo.toml`: the trimmed lines with `=` in
/// its `[dependencies]` section.
pub fn cargo_dependency_lines(content: &str) -> (r: Vec<String>)
    ensures
        string_views(r@) == cargo_scan(lines(content@)).found,
{
    let ls = lines_exec(&chars_of(content));
    let ghost lv = views(ls@);
    let mut inside = false;
    let mut done = false;
    let mut r: Vec<String> = Vec::new();
    let mut i: usize = 0;
    assert(lv.take(0) =~= seq![]);
    assert(string_views(r@) =~= seq![]);
    let eq = chars_of("=");
    let bracket = chars_of("[");
    while i < ls.len()
        invariant
            i <= ls.len(),
            lv == views(ls@),
            lv == lines(content@),
            eq@ == "="@,
            bracket@ == "["@,
            cargo_scan(lv.take(i as int)).inside == inside,
            cargo_scan(lv.take(i as int)).done == done,
            cargo_scan(lv.take(i as int)).found == string_views(r@),
        decreases ls.len() - i,
    {
        assert(lv.take(i + 1).drop_last() =~= lv.take(i as int));
        assert(lv.take(i + 1).last() == ls@[i as int]@);
        let line = &ls[i];
        let t = trim_exec(line);
        if !done {
            if crate::text::chars_eq(&t, &chars_of("[dependencies]")) {
                inside = true;
            } else if inside {
                if starts_with_exec(line, &bracket) {
                    done = true;
                } else if crate::text::contains_exec(line, &eq) && t.len() > 0 {
                    let ghost before = string_views(r@);
                    r.push(string_of(&t));
                    assert(string_views(r@) =~= before.push(t@));
                }
            }
        }
        i += 1;
    }
    assert(lv.take(i as int) =~= lv);
    r
}

/// The requirements of a `requirements.txt`: its trimmed lines that are
/// neither empty nor comments.
pub open spec fn requirement_list(ls: Seq<Seq<char>>) -> Seq<Seq<char>>
    decreases ls.len(),
{
    if ls.len() == 0 {
        seq![]
    } else {
        let t = trim(ls.last());
        if t.len() > 0 && !starts_with(t, "#"@) {
            requirement_list(ls.drop_last()).push(t)
        } else {
            requirement_list(ls.drop_last())
        }
    }
}

/// The requirements listed in a `requirements.txt`.
pub fn requirement_lines(content: &str) -> (r: Vec<String>)
    ensures
        string_views(r@) == requirement_list(lines(content@)),
{
    let ls = lines_exec(&chars_of(content));
    let ghost lv = views(ls@);
    let hash = chars_of("#");
    let mut r: Vec<String> = Vec::new();
    let mut i: usize = 0;
    assert(lv.take(0) =~= seq![]);
    assert(string_views(r@) =~= seq![]);
    while i < ls.len()
        invariant
            i <= ls.len(),
            lv == views(ls@),
            hash@ == "#"@,
            string_views(r@) == requirement_list(lv.take(i as int)),
        decreases ls.len() - i,
    {
        assert(lv.take(i + 1).drop_last() =~= lv.take(i as int));
        assert(lv.take(i + 1).last() == ls@[i as int]@);
        let t = trim_exec(&ls[i]);
        if t.len() > 0 && !starts_with_exec(&t, &hash) {
            let ghost before = string_views(r@);
            r.push(string_of(&t));
            assert(string_views(r@) =~= before.push(t@));
        }
        i += 1;
    }
    assert(lv.take(i as int) =~= lv);
    r
}

/// The version text of a dependency: the string, or `unknown` for another
/// value.
pub open spec fn version_text(v: JsonView) -> Seq<char> {
    match v {
        JsonView::Str(s) => s,
        _ => "unknown"@,
    }
}

/// The members of an object as (name, version text) pairs, in order.
pub open spec fn dependency_pairs(es: Seq<(Seq<char>, JsonView)>) -> Seq<(Seq<char>, Seq<char>)> {
    es.map_values(|e: (Seq<char>, JsonView)| (e.0, version_text(e.1)))
}

/// The dependencies listed under `section` of a manifest document: `None`
/// when the section is missing or not an object.
pub open spec fn section_dependencies(doc: JsonView, section: Seq<char>) -> Option<
    Seq<(Seq<char>, Seq<char>)>,
> {
    match json_member(doc, section) {
        Some(JsonView::Object(es)) => Some(dependency_pairs(es)),
        _ => None,
    }
}

/// The views of dependency pairs.
pub open spec fn pair_views(v: Seq<(String, String)>) -> Seq<(Seq<char>, Seq<char>)> {
    v.map_values(|p: (String, String)| (p.0@, p.1@))
}

/// The dependencies listed under `section` (`dependencies`,
/// `devDependencies`, `require`, `require-dev`) of a manifest document, with
/// their version texts.
pub fn json_dependency_entries(doc: &JsonValue, section: &str) -> (r: Option<Vec<(String, String)>>)
    ensures
        match r {
            Some(v) => section_dependencies(doc.model(), section@) == Some(pair_views(v@)),
            None => section_dependencies(doc.model(), section@) is None,
        },
{
    match member(doc, section) {
        Some(JsonValue::Object(entries)) => {
            proof {
                crate::json::lemma_members_model(entries@);
            }
            let ghost es = crate::json::members_model(entries@);
            let mut r: Vec<(String, String)> = Vec::new();
            let mut i: usize = 0;
            while i < entries.len()
                invariant
                    i <= entries.len(),
                    es == crate::json::members_model(entries@),
                    es.len() == entries.len(),
                    forall|j: int|
                        0 <= j < entries.len() ==> #[trigger] es[j] == (
                            entries@[j].0@,
                            entries@[j].1.model(),
                        ),
                    pair_views(r@) == dependency_pairs(es.take(i as int)),
                decreases entries.len() - i,
            {
                let name = entries[i].0.clone();
                let version = match &entries[i].1 {
                    JsonValue::Str(s) => s.clone(),
                    _ => copy_text("unknown"),
                };
                assert(es[i as int] == (entries@[i as int].0@, entries@[i as int].1.model()));
                assert(version@ == version_text(es[i as int].1));
                let ghost before = pair_views(r@);
                r.push((name, version));
                assert(pair_views(r@) =~= before.push((es[i as int].0, version_text(es[i as int].1))));
                assert(dependency_pairs(es.take(i + 1)) =~= dependency_pairs(es.take(i as int)).push(
                    (es[i as int].0, version_text(es[i as int].1)),
                ));
                i += 1;
            }
            assert(es.take(i as int) =~= es);
            Some(r)
        },
        _ => None,
    }
}

/// The lock files backed up before a Node.js update: the manager's own, or
/// all three for another manager.
pub open spec fn lock_files_of(pm: Seq<char>) -> Seq<Seq<char>> {
    if pm == "pnpm"@ {
        seq!["pnpm-lock.yaml"@]
    } else if pm == "yarn"@ {
        seq!["yarn.lock"@]
    } else if pm == "npm"@ {
        seq!["package-lock.json"@]
    } else {
        seq!["package-lock.json"@, "yarn.lock"@, "pnpm-lock.yaml"@]
    }
}

/// The lock files backed up before a Node.js update.
pub fn lock_files_for(pm: &str) -> (r: Vec<String>)
    ensures
        string_views(r@) == lock_files_of(pm@),
{
    let mut r: Vec<String> = Vec::new();
    if text_eq(pm, "pnpm") {
        r.push(copy_text("pnpm-lock.yaml"));
    } else if text_eq(pm, "yarn") {
        r.push(copy_text("yarn.lock"));
    } else if text_eq(pm, "npm") {
        r.push(copy_text("package-lock.json"));
    } else {
        r.push(copy_text("package-lock.json"));
        r.push(copy_text("yarn.lock"));
        r.push(copy_text("pnpm-lock.yaml"));
    }
    assert(string_views(r@) =~= lock_files_of(pm@));
    r
}

/// The backup directory for a time stamp: `./backup/<stamp>`.
pub fn backup_dir_name(stamp: &str) -> (r: String)
    ensures
        r@ == "./backup/"@ + stamp@,
{
    let mut r = copy_text("./backup/");
    push_text(&mut r, stamp);
    r
}

/// The command to run a tool: its `.cmd` form on Windows when that one
/// answers, else its plain name.
pub fn tool_command(base: &str, windows: bool, cmd_variant_works: bool) -> (r: String)
    ensures
        r@ == if windows && cmd_variant_works {
            base@ + ".cmd"@
        } else {
            base@
        },
{
    let mut r = copy_text(base);
    if windows && cmd_variant_works {
        push_text(&mut r, ".cmd");
    }
    r
}

/// How Yarn is run: directly, through `npx`, or not at all.
#[derive(Debug, Clone, Copy, PartialEq, Eq, Structural)]
pub enum YarnRoute {
    Direct,
    ViaNpx,
    Missing,
}

/// How Yarn is run, given whether `yarn` and `npx yarn` answer.
pub fn yarn_route(yarn_available: bool, npx_yarn_available: bool) -> (r: YarnRoute)
    ensures
        r == if yarn_available {
            YarnRoute::Direct
        } else if npx_yarn_available {
            YarnRoute::ViaNpx
        } else {
            YarnRoute::Missing
        },
{
    if yarn_available {
        YarnRoute::Direct
    } else if npx_yarn_available {
        YarnRoute::ViaNpx
    } else {
        YarnRoute::Missing
    }
}

/// Whether a command's output is worth showing: not blank.
pub fn output_is_blank(output: &str) -> (r: bool)
    ensures
        r == (trim(output@).len() == 0),
{
    trim_text(output).len() == 0
}

/// A Node.js package manager that updates dependencies.
#[derive(Debug, Clone, Copy, PartialEq, Eq, Structural)]
pub enum NodeTool {
    Npm,
    Yarn,
    Pnpm,
}

/// The stage of a Node.js update run.
#[derive(Debug, Clone, Copy, PartialEq, Eq, Structural)]
pub enum UpdateStage {
    /// Updating the packages.
    Update,
    /// Listing outdated packages.
    Outdated,
    /// Running the security audit.
    Audit,
    /// Nothing more to run.
    Finished,
}

/// What a stage's command gave: it ran (with its status and output) or it
/// could not be started.
pub enum CommandOutcome {
    Ran { success: bool, stdout: String },
    NotStarted,
}

/// What to report after a stage.
#[derive(Debug, Clone, Copy, PartialEq, Eq, Structural)]
pub enum UpdateReport {
    UpdateFailed,
    Updated,
    OutdatedShown,
    UpToDate,
    OutdatedUnavailable,
    AuditShown,
    AuditClean,
    AuditUnavailable,
}

/// Whether an audit output reports vulnerabilities: Yarn's when it mentions
/// them; pnpm's when it is not blank and mentions them.
pub open spec fn audit_findings(tool: NodeTool, stdout: Seq<char>) -> bool {
    match tool {
        NodeTool::Pnpm => trim(stdout).len() > 0 && contains(stdout, "vulnerabilities"@),
        _ => contains(stdout, "vulnerabilities"@),
    }
}

/// The next stage and the report after a stage ran: a failed or unstarted
/// update ends the run; a successful one goes on to the outdated listing,
/// which is shown when not blank; then Yarn and pnpm run an audit, npm
/// stops; the audit ends the run.
pub open spec fn update_transition(
    tool: NodeTool,
    stage: UpdateStage,
    ran: bool,
    success: bool,
    stdout: Seq<char>,
) -> (UpdateStage, Option<UpdateReport>) {
    let after_outdated = match tool {
        NodeTool::Npm => UpdateStage::Finished,
        _ => UpdateStage::Audit,
    };
    match stage {
        UpdateStage::Update => if ran && success {
            (UpdateStage::Outdated, Some(UpdateReport::Updated))
        } else {
            (UpdateStage::Finished, Some(UpdateReport::UpdateFailed))
        },
        UpdateStage::Outdated => if !ran {
            (after_outdated, Some(UpdateReport::OutdatedUnavailable))
        } else if trim(stdout).len() > 0 {
            (after_outdated, Some(UpdateReport::OutdatedShown))
        } else {
            (after_outdated, Some(UpdateReport::UpToDate))
        },
        UpdateStage::Audit => if !ran {
            (UpdateStage::Finished, Some(UpdateReport::AuditUnavailable))
        } else if audit_findings(tool, stdout) {
            (UpdateStage::Finished, Some(UpdateReport::AuditShown))
        } else {
            (UpdateStage::Finished, Some(UpdateReport::AuditClean))
        },
        UpdateStage::Finished => (UpdateStage::Finished, None),
    }
}

/// The arguments of a stage's command: `upgrade` (Yarn) or `update`, then
/// `outdated`, then `audit`; none when finished.
pub open spec fn stage_args(tool: NodeTool, stage: UpdateStage) -> Seq<Seq<char>> {
    match stage {
        UpdateStage::Update => match tool {
            NodeTool::Yarn => seq!["upgrade"@],
            _ => seq!["update"@],
        },
        UpdateStage::Outdated => seq!["outdated"@],
        UpdateStage::Audit => seq!["audit"@],
        UpdateStage::Finished => seq![],
    }
}

/// The arguments of a stage's command.
pub fn stage_arguments(tool: NodeTool, stage: UpdateStage) -> (r: Vec<String>)
    ensures
        string_views(r@) == stage_args(tool, stage),
{
    let mut r: Vec<String> = Vec::new();
    match stage {
        UpdateStage::Update => match tool {
            NodeTool::Yarn => r.push(copy_text("upgrade")),
            _ => r.push(copy_text("update")),
        },
        UpdateStage::Outdated => r.push(copy_text("outdated")),
        UpdateStage::Audit => r.push(copy_text("audit")),
        UpdateStage::Finished => {},
    }
    assert(string_views(r@) =~= stage_args(tool, stage));
    r
}

/// The next stage of a Node.js update run and what to report, given what
/// the current stage's command gave.
pub fn next_update_stage(tool: NodeTool, stage: UpdateStage, outcome: &CommandOutcome) -> (r: (
    UpdateStage,
    Option<UpdateReport>,
))
    ensures
        r == match outcome {
            CommandOutcome::Ran { success, stdout } => update_transition(
                tool,
                stage,
                true,
                *success,
                stdout@,
            ),
            CommandOutcome::NotStarted => update_transition(tool, stage, false, false, seq![]),
        },
{
    let (ran, success, out): (bool, bool, &str) = match outcome {
        CommandOutcome::Ran { success, stdout } => (true, *success, stdout.as_str()),
        CommandOutcome::NotStarted => (false, false, ""),
    };
    proof {
        reveal_strlit("");
    }
    let after_outdated = match tool {
        NodeTool::Npm => UpdateStage::Finished,
        _ => UpdateStage::Audit,
    };
    match stage {
        UpdateStage::Update => if ran && success {
            (UpdateStage::Outdated, Some(UpdateReport::Updated))
        } else {
            (UpdateStage::Finished, Some(UpdateReport::UpdateFailed))
        },
        UpdateStage::Outdated => if !ran {
            (after_outdated, Some(UpdateReport::OutdatedUnavailable))
        } else if !output_is_blank(out) {
            (after_outdated, Some(UpdateReport::OutdatedShown))
        } else {
            (after_outdated, Some(UpdateReport::UpToDate))
        },
        UpdateStage::Audit => {
            if !ran {
                (UpdateStage::Finished, Some(UpdateReport::AuditUnavailable))
            } else {
                let mentions = text_contains(out, "vulnerabilities");
                let findings = match tool {
                    NodeTool::Pnpm => !output_is_blank(out) && mentions,
                    _ => mentions,
                };
                if findings {
                    (UpdateStage::Finished, Some(UpdateReport::AuditShown))
                } else {
                    (UpdateStage::Finished, Some(UpdateReport::AuditClean))
                }
            }
        },
        UpdateStage::Finished => (UpdateStage::Finished, None),
    }
}

/// The position of a stage in a run.
pub open spec fn stage_rank(s: UpdateStage) -> int {
    match s {
        UpdateStage::Update => 0,
        UpdateStage::Outdated => 1,
        UpdateStage::Audit => 2,
        UpdateStage::Finished => 3,
    }
}

/// An update run always moves forward: from any unfinished stage, whatever
/// the command gave, the next stage comes later, so a run ends after at most
/// three commands; and npm runs no audit.
pub proof fn lemma_update_run_progresses(
    tool: NodeTool,
    stage: UpdateStage,
    ran: bool,
    success: bool,
    stdout: Seq<char>,
)
    ensures
        stage != UpdateStage::Finished ==> stage_rank(
            update_transition(tool, stage, ran, success, stdout).0,
        ) > stage_rank(stage),
        stage == UpdateStage::Finished ==> update_transition(tool, stage, ran, success, stdout)
            == (UpdateStage::Finished, None::<UpdateReport>),
        tool == NodeTool::Npm ==> update_transition(tool, stage, ran, success, stdout).0
            != UpdateStage::Audit,
{
}

/// An audit that ran is reported by its output, whatever its exit status
/// (audits exit with failure when they find something): output that is not
/// blank and mentions vulnerabilities is shown, output that does not mention
/// them is reported clean; either way the run ends.
pub proof fn lemma_audit_report(tool: NodeTool, success: bool, stdout: Seq<char>)
    ensures
        trim(stdout).len() > 0 && contains(stdout, "vulnerabilities"@) ==> update_transition(
            tool,
            UpdateStage::Audit,
            true,
            success,
            stdout,
        ) == (UpdateStage::Finished, Some(UpdateReport::AuditShown)),
        !contains(stdout, "vulnerabilities"@) ==> update_transition(
            tool,
            UpdateStage::Audit,
            true,
            success,
            stdout,
        ) == (UpdateStage::Finished, Some(UpdateReport::AuditClean)),
{
}

} // verus!
