//! The interactive menu: what each answer at the prompt selects.
use vstd::prelude::*;
use crate::text::{string_of, text_eq, trim, trim_text};
use crate::version::BumpType;

verus! {

/// An entry of the main menu.
#[derive(Debug, Clone, Copy, PartialEq, Eq, Structural)]
pub enum MenuChoice {
    CreateRelease,
    ReleaseNotes,
    UpdateDependencies,
    SyncTranslations,
    CodeQuality,
    GitHubLabels,
    Config,
    Version,
    Help,
    Exit,
    Unknown,
}

/// The main-menu entry an answer selects, by number or by name (the answer
/// trimmed); `0`, `exit`, `quit` and `q` leave.
pub open spec fn menu_choice_of(answer: Seq<char>) -> MenuChoice {
    let a = trim(answer);
    if a == "1"@ || a == "create-release"@ {
        MenuChoice::CreateRelease
    } else if a == "2"@ || a == "release-notes"@ {
        MenuChoice::ReleaseNotes
    } else if a == "3"@ || a == "update-dependencies"@ {
        MenuChoice::UpdateDependencies
    } else if a == "4"@ || a == "sync-translations"@ {
        MenuChoice::SyncTranslations
    } else if a == "5"@ || a == "code-quality"@ {
        MenuChoice::CodeQuality
    } else if a == "6"@ || a == "github-labels"@ {
        MenuChoice::GitHubLabels
    } else if a == "7"@ || a == "config"@ {
        MenuChoice::Config
    } else if a == "8"@ || a == "version"@ {
        MenuChoice::Version
    } else if a == "9"@ || a == "help"@ {
        MenuChoice::Help
    } else if a == "0"@ || a == "exit"@ || a == "quit"@ || a == "q"@ {
        MenuChoice::Exit
    } else {
        MenuChoice::Unknown
    }
}

/// The main-menu entry an answer selects.
pub fn menu_choice(answer: &str) -> (r: MenuChoice)
    ensures
        r == menu_choice_of(answer@),
{
    let t = string_of(&trim_text(answer));
    let a = t.as_str();
    if text_eq(a, "1") || text_eq(a, "create-release") {
        MenuChoice::CreateRelease
    } else if text_eq(a, "2") || text_eq(a, "release-notes") {
        MenuChoice::ReleaseNotes
    } else if text_eq(a, "3") || text_eq(a, "update-dependencies") {
        MenuChoice::UpdateDependencies
    } else if text_eq(a, "4") || text_eq(a, "sync-translations") {
        MenuChoice::SyncTranslations
    } else if text_eq(a, "5") || text_eq(a, "code-quality") {
        MenuChoice::CodeQuality
    } else if text_eq(a, "6") || text_eq(a, "github-labels") {
        MenuChoice::GitHubLabels
    } else if text_eq(a, "7") || text_eq(a, "config") {
        MenuChoice::Config
    } else if text_eq(a, "8") || text_eq(a, "version") {
        MenuChoice::Version
    } else if text_eq(a, "9") || text_eq(a, "help") {
        MenuChoice::Help
    } else if text_eq(a, "0") || text_eq(a, "exit") || text_eq(a, "quit") || text_eq(a, "q") {
        MenuChoice::Exit
    } else {
        MenuChoice::Unknown
    }
}

/// An action of the configuration menu.
#[derive(Debug, Clone, Copy, PartialEq, Eq, Structural)]
pub enum ConfigAction {
    Show,
    Setup,
    Reset,
}

/// The configuration action an answer selects: `2`/`setup`, `3`/`reset`,
/// and showing the settings otherwise.
pub open spec fn config_action_of(answer: Seq<char>) -> ConfigAction {
    let a = trim(answer);
    if a == "2"@ || a == "setup"@ {
        ConfigAction::Setup
    } else if a == "3"@ || a == "reset"@ {
        ConfigAction::Reset
    } else {
        ConfigAction::Show
    }
}

/// The configuration action an answer selects.
pub fn config_action(answer: &str) -> (r: ConfigAction)
    ensures
        r == config_action_of(answer@),
{
    let t = string_of(&trim_text(answer));
    let a = t.as_str();
    if text_eq(a, "2") || text_eq(a, "setup") {
        ConfigAction::Setup
    } else if text_eq(a, "3") || text_eq(a, "reset") {
        ConfigAction::Reset
    } else {
        ConfigAction::Show
    }
}

/// An action of the version menu.
#[derive(Debug, Clone, Copy, PartialEq, Eq, Structural)]
pub enum VersionAction {
    Bump(BumpType),
    Show,
    History,
}

/// The version action an answer selects: `1`/`patch`, `2`/`minor`,
/// `3`/`major` bump, `5`/`history`, and showing the version otherwise.
pub open spec fn version_action_of(answer: Seq<char>) -> VersionAction {
    let a = trim(answer);
    if a == "1"@ || a == "patch"@ {
        VersionAction::Bump(BumpType::Patch)
    } else if a == "2"@ || a == "minor"@ {
        VersionAction::Bump(BumpType::Minor)
    } else if a == "3"@ || a == "major"@ {
        VersionAction::Bump(BumpType::Major)
    } else if a == "5"@ || a == "history"@ {
        VersionAction::History
    } else {
        VersionAction::Show
    }
}

/// The version action an answer selects.
pub fn version_action(answer: &str) -> (r: VersionAction)
    ensures
        r == version_action_of(answer@),
{
    let t = string_of(&trim_text(answer));
    let a = t.as_str();
    if text_eq(a, "1") || text_eq(a, "patch") {
        VersionAction::Bump(BumpType::Patch)
    } else if text_eq(a, "2") || text_eq(a, "minor") {
        VersionAction::Bump(BumpType::Minor)
    } else if text_eq(a, "3") || text_eq(a, "major") {
        VersionAction::Bump(BumpType::Major)
    } else if text_eq(a, "5") || text_eq(a, "history") {
        VersionAction::History
    } else {
        VersionAction::Show
    }
}

/// The menu is left exactly on `0`, `exit`, `quit` or `q` (trimmed); an
/// answer that names no entry selects nothing.
pub proof fn lemma_menu_exit(answer: Seq<char>)
    ensures
        menu_choice_of(answer) == MenuChoice::Exit <==> (trim(answer) == "0"@ || trim(answer)
            == "exit"@ || trim(answer) == "quit"@ || trim(answer) == "q"@),
{
    reveal_strlit("1");
    reveal_strlit("create-release");
    reveal_strlit("2");
    reveal_strlit("release-notes");
    reveal_strlit("3");
    reveal_strlit("update-dependencies");
    reveal_strlit("4");
    reveal_strlit("sync-translations");
    reveal_strlit("5");
    reveal_strlit("code-quality");
    reveal_strlit("6");
    reveal_strlit("github-labels");
    reveal_strlit("7");
    reveal_strlit("config");
    reveal_strlit("8");
    reveal_strlit("version");
    reveal_strlit("9");
    reveal_strlit("help");
    reveal_strlit("0");
    reveal_strlit("exit");
    reveal_strlit("quit");
    reveal_strlit("q");
    let a = trim(answer);
    if a == "0"@ || a == "exit"@ || a == "quit"@ || a == "q"@ {
        assert(a != "1"@ && a != "2"@ && a != "3"@ && a != "4"@ && a != "5"@ && a != "6"@
            && a != "7"@ && a != "8"@ && a != "9"@) by {
            if a.len() == 1 {
                assert(a[0] == '0' || a[0] == 'q');
            }
        }
        assert(a != "help"@) by {
            if a.len() == 4 {
                assert(a[0] == 'e' || a[0] == 'q');
            }
        }
        assert(a != "create-release"@ && a != "release-notes"@ && a != "update-dependencies"@
            && a != "sync-translations"@ && a != "code-quality"@ && a != "github-labels"@
            && a != "config"@ && a != "version"@) by {
            assert(a.len() <= 4);
        }
    }
}

} // verus!
