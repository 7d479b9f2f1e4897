//! The project settings that release notes use.
use vstd::prelude::*;
use crate::text::copy_text;

verus! {

/// Settings of a project: its name, the git remote to use and the format of
/// the release notes.
#[derive(Debug)]
pub struct Config {
    pub project_name: String,
    pub git_remote: String,
    pub release_format: String,
}

impl Config {
    /// The default settings: project `nitrokit`, remote `origin`, format
    /// `markdown`.
    pub open spec fn is_default(&self) -> bool {
        &&& self.project_name@ == "nitrokit"@
        &&& self.git_remote@ == "origin"@
        &&& self.release_format@ == "markdown"@
    }

    /// Loads the settings: there is no settings source yet, so these are the
    /// defaults.
    pub fn load_config() -> (r: Self)
        ensures
            r.is_default(),
    {
        Self::default()
    }
}

impl Default for Config {
    fn default() -> (r: Self)
        ensures
            r.is_default(),
    {
        Config {
            project_name: copy_text("nitrokit"),
            git_remote: copy_text("origin"),
            release_format: copy_text("markdown"),
        }
    }
}

} // verus!
