use vstd::prelude::*;

pub mod text;
pub mod version;
pub mod config;
pub mod file_system;
pub mod json;
pub mod translation;
pub mod settings;
pub mod release_notes;
pub mod github_labels;
pub mod code_quality;
pub mod dependencies;
pub mod version_check;
pub mod menu;
pub mod logging;
pub mod i18n;

verus! {

} // verus!
