//! Gup: a configuration-driven version manager for arbitrary software projects.
//!
//! This crate holds the verified core of gup: path layout, shell start-up script
//! editing, project metadata resolution, and the state bookkeeping that the
//! command-line front end performs on disk.

pub mod constants;
pub mod operations_shell;
pub mod global_paths;
pub mod strmap;
pub mod text;
pub mod project_metadata_m;
pub mod operations_metadata;
pub mod utils;
pub mod state_config;
pub mod global_config_manager;
pub mod operations_install;
pub mod operations_gc;
pub mod cli;
pub mod config_file;
pub mod jsonstructs_versionsdb;
pub mod project_registration;
pub mod command_remove;
pub mod command_default;
pub mod command_add;
pub mod ordering;
pub mod command_update;
pub mod command_link;
pub mod command_override;
pub mod multiplexer;
pub mod human;
pub mod command_list;
pub mod command_status;
pub mod archive_paths;
pub mod error_handling;
pub mod command_api;
pub mod whitespace;
pub mod operations_symlink;
pub mod command_project;
pub mod path_text;
pub mod operations_selfupdate;

use vstd::prelude::*;

use crate::operations_metadata::{semver_parse_text, semver_text};
use crate::text::opt_view;

verus! {

/// The version of gup, read as a semantic version and written back as text; `None` where
/// [`constants::GUP_VERSION`] is not one.
pub fn get_own_version() -> (r: Option<String>)
    ensures
        opt_view(r) == semver_text(constants::GUP_VERSION@),
{
    semver_parse_text(constants::GUP_VERSION)
}

} // verus!
