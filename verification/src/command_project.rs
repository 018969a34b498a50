//! The `project` commands whose work is not file or network I/O.
use vstd::prelude::*;

use crate::command_list::{managed_unique_names, project_rows, projects_table, ProjectRow};
use crate::human::all_fitting_digit_runs;
use crate::state_config::GupGlobalConfig;

verus! {

/// The table of `gup project list`: the table of `gup list` without a project, as
/// [`projects_table`] describes and [`project_rows`] gives it; empty when gup manages none.
pub fn run_command_project_list(config: &GupGlobalConfig) -> (r: Vec<ProjectRow>)
    requires
        all_fitting_digit_runs(managed_unique_names(config)),
    ensures
        projects_table(config, r@),
{
    project_rows(config)
}

/// Law: a table is what `gup project list` gives exactly when it is what `gup list` gives
/// without a project; both are the table of [`projects_table`], with the same rows each
/// as often, in the same human order of names.
pub proof fn law_project_list_is_list_without_project(config: &GupGlobalConfig, a: Seq<ProjectRow>, b: Seq<ProjectRow>)
    requires
        projects_table(config, a),
        projects_table(config, b),
    ensures
        crate::command_list::project_row_views(a).to_multiset() == crate::command_list::project_row_views(b).to_multiset(),
        a.len() == b.len(),
{
    crate::command_list::project_row_views(a).to_multiset_ensures();
    crate::command_list::project_row_views(b).to_multiset_ensures();
}

} // verus!
