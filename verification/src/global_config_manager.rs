//! The registry of managed projects in gup's global configuration.
//!
//! Loading and saving the configuration file is up to the caller; these functions
//! change the configuration in memory.
use vstd::prelude::*;

use crate::state_config::{GupGlobalConfig, ManagedProjectInfo};

verus! {

/// The registry entry that `add_managed_project` writes for a project.
pub open spec fn is_fresh_registration(
    info: ManagedProjectInfo,
    project_name: Seq<char>,
    display_name: Seq<char>,
    source_url: Seq<char>,
) -> bool {
    &&& info.unique_name@ == project_name
    &&& info.display_name@ == display_name
    &&& info.source_of_truth_url@ == source_url
    &&& info.last_metadata_sync is None
    &&& info.preferred_default is None
}

/// The settings of two configurations agree; only the registry may differ.
pub open spec fn same_settings(a: &GupGlobalConfig, b: &GupGlobalConfig) -> bool {
    &&& a.self_update_channel == b.self_update_channel
    &&& a.background_self_update_interval_minutes == b.background_self_update_interval_minutes
    &&& a.startup_self_update_interval_minutes == b.startup_self_update_interval_minutes
    &&& a.modify_path_on_install == b.modify_path_on_install
    &&& a.last_self_update == b.last_self_update
}

/// `after` is `before` with `project_name` registered from `display_name` and `source_url`.
pub open spec fn added_project(
    before: &GupGlobalConfig,
    after: &GupGlobalConfig,
    project_name: Seq<char>,
    display_name: Seq<char>,
    source_url: Seq<char>,
) -> bool {
    &&& same_settings(after, before)
    &&& after.managed_projects.spec_map().dom() == before.managed_projects.spec_map().dom().insert(project_name)
    &&& is_fresh_registration(after.managed_projects.spec_map()[project_name], project_name, display_name, source_url)
    &&& forall|k: Seq<char>| k != project_name && #[trigger] before.managed_projects.spec_map().contains_key(k)
            ==> after.managed_projects.spec_map()[k] == before.managed_projects.spec_map()[k]
}

/// `after` is `before` without the registration of `project_name`.
pub open spec fn removed_project(before: &GupGlobalConfig, after: &GupGlobalConfig, project_name: Seq<char>) -> bool {
    &&& same_settings(after, before)
    &&& after.managed_projects.spec_map() == before.managed_projects.spec_map().remove(project_name)
}

/// Registers a project, replacing any earlier registration under the same name.
pub fn add_managed_project(config: &mut GupGlobalConfig, project_name: &str, display_name: &str, source_url: &str)
    ensures
        added_project(&*old(config), &*final(config), project_name@, display_name@, source_url@),
{
    let project_info = ManagedProjectInfo {
        unique_name: project_name.to_owned(),
        display_name: display_name.to_owned(),
        source_of_truth_url: source_url.to_owned(),
        last_metadata_sync: None,
        preferred_default: None,
    };
    config.managed_projects.insert(project_name.to_owned(), project_info);
}

/// Unregisters a project; tells whether it was registered.
pub fn remove_managed_project(config: &mut GupGlobalConfig, project_name: &str) -> (removed: bool)
    ensures
        removed == old(config).managed_projects.spec_map().contains_key(project_name@),
        removed_project(&*old(config), &*final(config), project_name@),
{
    config.managed_projects.remove(project_name).is_some()
}

/// Whether a project is registered.
pub fn is_project_managed(config: &GupGlobalConfig, project_name: &str) -> (r: bool)
    ensures
        r == config.managed_projects.spec_map().contains_key(project_name@),
{
    config.managed_projects.contains_key(project_name)
}

/// Sets whether shell start-up scripts put gup's bin directory on `PATH`; tells whether
/// the setting changed, in which case the scripts are to be edited and the configuration
/// saved.
pub fn set_modify_path(config: &mut GupGlobalConfig, value: bool) -> (changed: bool)
    ensures
        changed == (old(config).modify_path_on_install != Some(value)),
        final(config).modify_path_on_install == Some(value),
        final(config).self_update_channel == old(config).self_update_channel,
        final(config).background_self_update_interval_minutes == old(config).background_self_update_interval_minutes,
        final(config).startup_self_update_interval_minutes == old(config).startup_self_update_interval_minutes,
        final(config).last_self_update == old(config).last_self_update,
        final(config).managed_projects == old(config).managed_projects,
{
    let changed = match config.modify_path_on_install {
        Some(current) => current != value,
        None => true,
    };
    config.modify_path_on_install = Some(value);
    changed
}

/// Law: a project is managed once it has been added.
pub proof fn law_managed_after_add(
    before: &GupGlobalConfig,
    after: &GupGlobalConfig,
    project_name: Seq<char>,
    display_name: Seq<char>,
    source_url: Seq<char>,
)
    requires
        added_project(before, after, project_name, display_name, source_url),
    ensures
        after.managed_projects.spec_map().contains_key(project_name),
{
}

/// Law: a project is no longer managed once it has been removed.
pub proof fn law_unmanaged_after_remove(before: &GupGlobalConfig, after: &GupGlobalConfig, project_name: Seq<char>)
    requires
        removed_project(before, after, project_name),
    ensures
        !after.managed_projects.spec_map().contains_key(project_name),
{
}

/// Law: adding a project that was not managed and removing it again restores the
/// registry and leaves the settings as they were.
pub proof fn law_add_then_remove_restores(
    start: &GupGlobalConfig,
    middle: &GupGlobalConfig,
    end: &GupGlobalConfig,
    project_name: Seq<char>,
    display_name: Seq<char>,
    source_url: Seq<char>,
)
    requires
        !start.managed_projects.spec_map().contains_key(project_name),
        added_project(start, middle, project_name, display_name, source_url),
        removed_project(middle, end, project_name),
    ensures
        end.managed_projects.spec_map() == start.managed_projects.spec_map(),
        same_settings(end, start),
{
    let a = start.managed_projects.spec_map();
    let c = end.managed_projects.spec_map();
    assert(c.dom() =~= a.dom());
    assert(c =~= a);
}

} // verus!
