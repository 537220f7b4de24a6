//! The launcher's persisted configuration: the project list and the update
//! bookkeeping, with the pure rules for changing them. Reading and writing
//! the file itself happens outside the library.

use vstd::prelude::*;
use vstd::string::StringExecFns;
use crate::paths::str_eq;

verus! {

/// One project known to the launcher.
#[derive(Debug)]
pub struct ProjectEntry {
    pub name: String,
    pub path: String,
    pub ai_tool: String,
    pub created_at: String,
    pub place_id: Option<u64>,
    pub universe_id: Option<u64>,
}

/// The whole configuration file.
#[derive(Debug)]
pub struct RoxlitConfig {
    pub version: u32,
    pub projects: Vec<ProjectEntry>,
    pub last_active_project: Option<String>,
    pub last_update_check: Option<String>,
    pub dismissed_version: Option<String>,
    pub update_delay_days: Option<u32>,
}

/// A project found by scanning a directory for existing project trees.
#[derive(Debug)]
pub struct DiscoveredProject {
    pub name: String,
    pub path: String,
    pub ai_tool: String,
}

/// The configuration used when none exists yet.
pub fn default_config() -> (c: RoxlitConfig)
    ensures
        c.version == 1,
        c.projects@.len() == 0,
        c.last_active_project is None,
        c.last_update_check is None,
        c.dismissed_version is None,
        c.update_delay_days is None,
{
    RoxlitConfig {
        version: 1,
        projects: Vec::new(),
        last_active_project: None,
        last_update_check: None,
        dismissed_version: None,
        update_delay_days: None,
    }
}

/// A stored entry overwritten by a new one: every field of the new entry,
/// except that linked identifiers the new entry lacks are kept.
pub open spec fn spec_merge_entry(existing: ProjectEntry, new: ProjectEntry) -> ProjectEntry {
    ProjectEntry {
        name: new.name,
        path: new.path,
        ai_tool: new.ai_tool,
        created_at: new.created_at,
        place_id: if new.place_id is Some {
            new.place_id
        } else {
            existing.place_id
        },
        universe_id: if new.universe_id is Some {
            new.universe_id
        } else {
            existing.universe_id
        },
    }
}

/// The project list after saving `p`: the first entry with `p`'s path is
/// overwritten (keeping its linked identifiers where `p` has none); without
/// one, `p` is appended.
pub open spec fn spec_upsert(projects: Seq<ProjectEntry>, p: ProjectEntry) -> Seq<ProjectEntry>
    decreases projects.len(),
{
    if projects.len() == 0 {
        seq![p]
    } else if projects[0].path@ == p.path@ {
        seq![spec_merge_entry(projects[0], p)] + projects.skip(1)
    } else {
        seq![projects[0]] + spec_upsert(projects.skip(1), p)
    }
}

proof fn lemma_upsert_at(projects: Seq<ProjectEntry>, p: ProjectEntry, i: int)
    requires
        0 <= i < projects.len(),
        projects[i].path@ == p.path@,
        forall|k: int| 0 <= k < i ==> (#[trigger] projects[k]).path@ != p.path@,
    ensures
        spec_upsert(projects, p) =~= projects.update(i, spec_merge_entry(projects[i], p)),
    decreases i,
{
    if i == 0 {
        assert(seq![spec_merge_entry(projects[0], p)] + projects.skip(1) =~= projects.update(
            0,
            spec_merge_entry(projects[0], p),
        ));
    } else {
        assert(forall|k: int|
            0 <= k < projects.len() - 1 ==> #[trigger] projects.skip(1)[k] == projects[k + 1]);
        lemma_upsert_at(projects.skip(1), p, i - 1);
        assert(seq![projects[0]] + projects.skip(1).update(
            i - 1,
            spec_merge_entry(projects[i], p),
        ) =~= projects.update(i, spec_merge_entry(projects[i], p)));
    }
}

proof fn lemma_upsert_absent(projects: Seq<ProjectEntry>, p: ProjectEntry)
    requires
        forall|k: int| 0 <= k < projects.len() ==> (#[trigger] projects[k]).path@ != p.path@,
    ensures
        spec_upsert(projects, p) =~= projects.push(p),
    decreases projects.len(),
{
    if projects.len() > 0 {
        assert(forall|k: int|
            0 <= k < projects.len() - 1 ==> #[trigger] projects.skip(1)[k] == projects[k + 1]);
        lemma_upsert_absent(projects.skip(1), p);
        assert(seq![projects[0]] + projects.skip(1).push(p) =~= projects.push(p));
    }
}

/// Save one project into the configuration: upsert it into the list by path
/// and remember it as the last active project.
pub fn upsert_project(config: &mut RoxlitConfig, project: ProjectEntry)
    ensures
        final(config).projects@ == spec_upsert(old(config).projects@, project),
        final(config).last_active_project matches Some(q) && q@ == project.path@,
        final(config).version == old(config).version,
        final(config).last_update_check == old(config).last_update_check,
        final(config).dismissed_version == old(config).dismissed_version,
        final(config).update_delay_days == old(config).update_delay_days,
{
    let active = project.path.clone();
    let n = config.projects.len();
    let mut i: usize = 0;
    let mut found: Option<usize> = None;
    loop
        invariant_except_break
            n == config.projects@.len(),
            0 <= i <= n,
            found is None,
            forall|k: int| 0 <= k < i ==> (#[trigger] config.projects@[k]).path@ != project.path@,
        ensures
            n == config.projects@.len(),
            match found {
                Some(j) => j < n && config.projects@[j as int].path@ == project.path@ && forall|
                    k: int,
                |
                    0 <= k < j ==> (#[trigger] config.projects@[k]).path@ != project.path@,
                None => forall|k: int|
                    0 <= k < n ==> (#[trigger] config.projects@[k]).path@ != project.path@,
            },
        decreases n - i,
    {
        if i == n {
            break;
        }
        if str_eq(config.projects[i].path.as_str(), project.path.as_str()) {
            found = Some(i);
            break;
        }
        i = i + 1;
    }
    match found {
        Some(j) => {
            let ghost before = config.projects@;
            let place_id = if project.place_id.is_some() {
                project.place_id
            } else {
                config.projects[j].place_id
            };
            let universe_id = if project.universe_id.is_some() {
                project.universe_id
            } else {
                config.projects[j].universe_id
            };
            let merged = ProjectEntry {
                name: project.name,
                path: project.path,
                ai_tool: project.ai_tool,
                created_at: project.created_at,
                place_id,
                universe_id,
            };
            proof {
                assert(merged == spec_merge_entry(before[j as int], ProjectEntry {
                    name: merged.name,
                    path: merged.path,
                    ai_tool: merged.ai_tool,
                    created_at: merged.created_at,
                    place_id: project.place_id,
                    universe_id: project.universe_id,
                }));
            }
            config.projects[j] = merged;
            proof {
                lemma_upsert_at(before, ProjectEntry {
                    name: config.projects@[j as int].name,
                    path: config.projects@[j as int].path,
                    ai_tool: config.projects@[j as int].ai_tool,
                    created_at: config.projects@[j as int].created_at,
                    place_id: project.place_id,
                    universe_id: project.universe_id,
                }, j as int);
            }
        },
        None => {
            let ghost before = config.projects@;
            config.projects.push(project);
            proof {
                lemma_upsert_absent(before, config.projects@.last());
                assert(config.projects@ =~= before.push(config.projects@.last()));
            }
        },
    }
    config.last_active_project = Some(active);
}

/// Record the update bookkeeping handed back by the shell: each field is
/// overwritten only when a new value is given.
pub fn merge_update_state(
    config: &mut RoxlitConfig,
    last_update_check: Option<String>,
    dismissed_version: Option<String>,
)
    ensures
        final(config).last_update_check == if last_update_check is Some {
            last_update_check
        } else {
            old(config).last_update_check
        },
        final(config).dismissed_version == if dismissed_version is Some {
            dismissed_version
        } else {
            old(config).dismissed_version
        },
        final(config).projects@ == old(config).projects@,
        final(config).version == old(config).version,
        final(config).last_active_project == old(config).last_active_project,
        final(config).update_delay_days == old(config).update_delay_days,
{
    if last_update_check.is_some() {
        config.last_update_check = last_update_check;
    }
    if dismissed_version.is_some() {
        config.dismissed_version = dismissed_version;
    }
}

/// Record the user's update-delay setting.
pub fn set_update_delay(config: &mut RoxlitConfig, days: u32)
    ensures
        final(config).update_delay_days == Some(days),
        final(config).projects@ == old(config).projects@,
        final(config).version == old(config).version,
        final(config).last_active_project == old(config).last_active_project,
        final(config).last_update_check == old(config).last_update_check,
        final(config).dismissed_version == old(config).dismissed_version,
{
    config.update_delay_days = Some(days);
}

/// Remember `path` as the last active project.
pub fn set_active_project(config: &mut RoxlitConfig, path: String)
    ensures
        final(config).last_active_project == Some(path),
        final(config).projects@ == old(config).projects@,
        final(config).version == old(config).version,
        final(config).last_update_check == old(config).last_update_check,
        final(config).dismissed_version == old(config).dismissed_version,
        final(config).update_delay_days == old(config).update_delay_days,
{
    config.last_active_project = Some(path);
}

/// Record the linked place (and universe, when known) of the project at
/// `project_path`: the first matching entry is updated in place; a missing
/// universe keeps the stored one; nothing changes when no entry matches.
pub fn set_place_id(
    config: &mut RoxlitConfig,
    project_path: &str,
    place_id: u64,
    universe_id: Option<u64>,
) -> (updated: bool)
    ensures
        final(config).version == old(config).version,
        final(config).last_active_project == old(config).last_active_project,
        final(config).last_update_check == old(config).last_update_check,
        final(config).dismissed_version == old(config).dismissed_version,
        final(config).update_delay_days == old(config).update_delay_days,
        !updated ==> final(config).projects@ == old(config).projects@ && forall|k: int|
            0 <= k < old(config).projects@.len() ==> (#[trigger] old(
                config,
            ).projects@[k]).path@ != project_path@,
        updated ==> exists|j: int|
            {
                &&& 0 <= j < old(config).projects@.len()
                &&& (#[trigger] old(config).projects@[j]).path@ == project_path@
                &&& (forall|k: int|
                    0 <= k < j ==> (#[trigger] old(config).projects@[k]).path@ != project_path@)
                &&& final(config).projects@ == old(config).projects@.update(
                    j,
                    (ProjectEntry {
                        place_id: Some(place_id),
                        universe_id: if universe_id is Some {
                            universe_id
                        } else {
                            old(config).projects@[j].universe_id
                        },
                        ..old(config).projects@[j]
                    }),
                )
            },
{
    let n = config.projects.len();
    let mut i: usize = 0;
    while i < n
        invariant
            n == config.projects@.len(),
            config.projects@ == old(config).projects@,
            config.version == old(config).version,
            config.last_active_project == old(config).last_active_project,
            config.last_update_check == old(config).last_update_check,
            config.dismissed_version == old(config).dismissed_version,
            config.update_delay_days == old(config).update_delay_days,
            0 <= i <= n,
            forall|k: int| 0 <= k < i ==> (#[trigger] config.projects@[k]).path@ != project_path@,
        decreases n - i,
    {
        if str_eq(config.projects[i].path.as_str(), project_path) {
            let uid = if universe_id.is_some() {
                universe_id
            } else {
                config.projects[i].universe_id
            };
            let ghost before = config.projects@;
            let entry = &mut config.projects[i];
            entry.place_id = Some(place_id);
            entry.universe_id = uid;
            proof {
                assert(config.projects@ =~= before.update(i as int, config.projects@[i as int]));
            }
            return true;
        }
        i = i + 1;
    }
    false
}

/// Whether a scanned directory entry is an existing project: a directory,
/// not hidden, holding the project configuration file.
pub fn is_project_candidate(name: &str, is_dir: bool, has_project_json: bool) -> (r: bool)
    ensures
        r == (is_dir && has_project_json && !(name@.len() > 0 && name@[0] == '.')),
{
    if !is_dir || !has_project_json {
        return false;
    }
    let n = vstd::string::StrSliceExecFns::unicode_len(name);
    if n > 0 && name.get_char(0) == '.' {
        return false;
    }
    true
}

} // verus!
