//! The client: the state behind one invocation of the tool.

use vstd::prelude::*;

use crate::catalog::{NamedPath, table_contains, table_has, table_view, table_wf};
use crate::cli::{EntityTypeEnum, InstallerTypeEnum};
use crate::error::Error;
use crate::installers::git::git_template_name;
use crate::installers::local::local_template_name;
use crate::installers::{GitInstaller, Installer, LocalInstaller};
use crate::managers::{Manager, RepositoryManager, TemplateManager};
use crate::templates::utils::{is_correct_template_list, missing_names};
use crate::text::{keep_nonempty, nonempty_parts, split_by, split_string};

verus! {

/// An installer chosen by kind.
pub enum InstallerChoice {
    Git(GitInstaller),
    Local(LocalInstaller),
}

/// A manager chosen by kind.
pub enum ManagerChoice {
    Repository(RepositoryManager),
    Template(TemplateManager),
}

/// The client: the installed repositories and templates of the store.
/// The tables are gathered by a filesystem walk that the surrounding
/// application performs before the client is built.
pub struct Client {
    pub repositories: Vec<NamedPath>,
    pub templates: Vec<NamedPath>,
}

impl Client {
    /// Both tables carry pairwise-distinct names.
    pub open spec fn wf(&self) -> bool {
        table_wf(table_view(self.repositories@)) && table_wf(table_view(self.templates@))
    }

    /// A client over the given store tables.
    pub fn new(repositories: Vec<NamedPath>, templates: Vec<NamedPath>) -> (r: Self)
        requires
            table_wf(table_view(repositories@)),
            table_wf(table_view(templates@)),
        ensures
            r.repositories == repositories,
            r.templates == templates,
            r.wf(),
    {
        Client { repositories, templates }
    }

    /// The installer for one source kind.
    pub fn get_installer_from_enum(&self, value: &InstallerTypeEnum) -> (r: InstallerChoice)
        ensures
            value is Git <==> r is Git,
            value is Local <==> r is Local,
    {
        match value {
            InstallerTypeEnum::Git => InstallerChoice::Git(GitInstaller::new()),
            InstallerTypeEnum::Local => InstallerChoice::Local(LocalInstaller::new()),
        }
    }

    /// The manager for one entity kind, over the matching store table.
    pub fn get_manager_from_enum(&self, value: &EntityTypeEnum) -> (r: ManagerChoice)
        requires
            self.wf(),
        ensures
            value is Repository <==> (r matches ManagerChoice::Repository(m) && m.entities_spec()
                == table_view(self.repositories@)),
            value is Template <==> (r matches ManagerChoice::Template(m) && m.entities_spec()
                == table_view(self.templates@)),
    {
        match value {
            EntityTypeEnum::Repository => ManagerChoice::Repository(
                RepositoryManager::new(&self.repositories),
            ),
            EntityTypeEnum::Template => ManagerChoice::Template(
                TemplateManager::new(&self.templates),
            ),
        }
    }

    /// The name a template being installed will be stored under: the
    /// custom name when one was given, else the name the chosen
    /// installer derives from the source path.
    pub fn resolve_template_name(
        &self,
        installer_type: &InstallerTypeEnum,
        path: &String,
        template_name: &Option<String>,
    ) -> (r: Result<String, Error>)
        ensures
            template_name matches Some(n) ==> (r matches Ok(u) && u@ == n@),
            template_name is None && installer_type is Git ==> (r matches Ok(u) && u@
                == git_template_name(path@)),
            template_name is None && installer_type is Local ==> (r matches Ok(u) && u@
                == local_template_name(path@)),
    {
        match template_name {
            Some(name) => Ok(name.clone()),
            None => match self.get_installer_from_enum(installer_type) {
                InstallerChoice::Git(worker) => worker.get_template_name(path),
                InstallerChoice::Local(worker) => worker.get_template_name(path),
            },
        }
    }

    /// Whether installing under `name` would collide with an installed
    /// template or repository, so that the existing one must be replaced
    /// first.
    pub fn template_name_in_use(&self, name: &String) -> (r: bool)
        ensures
            r == (table_has(table_view(self.templates@), name@) || table_has(
                table_view(self.repositories@),
                name@,
            )),
    {
        table_contains(&self.templates, name) || table_contains(&self.repositories, name)
    }

    /// The templates whose variables the user may override: every
    /// configured template under the all-templates flag, none without the
    /// flag or a list, and otherwise the nonempty names of the
    /// comma-separated list, each of which must name an installed
    /// template.
    pub fn get_overridable_templates(
        &self,
        with_override: &Option<String>,
        override_all_flag: &bool,
        config_names: &Vec<String>,
    ) -> (r: Result<Vec<String>, Error>)
        ensures
            *override_all_flag ==> (r matches Ok(v) && v.deep_view()
                == config_names.deep_view()),
            !*override_all_flag && with_override is None ==> (r matches Ok(v) && v@.len() == 0),
            !*override_all_flag && with_override is Some ==> (match r {
                Ok(v) => v.deep_view() == nonempty_parts(split_by(with_override->Some_0@, ','))
                    && v@.len() > 0 && missing_names(
                    nonempty_parts(split_by(with_override->Some_0@, ',')),
                    table_view(self.templates@),
                ).len() == 0,
                Err(_) => nonempty_parts(split_by(with_override->Some_0@, ',')).len() == 0
                    || missing_names(
                    nonempty_parts(split_by(with_override->Some_0@, ',')),
                    table_view(self.templates@),
                ).len() > 0,
            }),
    {
        if *override_all_flag {
            let mut copy: Vec<String> = Vec::new();
            let n = config_names.len();
            let mut i: usize = 0;
            while i < n
                invariant
                    0 <= i <= n,
                    n == config_names@.len(),
                    copy.deep_view() == config_names.deep_view().subrange(0, i as int),
                decreases n - i,
            {
                let ghost pre = copy.deep_view();
                copy.push(config_names[i].clone());
                proof {
                    assert(copy.deep_view() =~= pre.push(config_names.deep_view()[i as int]));
                    assert(copy.deep_view() =~= config_names.deep_view().subrange(0, i + 1));
                }
                i += 1;
            }
            proof {
                assert(config_names.deep_view().subrange(0, n as int)
                    =~= config_names.deep_view());
            }
            return Ok(copy);
        }
        match with_override {
            Some(value) => {
                let pieces = split_string(value, ',');
                let overridable_templates = keep_nonempty(&pieces);
                match is_correct_template_list(&overridable_templates, &self.templates) {
                    Ok(()) => Ok(overridable_templates),
                    Err(e) => Err(e),
                }
            },
            None => Ok(Vec::new()),
        }
    }
}

} // verus!
