//! The commands the client executes.
//!
//! Parsing the command line into these values is the front end's work;
//! the engine only dispatches on them.

use vstd::prelude::*;

verus! {

/// The kind of installer used to bring a template into the store.
#[derive(Clone, Copy, PartialEq, Eq, Structural, Debug)]
pub enum InstallerTypeEnum {
    Git,
    Local,
}

/// The kind of entity a listing or deletion concerns.
#[derive(Clone, Copy, PartialEq, Eq, Structural, Debug)]
pub enum EntityTypeEnum {
    Repository,
    Template,
}

/// One invocation of the client.
pub enum Command {
    /// Initialize a new project with the chosen templates.
    Init {
        /// Target directory to initialize.
        target: String,
        /// Comma-separated template names whose variables may be
        /// overridden interactively.
        with_override: Option<String>,
        /// Whether every chosen template's variables may be overridden.
        override_all: bool,
        /// The templates used for the project generation.
        templates: Vec<String>,
    },
    /// Install a new template into the store.
    Install {
        /// The installer used to bring the template in.
        installer_type: InstallerTypeEnum,
        /// The path or URL of the template's source.
        path: String,
        /// A custom name to store the template under.
        template_name: Option<String>,
    },
    /// Show the installed repositories or templates.
    List {
        /// The kind of entity to list.
        entity: EntityTypeEnum,
    },
    /// Delete one installed repository or template.
    Delete {
        /// The kind of entity to delete.
        entity: EntityTypeEnum,
        /// The name of the installed repository or template.
        name: String,
    },
}

} // verus!
