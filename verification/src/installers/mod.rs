//! Installers that bring a template into the store, one per source kind.

pub mod base;
pub mod git;
pub mod local;
pub mod traits;

pub use self::base::TemplateInstaller;
pub use self::git::GitInstaller;
pub use self::local::LocalInstaller;
pub use self::traits::Installer;
