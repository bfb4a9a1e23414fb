//! Managers that list and delete the store's entities.

pub mod repository;
pub mod template;
pub mod traits;

pub use self::repository::RepositoryManager;
pub use self::template::TemplateManager;
pub use self::traits::{DeleteOutcome, Manager};
