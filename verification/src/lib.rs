//! A template instantiation engine for project scaffolding.
//!
//! A template is a directory holding a declarative definition plus source
//! files, some of which contain flat `{{name}}` placeholders. This crate
//! builds a rendering context from the declared variables, expands
//! multi-valued variables into every concrete combination a placeholder-
//! bearing path requires, merges expanded subcontexts back into the full
//! context with key precedence, substitutes placeholders without failing on
//! undefined ones, and sequences the directory-creation, file-copying and
//! file-generation stages of one installation task.

pub mod catalog;
pub mod cli;
pub mod client;
pub mod context;
pub mod error;
pub mod filesystem;
pub mod installers;
pub mod managers;
pub mod plugins;
pub mod templates;
pub mod terminal;
pub mod text;
pub mod value;

use vstd::prelude::*;

verus! {

} // verus!
