//! The template instantiation engine: placeholder grammar, variable
//! extraction, safe rendering, subcontext expansion, context merging,
//! template configuration and the installation task.

pub mod config;
pub mod placeholder;
pub mod renderer;
pub mod handler;
pub mod task;
pub mod traits;
pub mod utils;
