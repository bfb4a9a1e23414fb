//! The handler that materializes templates into a project directory.

use vstd::prelude::*;

verus! {

/// Drives one project initialization: one installation task per chosen
/// template, in order, followed by that template's hooks. The engine
/// plans each task's stages; the directory creation, copying, writing
/// and hook processes are the surrounding application's work.
pub struct Handler;

impl Handler {
    /// A new handler.
    pub fn new() -> (r: Self) where Self: Sized {
        Handler {  }
    }
}

} // verus!
