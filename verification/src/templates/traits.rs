//! The handler interface offered to extensions.

use vstd::prelude::*;

verus! {

/// A handler run by the client with a list of options. Implementations
/// are supplied by the surrounding application.
pub trait Handler {
    /// A new handler.
    fn new() -> Self where Self: Sized;

    /// Runs the handler with the given options.
    fn run_in_thread(&self, options: &Vec<String>);
}

} // verus!
