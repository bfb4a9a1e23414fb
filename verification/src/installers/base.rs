//! The minimal installer interface.

use vstd::prelude::*;

verus! {

/// An installer that knows how to bring one template into the store.
/// Implementations are supplied by the surrounding application, which
/// owns the store's filesystem.
pub trait TemplateInstaller {
    /// A new installer.
    fn new() -> Self where Self: Sized;

    /// Installs the template this installer was prepared for.
    fn install(&self);
}

} // verus!
