//! The installer interface the client dispatches on.

use vstd::prelude::*;

use crate::error::Error;

verus! {

/// An installer for one kind of template source. The engine derives the
/// name a template is stored under from the source path; the copying or
/// cloning itself is filesystem and network work that the surrounding
/// application performs.
pub trait Installer {
    /// The name this installer stores the template at `path` under.
    spec fn template_name_spec(&self, path: Seq<char>) -> Seq<char>;

    /// A new installer.
    fn new() -> Self where Self: Sized;

    /// The name under which the template at `path` is installed.
    fn get_template_name(&self, path: &String) -> (r: Result<String, Error>)
        ensures
            r matches Ok(n) && n@ == self.template_name_spec(path@),
    ;
}

} // verus!
