//! The installer for templates copied from a local directory.

use vstd::prelude::*;

use crate::error::Error;
use crate::filesystem::{basename, basename_of};
use crate::installers::traits::Installer;
use crate::text::{ends_with, ends_with_str};

verus! {

/// Installs a template by copying a local directory into the store. The
/// engine derives the template name from the source path; the recursive
/// copy itself is filesystem work the surrounding application performs.
pub struct LocalInstaller;

/// The template name a local path installs under: its last path segment,
/// with one trailing slash removed first.
pub open spec fn local_template_name(path: Seq<char>) -> Seq<char> {
    let unslashed = if ends_with(path, "/"@) {
        path.drop_last()
    } else {
        path
    };
    basename_of(unslashed, '/')
}

impl Installer for LocalInstaller {
    open spec fn template_name_spec(&self, path: Seq<char>) -> Seq<char> {
        local_template_name(path)
    }

    fn new() -> (r: Self) {
        LocalInstaller {  }
    }

    fn get_template_name(&self, path: &String) -> (r: Result<String, Error>) {
        let n = path.as_str().unicode_len();
        let unslashed = if ends_with_str(path.as_str(), "/") {
            proof {
                reveal_strlit("/");
            }
            path.as_str().substring_char(0, n - 1).to_owned()
        } else {
            path.clone()
        };
        proof {
            reveal_strlit("/");
            if ends_with(path@, "/"@) {
                assert(unslashed@ =~= path@.drop_last());
            }
        }
        Ok(basename(unslashed.as_str(), '/'))
    }
}

} // verus!
