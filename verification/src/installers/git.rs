//! The installer for templates cloned from a git repository.

use vstd::prelude::*;

use crate::error::Error;
use crate::filesystem::{basename, basename_of};
use crate::installers::traits::Installer;
use crate::text::{ends_with, ends_with_str};

verus! {

/// Installs a template by cloning its repository into the store. The
/// engine derives the template name from the repository URL; the clone
/// itself is network work the surrounding application performs.
pub struct GitInstaller;

/// The template name a repository URL installs under: the last path
/// segment of the URL, with one trailing slash and a `.git` suffix
/// removed first.
pub open spec fn git_template_name(url: Seq<char>) -> Seq<char> {
    let unslashed = if ends_with(url, "/"@) {
        url.drop_last()
    } else {
        url
    };
    let bare = if ends_with(unslashed, ".git"@) {
        unslashed.subrange(0, unslashed.len() - 4)
    } else {
        unslashed
    };
    basename_of(bare, '/')
}

impl Installer for GitInstaller {
    open spec fn template_name_spec(&self, path: Seq<char>) -> Seq<char> {
        git_template_name(path)
    }

    fn new() -> (r: Self) {
        GitInstaller {  }
    }

    fn get_template_name(&self, url: &String) -> (r: Result<String, Error>) {
        let n = url.as_str().unicode_len();
        let unslashed = if ends_with_str(url.as_str(), "/") {
            proof {
                reveal_strlit("/");
            }
            url.as_str().substring_char(0, n - 1).to_owned()
        } else {
            url.clone()
        };
        proof {
            reveal_strlit("/");
            if ends_with(url@, "/"@) {
                assert(unslashed@ =~= url@.drop_last());
            }
        }
        let m = unslashed.as_str().unicode_len();
        let bare = if ends_with_str(unslashed.as_str(), ".git") {
            proof {
                reveal_strlit(".git");
            }
            unslashed.as_str().substring_char(0, m - 4).to_owned()
        } else {
            unslashed
        };
        Ok(basename(bare.as_str(), '/'))
    }
}

} // verus!
