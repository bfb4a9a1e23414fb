//! Paths of the template store, and path helpers.
//!
//! The store lives under `.quickproj` in the user's home directory, with
//! installed templates under its `templates` subdirectory. The helpers
//! here compute paths and classify directory entries from plain values;
//! every filesystem read and write stays with the caller.

use vstd::prelude::*;

use crate::error::Error;
use crate::text::{starts_with, starts_with_str};

verus! {

/// The suffix of `s` after its last occurrence of `sep`: `s` itself when
/// `sep` does not occur.
pub open spec fn basename_of(s: Seq<char>, sep: char) -> Seq<char>
    decreases s.len(),
{
    if s.len() == 0 {
        s
    } else if s.last() == sep {
        Seq::empty()
    } else {
        basename_of(s.drop_last(), sep).push(s.last())
    }
}

proof fn lemma_basename_no_sep(s: Seq<char>, sep: char)
    requires
        forall|k: int| 0 <= k < s.len() ==> s[k] != sep,
    ensures
        basename_of(s, sep) == s,
    decreases s.len(),
{
    if s.len() > 0 {
        lemma_basename_no_sep(s.drop_last(), sep);
        assert(basename_of(s, sep) =~= s);
    }
}

proof fn lemma_basename_after_sep(s: Seq<char>, sep: char, j: int)
    requires
        0 <= j < s.len(),
        s[j] == sep,
        forall|k: int| j < k < s.len() ==> s[k] != sep,
    ensures
        basename_of(s, sep) == s.subrange(j + 1, s.len() as int),
    decreases s.len(),
{
    if j == s.len() - 1 {
        assert(basename_of(s, sep) =~= s.subrange(j + 1, s.len() as int));
    } else {
        lemma_basename_after_sep(s.drop_last(), sep, j);
        assert(basename_of(s, sep) =~= s.subrange(j + 1, s.len() as int));
    }
}

/// The part of `path` after its last occurrence of `sep`: the whole of
/// `path` when `sep` does not occur, and empty when `path` ends with it.
pub fn basename(path: &str, sep: char) -> (r: String)
    ensures
        r@ == basename_of(path@, sep),
{
    let n = path.unicode_len();
    let mut b = n;
    while b > 0 && path.get_char(b - 1) != sep
        invariant
            0 <= b <= n,
            n == path@.len(),
            forall|k: int| b <= k < n ==> path@[k] != sep,
        decreases b,
    {
        b -= 1;
    }
    let r = path.substring_char(b, n).to_owned();
    proof {
        if b == 0 {
            lemma_basename_no_sep(path@, sep);
            assert(r@ =~= basename_of(path@, sep));
        } else {
            lemma_basename_after_sep(path@, sep, b - 1);
        }
    }
    r
}

/// Relies on dirs::home_dir for the current user's home directory; the
/// result depends on the environment, so nothing is promised of it. A
/// home directory whose path is not valid Unicode is reported as absent.
#[verifier::external_body]
fn home_directory() -> (r: Option<String>) {
    dirs::home_dir().and_then(|p| p.into_os_string().into_string().ok())
}

/// The current user's home directory, or an error naming the problem on
/// a platform without one.
pub fn get_home_directory() -> (r: Result<String, Error>)
    ensures
        r matches Err(e) ==> (e matches Error::Other(m) && m@
            == "Home directory was not found. Probably unsupported platform?"@),
{
    match home_directory() {
        Some(home_dir_path) => Ok(home_dir_path),
        None => {
            let message = String::from_str(
                "Home directory was not found. Probably unsupported platform?",
            );
            Err(Error::Other(message))
        },
    }
}

/// The application's own directory under the home directory.
pub fn get_quickproj_directory() -> (r: Result<String, Error>)
    ensures
        r matches Ok(p) ==> exists|home: Seq<char>| p@ == home + "/.quickproj"@,
{
    let home_directory = get_home_directory()?;
    let mut path = home_directory;
    path.append("/.quickproj");
    proof {
        assert(exists|home: Seq<char>| path@ == home + "/.quickproj"@);
    }
    Ok(path)
}

/// The directory that holds the installed templates.
pub fn get_templates_directory() -> (r: Result<String, Error>)
    ensures
        r matches Ok(p) ==> exists|home: Seq<char>| p@ == home + "/.quickproj/templates"@,
{
    let quickproj_directory = get_quickproj_directory()?;
    let ghost base = quickproj_directory@;
    let mut path = quickproj_directory;
    path.append("/templates");
    proof {
        let home = choose|home: Seq<char>| base == home + "/.quickproj"@;
        assert(path@ =~= home + "/.quickproj/templates"@) by {
            reveal_strlit("/.quickproj");
            reveal_strlit("/templates");
            reveal_strlit("/.quickproj/templates");
            assert(path@ =~= home + "/.quickproj"@ + "/templates"@);
        }
    }
    Ok(path)
}

/// Whether a directory entry with this file name is hidden.
pub fn is_hidden_file(file_name: &String) -> (r: bool)
    ensures
        r == starts_with(file_name@, "."@),
{
    starts_with_str(file_name.as_str(), ".")
}

/// Whether a directory entry is an installed template's root: a
/// directory other than the store root that carries a configuration
/// file.
pub fn is_template_directory(is_directory: bool, is_root_directory: bool, has_config: bool) -> (r:
    bool)
    ensures
        r == (is_directory && !is_root_directory && has_config),
{
    is_directory && !is_root_directory && has_config
}

/// Whether a directory entry is a repository: a directory other than the
/// store root that is not itself a template root.
pub fn is_repository_directory(
    is_directory: bool,
    is_root_directory: bool,
    is_template: bool,
) -> (r: bool)
    ensures
        r == (is_directory && !is_root_directory && !is_template),
{
    is_directory && !is_root_directory && !is_template
}

} // verus!
