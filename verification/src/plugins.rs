//! Plugins that extend the client with extra behaviour.

use vstd::prelude::*;

use crate::context::name_in;
use crate::error::Error;
use crate::text::{join_strings, join_with};

verus! {

/// A plugin run by the client around an installation. Implementations are
/// supplied by the surrounding application; the engine only carries them.
pub trait Plugin {
    /// A new plugin instance.
    fn new() -> Self where Self: Sized;

    /// Runs the plugin with the given options.
    fn run_in_thread(&self, options: &Vec<String>);
}

/// The names among `names` that `valid` does not list, in order.
pub open spec fn unknown_names(names: Seq<Seq<char>>, valid: Seq<Seq<char>>) -> Seq<Seq<char>>
    decreases names.len(),
{
    if names.len() == 0 {
        seq![]
    } else {
        let front = unknown_names(names.drop_last(), valid);
        if !name_in(valid, names.last()) {
            front.push(names.last())
        } else {
            front
        }
    }
}

/// Checks that the given plugin names are all available: an empty request
/// is rejected, and so is any name not listed among the valid plugins,
/// with a message naming every offender.
pub fn is_correct_plugins_list(plugins: &Vec<String>, valid_plugins: &Vec<String>) -> (r: Result<
    (),
    Error,
>)
    ensures
        plugins@.len() == 0 ==> (r matches Err(e) && e matches Error::Other(m) && m@
            == "Please, specify at least one used plugin and try again."@),
        plugins@.len() > 0 ==> (match r {
            Ok(()) => unknown_names(plugins.deep_view(), valid_plugins.deep_view()).len() == 0,
            Err(e) => unknown_names(plugins.deep_view(), valid_plugins.deep_view()).len() > 0 && (
            e matches Error::Other(m) && m@
                == "The following plugins weren't found or not available: "@ + join_with(
                unknown_names(plugins.deep_view(), valid_plugins.deep_view()),
                ", "@,
            )),
        }),
{
    if plugins.len() == 0 {
        let message = String::from_str("Please, specify at least one used plugin and try again.");
        return Err(Error::Other(message));
    }
    let n = plugins.len();
    let mut invalid: Vec<String> = Vec::new();
    let mut i: usize = 0;
    while i < n
        invariant
            0 <= i <= n,
            n == plugins@.len(),
            invalid.deep_view() == unknown_names(
                plugins.deep_view().subrange(0, i as int),
                valid_plugins.deep_view(),
            ),
        decreases n - i,
    {
        let ghost sub1 = plugins.deep_view().subrange(0, i + 1);
        proof {
            assert(sub1.drop_last() =~= plugins.deep_view().subrange(0, i as int));
            assert(sub1.last() == plugins.deep_view()[i as int]);
        }
        let ghost pre = invalid.deep_view();
        if !crate::context::contains_name(valid_plugins, &plugins[i]) {
            invalid.push(plugins[i].clone());
            proof {
                assert(invalid.deep_view() =~= pre.push(plugins.deep_view()[i as int]));
                assert(invalid.deep_view() == unknown_names(sub1, valid_plugins.deep_view()));
            }
        } else {
            proof {
                assert(invalid.deep_view() == unknown_names(sub1, valid_plugins.deep_view()));
            }
        }
        i += 1;
    }
    proof {
        assert(plugins.deep_view().subrange(0, n as int) =~= plugins.deep_view());
    }
    if invalid.len() == 0 {
        Ok(())
    } else {
        let values = join_strings(&invalid, ", ");
        let mut message = String::from_str(
            "The following plugins weren't found or not available: ",
        );
        message.append(values.as_str());
        Err(Error::Other(message))
    }
}

} // verus!
