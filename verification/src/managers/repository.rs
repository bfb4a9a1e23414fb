//! The manager of installed repositories.

use vstd::prelude::*;

use crate::catalog::{NamedPath, TableView, table_find, table_view, table_wf};
use crate::managers::traits::{DeleteOutcome, Manager, names_of};
use crate::text::join_strings;

verus! {

/// Lists and deletes installed repositories. A repository is removed
/// from the store by its name; resolving that name under the store
/// directory and removing it is the surrounding application's work.
pub struct RepositoryManager {
    pub repositories: Vec<NamedPath>,
}

impl Manager for RepositoryManager {
    open spec fn entities_spec(&self) -> TableView {
        table_view(self.repositories@)
    }

    open spec fn inv(&self) -> bool {
        table_wf(table_view(self.repositories@))
    }

    open spec fn list_heading(&self) -> Seq<char> {
        "Available repositories:\n  "@
    }

    open spec fn delete_target_spec(&self, name: Seq<char>) -> Seq<char> {
        name
    }

    fn new(repositories: &Vec<NamedPath>) -> (r: Self) {
        let mut copy: Vec<NamedPath> = Vec::new();
        let n = repositories.len();
        let mut i: usize = 0;
        while i < n
            invariant
                0 <= i <= n,
                n == repositories@.len(),
                table_view(copy@) == table_view(repositories@).subrange(0, i as int),
            decreases n - i,
        {
            let ghost pre = table_view(copy@);
            copy.push(repositories[i].clone());
            proof {
                assert(table_view(copy@) =~= pre.push(repositories@[i as int]@));
                assert(table_view(copy@) =~= table_view(repositories@).subrange(0, i + 1));
            }
            i += 1;
        }
        proof {
            assert(table_view(repositories@).subrange(0, n as int) =~= table_view(
                repositories@,
            ));
        }
        RepositoryManager { repositories: copy }
    }

    fn show_entity_list(&self) -> (r: String) {
        if self.repositories.len() == 0 {
            return String::from_str(
                "The templates folder is empty. Please, install templates first.",
            );
        }
        let names = crate::catalog::table_names(&self.repositories);
        let listing = join_strings(&names, "\n  ");
        let mut out = String::from_str("Available repositories:\n  ");
        out.append(listing.as_str());
        proof {
            assert(names.deep_view() =~= names_of(table_view(self.repositories@)));
        }
        out
    }

    fn delete_entity(&self, name: &String) -> (r: DeleteOutcome) {
        if self.repositories.len() == 0 {
            return DeleteOutcome::NothingInstalled;
        }
        match table_find(&self.repositories, name) {
            Some(_i) => DeleteOutcome::Remove(name.clone()),
            None => DeleteOutcome::UnknownName,
        }
    }
}

} // verus!
