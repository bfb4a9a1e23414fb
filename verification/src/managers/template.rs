//! The manager of installed templates.

use vstd::prelude::*;

use crate::catalog::{
    NamedPath, TableView, lemma_table_index_unique, table_find, table_path, table_view, table_wf,
};
use crate::managers::traits::{DeleteOutcome, Manager, names_of};
use crate::text::join_strings;

verus! {

/// Lists and deletes installed templates. A template is removed from the
/// store by the directory path its table entry records; removing that
/// directory is the surrounding application's work.
pub struct TemplateManager {
    pub templates: Vec<NamedPath>,
}

impl Manager for TemplateManager {
    open spec fn entities_spec(&self) -> TableView {
        table_view(self.templates@)
    }

    open spec fn inv(&self) -> bool {
        table_wf(table_view(self.templates@))
    }

    open spec fn list_heading(&self) -> Seq<char> {
        "Available templates:\n  "@
    }

    open spec fn delete_target_spec(&self, name: Seq<char>) -> Seq<char> {
        table_path(table_view(self.templates@), name)
    }

    fn new(templates: &Vec<NamedPath>) -> (r: Self) {
        let mut copy: Vec<NamedPath> = Vec::new();
        let n = templates.len();
        let mut i: usize = 0;
        while i < n
            invariant
                0 <= i <= n,
                n == templates@.len(),
                table_view(copy@) == table_view(templates@).subrange(0, i as int),
            decreases n - i,
        {
            let ghost pre = table_view(copy@);
            copy.push(templates[i].clone());
            proof {
                assert(table_view(copy@) =~= pre.push(templates@[i as int]@));
                assert(table_view(copy@) =~= table_view(templates@).subrange(0, i + 1));
            }
            i += 1;
        }
        proof {
            assert(table_view(templates@).subrange(0, n as int) =~= table_view(templates@));
        }
        TemplateManager { templates: copy }
    }

    fn show_entity_list(&self) -> (r: String) {
        if self.templates.len() == 0 {
            return String::from_str(
                "The templates folder is empty. Please, install templates first.",
            );
        }
        let names = crate::catalog::table_names(&self.templates);
        let listing = join_strings(&names, "\n  ");
        let mut out = String::from_str("Available templates:\n  ");
        out.append(listing.as_str());
        proof {
            assert(names.deep_view() =~= names_of(table_view(self.templates@)));
        }
        out
    }

    fn delete_entity(&self, name: &String) -> (r: DeleteOutcome) {
        if self.templates.len() == 0 {
            return DeleteOutcome::NothingInstalled;
        }
        match table_find(&self.templates, name) {
            Some(i) => {
                proof {
                    lemma_table_index_unique(table_view(self.templates@), name@, i as int);
                }
                DeleteOutcome::Remove(self.templates[i].path.clone())
            },
            None => DeleteOutcome::UnknownName,
        }
    }
}

} // verus!
