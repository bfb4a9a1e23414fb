//! The manager interface the client dispatches on.

use vstd::prelude::*;

use crate::catalog::{NamedPath, TableView, table_has, table_view, table_wf};
use crate::text::join_with;

verus! {

/// What deleting an entity amounts to: nothing is installed at all, the
/// name is unknown, or one target is to be removed from the store.
pub enum DeleteOutcome {
    /// The store is empty; there is nothing to delete.
    NothingInstalled,
    /// No entity of that name is installed.
    UnknownName,
    /// Remove this target: the entity's name for a repository, the
    /// entity's directory path for a template.
    Remove(String),
}

/// The message shown when the store holds no entity.
pub open spec fn empty_store_message() -> Seq<char> {
    "The templates folder is empty. Please, install templates first."@
}

/// The names of a table, in table order.
pub open spec fn names_of(t: TableView) -> Seq<Seq<char>> {
    t.map_values(|e: (Seq<char>, Seq<char>)| e.0)
}

/// A manager over one table of installed entities. It decides what a
/// listing shows and what a deletion removes; the filesystem changes and
/// the printing are the surrounding application's work.
pub trait Manager {
    /// The entities the manager manages.
    spec fn entities_spec(&self) -> TableView;

    /// The manager's table has pairwise-distinct names.
    spec fn inv(&self) -> bool;

    /// The heading a nonempty listing starts with.
    spec fn list_heading(&self) -> Seq<char>;

    /// The target that deleting `name` removes.
    spec fn delete_target_spec(&self, name: Seq<char>) -> Seq<char>;

    /// A manager over the given entities.
    fn new(entities: &Vec<NamedPath>) -> (r: Self) where Self: Sized
        requires
            table_wf(table_view(entities@)),
        ensures
            r.entities_spec() == table_view(entities@),
            r.inv(),
    ;

    /// The listing of the managed entities: a hint to install templates
    /// when none is installed, else the heading followed by every name.
    fn show_entity_list(&self) -> (r: String)
        ensures
            self.entities_spec().len() == 0 ==> r@ == empty_store_message(),
            self.entities_spec().len() > 0 ==> r@ == self.list_heading() + join_with(
                names_of(self.entities_spec()),
                "\n  "@,
            ),
    ;

    /// What deleting `name` amounts to.
    fn delete_entity(&self, name: &String) -> (r: DeleteOutcome)
        requires
            self.inv(),
        ensures
            self.entities_spec().len() == 0 ==> r is NothingInstalled,
            self.entities_spec().len() > 0 && !table_has(self.entities_spec(), name@) ==> r
                is UnknownName,
            self.entities_spec().len() > 0 && table_has(self.entities_spec(), name@) ==> (
            r matches DeleteOutcome::Remove(t) && t@ == self.delete_target_spec(name@)),
    ;
}

} // verus!
