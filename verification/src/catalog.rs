//! Name-to-path tables.
//!
//! The template store inventory hands the engine two tables: installed
//! repositories and installed templates, each a mapping from a name to the
//! directory path it lives in. A table is an ordered list of entries with
//! pairwise-distinct names, so that every listing derived from it is
//! deterministic.

use vstd::prelude::*;

verus! {

/// One `name -> path` entry of a table.
pub struct NamedPath {
    pub name: String,
    pub path: String,
}

impl View for NamedPath {
    type V = (Seq<char>, Seq<char>);

    open spec fn view(&self) -> (Seq<char>, Seq<char>) {
        (self.name@, self.path@)
    }
}

impl Clone for NamedPath {
    fn clone(&self) -> (r: Self)
        ensures
            r@ == self@,
    {
        NamedPath { name: self.name.clone(), path: self.path.clone() }
    }
}

/// The mathematical value of a table: its entries in order.
pub type TableView = Seq<(Seq<char>, Seq<char>)>;

/// Whether the table has an entry named `name`.
pub open spec fn table_has(t: TableView, name: Seq<char>) -> bool {
    exists|i: int| 0 <= i < t.len() && t[i].0 == name
}

/// The position of the entry named `name` (meaningful when `table_has`
/// holds and names are distinct).
pub open spec fn table_index(t: TableView, name: Seq<char>) -> int {
    choose|i: int| 0 <= i < t.len() && t[i].0 == name
}

/// The path of the entry named `name` (meaningful when `table_has` holds).
pub open spec fn table_path(t: TableView, name: Seq<char>) -> Seq<char> {
    t[table_index(t, name)].1
}

/// Names are pairwise distinct.
pub open spec fn table_wf(t: TableView) -> bool {
    forall|i: int, j: int| 0 <= i < j < t.len() ==> t[i].0 != t[j].0
}

/// Under distinct names, any position holding `name` is the position.
pub proof fn lemma_table_index_unique(t: TableView, name: Seq<char>, i: int)
    requires
        table_wf(t),
        0 <= i < t.len(),
        t[i].0 == name,
    ensures
        table_has(t, name),
        table_index(t, name) == i,
{
    assert(table_has(t, name));
    let j = table_index(t, name);
    if j < i {
        assert(t[j].0 != t[i].0);
    } else if j > i {
        assert(t[i].0 != t[j].0);
    }
}

/// The view of a list of table entries.
pub open spec fn table_view(entries: Seq<NamedPath>) -> TableView {
    entries.map_values(|e: NamedPath| e@)
}

/// The position of the entry named `name`, if any.
pub fn table_find(entries: &Vec<NamedPath>, name: &String) -> (r: Option<usize>)
    ensures
        match r {
            Some(i) => 0 <= i < table_view(entries@).len() && table_view(entries@)[i as int].0
                == name@,
            None => !table_has(table_view(entries@), name@),
        },
{
    let n = entries.len();
    let mut i: usize = 0;
    while i < n
        invariant
            0 <= i <= n,
            n == entries@.len(),
            forall|k: int| 0 <= k < i ==> table_view(entries@)[k].0 != name@,
        decreases n - i,
    {
        if entries[i].name == *name {
            proof {
                assert(table_view(entries@)[i as int].0 == name@);
            }
            return Some(i);
        }
        i += 1;
    }
    None
}

/// Whether the table has an entry named `name`.
pub fn table_contains(entries: &Vec<NamedPath>, name: &String) -> (r: bool)
    ensures
        r == table_has(table_view(entries@), name@),
{
    match table_find(entries, name) {
        Some(i) => {
            proof {
                let wit = i as int;
                assert(0 <= wit < table_view(entries@).len() && table_view(entries@)[wit].0
                    == name@);
            }
            true
        },
        None => false,
    }
}

/// The path of the entry named `name`, if any.
pub fn table_get(entries: &Vec<NamedPath>, name: &String) -> (r: Option<String>)
    requires
        table_wf(table_view(entries@)),
    ensures
        match r {
            Some(p) => table_has(table_view(entries@), name@) && p@ == table_path(
                table_view(entries@),
                name@,
            ),
            None => !table_has(table_view(entries@), name@),
        },
{
    match table_find(entries, name) {
        Some(i) => {
            proof {
                lemma_table_index_unique(table_view(entries@), name@, i as int);
            }
            Some(entries[i].path.clone())
        },
        None => None,
    }
}

/// The names of the table, in table order.
pub fn table_names(entries: &Vec<NamedPath>) -> (r: Vec<String>)
    ensures
        r.deep_view().len() == entries@.len(),
        forall|k: int|
            0 <= k < entries@.len() ==> #[trigger] r.deep_view()[k] == table_view(entries@)[k].0,
{
    let n = entries.len();
    let mut out: Vec<String> = Vec::new();
    let mut i: usize = 0;
    while i < n
        invariant
            0 <= i <= n,
            n == entries@.len(),
            out.deep_view().len() == i,
            forall|k: int|
                0 <= k < i ==> #[trigger] out.deep_view()[k] == table_view(entries@)[k].0,
        decreases n - i,
    {
        let ghost pre = out.deep_view();
        out.push(entries[i].name.clone());
        proof {
            assert(out.deep_view() =~= pre.push(entries@[i as int].name@));
        }
        i += 1;
    }
    out
}

} // verus!
