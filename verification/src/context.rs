//! Rendering contexts.
//!
//! A context is a flat mapping from variable names to [`VarValue`]s, kept
//! as an ordered list of entries with pairwise-distinct keys. The order of
//! entries is the order of insertion, which keeps every derived artifact
//! deterministic; the contracts below speak of the context as a map through
//! the `ctx_*` spec functions.

use vstd::prelude::*;

use crate::value::{VarValue, VarValueView};

verus! {

/// One `name -> value` binding of a context.
pub struct ContextEntry {
    pub key: String,
    pub value: VarValue,
}

impl View for ContextEntry {
    type V = (Seq<char>, VarValueView);

    open spec fn view(&self) -> (Seq<char>, VarValueView) {
        (self.key@, self.value@)
    }
}

impl Clone for ContextEntry {
    fn clone(&self) -> (r: Self)
        ensures
            r@ == self@,
    {
        ContextEntry { key: self.key.clone(), value: self.value.clone() }
    }
}

/// The mathematical value of a context: its bindings in order.
pub type ContextView = Seq<(Seq<char>, VarValueView)>;

/// Whether `v` binds `name`.
pub open spec fn ctx_has(v: ContextView, name: Seq<char>) -> bool {
    exists|i: int| 0 <= i < v.len() && v[i].0 == name
}

/// The position at which `v` binds `name` (meaningful when `ctx_has` holds
/// and the keys are distinct).
pub open spec fn ctx_index(v: ContextView, name: Seq<char>) -> int {
    choose|i: int| 0 <= i < v.len() && v[i].0 == name
}

/// The value `v` binds to `name` (meaningful when `ctx_has` holds).
pub open spec fn ctx_value(v: ContextView, name: Seq<char>) -> VarValueView {
    v[ctx_index(v, name)].1
}

/// Keys are pairwise distinct.
pub open spec fn ctx_wf(v: ContextView) -> bool {
    forall|i: int, j: int| 0 <= i < j < v.len() ==> v[i].0 != v[j].0
}

/// The string bound to `name`: `Some` exactly when `name` is bound to a
/// single string value. Only such bindings take part in substitution.
pub open spec fn ctx_string(v: ContextView, name: Seq<char>) -> Option<Seq<char>> {
    if ctx_has(v, name) {
        match ctx_value(v, name) {
            VarValueView::Single(s) => Some(s),
            _ => None,
        }
    } else {
        None
    }
}

/// Under distinct keys, any binding position for `name` is the binding
/// position.
pub proof fn lemma_ctx_index_unique(v: ContextView, name: Seq<char>, i: int)
    requires
        ctx_wf(v),
        0 <= i < v.len(),
        v[i].0 == name,
    ensures
        ctx_has(v, name),
        ctx_index(v, name) == i,
{
    assert(ctx_has(v, name));
    let j = ctx_index(v, name);
    if j < i {
        assert(v[j].0 != v[i].0);
    } else if j > i {
        assert(v[i].0 != v[j].0);
    }
}

/// A flat, deterministic variable-name-to-value mapping.
pub struct Context {
    pub entries: Vec<ContextEntry>,
}

impl View for Context {
    type V = ContextView;

    open spec fn view(&self) -> ContextView {
        self.entries@.map_values(|e: ContextEntry| e@)
    }
}

impl Clone for Context {
    fn clone(&self) -> (r: Self)
        ensures
            r@ == self@,
    {
        let entries = self.entries.clone();
        proof {
            assert(entries@.map_values(|e: ContextEntry| e@)
                =~= self.entries@.map_values(|e: ContextEntry| e@));
        }
        Context { entries }
    }
}

impl Context {
    /// The keys of this context are pairwise distinct.
    pub open spec fn wf(&self) -> bool {
        ctx_wf(self@)
    }

    /// An empty context.
    pub fn new() -> (r: Context)
        ensures
            r@ == Seq::<(Seq<char>, VarValueView)>::empty(),
            r.wf(),
    {
        let r = Context { entries: Vec::new() };
        proof {
            assert(r@ =~= Seq::<(Seq<char>, VarValueView)>::empty());
        }
        r
    }

    /// The position binding `name`, if any.
    pub fn index_of(&self, name: &String) -> (r: Option<usize>)
        ensures
            match r {
                Some(i) => 0 <= i < self@.len() && self@[i as int].0 == name@,
                None => !ctx_has(self@, name@),
            },
    {
        let n = self.entries.len();
        let mut i: usize = 0;
        while i < n
            invariant
                n == self.entries.len(),
                0 <= i <= n,
                forall|k: int| 0 <= k < i ==> self@[k].0 != name@,
            decreases n - i,
        {
            if self.entries[i].key == *name {
                proof {
                    assert(self@[i as int].0 == name@);
                }
                return Some(i);
            }
            i += 1;
        }
        None
    }

    /// Whether `name` is bound.
    pub fn contains_key(&self, name: &String) -> (r: bool)
        ensures
            r == ctx_has(self@, name@),
    {
        match self.index_of(name) {
            Some(i) => {
                proof {
                    let wit = i as int;
                    assert(0 <= wit < self@.len() && self@[wit].0 == name@);
                }
                true
            },
            None => false,
        }
    }

    /// The value bound to `name`, if any.
    pub fn get_value(&self, name: &String) -> (r: Option<VarValue>)
        requires
            self.wf(),
        ensures
            match r {
                Some(v) => ctx_has(self@, name@) && v@ == ctx_value(self@, name@),
                None => !ctx_has(self@, name@),
            },
    {
        match self.index_of(name) {
            Some(i) => {
                proof {
                    lemma_ctx_index_unique(self@, name@, i as int);
                }
                Some(self.entries[i].value.clone())
            },
            None => None,
        }
    }

    /// The string bound to `name`: `Some` exactly when `name` is bound to
    /// a single string value.
    pub fn string_value(&self, name: &String) -> (r: Option<String>)
        requires
            self.wf(),
        ensures
            match r {
                Some(s) => ctx_string(self@, name@) == Some(s@),
                None => ctx_string(self@, name@) is None,
            },
    {
        match self.get_value(name) {
            Some(VarValue::Single(s)) => Some(s),
            _ => None,
        }
    }

    /// Binds `key` to `value`: overwrites in place when `key` is already
    /// bound, appends a new binding otherwise.
    pub fn insert(&mut self, key: String, value: VarValue)
        requires
            old(self).wf(),
        ensures
            final(self).wf(),
            ctx_has(old(self)@, key@) ==> final(self)@ == old(self)@.update(
                ctx_index(old(self)@, key@),
                (key@, value@),
            ),
            !ctx_has(old(self)@, key@) ==> final(self)@ == old(self)@.push((key@, value@)),
    {
        let ghost old_view = self@;
        match self.index_of(&key) {
            Some(i) => {
                proof {
                    lemma_ctx_index_unique(old_view, key@, i as int);
                }
                let entry = ContextEntry { key, value };
                self.entries.set(i, entry);
                proof {
                    assert(self@ =~= old_view.update(i as int, (key@, value@)));
                    assert forall|a: int, b: int| 0 <= a < b < self@.len() implies self@[a].0
                        != self@[b].0 by {
                        assert(old_view[a].0 != old_view[b].0);
                        assert(a == i ==> self@[a].0 == old_view[a].0);
                        assert(b == i ==> self@[b].0 == old_view[b].0);
                    }
                }
            },
            None => {
                let entry = ContextEntry { key, value };
                self.entries.push(entry);
                proof {
                    assert(self@ =~= old_view.push((key@, value@)));
                    assert forall|a: int, b: int| 0 <= a < b < self@.len() implies self@[a].0
                        != self@[b].0 by {
                        if b < self@.len() - 1 {
                            assert(old_view[a].0 != old_view[b].0);
                        } else {
                            assert(!ctx_has(old_view, key@));
                            assert(old_view[a].0 != key@);
                        }
                    }
                }
            },
        }
    }
}

/// `v` with `key` bound to `value`: overwritten in place when already
/// bound, appended otherwise.
pub open spec fn ctx_insert(v: ContextView, key: Seq<char>, value: VarValueView) -> ContextView {
    if ctx_has(v, key) {
        v.update(ctx_index(v, key), (key, value))
    } else {
        v.push((key, value))
    }
}

/// `a` after merging in the bindings of `b` from position `i` on: each
/// binding of `b` is inserted unless its key is protected and `a` already
/// binds it.
pub open spec fn merged_from(
    a: ContextView,
    b: ContextView,
    protected: Seq<Seq<char>>,
    i: int,
) -> ContextView
    decreases b.len() - i,
    when 0 <= i
{
    if i >= b.len() {
        a
    } else {
        let a2 = if name_in(protected, b[i].0) && ctx_has(a, b[i].0) {
            a
        } else {
            ctx_insert(a, b[i].0, b[i].1)
        };
        merged_from(a2, b, protected, i + 1)
    }
}

/// `a` after merging in every binding of `b`, keeping `a`'s binding for
/// every protected key it already binds.
pub open spec fn merged(a: ContextView, b: ContextView, protected: Seq<Seq<char>>) -> ContextView {
    merged_from(a, b, protected, 0)
}

/// What `Context::insert` does to the context as a map: the inserted key
/// is bound to the inserted value and every other binding is unchanged.
pub proof fn lemma_insert_effect(
    pre: ContextView,
    post: ContextView,
    key: Seq<char>,
    value: VarValueView,
)
    requires
        ctx_wf(pre),
        ctx_wf(post),
        ctx_has(pre, key) ==> post == pre.update(ctx_index(pre, key), (key, value)),
        !ctx_has(pre, key) ==> post == pre.push((key, value)),
    ensures
        ctx_has(post, key),
        ctx_value(post, key) == value,
        forall|nm: Seq<char>| nm != key ==> (#[trigger] ctx_has(post, nm) <==> ctx_has(pre, nm)),
        forall|nm: Seq<char>|
            nm != key && ctx_has(pre, nm) ==> #[trigger] ctx_value(post, nm) == ctx_value(
                pre,
                nm,
            ),
{
    if ctx_has(pre, key) {
        let i0 = ctx_index(pre, key);
        lemma_ctx_index_unique(pre, key, i0);
        lemma_ctx_index_unique(post, key, i0);
        assert(ctx_value(post, key) == value);
        assert forall|nm: Seq<char>| nm != key implies (#[trigger] ctx_has(post, nm) <==> ctx_has(
            pre,
            nm,
        )) by {
            if ctx_has(pre, nm) {
                let j = ctx_index(pre, nm);
                assert(post[j].0 == nm);
            }
            if ctx_has(post, nm) {
                let j = ctx_index(post, nm);
                assert(pre[j].0 == nm);
            }
        }
        assert forall|nm: Seq<char>| nm != key && ctx_has(pre, nm) implies #[trigger] ctx_value(
            post,
            nm,
        ) == ctx_value(pre, nm) by {
            let j = ctx_index(pre, nm);
            lemma_ctx_index_unique(pre, nm, j);
            lemma_ctx_index_unique(post, nm, j);
        }
    } else {
        let i0 = pre.len() as int;
        lemma_ctx_index_unique(post, key, i0);
        assert(ctx_value(post, key) == value);
        assert forall|nm: Seq<char>| nm != key implies (#[trigger] ctx_has(post, nm) <==> ctx_has(
            pre,
            nm,
        )) by {
            if ctx_has(pre, nm) {
                let j = ctx_index(pre, nm);
                assert(post[j].0 == nm);
            }
            if ctx_has(post, nm) {
                let j = ctx_index(post, nm);
                assert(0 <= j < post.len());
                assert(j != i0);
                assert(pre[j].0 == nm);
            }
        }
        assert forall|nm: Seq<char>| nm != key && ctx_has(pre, nm) implies #[trigger] ctx_value(
            post,
            nm,
        ) == ctx_value(pre, nm) by {
            let j = ctx_index(pre, nm);
            lemma_ctx_index_unique(pre, nm, j);
            lemma_ctx_index_unique(post, nm, j);
        }
    }
}

/// Whether `name` occurs among `names`.
pub open spec fn name_in(names: Seq<Seq<char>>, name: Seq<char>) -> bool {
    exists|i: int| 0 <= i < names.len() && names[i] == name
}

/// Whether `name` occurs in the list `names`.
pub fn contains_name(names: &Vec<String>, name: &String) -> (r: bool)
    ensures
        r == name_in(names.deep_view(), name@),
{
    let n = names.len();
    let mut i: usize = 0;
    while i < n
        invariant
            n == names.len(),
            0 <= i <= n,
            forall|k: int| 0 <= k < i ==> names.deep_view()[k] != name@,
        decreases n - i,
    {
        if names[i] == *name {
            proof {
                assert(names.deep_view()[i as int] == name@);
            }
            return true;
        }
        i += 1;
    }
    false
}

} // verus!
