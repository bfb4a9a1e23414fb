//! Variable extraction, context merging and subcontext expansion.

use vstd::prelude::*;

use crate::context::{
    Context, ContextEntry, ContextView, contains_name, ctx_has, ctx_insert, ctx_value, ctx_wf,
    lemma_ctx_index_unique, lemma_insert_effect, merged, merged_from, name_in,
};
use crate::catalog::{NamedPath, TableView, table_contains, table_has, table_view};
use crate::error::Error;
use crate::templates::placeholder::{match_placeholder, placeholder_at};
use crate::text::{join_strings, join_with};
use crate::value::{VarItem, VarItemView, VarValue, VarValueView, supported_value};

verus! {

/// The names among `names` that the table does not define, in order.
pub open spec fn missing_names(names: Seq<Seq<char>>, table: TableView) -> Seq<Seq<char>>
    decreases names.len(),
{
    if names.len() == 0 {
        seq![]
    } else {
        let front = missing_names(names.drop_last(), table);
        if !table_has(table, names.last()) {
            front.push(names.last())
        } else {
            front
        }
    }
}

/// Checks that the given template names are all defined: an empty request
/// is rejected, and so is any name the table of installed templates does
/// not define, with a message naming every offender.
pub fn is_correct_template_list(templates: &Vec<String>, defined_templates: &Vec<NamedPath>) -> (r:
    Result<(), Error>)
    ensures
        templates@.len() == 0 ==> (r matches Err(e) && e matches Error::Other(m) && m@
            == "Please, specify at least one used template and try again."@),
        templates@.len() > 0 ==> (match r {
            Ok(()) => missing_names(
                templates.deep_view(),
                table_view(defined_templates@),
            ).len() == 0,
            Err(e) => missing_names(templates.deep_view(), table_view(defined_templates@)).len()
                > 0 && (e matches Error::Other(m) && m@
                == "The templates with the following names weren't found or not available: "@
                + join_with(
                missing_names(templates.deep_view(), table_view(defined_templates@)),
                ", "@,
            )),
        }),
{
    if templates.len() == 0 {
        let message = String::from_str(
            "Please, specify at least one used template and try again.",
        );
        return Err(Error::Other(message));
    }
    let ghost table = table_view(defined_templates@);
    let n = templates.len();
    let mut invalid: Vec<String> = Vec::new();
    let mut i: usize = 0;
    while i < n
        invariant
            0 <= i <= n,
            n == templates@.len(),
            table == table_view(defined_templates@),
            invalid.deep_view() == missing_names(
                templates.deep_view().subrange(0, i as int),
                table,
            ),
        decreases n - i,
    {
        let ghost sub1 = templates.deep_view().subrange(0, i + 1);
        proof {
            assert(sub1.drop_last() =~= templates.deep_view().subrange(0, i as int));
            assert(sub1.last() == templates.deep_view()[i as int]);
        }
        let ghost pre = invalid.deep_view();
        if !table_contains(defined_templates, &templates[i]) {
            invalid.push(templates[i].clone());
            proof {
                assert(invalid.deep_view() =~= pre.push(templates.deep_view()[i as int]));
                assert(invalid.deep_view() == missing_names(sub1, table));
            }
        } else {
            proof {
                assert(invalid.deep_view() == missing_names(sub1, table));
            }
        }
        i += 1;
    }
    proof {
        assert(templates.deep_view().subrange(0, n as int) =~= templates.deep_view());
    }
    if invalid.len() == 0 {
        Ok(())
    } else {
        let values = join_strings(&invalid, ", ");
        let mut message = String::from_str(
            "The templates with the following names weren't found or not available: ",
        );
        message.append(values.as_str());
        Err(Error::Other(message))
    }
}

/// The set of placeholder names referenced in the suffix of `s` that
/// starts at `i`.
pub open spec fn vars_from(s: Seq<char>, i: int) -> Set<Seq<char>>
    decreases s.len() - i,
    when 0 <= i
{
    if i >= s.len() {
        Set::empty()
    } else {
        let rest = vars_from(s, i + 1);
        match placeholder_at(s, i) {
            Some((e, name)) => rest.insert(name),
            None => rest,
        }
    }
}

/// The set of distinct placeholder names referenced anywhere in `s`.
pub open spec fn template_variables(s: Seq<char>) -> Set<Seq<char>> {
    vars_from(s, 0)
}

/// `acc` extended by `nm` unless already listed.
pub open spec fn distinct_push(acc: Seq<Seq<char>>, nm: Seq<char>) -> Seq<Seq<char>> {
    if name_in(acc, nm) {
        acc
    } else {
        acc.push(nm)
    }
}

/// The distinct placeholder names of the suffix of `s` starting at `i`,
/// appended to `acc` in order of first occurrence.
pub open spec fn vars_list_from(s: Seq<char>, i: int, acc: Seq<Seq<char>>) -> Seq<Seq<char>>
    decreases s.len() - i,
    when 0 <= i
{
    if i >= s.len() {
        acc
    } else {
        match placeholder_at(s, i) {
            Some((e, name)) => vars_list_from(s, i + 1, distinct_push(acc, name)),
            None => vars_list_from(s, i + 1, acc),
        }
    }
}

/// The distinct placeholder names of `s`, in order of first occurrence.
pub open spec fn variables_list(s: Seq<char>) -> Seq<Seq<char>> {
    vars_list_from(s, 0, seq![])
}

/// Extracts the distinct placeholder names referenced in `data`, in order
/// of first occurrence.
pub fn get_template_variables(data: &String) -> (r: Vec<String>)
    ensures
        r.deep_view() == variables_list(data@),
        forall|nm: Seq<char>|
            #![trigger template_variables(data@).contains(nm)]
            #![trigger name_in(r.deep_view(), nm)]
            template_variables(data@).contains(nm) <==> name_in(r.deep_view(), nm),
        forall|i: int, j: int|
            0 <= i < j < r.deep_view().len() ==> r.deep_view()[i] != r.deep_view()[j],
{
    let s = data.as_str();
    let n = s.unicode_len();
    let mut result: Vec<String> = Vec::new();
    proof {
        assert(result.deep_view() =~= Seq::<Seq<char>>::empty());
        assert(seq![] =~= Seq::<Seq<char>>::empty());
    }
    let mut i: usize = 0;
    while i < n
        invariant
            0 <= i <= n,
            n == s@.len(),
            s@ == data@,
            variables_list(data@) == vars_list_from(data@, i as int, result.deep_view()),
            forall|nm: Seq<char>|
                #![trigger template_variables(data@).contains(nm)]
                #![trigger name_in(result.deep_view(), nm)]
                #![trigger vars_from(data@, i as int).contains(nm)]
                template_variables(data@).contains(nm) <==> (name_in(result.deep_view(), nm)
                    || vars_from(data@, i as int).contains(nm)),
            forall|nm: Seq<char>|
                name_in(result.deep_view(), nm) ==> template_variables(data@).contains(nm),
            forall|a: int, b: int|
                0 <= a < b < result.deep_view().len() ==> result.deep_view()[a]
                    != result.deep_view()[b],
        decreases n - i,
    {
        let ghost pre = result.deep_view();
        match match_placeholder(s, i) {
            Some((_e, name)) => {
                proof {
                    assert(vars_list_from(data@, i as int, pre) == vars_list_from(
                        data@,
                        i + 1,
                        distinct_push(pre, name@),
                    ));
                }
                if !contains_name(&result, &name) {
                    proof {
                        assert(distinct_push(pre, name@) == pre.push(name@));
                    }
                    result.push(name);
                    proof {
                        assert(result.deep_view() =~= pre.push(name@));
                        assert forall|nm: Seq<char>| #[trigger]
                            name_in(result.deep_view(), nm) implies name_in(pre, nm) || nm
                            == name@ by {
                            let j = choose|j: int|
                                0 <= j < result.deep_view().len() && result.deep_view()[j] == nm;
                            if j < pre.len() {
                                assert(pre[j] == nm);
                            }
                        }
                        assert(name_in(result.deep_view(), name@)) by {
                            assert(result.deep_view()[pre.len() as int] == name@);
                        }
                        assert forall|nm: Seq<char>| name_in(pre, nm) implies #[trigger] name_in(
                            result.deep_view(),
                            nm,
                        ) by {
                            let j = choose|j: int| 0 <= j < pre.len() && pre[j] == nm;
                            assert(result.deep_view()[j] == nm);
                        }
                    }
                } else {
                    proof {
                        assert(distinct_push(pre, name@) == pre);
                    }
                }
            },
            None => {
                proof {
                    assert(vars_list_from(data@, i as int, pre) == vars_list_from(
                        data@,
                        i + 1,
                        pre,
                    ));
                }
            },
        }
        i += 1;
    }
    proof {
        assert(vars_list_from(data@, i as int, result.deep_view()) == result.deep_view());
    }
    result
}

/// Merges `b` into `a`: every binding of `b` is copied into `a` except
/// where its key is listed in `keys` and `a` already binds it, in which
/// case `a`'s binding is kept. Bindings of `a` whose keys `b` does not
/// bind are kept as they are.
pub fn merge_contexts(a: &mut Context, b: &Context, keys: &Vec<String>)
    requires
        old(a).wf(),
        b.wf(),
    ensures
        final(a).wf(),
        final(a)@ == merged(old(a)@, b@, keys.deep_view()),
        forall|nm: Seq<char>|
            #[trigger] ctx_has(final(a)@, nm) <==> ctx_has(old(a)@, nm) || ctx_has(b@, nm),
        forall|nm: Seq<char>|
            ctx_has(b@, nm) && !(name_in(keys.deep_view(), nm) && ctx_has(old(a)@, nm))
                ==> #[trigger] ctx_value(final(a)@, nm) == ctx_value(b@, nm),
        forall|nm: Seq<char>|
            ctx_has(old(a)@, nm) && (!ctx_has(b@, nm) || (name_in(keys.deep_view(), nm)
                && ctx_has(b@, nm))) ==> #[trigger] ctx_value(final(a)@, nm) == ctx_value(
                old(a)@,
                nm,
            ),
{
    let ghost a0 = a@;
    let n = b.entries.len();
    let mut i: usize = 0;
    while i < n
        invariant
            0 <= i <= n,
            n == b@.len(),
            b.wf(),
            a.wf(),
            merged(a0, b@, keys.deep_view()) == merged_from(a@, b@, keys.deep_view(), i as int),
            forall|nm: Seq<char>|
                #[trigger] ctx_has(a@, nm) <==> ctx_has(a0, nm) || ctx_has(
                    b@.subrange(0, i as int),
                    nm,
                ),
            forall|nm: Seq<char>|
                ctx_has(b@.subrange(0, i as int), nm) && !(name_in(keys.deep_view(), nm)
                    && ctx_has(a0, nm)) ==> #[trigger] ctx_value(a@, nm) == ctx_value(b@, nm),
            forall|nm: Seq<char>|
                ctx_has(a0, nm) && (!ctx_has(b@.subrange(0, i as int), nm) || name_in(
                    keys.deep_view(),
                    nm,
                )) ==> #[trigger] ctx_value(a@, nm) == ctx_value(a0, nm),
        decreases n - i,
    {
        let ghost prefix = b@.subrange(0, i as int);
        let ghost nm0 = b@[i as int].0;
        proof {
            lemma_ctx_index_unique(b@, nm0, i as int);
            assert(!ctx_has(prefix, nm0)) by {
                if ctx_has(prefix, nm0) {
                    let j = ctx_index_witness(prefix, nm0);
                    assert(b@[j].0 == nm0);
                }
            }
        }
        let entry = &b.entries[i];
        let protected = contains_name(keys, &entry.key) && a.contains_key(&entry.key);
        let ghost pre = a@;
        if !protected {
            a.insert(entry.key.clone(), entry.value.clone());
            proof {
                lemma_insert_effect(pre, a@, nm0, b@[i as int].1);
                assert(a@ == ctx_insert(pre, b@[i as int].0, b@[i as int].1));
            }
        }
        proof {
            assert(merged_from(pre, b@, keys.deep_view(), i as int) == merged_from(
                a@,
                b@,
                keys.deep_view(),
                i + 1,
            ));
        }
        proof {
            assert(b@.subrange(0, i + 1) =~= prefix.push(b@[i as int]));
            assert forall|nm: Seq<char>| #[trigger]
                ctx_has(b@.subrange(0, i + 1), nm) implies ctx_has(prefix, nm) || nm == nm0 by {
                let j = ctx_index_witness(b@.subrange(0, i + 1), nm);
                if j < prefix.len() {
                    assert(prefix[j].0 == nm);
                }
            }
            assert forall|nm: Seq<char>| ctx_has(prefix, nm) || nm == nm0 implies #[trigger]
                ctx_has(b@.subrange(0, i + 1), nm) by {
                if ctx_has(prefix, nm) {
                    let j = ctx_index_witness(prefix, nm);
                    assert(b@.subrange(0, i + 1)[j].0 == nm);
                } else {
                    assert(b@.subrange(0, i + 1)[i as int].0 == nm);
                }
            }
        }
        i += 1;
    }
    proof {
        assert(b@.subrange(0, n as int) =~= b@);
    }
}

/// A position at which `v` binds `name`, assuming one exists.
pub proof fn ctx_index_witness(v: ContextView, name: Seq<char>) -> (j: int)
    requires
        ctx_has(v, name),
    ensures
        0 <= j < v.len(),
        v[j].0 == name,
{
    choose|j: int| 0 <= j < v.len() && v[j].0 == name
}

/// The concrete string an element of a multi-valued variable contributes
/// to expansion: its text, or a fixed literal when the element is not a
/// string.
pub open spec fn item_choice(it: VarItemView) -> Seq<char> {
    match it {
        VarItemView::Text(t) => t,
        VarItemView::Unsupported => "unsupported type"@,
    }
}

/// The concrete strings a variable's value contributes to expansion: one
/// for a single string, one per element for a list.
pub open spec fn value_choices(v: VarValueView) -> Seq<Seq<char>> {
    match v {
        VarValueView::Single(s) => seq![s],
        VarValueView::Many(items) => items.map_values(|it: VarItemView| item_choice(it)),
        VarValueView::Other => seq![],
    }
}

/// One expansion dimension: a variable name and its concrete choices.
pub type DimView = (Seq<char>, Seq<Seq<char>>);

/// The expansion dimensions of `vars` under `ctx`: one per variable that
/// `ctx` binds to a string or a list, in the order of `vars`; variables
/// absent from `ctx`, or bound to an unsupported shape, contribute none.
pub open spec fn dims_of(ctx: ContextView, vars: Seq<Seq<char>>) -> Seq<DimView>
    decreases vars.len(),
{
    if vars.len() == 0 {
        seq![]
    } else {
        let front = dims_of(ctx, vars.drop_last());
        let nm = vars.last();
        if ctx_has(ctx, nm) && supported_value(ctx_value(ctx, nm)) {
            front.push((nm, value_choices(ctx_value(ctx, nm))))
        } else {
            front
        }
    }
}

/// The single-binding subcontexts of one dimension, in choice order.
pub open spec fn dim_rows(name: Seq<char>, choices: Seq<Seq<char>>) -> Seq<ContextView>
    decreases choices.len(),
{
    if choices.len() == 0 {
        seq![]
    } else {
        dim_rows(name, choices.drop_last()).push(
            seq![(name, VarValueView::Single(choices.last()))],
        )
    }
}

/// `x` extended by each of `ys` in turn.
pub open spec fn row_product(x: ContextView, ys: Seq<ContextView>) -> Seq<ContextView>
    decreases ys.len(),
{
    if ys.len() == 0 {
        seq![]
    } else {
        row_product(x, ys.drop_last()).push(x + ys.last())
    }
}

/// The pairwise concatenations of `xs` and `ys`, `xs` outermost.
pub open spec fn pairs_product(xs: Seq<ContextView>, ys: Seq<ContextView>) -> Seq<ContextView>
    decreases xs.len(),
{
    if xs.len() == 0 {
        seq![]
    } else {
        pairs_product(xs.drop_last(), ys) + row_product(xs.last(), ys)
    }
}

/// Every subcontext the dimensions require: the cartesian product of the
/// dimensions' choices, one flat single-valued context per combination.
/// With no dimension there is nothing to expand and the product is empty.
pub open spec fn combos(dims: Seq<DimView>) -> Seq<ContextView>
    decreases dims.len(),
{
    if dims.len() == 0 {
        seq![]
    } else if dims.len() == 1 {
        dim_rows(dims[0].0, dims[0].1)
    } else {
        pairs_product(combos(dims.drop_last()), dim_rows(dims.last().0, dims.last().1))
    }
}

/// The number of combinations the dimensions require: the product of the
/// dimensions' choice counts.
pub open spec fn combo_count(dims: Seq<DimView>) -> nat
    decreases dims.len(),
{
    if dims.len() == 0 {
        0
    } else if dims.len() == 1 {
        dims[0].1.len()
    } else {
        combo_count(dims.drop_last()) * dims.last().1.len()
    }
}

pub proof fn lemma_dim_rows_shape(name: Seq<char>, choices: Seq<Seq<char>>)
    ensures
        dim_rows(name, choices).len() == choices.len(),
        forall|k: int|
            0 <= k < choices.len() ==> #[trigger] dim_rows(name, choices)[k] == seq![
                (name, VarValueView::Single(choices[k])),
            ],
    decreases choices.len(),
{
    if choices.len() > 0 {
        lemma_dim_rows_shape(name, choices.drop_last());
        assert forall|k: int| 0 <= k < choices.len() implies #[trigger] dim_rows(name, choices)[k]
            == seq![(name, VarValueView::Single(choices[k]))] by {
            if k < choices.len() - 1 {
                assert(choices.drop_last()[k] == choices[k]);
            }
        }
    }
}

pub proof fn lemma_row_product_shape(x: ContextView, ys: Seq<ContextView>)
    ensures
        row_product(x, ys).len() == ys.len(),
        forall|k: int| 0 <= k < ys.len() ==> #[trigger] row_product(x, ys)[k] == x + ys[k],
    decreases ys.len(),
{
    if ys.len() > 0 {
        lemma_row_product_shape(x, ys.drop_last());
        assert forall|k: int| 0 <= k < ys.len() implies #[trigger] row_product(x, ys)[k] == x
            + ys[k] by {
            if k < ys.len() - 1 {
                assert(ys.drop_last()[k] == ys[k]);
            }
        }
    }
}

pub proof fn lemma_pairs_product_shape(xs: Seq<ContextView>, ys: Seq<ContextView>)
    ensures
        pairs_product(xs, ys).len() == xs.len() * ys.len(),
        forall|a: int, b: int|
            0 <= a < xs.len() && 0 <= b < ys.len() ==> #[trigger] pairs_product(xs, ys)[a
                * ys.len() + b] == xs[a] + ys[b],
    decreases xs.len(),
{
    if xs.len() > 0 {
        let front = xs.drop_last();
        lemma_pairs_product_shape(front, ys);
        lemma_row_product_shape(xs.last(), ys);
        assert(xs.len() * ys.len() == front.len() * ys.len() + ys.len()) by (nonlinear_arith)
            requires xs.len() == front.len() + 1;
        assert forall|a: int, b: int|
            0 <= a < xs.len() && 0 <= b < ys.len() implies #[trigger] pairs_product(xs, ys)[a
            * ys.len() + b] == xs[a] + ys[b] by {
            assert(0 <= a * ys.len() + b) by (nonlinear_arith)
                requires 0 <= a && 0 <= b && 0 < ys.len();
            if a < front.len() {
                assert(a * ys.len() + b < front.len() * ys.len()) by (nonlinear_arith)
                    requires 0 <= a < front.len() && 0 <= b < ys.len();
                assert(pairs_product(xs, ys)[a * ys.len() + b] == pairs_product(front, ys)[a
                    * ys.len() + b]);
                assert(front[a] == xs[a]);
            } else {
                assert(a == front.len());
                assert(a * ys.len() + b == front.len() * ys.len() + b) by (nonlinear_arith)
                    requires a == front.len();
                assert(pairs_product(xs, ys)[front.len() * ys.len() + b] == row_product(
                    xs.last(),
                    ys,
                )[b]);
            }
        }
    }
}

/// Whether combination `c` binds dimension `k` to one of its choices.
pub open spec fn combo_entry_from_choices(dims: Seq<DimView>, c: int, k: int) -> bool {
    exists|j: int|
        0 <= j < dims[k].1.len() && (#[trigger] dims[k].1[j]) == combos(dims)[c][k].1
            ->Single_0
}

/// Every combination binds exactly the dimension names, in dimension
/// order, each to one of that dimension's choices.
pub proof fn lemma_combos_shape(dims: Seq<DimView>)
    ensures
        combos(dims).len() == combo_count(dims),
        forall|c: int|
            0 <= c < combos(dims).len() ==> #[trigger] combos(dims)[c].len() == dims.len(),
        forall|c: int, k: int|
            0 <= c < combos(dims).len() && 0 <= k < dims.len() ==> (#[trigger] combos(
                dims,
            )[c][k]).0 == dims[k].0,
        forall|c: int, k: int|
            0 <= c < combos(dims).len() && 0 <= k < dims.len() ==> (#[trigger] combos(
                dims,
            )[c][k]).1 is Single && combo_entry_from_choices(dims, c, k),
    decreases dims.len(),
{
    if dims.len() == 0 {
    } else if dims.len() == 1 {
        lemma_dim_rows_shape(dims[0].0, dims[0].1);
        assert forall|c: int, k: int|
            0 <= c < combos(dims).len() && 0 <= k < dims.len() implies (#[trigger] combos(
            dims,
        )[c][k]).1 is Single && combo_entry_from_choices(dims, c, k) by {
            assert(combos(dims)[c] == seq![(dims[0].0, VarValueView::Single(dims[0].1[c]))]);
            assert(combos(dims)[c][k].1 == VarValueView::Single(dims[k].1[c]));
            assert(0 <= c < dims[k].1.len() && dims[k].1[c] == combos(dims)[c][k].1->Single_0);
        }
    } else {
        let front = dims.drop_last();
        let last = dims.last();
        lemma_combos_shape(front);
        lemma_dim_rows_shape(last.0, last.1);
        lemma_pairs_product_shape(combos(front), dim_rows(last.0, last.1));
        let m = combos(front).len() as int;
        let n = dim_rows(last.0, last.1).len() as int;
        assert forall|c: int, k: int|
            0 <= c < combos(dims).len() && 0 <= k < dims.len() implies (#[trigger] combos(
            dims,
        )[c][k]).0 == dims[k].0 && combos(dims)[c][k].1 is Single && combo_entry_from_choices(
            dims,
            c,
            k,
        ) && combos(dims)[c].len() == dims.len() by {
            let a = c / n;
            let b = c % n;
            assert(0 < n && 0 <= a < m && 0 <= b < n && c == a * n + b) by (nonlinear_arith)
                requires 0 <= c < m * n && 0 <= m && 0 <= n && a == c / n && b == c % n;
            assert(combos(dims)[c] == combos(front)[a] + dim_rows(last.0, last.1)[b]);
            if k < front.len() {
                assert(front[k] == dims[k]);
                assert(combos(dims)[c][k] == combos(front)[a][k]);
                assert(combo_entry_from_choices(front, a, k));
                let j = choose|j: int|
                    0 <= j < front[k].1.len() && (#[trigger] front[k].1[j]) == combos(
                        front,
                    )[a][k].1->Single_0;
                assert(0 <= j < dims[k].1.len() && dims[k].1[j] == combos(dims)[c][k].1
                    ->Single_0);
            } else {
                assert(k == dims.len() - 1);
                assert(combos(dims)[c][k] == dim_rows(last.0, last.1)[b][0]);
                assert(combos(dims)[c][k] == (last.0, VarValueView::Single(last.1[b])));
                assert(0 <= b < dims[k].1.len() && dims[k].1[b] == combos(dims)[c][k].1
                    ->Single_0);
            }
        }
        assert forall|c: int| 0 <= c < combos(dims).len() implies #[trigger] combos(dims)[c].len()
            == dims.len() by {
            let a = c / n;
            let b = c % n;
            assert(0 < n && 0 <= a < m && 0 <= b < n && c == a * n + b) by (nonlinear_arith)
                requires 0 <= c < m * n && 0 <= m && 0 <= n && a == c / n && b == c % n;
            assert(combos(dims)[c] == combos(front)[a] + dim_rows(last.0, last.1)[b]);
        }
    }
}

/// The keys of every combination are pairwise distinct whenever the
/// dimension names are.
pub proof fn lemma_combos_wf(dims: Seq<DimView>)
    requires
        forall|i: int, j: int| 0 <= i < j < dims.len() ==> dims[i].0 != dims[j].0,
    ensures
        forall|c: int| 0 <= c < combos(dims).len() ==> ctx_wf(#[trigger] combos(dims)[c]),
{
    lemma_combos_shape(dims);
}

/// One expansion dimension: a retained variable and its concrete choices.
pub struct VariableChoices {
    pub name: String,
    pub choices: Vec<String>,
}

impl View for VariableChoices {
    type V = DimView;

    open spec fn view(&self) -> DimView {
        (self.name@, self.choices.deep_view())
    }
}

/// The views of a list of contexts.
pub open spec fn ctxs_view(cs: Seq<Context>) -> Seq<ContextView> {
    cs.map_values(|c: Context| c@)
}

/// The views of a list of dimensions.
pub open spec fn dims_view(ds: Seq<VariableChoices>) -> Seq<DimView> {
    ds.map_values(|d: VariableChoices| d@)
}

/// The concrete string one list element contributes to expansion.
fn choice_of_item(it: &VarItem) -> (r: String)
    ensures
        r@ == item_choice(it@),
{
    match it {
        VarItem::Text(t) => t.clone(),
        VarItem::Unsupported => String::from_str("unsupported type"),
    }
}

/// The concrete strings a value contributes to expansion.
fn choices_of_value(v: &VarValue) -> (r: Vec<String>)
    ensures
        r.deep_view() == value_choices(v@),
{
    match v {
        VarValue::Single(s) => {
            let mut out: Vec<String> = Vec::new();
            out.push(s.clone());
            proof {
                assert(out.deep_view() =~= value_choices(v@));
            }
            out
        },
        VarValue::Many(items) => {
            let n = items.len();
            let mut out: Vec<String> = Vec::new();
            let mut i: usize = 0;
            while i < n
                invariant
                    0 <= i <= n,
                    n == items@.len(),
                    out.deep_view().len() == i,
                    forall|k: int|
                        0 <= k < i ==> #[trigger] out.deep_view()[k] == item_choice(items@[k]@),
                decreases n - i,
            {
                let ghost pre = out.deep_view();
                let piece = choice_of_item(&items[i]);
                out.push(piece);
                proof {
                    assert(out.deep_view() =~= pre.push(piece@));
                }
                i += 1;
            }
            proof {
                assert(out.deep_view() =~= value_choices(v@));
            }
            out
        },
        VarValue::Other => {
            let out: Vec<String> = Vec::new();
            proof {
                assert(out.deep_view() =~= value_choices(v@));
            }
            out
        },
    }
}

/// A context with the single binding `name -> choice`.
fn singleton_context(name: &String, choice: &String) -> (r: Context)
    ensures
        r@ == seq![(name@, VarValueView::Single(choice@))],
        r.wf(),
{
    let entry = ContextEntry { key: name.clone(), value: VarValue::Single(choice.clone()) };
    let mut entries: Vec<ContextEntry> = Vec::new();
    entries.push(entry);
    let r = Context { entries };
    proof {
        assert(r@ =~= seq![(name@, VarValueView::Single(choice@))]);
    }
    r
}

/// The single-binding subcontexts of one dimension, in choice order.
fn dim_row_contexts(d: &VariableChoices) -> (r: Vec<Context>)
    ensures
        ctxs_view(r@) == dim_rows(d@.0, d@.1),
{
    let n = d.choices.len();
    let mut out: Vec<Context> = Vec::new();
    let mut i: usize = 0;
    while i < n
        invariant
            0 <= i <= n,
            n == d.choices@.len(),
            ctxs_view(out@) == dim_rows(d@.0, d@.1.subrange(0, i as int)),
        decreases n - i,
    {
        let ghost pre = ctxs_view(out@);
        let row = singleton_context(&d.name, &d.choices[i]);
        let ghost rowv = row@;
        out.push(row);
        proof {
            assert(ctxs_view(out@) =~= pre.push(rowv));
            let sub = d@.1.subrange(0, i + 1);
            assert(sub.drop_last() =~= d@.1.subrange(0, i as int));
            assert(sub.last() == d@.1[i as int]);
            assert(d@.1[i as int] == d.choices.deep_view()[i as int]);
            assert(rowv == seq![(d@.0, VarValueView::Single(sub.last()))]);
            assert(ctxs_view(out@) == dim_rows(d@.0, sub));
        }
        i += 1;
    }
    proof {
        assert(d@.1.subrange(0, n as int) =~= d@.1);
    }
    out
}

/// The entries of `x` followed by the entries of `y`.
fn context_concat(x: &Context, y: &Context) -> (r: Context)
    ensures
        r@ == x@ + y@,
{
    let mut entries = x.entries.clone();
    let mut tail = y.entries.clone();
    entries.append(&mut tail);
    let r = Context { entries };
    proof {
        assert(r@ =~= x@ + y@);
    }
    r
}

/// The cartesian product of two lists of subcontexts: every context of
/// `current_pairs` extended by every context of `pairs`, in order. An
/// empty `current_pairs` means the product has not started yet, and the
/// result is `pairs` itself.
pub fn cartesian_hashmap_product(current_pairs: &Vec<Context>, pairs: &Vec<Context>) -> (r: Vec<
    Context,
>)
    ensures
        current_pairs@.len() == 0 ==> ctxs_view(r@) == ctxs_view(pairs@),
        current_pairs@.len() > 0 ==> ctxs_view(r@) == pairs_product(
            ctxs_view(current_pairs@),
            ctxs_view(pairs@),
        ),
{
    let ghost xs = ctxs_view(current_pairs@);
    let ghost ys = ctxs_view(pairs@);
    if current_pairs.len() == 0 {
        let r = pairs.clone();
        proof {
            assert(ctxs_view(r@) =~= ys);
        }
        return r;
    }
    let m = current_pairs.len();
    let n = pairs.len();
    let mut out: Vec<Context> = Vec::new();
    let mut xi: usize = 0;
    while xi < m
        invariant
            0 <= xi <= m,
            m == current_pairs@.len(),
            n == pairs@.len(),
            xs == ctxs_view(current_pairs@),
            ys == ctxs_view(pairs@),
            ctxs_view(out@) == pairs_product(xs.subrange(0, xi as int), ys),
        decreases m - xi,
    {
        let mut yi: usize = 0;
        while yi < n
            invariant
                0 <= yi <= n,
                0 <= xi < m,
                m == current_pairs@.len(),
                n == pairs@.len(),
                xs == ctxs_view(current_pairs@),
                ys == ctxs_view(pairs@),
                ctxs_view(out@) == pairs_product(xs.subrange(0, xi as int), ys) + row_product(
                    xs[xi as int],
                    ys.subrange(0, yi as int),
                ),
            decreases n - yi,
        {
            let ghost pre = ctxs_view(out@);
            let joined = context_concat(&current_pairs[xi], &pairs[yi]);
            let ghost jv = joined@;
            out.push(joined);
            proof {
                assert(ctxs_view(out@) =~= pre.push(jv));
                let sub = ys.subrange(0, yi + 1);
                assert(sub.drop_last() =~= ys.subrange(0, yi as int));
                assert(sub.last() == ys[yi as int]);
                assert(jv == xs[xi as int] + ys[yi as int]);
                assert(row_product(xs[xi as int], sub) == row_product(
                    xs[xi as int],
                    ys.subrange(0, yi as int),
                ).push(xs[xi as int] + sub.last()));
                assert(ctxs_view(out@) =~= pairs_product(xs.subrange(0, xi as int), ys)
                    + row_product(xs[xi as int], sub));
            }
            yi += 1;
        }
        proof {
            assert(ys.subrange(0, n as int) =~= ys);
            let sub = xs.subrange(0, xi + 1);
            assert(sub.drop_last() =~= xs.subrange(0, xi as int));
            assert(sub.last() == xs[xi as int]);
            assert(pairs_product(sub, ys) == pairs_product(xs.subrange(0, xi as int), ys)
                + row_product(xs[xi as int], ys));
        }
        xi += 1;
    }
    proof {
        assert(xs.subrange(0, m as int) =~= xs);
    }
    out
}

/// The subcontexts all the dimensions require, folded left to right.
pub fn get_combinations(data: &Vec<VariableChoices>) -> (r: Vec<Context>)
    ensures
        ctxs_view(r@) == combos(dims_view(data@)),
{
    let n = data.len();
    let mut acc: Vec<Context> = Vec::new();
    let mut i: usize = 0;
    while i < n
        invariant
            0 <= i <= n,
            n == data@.len(),
            ctxs_view(acc@) == combos(dims_view(data@).subrange(0, i as int)),
        decreases n - i,
    {
        let ghost dims = dims_view(data@);
        let ghost sub1 = dims.subrange(0, i + 1);
        let rows = dim_row_contexts(&data[i]);
        proof {
            assert(sub1.drop_last() =~= dims.subrange(0, i as int));
            assert(sub1.last() == dims[i as int]);
            assert(dims[i as int] == data@[i as int]@);
        }
        if i == 0 || acc.len() > 0 {
            let next = cartesian_hashmap_product(&acc, &rows);
            acc = next;
            proof {
                if i == 0 {
                    assert(sub1.len() == 1);
                    assert(combos(sub1) == dim_rows(sub1[0].0, sub1[0].1));
                    assert(ctxs_view(acc@) == combos(sub1));
                } else {
                    assert(sub1.len() >= 2);
                    assert(combos(sub1) == pairs_product(
                        combos(sub1.drop_last()),
                        dim_rows(sub1.last().0, sub1.last().1),
                    ));
                    assert(ctxs_view(acc@) == combos(sub1));
                }
            }
        } else {
            proof {
                assert(sub1.len() >= 2);
                assert(combos(sub1) == pairs_product(
                    combos(sub1.drop_last()),
                    dim_rows(sub1.last().0, sub1.last().1),
                ));
                assert(combos(sub1.drop_last()).len() == 0);
                assert(combos(sub1) =~= ctxs_view(acc@));
            }
        }
        i += 1;
    }
    proof {
        assert(dims_view(data@).subrange(0, n as int) =~= dims_view(data@));
    }
    acc
}

/// The names that the dimensions of `vars` under `ctx` carry are taken
/// from `vars`, and are pairwise distinct whenever `vars` are.
pub proof fn lemma_dims_of_distinct(ctx: ContextView, vars: Seq<Seq<char>>)
    requires
        forall|i: int, j: int| 0 <= i < j < vars.len() ==> vars[i] != vars[j],
    ensures
        forall|p: int|
            0 <= p < dims_of(ctx, vars).len() ==> exists|q: int|
                0 <= q < vars.len() && (#[trigger] dims_of(ctx, vars)[p].0) == vars[q],
        forall|p1: int, p2: int|
            0 <= p1 < p2 < dims_of(ctx, vars).len() ==> dims_of(ctx, vars)[p1].0 != dims_of(
                ctx,
                vars,
            )[p2].0,
    decreases vars.len(),
{
    if vars.len() > 0 {
        let front_vars = vars.drop_last();
        lemma_dims_of_distinct(ctx, front_vars);
        let front = dims_of(ctx, front_vars);
        let dims = dims_of(ctx, vars);
        assert forall|p: int| 0 <= p < dims.len() implies exists|q: int|
            0 <= q < vars.len() && (#[trigger] dims[p].0) == vars[q] by {
            if p < front.len() {
                let q = choose|q: int|
                    0 <= q < front_vars.len() && (#[trigger] front[p].0) == front_vars[q];
                assert(0 <= q < vars.len() && dims[p].0 == vars[q]);
            } else {
                assert(dims[p].0 == vars.last());
                assert(0 <= vars.len() - 1 < vars.len() && dims[p].0 == vars[vars.len() - 1]);
            }
        }
        assert forall|p1: int, p2: int| 0 <= p1 < p2 < dims.len() implies dims[p1].0
            != dims[p2].0 by {
            if p2 < front.len() {
            } else if dims.len() == front.len() {
            } else {
                assert(p2 == front.len());
                assert(dims[p2].0 == vars.last());
                let q = choose|q: int|
                    0 <= q < front_vars.len() && (#[trigger] front[p1].0) == front_vars[q];
                assert(vars[q] != vars[vars.len() - 1]);
            }
        }
    }
}

/// Generates every subcontext the cartesian expansion of `variables`
/// under `context` requires: one per combination of the concrete values
/// of the variables that `context` binds to a string or a list. A
/// variable absent from `context`, or bound to an unsupported shape,
/// contributes no dimension; if no variable remains, the result is empty.
pub fn generate_subcontexts(context: &Context, variables: &Vec<String>) -> (r: Vec<Context>)
    requires
        context.wf(),
        forall|i: int, j: int|
            0 <= i < j < variables.deep_view().len() ==> variables.deep_view()[i]
                != variables.deep_view()[j],
    ensures
        ctxs_view(r@) == combos(dims_of(context@, variables.deep_view())),
        forall|k: int| 0 <= k < r@.len() ==> (#[trigger] r@[k]).wf(),
{
    let ghost vars = variables.deep_view();
    let n = variables.len();
    let mut dims: Vec<VariableChoices> = Vec::new();
    let mut i: usize = 0;
    while i < n
        invariant
            0 <= i <= n,
            n == variables@.len(),
            vars == variables.deep_view(),
            context.wf(),
            dims_view(dims@) == dims_of(context@, vars.subrange(0, i as int)),
        decreases n - i,
    {
        let ghost sub1 = vars.subrange(0, i + 1);
        proof {
            assert(sub1.drop_last() =~= vars.subrange(0, i as int));
            assert(sub1.last() == vars[i as int]);
        }
        let name = &variables[i];
        let ghost pre = dims_view(dims@);
        match context.get_value(name) {
            Some(value) => {
                if value.is_supported() {
                    let choices = choices_of_value(&value);
                    let dim = VariableChoices { name: name.clone(), choices };
                    let ghost dv = dim@;
                    dims.push(dim);
                    proof {
                        assert(dims_view(dims@) =~= pre.push(dv));
                        assert(dims_view(dims@) == dims_of(context@, sub1));
                    }
                } else {
                    proof {
                        assert(dims_view(dims@) == dims_of(context@, sub1));
                    }
                }
            },
            None => {
                proof {
                    assert(dims_view(dims@) == dims_of(context@, sub1));
                }
            },
        }
        i += 1;
    }
    proof {
        assert(vars.subrange(0, n as int) =~= vars);
    }
    let r = get_combinations(&dims);
    proof {
        lemma_dims_of_distinct(context@, vars);
        lemma_combos_wf(dims_of(context@, vars));
        assert forall|k: int| 0 <= k < r@.len() implies (#[trigger] r@[k]).wf() by {
            assert(ctxs_view(r@)[k] == r@[k]@);
            assert(ctx_wf(combos(dims_of(context@, vars))[k]));
        }
    }
    r
}

/// When every dimension's choices are pairwise distinct, so are the
/// combinations: each pair of distinct combinations differs on some
/// dimension's binding.
pub proof fn lemma_combos_distinct(dims: Seq<DimView>)
    requires
        forall|k: int, i: int, j: int|
            0 <= k < dims.len() && 0 <= i < j < dims[k].1.len() ==> #[trigger] dims[k].1[i]
                != #[trigger] dims[k].1[j],
    ensures
        forall|c1: int, c2: int|
            0 <= c1 < c2 < combos(dims).len() ==> #[trigger] combos(dims)[c1] != #[trigger] combos(
                dims,
            )[c2],
    decreases dims.len(),
{
    lemma_combos_shape(dims);
    if dims.len() == 0 {
    } else if dims.len() == 1 {
        lemma_dim_rows_shape(dims[0].0, dims[0].1);
        assert forall|c1: int, c2: int|
            0 <= c1 < c2 < combos(dims).len() implies #[trigger] combos(dims)[c1]
            != #[trigger] combos(dims)[c2] by {
            assert(combos(dims)[c1][0].1 == VarValueView::Single(dims[0].1[c1]));
            assert(combos(dims)[c2][0].1 == VarValueView::Single(dims[0].1[c2]));
        }
    } else {
        let front = dims.drop_last();
        let last = dims.last();
        lemma_combos_distinct(front);
        lemma_combos_shape(front);
        lemma_dim_rows_shape(last.0, last.1);
        lemma_pairs_product_shape(combos(front), dim_rows(last.0, last.1));
        let m = combos(front).len() as int;
        let n = dim_rows(last.0, last.1).len() as int;
        assert forall|c1: int, c2: int|
            0 <= c1 < c2 < combos(dims).len() implies #[trigger] combos(dims)[c1]
            != #[trigger] combos(dims)[c2] by {
            let a1 = c1 / n;
            let b1 = c1 % n;
            let a2 = c2 / n;
            let b2 = c2 % n;
            assert(0 < n && 0 <= a1 < m && 0 <= b1 < n && c1 == a1 * n + b1) by (nonlinear_arith)
                requires 0 <= c1 < m * n && 0 <= m && 0 <= n && a1 == c1 / n && b1 == c1 % n;
            assert(0 <= a2 < m && 0 <= b2 < n && c2 == a2 * n + b2) by (nonlinear_arith)
                requires 0 <= c2 < m * n && 0 < n && a2 == c2 / n && b2 == c2 % n;
            let x1 = combos(front)[a1];
            let x2 = combos(front)[a2];
            let y1 = dim_rows(last.0, last.1)[b1];
            let y2 = dim_rows(last.0, last.1)[b2];
            assert(combos(dims)[c1] == x1 + y1);
            assert(combos(dims)[c2] == x2 + y2);
            assert(x1.len() == front.len() && x2.len() == front.len());
            if a1 == a2 {
                assert(b1 != b2) by (nonlinear_arith)
                    requires a1 == a2 && c1 != c2 && c1 == a1 * n + b1 && c2 == a2 * n + b2;
                assert(last.1[b1] != last.1[b2]);
                assert((x1 + y1)[front.len() as int].1 == VarValueView::Single(last.1[b1]));
                assert((x2 + y2)[front.len() as int].1 == VarValueView::Single(last.1[b2]));
            } else {
                let d1 = if a1 < a2 { a1 } else { a2 };
                let d2 = if a1 < a2 { a2 } else { a1 };
                assert(combos(front)[d1] != combos(front)[d2]);
                assert(x1 != x2);
                assert(exists|p: int| 0 <= p < x1.len() && #[trigger] x1[p] != x2[p]) by {
                    if forall|p: int| 0 <= p < x1.len() ==> #[trigger] x1[p] == x2[p] {
                        assert(x1 =~= x2);
                    }
                }
                let p = choose|p: int| 0 <= p < x1.len() && #[trigger] x1[p] != x2[p];
                assert((x1 + y1)[p] != (x2 + y2)[p]);
            }
        }
    }
}

} // verus!
