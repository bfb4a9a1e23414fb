//! The safe renderer.
//!
//! Rendering walks the template text once, from left to right. Wherever a
//! placeholder starts whose name is bound to a single string in the
//! context, the placeholder is replaced by that string; every other
//! character, and every placeholder whose name is unknown or bound to a
//! list, is copied through unchanged. Substitution is a single pass: a
//! placeholder inside a substituted value is not rendered again.

use vstd::prelude::*;

use crate::context::{Context, ContextView, ctx_string};
use crate::templates::placeholder::{
    lemma_no_overlap, lemma_placeholder_bounds, match_placeholder, placeholder_at,
};

verus! {

/// The rendering of the suffix of `s` that starts at `i`.
pub open spec fn render_from(s: Seq<char>, ctx: ContextView, i: int) -> Seq<char>
    decreases s.len() - i,
    when 0 <= i
{
    if i >= s.len() {
        Seq::empty()
    } else {
        match placeholder_at(s, i) {
            Some((e, name)) => {
                proof {
                    lemma_placeholder_bounds(s, i);
                }
                let piece = match ctx_string(ctx, name) {
                    Some(v) => v,
                    None => s.subrange(i, e),
                };
                piece + render_from(s, ctx, e)
            },
            None => seq![s[i]] + render_from(s, ctx, i + 1),
        }
    }
}

/// The rendering of `s` under `ctx`: defined placeholders substituted,
/// everything else copied through unchanged.
pub open spec fn rendered(s: Seq<char>, ctx: ContextView) -> Seq<char> {
    render_from(s, ctx, 0)
}

/// Whether `needle` occurs, character for character, inside `hay`.
pub open spec fn contains_seq(hay: Seq<char>, needle: Seq<char>) -> bool {
    exists|j: int|
        0 <= j && j + needle.len() <= hay.len() && #[trigger] hay.subrange(j, j + needle.len())
            == needle
}

/// Occurrence survives prepending.
proof fn lemma_contains_prepend(front: Seq<char>, hay: Seq<char>, needle: Seq<char>)
    requires
        contains_seq(hay, needle),
    ensures
        contains_seq(front + hay, needle),
{
    let j = choose|j: int|
        0 <= j && j + needle.len() <= hay.len() && #[trigger] hay.subrange(j, j + needle.len())
            == needle;
    let k = j + front.len();
    assert((front + hay).subrange(k, k + needle.len()) =~= hay.subrange(j, j + needle.len()));
}

/// The round-trip guarantee of the safe renderer: a placeholder whose name
/// the context does not bind to a single string appears, character for
/// character, in the rendered output. `k` is the position the rendering
/// walk has reached; taking `k == 0` states the law for the whole text.
pub proof fn lemma_unknown_placeholder_round_trip(
    s: Seq<char>,
    ctx: ContextView,
    k: int,
    i: int,
)
    requires
        0 <= k <= i,
        placeholder_at(s, i) is Some,
        ctx_string(ctx, placeholder_at(s, i)->Some_0.1) is None,
    ensures
        contains_seq(
            render_from(s, ctx, k),
            s.subrange(i, placeholder_at(s, i)->Some_0.0),
        ),
    decreases i - k,
{
    let (e, name) = placeholder_at(s, i)->Some_0;
    lemma_placeholder_bounds(s, i);
    let verbatim = s.subrange(i, e);
    if k == i {
        let rest = render_from(s, ctx, e);
        assert((verbatim + rest).subrange(0, 0 + verbatim.len() as int) =~= verbatim);
        assert(contains_seq(verbatim + rest, verbatim));
    } else {
        match placeholder_at(s, k) {
            Some((e2, name2)) => {
                lemma_placeholder_bounds(s, k);
                if e2 > i {
                    lemma_no_overlap(s, k, i);
                    assert(false);
                }
                lemma_unknown_placeholder_round_trip(s, ctx, e2, i);
                let piece = match ctx_string(ctx, name2) {
                    Some(v) => v,
                    None => s.subrange(k, e2),
                };
                lemma_contains_prepend(piece, render_from(s, ctx, e2), verbatim);
            },
            None => {
                lemma_unknown_placeholder_round_trip(s, ctx, k + 1, i);
                lemma_contains_prepend(seq![s[k]], render_from(s, ctx, k + 1), verbatim);
            },
        }
    }
}

/// If no placeholder of `s` is bound to a single string in `ctx`, the
/// rendering of `s` is `s` itself.
pub proof fn lemma_render_no_defined_vars(s: Seq<char>, ctx: ContextView, k: int)
    requires
        0 <= k <= s.len(),
        forall|i: int| #![auto]
            placeholder_at(s, i) is Some ==> ctx_string(
                ctx,
                placeholder_at(s, i)->Some_0.1,
            ) is None,
    ensures
        render_from(s, ctx, k) == s.subrange(k, s.len() as int),
    decreases s.len() - k,
{
    if k >= s.len() {
        assert(render_from(s, ctx, k) =~= s.subrange(k, s.len() as int));
    } else {
        match placeholder_at(s, k) {
            Some((e, name)) => {
                lemma_placeholder_bounds(s, k);
                lemma_render_no_defined_vars(s, ctx, e);
                assert(s.subrange(k, e) + s.subrange(e, s.len() as int) =~= s.subrange(
                    k,
                    s.len() as int,
                ));
            },
            None => {
                lemma_render_no_defined_vars(s, ctx, k + 1);
                assert(seq![s[k]] + s.subrange(k + 1, s.len() as int) =~= s.subrange(
                    k,
                    s.len() as int,
                ));
            },
        }
    }
}

/// The renderer. It owns no state; it exists so that the engine's callers
/// hold one value that renders template text and generates files.
pub struct TemplateRenreder;

impl TemplateRenreder {
    /// A new renderer.
    pub fn new() -> (r: Self) {
        TemplateRenreder {  }
    }

    /// Renders `data` under `context`: every placeholder bound to a single
    /// string is substituted; unknown placeholders and every other
    /// character pass through unchanged.
    pub fn render_template(&self, data: &String, context: &Context) -> (r: String)
        requires
            context.wf(),
        ensures
            r@ == rendered(data@, context@),
    {
        let s = data.as_str();
        let n = s.unicode_len();
        let mut out = String::new();
        let mut i: usize = 0;
        while i < n
            invariant
                0 <= i <= n,
                n == s@.len(),
                s@ == data@,
                context.wf(),
                rendered(data@, context@) == out@ + render_from(s@, context@, i as int),
            decreases n - i,
        {
            match match_placeholder(s, i) {
                Some((e, name)) => {
                    proof {
                        lemma_placeholder_bounds(s@, i as int);
                    }
                    match context.string_value(&name) {
                        Some(v) => out.append(v.as_str()),
                        None => out.append(s.substring_char(i, e)),
                    }
                    i = e;
                },
                None => {
                    out.append(s.substring_char(i, i + 1));
                    proof {
                        assert(s@.subrange(i as int, i + 1) =~= seq![s@[i as int]]);
                    }
                    i += 1;
                },
            }
        }
        proof {
            assert(render_from(s@, context@, i as int) =~= Seq::<char>::empty());
            assert(out@ + Seq::<char>::empty() =~= out@);
        }
        out
    }
}

} // verus!
