//! The engine's side of the interactive prompts.
//!
//! Reading from the terminal is the surrounding application's work; the
//! functions here turn what was read into values, so that every decision
//! about a reply is checked.

use vstd::prelude::*;

use crate::text::{split_by, split_string, trim_spaces, trimmed};
use crate::value::{VarItem, VarItemView, VarValue, VarValueView};

verus! {

/// Whether a reply to a yes/no question affirms it: exactly a trimmed
/// `y`, of either case.
pub fn is_affirmative(input: &String) -> (r: bool)
    ensures
        r == (trimmed(input@) == seq!['y'] || trimmed(input@) == seq!['Y']),
{
    let t = trim_spaces(input);
    if t.as_str().unicode_len() == 1 {
        let c = t.as_str().get_char(0);
        proof {
            assert(trimmed(input@) == seq!['y'] <==> trimmed(input@)[0] == 'y') by {
                if trimmed(input@)[0] == 'y' {
                    assert(trimmed(input@) =~= seq!['y']);
                }
            }
            assert(trimmed(input@) == seq!['Y'] <==> trimmed(input@)[0] == 'Y') by {
                if trimmed(input@)[0] == 'Y' {
                    assert(trimmed(input@) =~= seq!['Y']);
                }
            }
        }
        c == 'y' || c == 'Y'
    } else {
        proof {
            assert(trimmed(input@) != seq!['y']);
            assert(trimmed(input@) != seq!['Y']);
        }
        false
    }
}

/// The value a user's reply supplies for one variable: nothing when the
/// trimmed reply is empty or the default has an unsupported shape; the
/// trimmed reply itself over a single-string default; its comma-separated
/// pieces over a list default.
pub fn parse_user_value(input: &String, default_value: &VarValue) -> (r: Option<VarValue>)
    ensures
        trimmed(input@).len() == 0 ==> r is None,
        default_value is Other ==> r is None,
        trimmed(input@).len() > 0 && default_value is Single ==> (r matches Some(v) && v@
            == VarValueView::Single(trimmed(input@))),
        trimmed(input@).len() > 0 && default_value is Many ==> (r matches Some(v) && v@
            == VarValueView::Many(
            split_by(trimmed(input@), ',').map_values(|p: Seq<char>| VarItemView::Text(p)),
        )),
{
    let user_data = trim_spaces(input);
    if user_data.as_str().unicode_len() == 0 {
        return None;
    }
    match default_value {
        VarValue::Single(_) => Some(VarValue::Single(user_data)),
        VarValue::Many(_) => {
            let pieces = split_string(&user_data, ',');
            let n = pieces.len();
            let mut items: Vec<VarItem> = Vec::new();
            let mut i: usize = 0;
            while i < n
                invariant
                    0 <= i <= n,
                    n == pieces@.len(),
                    items@.len() == i,
                    forall|k: int|
                        0 <= k < i ==> #[trigger] items@[k]@ == VarItemView::Text(
                            pieces.deep_view()[k],
                        ),
                decreases n - i,
            {
                items.push(VarItem::Text(pieces[i].clone()));
                i += 1;
            }
            let r = VarValue::Many(items);
            proof {
                assert(r@ matches VarValueView::Many(its) && its =~= split_by(
                    trimmed(input@),
                    ',',
                ).map_values(|p: Seq<char>| VarItemView::Text(p)));
            }
            Some(r)
        },
        VarValue::Other => None,
    }
}

} // verus!
