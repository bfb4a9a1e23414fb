//! The variable-value model.
//!
//! A declared template variable holds either one string or an ordered list
//! of strings; any other shape found in a configuration is kept as
//! [`VarValue::Other`] so that validation can reject it and every later
//! stage can ignore it. A list element that is itself not a string is kept
//! as [`VarItem::Unsupported`] and is coerced to a fixed placeholder
//! literal during expansion rather than failing.

use vstd::prelude::*;

verus! {

/// One element of a multi-valued variable.
pub enum VarItem {
    /// A string element, usable as a concrete value during expansion.
    Text(String),
    /// An element of any other shape; expansion coerces it to the literal
    /// `"unsupported type"`.
    Unsupported,
}

/// The mathematical value of a [`VarItem`].
pub enum VarItemView {
    Text(Seq<char>),
    Unsupported,
}

impl View for VarItem {
    type V = VarItemView;

    open spec fn view(&self) -> VarItemView {
        match self {
            VarItem::Text(s) => VarItemView::Text(s@),
            VarItem::Unsupported => VarItemView::Unsupported,
        }
    }
}

impl Clone for VarItem {
    fn clone(&self) -> (r: Self)
        ensures
            r@ == self@,
    {
        match self {
            VarItem::Text(s) => VarItem::Text(s.clone()),
            VarItem::Unsupported => VarItem::Unsupported,
        }
    }
}

/// The value bound to a variable name in a rendering context.
pub enum VarValue {
    /// A single concrete string.
    Single(String),
    /// An ordered list of elements; referenced paths multiply over it.
    Many(Vec<VarItem>),
    /// Any unsupported shape; rejected by validation, ignored elsewhere.
    Other,
}

/// The mathematical value of a [`VarValue`].
pub enum VarValueView {
    Single(Seq<char>),
    Many(Seq<VarItemView>),
    Other,
}

impl View for VarValue {
    type V = VarValueView;

    open spec fn view(&self) -> VarValueView {
        match self {
            VarValue::Single(s) => VarValueView::Single(s@),
            VarValue::Many(items) => VarValueView::Many(
                items@.map_values(|it: VarItem| it@),
            ),
            VarValue::Other => VarValueView::Other,
        }
    }
}

impl Clone for VarValue {
    fn clone(&self) -> (r: Self)
        ensures
            r@ == self@,
    {
        match self {
            VarValue::Single(s) => VarValue::Single(s.clone()),
            VarValue::Many(items) => {
                let c = items.clone();
                proof {
                    assert(c@.map_values(|it: VarItem| it@)
                        =~= items@.map_values(|it: VarItem| it@));
                }
                VarValue::Many(c)
            },
            VarValue::Other => VarValue::Other,
        }
    }
}

/// Whether a value has one of the two shapes the engine accepts.
pub open spec fn supported_value(v: VarValueView) -> bool {
    v is Single || v is Many
}

impl VarValue {
    /// Whether this value is a single string or a list.
    pub fn is_supported(&self) -> (r: bool)
        ensures
            r == supported_value(self@),
    {
        match self {
            VarValue::Single(_) => true,
            VarValue::Many(_) => true,
            VarValue::Other => false,
        }
    }
}

} // verus!
