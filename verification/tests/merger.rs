use quickproj::context::Context;
use quickproj::templates::utils::merge_contexts;
use quickproj::value::{VarItem, VarValue};

fn single(value: &str) -> VarValue {
    VarValue::Single(String::from(value))
}

fn many(values: &[&str]) -> VarValue {
    let items = values.iter().map(|v| VarItem::Text(String::from(*v))).collect();
    VarValue::Many(items)
}

fn context_of(pairs: Vec<(&str, VarValue)>) -> Context {
    let mut ctx = Context::new();
    for (key, value) in pairs {
        ctx.insert(String::from(key), value);
    }
    ctx
}

fn names(vars: &[&str]) -> Vec<String> {
    vars.iter().map(|v| String::from(*v)).collect()
}

fn string_of(ctx: &Context, key: &str) -> String {
    ctx.string_value(&String::from(key)).expect("a single string binding")
}

#[test]
fn protected_key_keeps_subcontext_value() {
    let mut sub = context_of(vec![("color", single("red"))]);
    let full = context_of(vec![("color", many(&["red", "blue"])), ("size", single("M"))]);
    merge_contexts(&mut sub, &full, &names(&["color"]));
    assert_eq!(string_of(&sub, "color"), String::from("red"));
    assert_eq!(string_of(&sub, "size"), String::from("M"));
    assert_eq!(sub.entries.len(), 2);
}

#[test]
fn unprotected_key_is_overwritten() {
    let mut sub = context_of(vec![("color", single("red"))]);
    let full = context_of(vec![("color", single("green")), ("size", single("M"))]);
    merge_contexts(&mut sub, &full, &names(&[]));
    assert_eq!(string_of(&sub, "color"), String::from("green"));
    assert_eq!(string_of(&sub, "size"), String::from("M"));
}

#[test]
fn protection_without_presence_does_not_block_merge() {
    let mut sub = Context::new();
    let full = context_of(vec![("color", single("blue"))]);
    merge_contexts(&mut sub, &full, &names(&["color"]));
    assert_eq!(string_of(&sub, "color"), String::from("blue"));
}

#[test]
fn keys_only_in_subcontext_survive() {
    let mut sub = context_of(vec![("module", single("a"))]);
    let full = context_of(vec![("size", single("M"))]);
    merge_contexts(&mut sub, &full, &names(&[]));
    assert_eq!(string_of(&sub, "module"), String::from("a"));
    assert_eq!(string_of(&sub, "size"), String::from("M"));
}
