use quickproj::context::Context;
use quickproj::templates::utils::generate_subcontexts;
use quickproj::value::{VarItem, VarValue};

fn single(value: &str) -> VarValue {
    VarValue::Single(String::from(value))
}

fn many(values: &[&str]) -> VarValue {
    let items = values.iter().map(|v| VarItem::Text(String::from(*v))).collect();
    VarValue::Many(items)
}

fn context_of(pairs: Vec<(&str, VarValue)>) -> Context {
    let mut ctx = Context::new();
    for (key, value) in pairs {
        ctx.insert(String::from(key), value);
    }
    ctx
}

fn names(vars: &[&str]) -> Vec<String> {
    vars.iter().map(|v| String::from(*v)).collect()
}

fn as_pairs(sub: &Context) -> Vec<(String, String)> {
    let mut pairs = Vec::new();
    for entry in &sub.entries {
        match &entry.value {
            VarValue::Single(v) => pairs.push((entry.key.clone(), v.clone())),
            _ => panic!("a subcontext binds only single strings"),
        }
    }
    pairs.sort();
    pairs
}

fn pair(k: &str, v: &str) -> (String, String) {
    (String::from(k), String::from(v))
}

#[test]
fn expands_multi_valued_variable_against_single() {
    let ctx = context_of(vec![("color", many(&["red", "blue"])), ("size", single("M"))]);
    let subs = generate_subcontexts(&ctx, &names(&["color", "size"]));
    assert_eq!(subs.len(), 2);
    let mut found: Vec<Vec<(String, String)>> = subs.iter().map(as_pairs).collect();
    found.sort();
    let mut expected = vec![
        vec![pair("color", "red"), pair("size", "M")],
        vec![pair("color", "blue"), pair("size", "M")],
    ];
    expected.sort();
    assert_eq!(found, expected);
}

#[test]
fn variable_absent_from_context_yields_empty_expansion() {
    let ctx = context_of(vec![("color", many(&["red", "blue"]))]);
    let subs = generate_subcontexts(&ctx, &names(&["unused"]));
    assert!(subs.is_empty());
}

#[test]
fn absent_variable_contributes_no_dimension() {
    let ctx = context_of(vec![("size", single("M"))]);
    let subs = generate_subcontexts(&ctx, &names(&["missing", "size"]));
    assert_eq!(subs.len(), 1);
    assert_eq!(as_pairs(&subs[0]), vec![pair("size", "M")]);
}

#[test]
fn two_multi_valued_variables_give_full_product() {
    let ctx = context_of(vec![
        ("color", many(&["red", "blue"])),
        ("size", many(&["s", "m", "l"])),
    ]);
    let subs = generate_subcontexts(&ctx, &names(&["color", "size"]));
    assert_eq!(subs.len(), 6);
    let mut found: Vec<Vec<(String, String)>> = subs.iter().map(as_pairs).collect();
    found.sort();
    found.dedup();
    assert_eq!(found.len(), 6);
    for sub in &found {
        assert_eq!(sub.len(), 2);
    }
}

#[test]
fn unsupported_list_element_becomes_placeholder_literal() {
    let ctx = context_of(vec![(
        "mixed",
        VarValue::Many(vec![VarItem::Text(String::from("ok")), VarItem::Unsupported]),
    )]);
    let subs = generate_subcontexts(&ctx, &names(&["mixed"]));
    let mut found: Vec<Vec<(String, String)>> = subs.iter().map(as_pairs).collect();
    found.sort();
    let mut expected = vec![
        vec![pair("mixed", "ok")],
        vec![pair("mixed", "unsupported type")],
    ];
    expected.sort();
    assert_eq!(found, expected);
}

#[test]
fn unsupported_variable_shape_is_ignored() {
    let ctx = context_of(vec![("bad", VarValue::Other), ("size", single("M"))]);
    let subs = generate_subcontexts(&ctx, &names(&["bad", "size"]));
    assert_eq!(subs.len(), 1);
    assert_eq!(as_pairs(&subs[0]), vec![pair("size", "M")]);
}

#[test]
fn duplicate_list_values_yield_duplicate_subcontexts() {
    let ctx = context_of(vec![("color", many(&["red", "red"]))]);
    let subs = generate_subcontexts(&ctx, &names(&["color"]));
    assert_eq!(subs.len(), 2);
    assert_eq!(as_pairs(&subs[0]), as_pairs(&subs[1]));
}
