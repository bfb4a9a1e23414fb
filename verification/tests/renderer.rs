use quickproj::context::Context;
use quickproj::templates::renderer::TemplateRenreder;
use quickproj::value::{VarItem, VarValue};

fn context_of(pairs: Vec<(&str, VarValue)>) -> Context {
    let mut ctx = Context::new();
    for (key, value) in pairs {
        ctx.insert(String::from(key), value);
    }
    ctx
}

fn render(template: &str, ctx: &Context) -> String {
    TemplateRenreder::new().render_template(&String::from(template), ctx)
}

#[test]
fn unknown_placeholder_passes_through_unchanged() {
    let ctx = context_of(vec![("known", VarValue::Single(String::from("X")))]);
    let out = render("{{known}} {{unknown}}", &ctx);
    assert_eq!(out, String::from("X {{unknown}}"));
}

#[test]
fn defined_placeholders_are_substituted() {
    let ctx = context_of(vec![
        ("project_name", VarValue::Single(String::from("demo"))),
        ("module", VarValue::Single(String::from("core"))),
    ]);
    let out = render("pub use {{project_name}}::{{ module }};", &ctx);
    assert_eq!(out, String::from("pub use demo::core;"));
}

#[test]
fn rendering_without_placeholders_copies_text() {
    let ctx = context_of(vec![("x", VarValue::Single(String::from("1")))]);
    let text = "fn main() { println!(\"hi\"); }";
    assert_eq!(render(text, &ctx), String::from(text));
}

#[test]
fn list_valued_variable_is_not_interpolated() {
    let ctx = context_of(vec![(
        "items",
        VarValue::Many(vec![VarItem::Text(String::from("a")), VarItem::Text(String::from("b"))]),
    )]);
    let out = render("have {{items}}", &ctx);
    assert_eq!(out, String::from("have {{items}}"));
}

#[test]
fn substitution_is_a_single_pass() {
    let ctx = context_of(vec![
        ("a", VarValue::Single(String::from("{{b}}"))),
        ("b", VarValue::Single(String::from("X"))),
    ]);
    let out = render("{{a}}", &ctx);
    assert_eq!(out, String::from("{{b}}"));
}

#[test]
fn whitespace_inside_braces_is_tolerated() {
    let ctx = context_of(vec![("name", VarValue::Single(String::from("demo")))]);
    assert_eq!(render("{{ name }}", &ctx), String::from("demo"));
    assert_eq!(render("{{\tname\t}}", &ctx), String::from("demo"));
}

#[test]
fn malformed_placeholder_is_left_verbatim() {
    let ctx = context_of(vec![("name", VarValue::Single(String::from("demo")))]);
    assert_eq!(render("{{na me}}", &ctx), String::from("{{na me}}"));
    assert_eq!(render("{{name", &ctx), String::from("{{name"));
}
