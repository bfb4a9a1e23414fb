use quickproj::templates::utils::get_template_variables;

fn extract(text: &str) -> Vec<String> {
    get_template_variables(&String::from(text))
}

#[test]
fn extracts_distinct_variables_once() {
    let vars = extract("a {{x}} b {{y}} {{x}}");
    assert_eq!(vars, vec![String::from("x"), String::from("y")]);
}

#[test]
fn extracts_nothing_from_plain_text() {
    let vars = extract("no vars");
    assert!(vars.is_empty());
}

#[test]
fn extracts_names_with_surrounding_whitespace() {
    let vars = extract("start {{  padded\t}} end");
    assert_eq!(vars, vec![String::from("padded")]);
}

#[test]
fn extracts_names_with_hyphen_underscore_digits() {
    let vars = extract("{{db_host-1}} and {{v2}}");
    assert_eq!(vars, vec![String::from("db_host-1"), String::from("v2")]);
}

#[test]
fn ignores_unclosed_and_malformed_placeholders() {
    assert!(extract("{{open").is_empty());
    assert!(extract("{{}}").is_empty());
    assert!(extract("{{two words}}").is_empty());
    assert!(extract("{x}").is_empty());
}

#[test]
fn extracts_placeholder_preceded_by_extra_brace() {
    let vars = extract("{{{x}}");
    assert_eq!(vars, vec![String::from("x")]);
}

#[test]
fn extraction_is_the_same_for_paths_and_contents() {
    let from_path = extract("src/{{module}}/mod.rs");
    let from_contents = extract("pub mod {{module}};\n");
    assert_eq!(from_path, from_contents);
    assert_eq!(from_path, vec![String::from("module")]);
}
