use quickproj::context::ContextEntry;
use quickproj::error::Error;
use quickproj::templates::config::{
    Config, FilesConfig, JsonConfig, ScriptsConfig, SourceRecord, build_context,
    override_variables,
};
use quickproj::value::{VarItem, VarValue};

fn entry(key: &str, value: VarValue) -> ContextEntry {
    ContextEntry { key: String::from(key), value }
}

fn single(value: &str) -> VarValue {
    VarValue::Single(String::from(value))
}

fn bare_config(sources: Vec<SourceRecord>, variables: Option<Vec<ContextEntry>>) -> JsonConfig {
    JsonConfig {
        files: FilesConfig { sources, generated: None, directories: None, templates: None },
        variables,
        scripts: None,
    }
}

#[test]
fn missing_fields_are_filled_with_defaults() {
    let mut config = bare_config(vec![], None);
    config.init_missing_fields();
    assert!(config.files.generated.is_some_and(|g| g.is_empty()));
    assert!(config.files.directories.is_some_and(|d| d.is_empty()));
    assert!(config.files.templates.is_some_and(|t| t.is_empty()));
    assert!(config.variables.is_some_and(|v| v.is_empty()));
    assert!(config.scripts.is_some_and(|s| s.after_init.is_some_and(|a| a.is_empty())));
}

#[test]
fn present_fields_survive_default_filling() {
    let mut config = bare_config(vec![], Some(vec![entry("x", single("1"))]));
    config.files.directories = Some(vec![String::from("src")]);
    config.init_missing_fields();
    assert_eq!(config.files.directories, Some(vec![String::from("src")]));
    assert_eq!(config.variables.as_ref().map(|v| v.len()), Some(1));
}

#[test]
fn default_scripts_hold_an_empty_hook_list() {
    let scripts = ScriptsConfig::default();
    assert_eq!(scripts.after_init, Some(Vec::new()));
}

#[test]
fn validation_accepts_complete_records_and_supported_values() {
    let config = bare_config(
        vec![SourceRecord { from: Some(String::from("a")), to: Some(String::from("b")) }],
        Some(vec![entry("x", single("1"))]),
    );
    assert!(config.validate(&String::from("config.json")).is_ok());
}

#[test]
fn validation_rejects_record_without_target() {
    let config = bare_config(
        vec![SourceRecord { from: Some(String::from("a")), to: None }],
        None,
    );
    let err = config.validate(&String::from("cfg")).unwrap_err();
    match err {
        Error::Other(message) => assert_eq!(
            message,
            String::from(
                "cfg -> Each record in sources must have specified `from` and `to` keys. \
                 Please, check for correctness the config.json file."
            )
        ),
        _ => panic!("expected a configuration error"),
    }
}

#[test]
fn validation_rejects_unsupported_variable_shape() {
    let config = bare_config(vec![], Some(vec![entry("count", VarValue::Other)]));
    let err = config.validate(&String::from("cfg")).unwrap_err();
    match err {
        Error::Other(message) => assert_eq!(
            message,
            String::from(
                "cfg: The variables.count key has unsupported value type. The configuration \
                 supports only string and array of strings types."
            )
        ),
        _ => panic!("expected a configuration error"),
    }
}

#[test]
fn source_entries_resolve_against_the_template_root() {
    let config = Config::new(bare_config(
        vec![
            SourceRecord { from: Some(String::from(".")), to: Some(String::from(".")) },
            SourceRecord { from: Some(String::from("code")), to: Some(String::from("./lib")) },
            SourceRecord { from: Some(String::from("assets")), to: None },
        ],
        None,
    ));
    let entries = config.get_source_entries(&String::from("/tpl"));
    assert_eq!(entries.len(), 3);
    assert_eq!(entries[0].from, String::from("/tpl"));
    assert_eq!(entries[0].to, String::from("."));
    assert_eq!(entries[1].from, String::from("/tpl/code"));
    assert_eq!(entries[1].to, String::from("lib"));
    assert_eq!(entries[2].from, String::from("/tpl/assets"));
    assert_eq!(entries[2].to, String::from("."));
}

#[test]
fn template_context_holds_reserved_keys_first() {
    let config = Config::new(bare_config(
        vec![],
        Some(vec![entry("x", single("1")), entry("bad", VarValue::Other)]),
    ))
    .with_project_name(&String::from("demo"))
    .with_template_name(&String::from("starter"));
    let ctx = config.get_template_context();
    assert_eq!(ctx.entries.len(), 3);
    assert_eq!(ctx.entries[0].key, String::from("project_name"));
    assert_eq!(
        ctx.string_value(&String::from("project_name")),
        Some(String::from("demo"))
    );
    assert_eq!(ctx.entries[1].key, String::from("template_name"));
    assert_eq!(
        ctx.string_value(&String::from("template_name")),
        Some(String::from("starter"))
    );
    assert_eq!(ctx.entries[2].key, String::from("x"));
}

#[test]
fn unbound_names_fall_back_to_unknown() {
    let config = Config::new(bare_config(vec![], None));
    let ctx = config.get_template_context();
    assert_eq!(
        ctx.string_value(&String::from("project_name")),
        Some(String::from("unknown"))
    );
    assert_eq!(
        ctx.string_value(&String::from("template_name")),
        Some(String::from("unknown"))
    );
}

#[test]
fn declared_variable_cannot_shadow_reserved_keys() {
    let config = Config::new(bare_config(
        vec![],
        Some(vec![entry("project_name", single("evil"))]),
    ))
    .with_project_name(&String::from("demo"));
    let ctx = config.get_template_context();
    assert_eq!(ctx.entries.len(), 2);
    assert_eq!(
        ctx.string_value(&String::from("project_name")),
        Some(String::from("demo"))
    );
}

#[test]
fn overrides_take_precedence_over_defaults() {
    let variables = vec![entry("a", single("1")), entry("b", single("2"))];
    let overrides = vec![entry("b", single("20")), entry("c", single("30"))];
    let merged = override_variables(variables, &overrides);
    assert_eq!(merged.len(), 3);
    assert_eq!(merged[0].key, String::from("a"));
    assert!(matches!(&merged[0].value, VarValue::Single(v) if v == "1"));
    assert_eq!(merged[1].key, String::from("b"));
    assert!(matches!(&merged[1].value, VarValue::Single(v) if v == "20"));
    assert_eq!(merged[2].key, String::from("c"));
    assert!(matches!(&merged[2].value, VarValue::Single(v) if v == "30"));
}

#[test]
fn built_context_applies_override_precedence() {
    let declared = vec![entry("a", single("1")), entry("b", single("2"))];
    let overrides = vec![entry("b", single("20"))];
    let ctx = build_context(
        &String::from("demo"),
        &String::from("starter"),
        declared,
        &overrides,
    );
    assert_eq!(ctx.entries.len(), 4);
    assert_eq!(ctx.string_value(&String::from("project_name")), Some(String::from("demo")));
    assert_eq!(
        ctx.string_value(&String::from("template_name")),
        Some(String::from("starter"))
    );
    assert_eq!(ctx.string_value(&String::from("a")), Some(String::from("1")));
    assert_eq!(ctx.string_value(&String::from("b")), Some(String::from("20")));
}

#[test]
fn list_default_can_be_overridden_by_list() {
    let variables = vec![entry(
        "color",
        VarValue::Many(vec![VarItem::Text(String::from("red"))]),
    )];
    let overrides = vec![entry(
        "color",
        VarValue::Many(vec![VarItem::Text(String::from("green")), VarItem::Text(String::from("blue"))]),
    )];
    let merged = override_variables(variables, &overrides);
    assert_eq!(merged.len(), 1);
    assert!(matches!(&merged[0].value, VarValue::Many(items) if items.len() == 2));
}
