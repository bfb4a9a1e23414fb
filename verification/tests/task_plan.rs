use quickproj::catalog::NamedPath;
use quickproj::context::ContextEntry;
use quickproj::templates::config::{Config, FilesConfig, JsonConfig, SourceRecord};
use quickproj::templates::task::{InstallStage, Task, next_stage};
use quickproj::value::{VarItem, VarValue};

fn many(values: &[&str]) -> VarValue {
    let items = values.iter().map(|v| VarItem::Text(String::from(*v))).collect();
    VarValue::Many(items)
}

fn entry(key: &str, value: VarValue) -> ContextEntry {
    ContextEntry { key: String::from(key), value }
}

fn record(from: &str, to: &str) -> SourceRecord {
    SourceRecord { from: Some(String::from(from)), to: Some(String::from(to)) }
}

fn config_of(
    sources: Vec<SourceRecord>,
    directories: Vec<&str>,
    generated: Vec<&str>,
    templates: Vec<(&str, &str)>,
    variables: Vec<ContextEntry>,
) -> Config {
    let json_config = JsonConfig {
        files: FilesConfig {
            sources,
            generated: Some(generated.iter().map(|g| String::from(*g)).collect()),
            directories: Some(directories.iter().map(|d| String::from(*d)).collect()),
            templates: Some(
                templates
                    .iter()
                    .map(|(n, p)| NamedPath { name: String::from(*n), path: String::from(*p) })
                    .collect(),
            ),
        },
        variables: Some(variables),
        scripts: None,
    };
    Config::new(json_config)
        .with_project_name(&String::from("demo"))
        .with_template_name(&String::from("starter"))
}

fn strings(values: &[&str]) -> Vec<String> {
    values.iter().map(|v| String::from(*v)).collect()
}

#[test]
fn declared_directories_expand_to_every_combination() {
    let config = config_of(
        vec![],
        vec!["src/{{module}}"],
        vec![],
        vec![],
        vec![entry("module", many(&["a", "b"]))],
    );
    let context = config.get_template_context();
    let task = Task::new(&String::from("/proj"), &String::from("/tpl"), config);
    let dirs = task.create_template_directories(&context);
    assert_eq!(dirs, strings(&["/proj/src/a", "/proj/src/b"]));
}

#[test]
fn static_directories_are_created_literally() {
    let config = config_of(vec![], vec!["docs", "src"], vec![], vec![], vec![]);
    let context = config.get_template_context();
    let task = Task::new(&String::from("/proj"), &String::from("/tpl"), config);
    let dirs = task.create_template_directories(&context);
    assert_eq!(dirs, strings(&["/proj/docs", "/proj/src"]));
}

#[test]
fn planning_directories_twice_gives_the_same_plan() {
    let config = config_of(
        vec![],
        vec!["src/{{module}}", "docs"],
        vec![],
        vec![],
        vec![entry("module", many(&["a", "b"]))],
    );
    let context = config.get_template_context();
    let task = Task::new(&String::from("/proj"), &String::from("/tpl"), config);
    let first = task.create_template_directories(&context);
    let second = task.create_template_directories(&context);
    assert_eq!(first, second);
}

#[test]
fn target_directories_skip_the_project_root() {
    let config = config_of(
        vec![record("./code", "."), record("./assets", "static"), record("x", "./lib")],
        vec![],
        vec![],
        vec![],
        vec![],
    );
    let context = config.get_template_context();
    drop(context);
    let task = Task::new(&String::from("/proj"), &String::from("/tpl"), config);
    let dirs = task.create_target_directories();
    assert_eq!(dirs, strings(&["/proj/static", "/proj/lib"]));
}

#[test]
fn copy_operations_resolve_both_ends() {
    let config = config_of(
        vec![record("./everything", "."), record("extra", "vendor")],
        vec![],
        vec![],
        vec![],
        vec![],
    );
    let task = Task::new(&String::from("/proj"), &String::from("/tpl"), config);
    let ops = task.copy_files();
    assert_eq!(ops.len(), 2);
    assert_eq!(ops[0].from, String::from("/tpl"));
    assert_eq!(ops[0].to, String::from("/proj"));
    assert_eq!(ops[1].from, String::from("/tpl/extra"));
    assert_eq!(ops[1].to, String::from("/proj/vendor"));
}

#[test]
fn generated_files_multiply_over_path_variables() {
    let config = config_of(
        vec![],
        vec![],
        vec!["src/{{module}}/mod.rs"],
        vec![("mod.rs", "templates/mod.rs")],
        vec![entry("module", many(&["a", "b"]))],
    );
    let context = config.get_template_context();
    let task = Task::new(&String::from("/proj"), &String::from("/tpl"), config);
    let files = task.create_files_from_templates(
        &String::from("mod.rs"),
        &String::from("// module {{module}} of {{project_name}}\n"),
        &context,
    );
    assert_eq!(files.len(), 2);
    assert_eq!(files[0].path, String::from("/proj/src/a/mod.rs"));
    assert_eq!(files[0].content, String::from("// module a of demo\n"));
    assert_eq!(files[1].path, String::from("/proj/src/b/mod.rs"));
    assert_eq!(files[1].content, String::from("// module b of demo\n"));
}

#[test]
fn static_generated_file_uses_the_full_context() {
    let config = config_of(
        vec![],
        vec![],
        vec!["README.md", "ignored.txt"],
        vec![("README.md", "templates/README.md")],
        vec![],
    );
    let context = config.get_template_context();
    let task = Task::new(&String::from("/proj"), &String::from("/tpl"), config);
    let files = task.create_files_from_templates(
        &String::from("README.md"),
        &String::from("# {{project_name}} ({{template_name}})"),
        &context,
    );
    assert_eq!(files.len(), 1);
    assert_eq!(files[0].path, String::from("/proj/README.md"));
    assert_eq!(files[0].content, String::from("# demo (starter)"));
}

#[test]
fn expanded_path_variable_is_protected_in_contents() {
    let config = config_of(
        vec![],
        vec![],
        vec!["{{module}}.txt"],
        vec![("txt", "t")],
        vec![entry("module", many(&["a", "b"]))],
    );
    let context = config.get_template_context();
    let task = Task::new(&String::from("/proj"), &String::from("/tpl"), config);
    let files = task.create_files_from_templates(
        &String::from("txt"),
        &String::from("this is {{module}}"),
        &context,
    );
    assert_eq!(files.len(), 2);
    assert_eq!(files[0].path, String::from("/proj/a.txt"));
    assert_eq!(files[0].content, String::from("this is a"));
    assert_eq!(files[1].path, String::from("/proj/b.txt"));
    assert_eq!(files[1].content, String::from("this is b"));
}

#[test]
fn stages_run_in_a_fixed_order() {
    let mut stage = InstallStage::Started;
    let mut seen = vec![stage];
    while let Some(next) = next_stage(stage) {
        stage = next;
        seen.push(stage);
    }
    assert_eq!(
        seen,
        vec![
            InstallStage::Started,
            InstallStage::CreatingTemplateDirectories,
            InstallStage::CreatingTargetDirectories,
            InstallStage::CopyingFiles,
            InstallStage::GeneratingFilesFromTemplates,
            InstallStage::Finished,
        ]
    );
}

#[test]
fn stage_messages_report_progress() {
    let config = config_of(vec![], vec![], vec![], vec![], vec![]);
    let task = Task::new(&String::from("/proj"), &String::from("/tpl"), config);
    assert_eq!(
        task.stage_message(InstallStage::Started),
        String::from("Preparing contexts for the task...")
    );
    assert_eq!(
        task.stage_message(InstallStage::CreatingTemplateDirectories),
        String::from("[1/4] Creating directories based on template definitions...")
    );
    assert_eq!(
        task.stage_message(InstallStage::Finished),
        String::from("Installation of the `starter` template has been completed.")
    );
}
