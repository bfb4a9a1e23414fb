use quickproj::catalog::NamedPath;
use quickproj::cli::{EntityTypeEnum, InstallerTypeEnum};
use quickproj::client::{Client, InstallerChoice, ManagerChoice};
use quickproj::error::Error;
use quickproj::managers::{DeleteOutcome, Manager, RepositoryManager, TemplateManager};
use quickproj::plugins::is_correct_plugins_list;
use quickproj::templates::utils::is_correct_template_list;

fn table(entries: &[(&str, &str)]) -> Vec<NamedPath> {
    entries
        .iter()
        .map(|(n, p)| NamedPath { name: String::from(*n), path: String::from(*p) })
        .collect()
}

fn strings(values: &[&str]) -> Vec<String> {
    values.iter().map(|v| String::from(*v)).collect()
}

fn other_message(error: Error) -> String {
    match error {
        Error::Other(message) => message,
        _ => panic!("expected a configuration error"),
    }
}

#[test]
fn empty_template_request_is_rejected() {
    let err = is_correct_template_list(&vec![], &table(&[("web", "/t/web")])).unwrap_err();
    assert_eq!(
        other_message(err),
        String::from("Please, specify at least one used template and try again.")
    );
}

#[test]
fn unknown_template_names_are_listed_in_the_error() {
    let defined = table(&[("web", "/t/web")]);
    let err = is_correct_template_list(&strings(&["web", "cli", "api"]), &defined).unwrap_err();
    assert_eq!(
        other_message(err),
        String::from(
            "The templates with the following names weren't found or not available: cli, api"
        )
    );
}

#[test]
fn known_template_names_pass_the_check() {
    let defined = table(&[("web", "/t/web"), ("cli", "/t/cli")]);
    assert!(is_correct_template_list(&strings(&["cli", "web"]), &defined).is_ok());
}

#[test]
fn empty_plugin_request_is_rejected() {
    let err = is_correct_plugins_list(&vec![], &strings(&["init"])).unwrap_err();
    assert_eq!(
        other_message(err),
        String::from("Please, specify at least one used plugin and try again.")
    );
}

#[test]
fn unknown_plugins_are_listed_in_the_error() {
    let err = is_correct_plugins_list(&strings(&["init", "wipe"]), &strings(&["init"]))
        .unwrap_err();
    assert_eq!(
        other_message(err),
        String::from("The following plugins weren't found or not available: wipe")
    );
}

#[test]
fn listing_an_empty_store_suggests_installing() {
    let manager = TemplateManager::new(&table(&[]));
    assert_eq!(
        manager.show_entity_list(),
        String::from("The templates folder is empty. Please, install templates first.")
    );
}

#[test]
fn listing_names_every_template() {
    let manager = TemplateManager::new(&table(&[("web", "/t/web"), ("cli", "/t/cli")]));
    assert_eq!(
        manager.show_entity_list(),
        String::from("Available templates:\n  web\n  cli")
    );
}

#[test]
fn listing_names_every_repository() {
    let manager = RepositoryManager::new(&table(&[("kit", "/t/kit")]));
    assert_eq!(
        manager.show_entity_list(),
        String::from("Available repositories:\n  kit")
    );
}

#[test]
fn deleting_from_an_empty_store_does_nothing() {
    let manager = TemplateManager::new(&table(&[]));
    assert!(matches!(
        manager.delete_entity(&String::from("web")),
        DeleteOutcome::NothingInstalled
    ));
}

#[test]
fn deleting_an_unknown_name_is_refused() {
    let manager = TemplateManager::new(&table(&[("web", "/t/web")]));
    assert!(matches!(
        manager.delete_entity(&String::from("cli")),
        DeleteOutcome::UnknownName
    ));
}

#[test]
fn deleting_a_template_targets_its_path() {
    let manager = TemplateManager::new(&table(&[("web", "/t/web")]));
    match manager.delete_entity(&String::from("web")) {
        DeleteOutcome::Remove(target) => assert_eq!(target, String::from("/t/web")),
        _ => panic!("expected a removal"),
    }
}

#[test]
fn deleting_a_repository_targets_its_name() {
    let manager = RepositoryManager::new(&table(&[("kit", "/r/kit")]));
    match manager.delete_entity(&String::from("kit")) {
        DeleteOutcome::Remove(target) => assert_eq!(target, String::from("kit")),
        _ => panic!("expected a removal"),
    }
}

#[test]
fn client_dispatches_installers_by_kind() {
    let client = Client::new(table(&[]), table(&[]));
    assert!(matches!(
        client.get_installer_from_enum(&InstallerTypeEnum::Git),
        InstallerChoice::Git(_)
    ));
    assert!(matches!(
        client.get_installer_from_enum(&InstallerTypeEnum::Local),
        InstallerChoice::Local(_)
    ));
}

#[test]
fn client_dispatches_managers_by_kind() {
    let client = Client::new(table(&[("kit", "/r/kit")]), table(&[("web", "/t/web")]));
    assert!(matches!(
        client.get_manager_from_enum(&EntityTypeEnum::Repository),
        ManagerChoice::Repository(_)
    ));
    assert!(matches!(
        client.get_manager_from_enum(&EntityTypeEnum::Template),
        ManagerChoice::Template(_)
    ));
}

#[test]
fn custom_template_name_wins_over_derived() {
    let client = Client::new(table(&[]), table(&[]));
    let name = client
        .resolve_template_name(
            &InstallerTypeEnum::Git,
            &String::from("https://host/owner/repo.git"),
            &Some(String::from("custom")),
        )
        .unwrap();
    assert_eq!(name, String::from("custom"));
}

#[test]
fn derived_template_name_comes_from_the_source_path() {
    let client = Client::new(table(&[]), table(&[]));
    let from_git = client
        .resolve_template_name(
            &InstallerTypeEnum::Git,
            &String::from("https://host/owner/repo.git"),
            &None,
        )
        .unwrap();
    assert_eq!(from_git, String::from("repo"));
    let from_local = client
        .resolve_template_name(&InstallerTypeEnum::Local, &String::from("/tpl/kit/"), &None)
        .unwrap();
    assert_eq!(from_local, String::from("kit"));
}

#[test]
fn name_collisions_are_detected_in_both_tables() {
    let client = Client::new(table(&[("kit", "/r/kit")]), table(&[("web", "/t/web")]));
    assert!(client.template_name_in_use(&String::from("kit")));
    assert!(client.template_name_in_use(&String::from("web")));
    assert!(!client.template_name_in_use(&String::from("new")));
}

#[test]
fn override_all_selects_every_configured_template() {
    let client = Client::new(table(&[]), table(&[("web", "/t/web"), ("cli", "/t/cli")]));
    let chosen = client
        .get_overridable_templates(&None, &true, &strings(&["web", "cli"]))
        .unwrap();
    assert_eq!(chosen, strings(&["web", "cli"]));
}

#[test]
fn no_override_flag_selects_nothing() {
    let client = Client::new(table(&[]), table(&[("web", "/t/web")]));
    let chosen = client.get_overridable_templates(&None, &false, &strings(&["web"])).unwrap();
    assert!(chosen.is_empty());
}

#[test]
fn override_list_is_split_and_validated() {
    let client = Client::new(table(&[]), table(&[("web", "/t/web"), ("cli", "/t/cli")]));
    let chosen = client
        .get_overridable_templates(&Some(String::from("web,,cli")), &false, &strings(&[]))
        .unwrap();
    assert_eq!(chosen, strings(&["web", "cli"]));
    let err = client
        .get_overridable_templates(&Some(String::from("api")), &false, &strings(&[]))
        .unwrap_err();
    assert_eq!(
        other_message(err),
        String::from(
            "The templates with the following names weren't found or not available: api"
        )
    );
}
