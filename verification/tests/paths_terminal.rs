use quickproj::error::Error;
use quickproj::filesystem::{
    basename, get_quickproj_directory, get_templates_directory, is_hidden_file,
    is_repository_directory, is_template_directory,
};
use quickproj::installers::{GitInstaller, Installer, LocalInstaller};
use quickproj::terminal::{is_affirmative, parse_user_value};
use quickproj::text::{join_strings, keep_nonempty, split_string, split_words, trim_spaces};
use quickproj::value::{VarItem, VarValue};

fn strings(values: &[&str]) -> Vec<String> {
    values.iter().map(|v| String::from(*v)).collect()
}

#[test]
fn basename_takes_the_last_segment() {
    assert_eq!(basename("a/b/c", '/'), String::from("c"));
    assert_eq!(basename("plain", '/'), String::from("plain"));
    assert_eq!(basename("trailing/", '/'), String::from(""));
}

#[test]
fn git_template_names_drop_slash_and_suffix() {
    let installer = GitInstaller::new();
    assert_eq!(
        installer.get_template_name(&String::from("https://host/owner/repo.git")).unwrap(),
        String::from("repo")
    );
    assert_eq!(
        installer.get_template_name(&String::from("https://host/owner/repo/")).unwrap(),
        String::from("repo")
    );
    assert_eq!(
        installer.get_template_name(&String::from("https://host/owner/repo")).unwrap(),
        String::from("repo")
    );
}

#[test]
fn local_template_names_drop_one_trailing_slash() {
    let installer = LocalInstaller::new();
    assert_eq!(
        installer.get_template_name(&String::from("/templates/kit/")).unwrap(),
        String::from("kit")
    );
    assert_eq!(
        installer.get_template_name(&String::from("/templates/kit")).unwrap(),
        String::from("kit")
    );
}

#[test]
fn hidden_files_start_with_a_dot() {
    assert!(is_hidden_file(&String::from(".git")));
    assert!(!is_hidden_file(&String::from("src")));
}

#[test]
fn entry_classification_follows_the_store_layout() {
    assert!(is_template_directory(true, false, true));
    assert!(!is_template_directory(true, true, true));
    assert!(!is_template_directory(false, false, true));
    assert!(is_repository_directory(true, false, false));
    assert!(!is_repository_directory(true, false, true));
}

#[test]
fn store_directories_live_under_the_home_directory() {
    match get_quickproj_directory() {
        Ok(path) => assert!(path.ends_with("/.quickproj")),
        Err(err) => assert_eq!(
            err.message(),
            String::from("Home directory was not found. Probably unsupported platform?")
        ),
    }
    match get_templates_directory() {
        Ok(path) => assert!(path.ends_with("/.quickproj/templates")),
        Err(err) => assert_eq!(
            err.message(),
            String::from("Home directory was not found. Probably unsupported platform?")
        ),
    }
}

#[test]
fn error_messages_carry_their_context() {
    let io = Error::IoWithContext(String::from("/proj/file"), String::from("denied"));
    assert_eq!(io.message(), String::from("/proj/file: denied"));
    let plain = Error::Other(String::from("nothing to do"));
    assert_eq!(plain.message(), String::from("nothing to do"));
}

#[test]
fn joining_and_splitting_round_trip() {
    let parts = strings(&["a", "b", "c"]);
    let joined = join_strings(&parts, ", ");
    assert_eq!(joined, String::from("a, b, c"));
    assert_eq!(split_string(&String::from("a,b,c"), ','), parts);
    assert_eq!(
        split_string(&String::from("a,,c"), ','),
        strings(&["a", "", "c"])
    );
    assert_eq!(keep_nonempty(&strings(&["a", "", "c"])), strings(&["a", "c"]));
}

#[test]
fn words_split_on_whitespace_runs() {
    assert_eq!(
        split_words(&String::from("  git   clone\trepo ")),
        strings(&["git", "clone", "repo"])
    );
    assert!(split_words(&String::from("   ")).is_empty());
}

#[test]
fn trimming_removes_edge_whitespace_only() {
    assert_eq!(trim_spaces(&String::from("  a b \t")), String::from("a b"));
    assert_eq!(trim_spaces(&String::from("\n\n")), String::from(""));
}

#[test]
fn only_a_trimmed_y_affirms() {
    assert!(is_affirmative(&String::from("y")));
    assert!(is_affirmative(&String::from(" Y ")));
    assert!(!is_affirmative(&String::from("yes")));
    assert!(!is_affirmative(&String::from("n")));
    assert!(!is_affirmative(&String::from("")));
}

#[test]
fn empty_reply_keeps_the_default() {
    let default = VarValue::Single(String::from("x"));
    assert!(parse_user_value(&String::from("   "), &default).is_none());
}

#[test]
fn reply_over_a_string_default_is_a_string() {
    let default = VarValue::Single(String::from("x"));
    match parse_user_value(&String::from("  hello "), &default) {
        Some(VarValue::Single(v)) => assert_eq!(v, String::from("hello")),
        _ => panic!("expected a single string"),
    }
}

#[test]
fn reply_over_a_list_default_is_split_on_commas() {
    let default = VarValue::Many(vec![VarItem::Text(String::from("a"))]);
    match parse_user_value(&String::from("red,green,blue"), &default) {
        Some(VarValue::Many(items)) => {
            assert_eq!(items.len(), 3);
            assert!(matches!(&items[0], VarItem::Text(t) if t == "red"));
            assert!(matches!(&items[2], VarItem::Text(t) if t == "blue"));
        },
        _ => panic!("expected a list"),
    }
}

#[test]
fn reply_over_an_unsupported_default_is_dropped() {
    assert!(parse_user_value(&String::from("anything"), &VarValue::Other).is_none());
}
