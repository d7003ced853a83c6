use rpilot::commands::{apply, current, edit, init, list, new, show};
use rpilot::common::{get_project_id, Entry, Project};
use rpilot::errors::Error;

fn dev_prod_project(current: Option<&str>) -> Project {
    Project {
        entries: vec![
            Entry {
                name: "dev".to_string(),
                hash: "hash-a".to_string(),
                id: "id-a".to_string(),
            },
            Entry {
                name: "prod".to_string(),
                hash: "hash-b".to_string(),
                id: "id-b".to_string(),
            },
        ],
        current_profile: current.map(|s| s.to_string()),
    }
}

#[test]
fn test_init_on_fresh_directory() {
    // Scenario: nothing resolved yet, so init mints an id, and a marker file
    // holding that id (with or without a trailing newline) resolves back to
    // the same id.
    let resolved = get_project_id(&None);
    assert_eq!(resolved, None);

    let id = init::execute(&resolved).unwrap();
    assert_eq!(id.len(), 36);

    let resolved_again = get_project_id(&Some(id.clone()));
    assert_eq!(resolved_again, Some(id.clone()));
    let resolved_newline = get_project_id(&Some(format!("{}\n", id)));
    assert_eq!(resolved_newline, Some(id));
}

#[test]
fn test_init_already_initialized() {
    let r = init::execute(&Some("1234".to_string()));
    assert_eq!(r.unwrap_err(), Error::AlreadyInitialized);
}

#[test]
fn test_get_project_id() {
    let project_id = get_project_id(&None);
    assert_eq!(project_id, None);

    let project_id = get_project_id(&Some("1234".to_string()));
    assert_eq!(project_id.is_some(), true);
}

#[test]
fn test_get_project_id_strips_one_trailing_newline() {
    assert_eq!(get_project_id(&Some("1234\n".to_string())), Some("1234".to_string()));
    assert_eq!(get_project_id(&Some("1234".to_string())), Some("1234".to_string()));
    assert_eq!(get_project_id(&Some("\n".to_string())), None);
    assert_eq!(get_project_id(&Some(String::new())), None);
}

#[test]
fn test_new_duplicate_name_fails() {
    // Scenario: adding "dev" again fails AlreadyExists and changes nothing.
    let mut project = dev_prod_project(None);
    let args = new::NewCommand {
        source: None,
        name: "dev".to_string(),
    };
    let body = b"A=1".to_vec();
    let r = new::execute(&args, &Some("pid".to_string()), &mut project, &body);
    assert_eq!(r.unwrap_err(), Error::AlreadyExists);
    assert_eq!(project.entries.len(), 2);
    assert_eq!(project.current_profile, None);
}

#[test]
fn test_new_appends_entry_with_digest() {
    let mut project = dev_prod_project(Some("dev"));
    let args = new::NewCommand {
        source: None,
        name: "staging".to_string(),
    };
    let body = b"ENV=test".to_vec();
    let id = new::execute(&args, &Some("pid".to_string()), &mut project, &body).unwrap();
    assert_eq!(project.entries.len(), 3);
    let entry = &project.entries[2];
    assert_eq!(entry.name, "staging");
    assert_eq!(entry.id, id);
    assert_eq!(entry.hash, "rD8zF37DCZD0fKKUYLqmHj5yyfwSYAlZPalJ7nbUDAQ=");
    assert_eq!(project.current_profile, Some("dev".to_string()));
    assert_eq!(id.len(), 36);
}

#[test]
fn test_new_not_initialized() {
    let mut project = dev_prod_project(None);
    let args = new::NewCommand {
        source: None,
        name: "staging".to_string(),
    };
    let r = new::execute(&args, &None, &mut project, &b"A=1".to_vec());
    assert_eq!(r.unwrap_err(), Error::NotInitialized);
}

#[test]
fn test_select_missing_profile_fails() {
    // Scenario: selecting "staging" in a dev/prod registry fails NotFound.
    let project = dev_prod_project(None);
    let args = show::ShowCommand {
        name: "staging".to_string(),
    };
    let r = show::execute(&args, &Some("pid".to_string()), &project);
    assert_eq!(r.unwrap_err(), Error::NotFound);
}

#[test]
fn test_apply_declined_confirmation_aborts() {
    // Scenario: the user answers no, so nothing changes and the command is
    // Aborted.
    let mut project = dev_prod_project(None);
    let args = apply::Args {
        name: "dev".to_string(),
    };
    let r = apply::execute(&args, &Some("pid".to_string()), &mut project, false);
    assert_eq!(r.unwrap_err(), Error::Aborted);
    assert_eq!(project.current_profile, None);
    assert_eq!(project.entries.len(), 2);
}

#[test]
fn test_apply_confirmed_moves_pointer() {
    let mut project = dev_prod_project(None);
    let args = apply::Args {
        name: "prod".to_string(),
    };
    let id = apply::execute(&args, &Some("pid".to_string()), &mut project, true).unwrap();
    assert_eq!(id, "id-b");
    assert_eq!(project.current_profile, Some("prod".to_string()));
    assert_eq!(project.entries.len(), 2);
}

#[test]
fn test_apply_missing_profile() {
    let mut project = dev_prod_project(None);
    let args = apply::Args {
        name: "staging".to_string(),
    };
    let r = apply::execute(&args, &Some("pid".to_string()), &mut project, true);
    assert_eq!(r.unwrap_err(), Error::NotFound);
}

#[test]
fn test_should_apply_env() {
    assert!(apply::should_apply_env(&"Y\n".to_string()));
    assert!(apply::should_apply_env(&"y\n".to_string()));
    assert!(!apply::should_apply_env(&"n\n".to_string()));
    assert!(!apply::should_apply_env(&"yes\n".to_string()));
    assert!(!apply::should_apply_env(&String::new()));
}

#[test]
fn test_current_reports_active_profile() {
    let project = dev_prod_project(Some("dev"));
    let o = current::execute(&Some("pid".to_string()), &project).unwrap();
    assert_eq!(o.name, "dev");
    assert_eq!(o.id, "id-a");
}

#[test]
fn test_current_without_active_profile() {
    let project = dev_prod_project(None);
    let r = current::execute(&Some("pid".to_string()), &project);
    assert_eq!(r.unwrap_err(), Error::NotFound);
}

#[test]
fn test_list_names_in_order() {
    let project = dev_prod_project(None);
    let names = list::execute(&Some("pid".to_string()), &project).unwrap();
    assert_eq!(names, vec!["dev".to_string(), "prod".to_string()]);
}

#[test]
fn test_list_not_initialized() {
    let project = dev_prod_project(None);
    let r = list::execute(&None, &project);
    assert_eq!(r.unwrap_err(), Error::NotInitialized);
}

#[test]
fn test_edit_resolves_profile_body_location() {
    let project = dev_prod_project(None);
    let args = edit::EditCommand {
        name: "prod".to_string(),
    };
    let id = edit::execute(&args, &Some("pid".to_string()), &project).unwrap();
    assert_eq!(id, "id-b");
}

#[test]
fn test_show_resolves_profile_body_location() {
    let project = dev_prod_project(None);
    let args = show::ShowCommand {
        name: "dev".to_string(),
    };
    let id = show::execute(&args, &Some("pid".to_string()), &project).unwrap();
    assert_eq!(id, "id-a");
}

#[test]
fn test_validate_edited() {
    let template = new::new_env_template();
    assert_eq!(template, "# Please add new env values");
    let unchanged = template.clone();
    assert_eq!(
        new::validate_edited(&template, &unchanged).unwrap_err(),
        Error::NoValidContent
    );
    assert!(new::validate_edited(&template, &"A=1".to_string()).is_ok());
}

#[test]
fn test_remove_active_profile_clears_pointer() {
    // Scenario: removing the active "dev" profile leaves only "prod" and no
    // active pointer, in one step.
    let mut project = dev_prod_project(Some("dev"));
    let args = rpilot::commands::remove::RemoveCommand {
        name: "dev".to_string(),
    };
    rpilot::commands::remove::execute(&args, &Some("pid".to_string()), &mut project).unwrap();
    assert_eq!(project.entries.len(), 1);
    assert_eq!(project.entries[0].name, "prod");
    assert_eq!(project.current_profile, None);
}

#[test]
fn test_error_messages_are_distinct() {
    let errors = [
        Error::NotInitialized,
        Error::AlreadyInitialized,
        Error::NotFound,
        Error::AlreadyExists,
        Error::NoValidContent,
        Error::ConfigReadError,
        Error::ConfigWriteError,
        Error::Aborted,
        Error::IoError,
        Error::Conflict,
    ];
    for (i, a) in errors.iter().enumerate() {
        assert!(!a.message().is_empty());
        for b in errors.iter().skip(i + 1) {
            assert_ne!(a.message(), b.message());
        }
    }
}
