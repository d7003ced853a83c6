use rpilot::commands::remove::remove_profile;
use rpilot::common::{check_if_profile_exists, select_profile, Entry, Project};

fn two_entry_project(current: Option<&str>) -> Project {
    Project {
        entries: vec![
            Entry {
                name: "first".to_string(),
                hash: "test".to_string(),
                id: "test".to_string(),
            },
            Entry {
                name: "second".to_string(),
                hash: "test".to_string(),
                id: "test".to_string(),
            },
        ],
        current_profile: current.map(|s| s.to_string()),
    }
}

#[test]
fn test_remove_profile() {
    let mut project = two_entry_project(Some("first"));

    remove_profile(&mut project, &"first".to_string()).unwrap();

    assert_eq!(project.entries.len(), 1);
    assert_eq!(project.entries[0].name, "second");
    assert_eq!(project.current_profile.is_none(), true);
}

#[test]
fn test_remove_profile_throws_error() {
    let mut project = two_entry_project(None);

    assert_eq!(remove_profile(&mut project, &"test".to_string()).is_err(), true);
}

#[test]
fn test_select_profile() {
    let project = Project {
        entries: vec![
            Entry {
                name: "first".to_string(),
                hash: "test".to_string(),
                id: "first id".to_string(),
            },
            Entry {
                name: "second".to_string(),
                hash: "test".to_string(),
                id: "second id".to_string(),
            },
        ],
        current_profile: None,
    };

    let profile = select_profile(&project, &"first".to_string()).unwrap();
    assert_eq!(profile.id, "first id");
}

#[test]
fn test_remove_keeps_other_current() {
    let mut project = two_entry_project(Some("second"));

    remove_profile(&mut project, &"first".to_string()).unwrap();

    assert_eq!(project.entries.len(), 1);
    assert_eq!(project.current_profile, Some("second".to_string()));
}

#[test]
fn test_check_if_profile_exists() {
    let project = two_entry_project(None);
    assert!(check_if_profile_exists(&project.entries, &"first".to_string()));
    assert!(!check_if_profile_exists(&project.entries, &"staging".to_string()));
}

#[test]
fn test_select_profile_not_found() {
    let project = two_entry_project(None);
    let r = select_profile(&project, &"staging".to_string());
    assert_eq!(r.unwrap_err(), rpilot::errors::Error::NotFound);
}

#[test]
fn test_set_current() {
    let mut project = two_entry_project(None);
    rpilot::common::set_current(&mut project, &"second".to_string()).unwrap();
    assert_eq!(project.current_profile, Some("second".to_string()));

    let r = rpilot::common::set_current(&mut project, &"staging".to_string());
    assert_eq!(r.unwrap_err(), rpilot::errors::Error::NotFound);
    assert_eq!(project.current_profile, Some("second".to_string()));
}
