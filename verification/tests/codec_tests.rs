use rpilot::codec::{decode, encode, load, save};
use rpilot::common::{Entry, Project};
use rpilot::errors::Error;

fn sample_project() -> Project {
    Project {
        entries: vec![
            Entry {
                name: "dev".to_string(),
                hash: "hash-a".to_string(),
                id: "id-a".to_string(),
            },
            Entry {
                name: "prod".to_string(),
                hash: "hash-b".to_string(),
                id: "id-b".to_string(),
            },
        ],
        current_profile: Some("dev".to_string()),
    }
}

#[test]
fn test_encode_decode_round_trip() {
    let project = sample_project();
    let bytes = encode(&project);
    let back = decode(&bytes).unwrap();
    assert_eq!(back.entries.len(), 2);
    assert_eq!(back.entries[0].name, "dev");
    assert_eq!(back.entries[0].hash, "hash-a");
    assert_eq!(back.entries[0].id, "id-a");
    assert_eq!(back.entries[1].name, "prod");
    assert_eq!(back.current_profile, Some("dev".to_string()));
}

#[test]
fn test_save_config_and_read_config() {
    // A save followed by a load reproduces an equivalent registry.
    let entry = Entry {
        name: "test".to_string(),
        hash: "test hash".to_string(),
        id: "test id".to_string(),
    };
    let project = Project {
        entries: vec![entry],
        current_profile: None,
    };
    let bytes = save(&project, &None, &None).unwrap();
    let back = load(&Some(bytes));
    assert_eq!(back.entries.len(), 1);
    assert_eq!(back.entries[0].name, "test");
    assert_eq!(back.entries[0].hash, "test hash");
    assert_eq!(back.entries[0].id, "test id");
}

#[test]
fn test_round_trip_keeps_current_pointer() {
    let project = sample_project();
    let bytes = save(&project, &None, &None).unwrap();
    let back = load(&Some(bytes));
    assert_eq!(back.entries.len(), 2);
    assert_eq!(back.entries[0].name, "dev");
    assert_eq!(back.entries[1].name, "prod");
    assert_eq!(back.current_profile, Some("dev".to_string()));
}

#[test]
fn test_load_missing_config_gives_empty_registry() {
    let project = load(&None);
    assert_eq!(project.entries.len(), 0);
    assert_eq!(project.current_profile, None);
}

#[test]
fn test_load_garbage_gives_empty_registry() {
    let project = load(&Some(vec![7u8, 1, 2, 3]));
    assert_eq!(project.entries.len(), 0);
    assert_eq!(project.current_profile, None);

    // Trailing garbage after a valid encoding is refused too.
    let mut bytes = encode(&sample_project());
    bytes.push(0);
    let project = load(&Some(bytes));
    assert_eq!(project.entries.len(), 0);
}

#[test]
fn test_load_rejects_duplicate_names() {
    // An encoding of a registry that breaks the uniqueness invariant loads
    // as a fresh empty registry.
    let broken = Project {
        entries: vec![
            Entry {
                name: "dev".to_string(),
                hash: "h1".to_string(),
                id: "i1".to_string(),
            },
            Entry {
                name: "dev".to_string(),
                hash: "h2".to_string(),
                id: "i2".to_string(),
            },
        ],
        current_profile: None,
    };
    let bytes = encode(&broken);
    let project = load(&Some(bytes));
    assert_eq!(project.entries.len(), 0);
}

#[test]
fn test_racing_saves_conflict() {
    // Two invocations load the same registry, both append a distinct entry,
    // both try to save: the first wins, the second gets Conflict.
    let disk: Option<Vec<u8>> = Some(encode(&Project {
        entries: vec![],
        current_profile: None,
    }));

    let mut first = load(&disk);
    first.entries.push(Entry {
        name: "a".to_string(),
        hash: "ha".to_string(),
        id: "ia".to_string(),
    });
    let mut second = load(&disk);
    second.entries.push(Entry {
        name: "b".to_string(),
        hash: "hb".to_string(),
        id: "ib".to_string(),
    });

    let first_bytes = save(&first, &disk, &disk).unwrap();
    let disk_after_first = Some(first_bytes);

    let r = save(&second, &disk, &disk_after_first);
    assert_eq!(r.unwrap_err(), Error::Conflict);

    // The winner's entry is still there for whoever reloads.
    let reloaded = load(&disk_after_first);
    assert_eq!(reloaded.entries.len(), 1);
    assert_eq!(reloaded.entries[0].name, "a");
}

#[test]
fn test_save_on_unchanged_disk_succeeds() {
    let project = sample_project();
    let snapshot = Some(encode(&Project {
        entries: vec![],
        current_profile: None,
    }));
    let bytes = save(&project, &snapshot, &snapshot.clone()).unwrap();
    let back = load(&Some(bytes));
    assert_eq!(back.entries.len(), 2);
}

#[test]
fn test_save_config() {
    let entry = Entry {
        name: "test".to_string(),
        hash: "test hash".to_string(),
        id: "test id".to_string(),
    };
    let project = Project {
        entries: vec![entry],
        current_profile: Some("test".to_string()),
    };
    assert_eq!(save(&project, &None, &None).is_ok(), true);
}
