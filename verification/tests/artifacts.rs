use context_shake::artifacts::artifact_id_of;
use context_shake::artifacts::is_complete;
use context_shake::artifacts::join_path;
use context_shake::artifacts::sanitize_label;
use context_shake::artifacts::ArtifactStore;
use context_shake::artifacts::CopyAction;

#[test]
fn for_thread_canonicalizes_to_an_absolute_root() {
    let store = ArtifactStore::for_thread("relative", Some("/real/home"), "thread-1");
    let path = store.destination_path("00000000000000000000000000000000", "tool");
    assert_eq!(
        path,
        "/real/home/artifacts/thread-1/00000000000000000000000000000000.tool.log"
    );
    let unresolved = ArtifactStore::for_thread("relative", None, "thread-1");
    assert_eq!(
        unresolved.destination_path("1", "tool"),
        "relative/artifacts/thread-1/1.tool.log"
    );
}

#[test]
fn labels_become_safe_file_names() {
    assert_eq!(sanitize_label("../../hostile/tool"), "hostile_tool");
    assert_eq!(sanitize_label("shell output"), "shell_output");
    assert_eq!(sanitize_label("a-b_c"), "a-b_c");
    assert_eq!(sanitize_label(""), "artifact");
    assert_eq!(sanitize_label("///"), "artifact");
    assert_eq!(sanitize_label(&"x".repeat(100)).len(), 64);
    assert_eq!(sanitize_label("né"), "n");
    assert_eq!(sanitize_label("__a__"), "a");
    assert_eq!(sanitize_label("_ /_"), "artifact");
    assert_eq!(sanitize_label("-"), "-");
}

#[test]
fn saves_are_planned_with_a_random_id() {
    let store = ArtifactStore {
        root: "/home/artifacts/t".to_string(),
    };
    let first = store.plan_save("one\ntwo\nthree\n", "tool").expect("small");
    let second = store.plan_save("one\ntwo\nthree\n", "tool").expect("small");
    let id = artifact_id_of(&first.uri).expect("an artifact");
    assert_eq!(id.len(), 32);
    assert!(id.chars().all(|c| c.is_ascii_hexdigit()));
    assert_ne!(first.uri, second.uri);
    assert_eq!(first.destination, format!("/home/artifacts/t/{id}.tool.log"));
    assert_eq!(first.temporary, format!("/home/artifacts/t/.tmp-{id}.log"));
}

#[test]
fn large_contents_are_not_saved() {
    let store = ArtifactStore {
        root: "/home/artifacts/t".to_string(),
    };
    let limit = 8 * 1024 * 1024;
    assert!(store
        .plan_save_as(&"x".repeat(limit), "tool", "id".to_string())
        .is_ok());
    match store.plan_save_as(&"x".repeat(limit + 1), "tool", "id".to_string()) {
        Ok(_) => panic!("too large"),
        Err(message) => assert_eq!(message, "artifact is larger than 8388608 bytes"),
    }
}

#[test]
fn forks_copy_regular_files_only() {
    let store = ArtifactStore {
        root: "/home/artifacts/t".to_string(),
    };
    assert!(matches!(
        store.copy_action(true, true, "a.log", false),
        CopyAction::Skip
    ));
    assert!(matches!(
        store.copy_action(false, false, "a.log", false),
        CopyAction::Skip
    ));
    assert!(matches!(
        store.copy_action(false, true, ".tmp-a.log", false),
        CopyAction::Skip
    ));
    match store.copy_action(false, true, "a.log", true) {
        CopyAction::Conflict(message) => assert_eq!(
            message,
            "artifact destination already exists: /home/artifacts/t/a.log"
        ),
        other => panic!("expected a refusal: {other:?}"),
    }
    let mut seen = Vec::new();
    for _ in 0..2 {
        match store.copy_action(false, true, "a.log", false) {
            CopyAction::Copy {
                temporary,
                destination,
            } => {
                assert_eq!(destination, "/home/artifacts/t/a.log");
                let id = temporary
                    .strip_prefix("/home/artifacts/t/.tmp-copy-")
                    .expect("a temporary name");
                assert_eq!(id.len(), 36);
                for (i, c) in id.chars().enumerate() {
                    if matches!(i, 8 | 13 | 18 | 23) {
                        assert_eq!(c, '-');
                    } else {
                        assert!(c.is_ascii_digit() || ('a'..='f').contains(&c));
                    }
                }
                seen.push(temporary);
            }
            other => panic!("expected a copy: {other:?}"),
        }
    }
    assert_ne!(seen[0], seen[1]);
}

#[test]
fn uris_name_artifacts() {
    assert_eq!(artifact_id_of("artifact://abc"), Some("abc".to_string()));
    assert_eq!(artifact_id_of("file://abc"), None);
    assert_eq!(artifact_id_of("artifact:/abc"), None);
}

#[test]
fn a_file_is_complete_at_its_full_length() {
    assert!(is_complete("✨", 3));
    assert!(!is_complete("✨", 2));
}

#[test]
fn paths_are_joined_with_one_slash() {
    assert_eq!(join_path("/a", "b"), "/a/b");
    assert_eq!(join_path("/a/", "b"), "/a/b");
    assert_eq!(join_path("/a", "/b"), "/b");
    assert_eq!(join_path("", "b"), "b");
}
