use context_shake::fork_update::compare_fork_release_tags;
use context_shake::fork_update::fork_install_command_for_repo;
use context_shake::fork_update::fork_release_identity;
use context_shake::fork_update::fork_releases_api_url_for_repo;
use context_shake::fork_update::fork_repository;
use context_shake::fork_update::fork_tag_is_newer;
use context_shake::fork_update::is_fork_build;
use context_shake::fork_update::is_fork_release_tag;
use context_shake::fork_update::newest_fork_release_tag;
use context_shake::fork_update::shake_feature_version;
use context_shake::fork_update::ForkReleaseEntry;
use context_shake::fork_update::FORK_INSTALL_COMMAND;

const SAMPLE_RELEASES_JSON: &str = r#"[
    {"tag_name": "local-features-v0.155.0-r202609131159.9876543", "draft": false},
    {"tag_name": "local-features-v0.154.0-r202609131200.abcdef1", "draft": false},
    {"tag_name": "local-features-v0.154.0-1122334455aa", "draft": false},
    {"tag_name": "v0.155.0", "draft": false},
    {"tag_name": "local-features-v0.156.0-r202609140000.deadbee", "draft": true},
    {"tag_name": "local-features-vnot-a-release-r99999999999999.bad", "draft": false}
]"#;

fn newest(json: &str) -> Option<String> {
    let value = serde_json::from_str::<serde_json::Value>(json).ok()?;
    let entries = value
        .as_array()?
        .iter()
        .map(|entry| ForkReleaseEntry {
            tag_name: entry
                .get("tag_name")
                .and_then(|tag| tag.as_str())
                .unwrap_or("")
                .to_string(),
            draft: entry
                .get("draft")
                .and_then(|draft| draft.as_bool())
                .unwrap_or(false),
        })
        .collect();
    newest_fork_release_tag(&entries)
}

#[test]
fn picks_newest_non_draft_fork_release() {
    assert_eq!(
        newest(SAMPLE_RELEASES_JSON).as_deref(),
        Some("local-features-v0.154.0-r202609131200.abcdef1")
    );
}

#[test]
fn ignores_non_fork_and_draft_entries() {
    let json = r#"[
        {"tag_name": "v0.155.0", "draft": false},
        {"tag_name": "local-features-v0.150.0-r1.abc", "draft": true},
        {"draft": false}
    ]"#;
    assert_eq!(newest(json), None);
}

#[test]
fn empty_or_malformed_json_yields_none() {
    assert_eq!(newest("not json"), None);
    assert_eq!(newest("[]"), None);
}

#[test]
fn release_counter_orders_newer_tag_as_newer() {
    assert!(fork_tag_is_newer(
        "local-features-v0.155.0-r202609131201.abcdef1",
        "local-features-v0.154.0-r202609131200.9876543",
    ));
    assert!(!fork_tag_is_newer(
        "local-features-v0.154.0-r202609131200.9876543",
        "local-features-v0.155.0-r202609131201.abcdef1",
    ));
}

#[test]
fn release_counter_detects_same_upstream_version_builds() {
    assert!(fork_tag_is_newer(
        "local-features-v0.154.0-r202609131201.abcdef1",
        "local-features-v0.154.0-r202609131200.abcdef1",
    ));
}

#[test]
fn normalizes_legacy_minute_counter_before_comparing_seconds() {
    assert!(fork_tag_is_newer(
        "local-features-v0.154.0-main-r20260914000000.abcdef123456",
        "local-features-v0.154.0-r202609140000.987654321000",
    ));
    assert!(fork_tag_is_newer(
        "local-features-v0.154.0-main-r20260914000001.abcdef123456",
        "local-features-v0.154.0-r202609140000.987654321000",
    ));
    assert!(!fork_tag_is_newer(
        "local-features-v0.154.0-r202609140000.987654321000",
        "local-features-v0.154.0-main-r20260914000001.abcdef123456",
    ));
}

#[test]
fn same_second_releases_use_ancestry_sequence_before_producer_sha() {
    assert!(fork_tag_is_newer(
        "local-features-v0.154.0-main-r20260914000000.0000000000000002aaaaaaaaaaaa",
        "local-features-v0.154.0-main-r20260914000000.0000000000000001ffffffffffff",
    ));
    assert!(!fork_tag_is_newer(
        "local-features-v0.154.0-main-r20260914000000.0000000000000001ffffffffffff",
        "local-features-v0.154.0-main-r20260914000000.0000000000000002aaaaaaaaaaaa",
    ));
}

#[test]
fn cached_release_tag_must_belong_to_the_fork() {
    assert!(is_fork_release_tag("local-features-v0.154.0-r1.abc"));
    assert!(is_fork_release_tag(
        "local-features-v0.154.0-main-r20260914000000.0000000000000001aaaaaaaaaaaa"
    ));
    assert!(!is_fork_release_tag(
        "local-features-v0.154.0-main-r20260914000000.0000000000000001.aaaaaaaaaaaa"
    ));
    assert!(!is_fork_release_tag("0.155.0"));
}

#[test]
fn configured_repository_is_used_for_feed_and_install_urls() {
    assert_eq!(
        fork_releases_api_url_for_repo("owner/repo"),
        "https://api.github.com/repos/owner/repo/releases?per_page=30"
    );
    assert_eq!(
        fork_install_command_for_repo("owner/repo"),
        "curl -fsSL https://raw.githubusercontent.com/owner/repo/eric/local-features/install.sh | bash"
    );
}

#[test]
fn custom_repository_command_is_shell_quoted() {
    let command = fork_install_command_for_repo("owner/repo '$x;touch nope'");
    assert_eq!(
        shlex::split(&command).expect("generated command should parse as shell words"),
        vec![
            "curl",
            "-fsSL",
            "https://raw.githubusercontent.com/owner/repo '$x;touch nope'/eric/local-features/install.sh",
            "|",
            "bash",
        ]
    );
}

#[test]
fn identical_tags_are_not_newer() {
    assert!(!fork_tag_is_newer(
        "local-features-v0.155.0-r202609131200.abcdef1",
        "local-features-v0.155.0-r202609131200.abcdef1",
    ));
}

#[test]
fn missing_release_counter_is_treated_as_newer_either_direction() {
    assert!(fork_tag_is_newer(
        "local-features-v0.155.0-r202609131200.abcdef1",
        "local-features-v0.154.0-1122334455aa",
    ));
    assert!(!fork_tag_is_newer(
        "local-features-v0.154.0-1122334455aa",
        "local-features-v0.155.0-r202609131200.abcdef1",
    ));
}

#[test]
fn tags_tell_the_parts_of_a_release() {
    let identity = fork_release_identity(
        "local-features-v0.154.0-main-r20260914000000.000000000000000aAAAAAAAAAAAA",
    )
    .expect("a release");
    assert_eq!(identity.normalized_counter, Some(20_260_914_000_000));
    assert_eq!(identity.counter_precision, Some(14));
    assert_eq!(identity.source_sequence, Some(10));
    assert_eq!(
        identity.tie_break,
        "0.154.0-main:000000000000000aaaaaaaaaaaaa"
    );
    let minute = fork_release_identity("local-features-v0.154.0-r202609140000.abc").expect("a tag");
    assert_eq!(minute.normalized_counter, Some(20_260_914_000_000));
    assert_eq!(minute.counter_precision, Some(12));
    assert_eq!(minute.source_sequence, None);
    let bare = fork_release_identity("local-features-v0.154.0-1122334455aa").expect("a tag");
    assert_eq!(bare.normalized_counter, None);
    for tag in [
        "local-features-v0.154-r1.abc",
        "local-features-v0.154.0-r.abc",
        "local-features-v0.154.0-r1.",
        "local-features-v0.154.0-r1.xyz",
        "local-features-v0.154.0-r99999999999999999999.abc",
        "local-features-v0.154.0-1122334455a",
        "local-features-v0..0-1122334455aa",
        "v0.154.0-r1.abc",
    ] {
        assert!(fork_release_identity(tag).is_none(), "{tag}");
    }
}

#[test]
fn tags_are_in_a_total_order() {
    let tags = [
        "not a tag",
        "local-features-v0.154.0-1122334455aa",
        "local-features-v0.154.0-r202609140000.abc",
        "local-features-v0.154.0-r20260914000000.abc",
        "local-features-v0.154.0-r20260914000000.0000000000000001aaaaaaaaaaaa",
        "local-features-v0.154.0-r20260914000001.abc",
    ];
    for (i, left) in tags.iter().enumerate() {
        for (j, right) in tags.iter().enumerate() {
            assert_eq!(compare_fork_release_tags(left, right), i.cmp(&j));
            assert_eq!(fork_tag_is_newer(left, right), i > j);
        }
    }
}

#[test]
fn of_equal_releases_the_last_is_taken() {
    let entries = vec![
        ForkReleaseEntry {
            tag_name: "local-features-v0.154.0-r1.ABC".to_string(),
            draft: false,
        },
        ForkReleaseEntry {
            tag_name: "local-features-v0.154.0-r1.abc".to_string(),
            draft: false,
        },
    ];
    assert_eq!(
        newest_fork_release_tag(&entries).as_deref(),
        Some("local-features-v0.154.0-r1.abc")
    );
}

#[test]
fn builds_know_whether_they_are_releases() {
    assert_eq!(shake_feature_version(Some("tag")), Some("0.1.0"));
    assert_eq!(shake_feature_version(None), None);
    assert!(is_fork_build(Some("tag")) && !is_fork_build(None));
    assert_eq!(fork_repository(None), "epsalmond/codex");
    assert_eq!(fork_repository(Some(String::new())), "epsalmond/codex");
    assert_eq!(fork_repository(Some("me/mine".to_string())), "me/mine");
    assert_eq!(
        fork_install_command_for_repo("epsalmond/codex"),
        FORK_INSTALL_COMMAND
    );
}
