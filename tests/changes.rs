use webbed_hook::change::{is_hash_all_zeros, merge_base_query, resolve_change, Change, ChangeLine, Fact};
use webbed_hook::git::{GitQuery, LOG_LIMIT};

fn s(t: &str) -> String {
    t.to_string()
}

const ZERO: &str = "0000000000000000000000000000000000000000";

fn line(old: &str, new: &str) -> ChangeLine {
    ChangeLine { old_commit: s(old), new_commit: s(new), ref_name: s("refs/heads/x") }
}

#[test]
fn all_zero_sentinels_are_filtered() {
    assert!(is_hash_all_zeros(ZERO));
    assert!(!is_hash_all_zeros("000a"));
    assert_eq!(merge_base_query(&line(ZERO, ZERO), &s("main")), None);
    assert!(resolve_change(line(ZERO, ZERO), None).is_none());
}

#[test]
fn new_ref_is_an_add_with_base_from_default_branch() {
    assert_eq!(merge_base_query(&line(ZERO, "bbbb2"), &s("main")), Some((s("main"), s("bbbb2"))));
    match resolve_change(line(ZERO, "bbbb2"), Some(s("base"))).unwrap() {
        Change::AddRef { name, commit, git_data } => {
            assert_eq!(name, "refs/heads/x");
            assert_eq!(commit, "bbbb2");
            assert_eq!(git_data.log_query(), GitQuery::LogRange { from: s("base"), to: s("bbbb2") });
            assert!(matches!(git_data.log, Fact::Pending));
        }
        other => panic!("add expected, got {:?}", other),
    }
}

#[test]
fn deleted_ref_is_a_remove() {
    assert_eq!(merge_base_query(&line("aaaa1", ZERO), &s("main")), None);
    match resolve_change(line("aaaa1", ZERO), None).unwrap() {
        Change::RemoveRef { name, commit } => {
            assert_eq!(name, "refs/heads/x");
            assert_eq!(commit, "aaaa1");
        }
        other => panic!("remove expected, got {:?}", other),
    }
}

#[test]
fn update_without_base_logs_recent_commits() {
    assert_eq!(merge_base_query(&line("aaaa1", "bbbb2"), &s("main")), Some((s("aaaa1"), s("bbbb2"))));
    match resolve_change(line("aaaa1", "bbbb2"), None).unwrap() {
        Change::UpdateRef { git_data, force, merge_base, .. } => {
            assert!(force);
            assert_eq!(merge_base, None);
            assert_eq!(git_data.log_query(), GitQuery::LogLimited { limit: LOG_LIMIT, to: s("bbbb2") });
            assert_eq!(git_data.patch_query(), GitQuery::Diff { old: s("aaaa1"), new: s("bbbb2") });
            assert_eq!(git_data.file_status_query(), GitQuery::NameStatus { old: s("aaaa1"), new: s("bbbb2") });
        }
        other => panic!("update expected, got {:?}", other),
    }
    assert_eq!(LOG_LIMIT, 100);
}
