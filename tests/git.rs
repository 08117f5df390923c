use webbed_hook::envelope::convert_to_utc_rfc3339;
use webbed_hook::git::{
    diff, diff_name_status, get_default_branch, git_log, git_show_file_from_default_branch,
    merge_base, parse_log, parse_name_status, read_lines, split_lines, ShowFileError,
};
use webbed_hook::FileStatus;

fn s(t: &str) -> String {
    t.to_string()
}

#[test]
fn test_name_status_parsing() {
    let name_status_text = "M       Cargo.lock
M       Cargo.toml
M       README.md
M       core/Cargo.toml
M       core/src/webhook.rs
M       src/configuration.rs
M       src/git.rs
M       src/main.rs
A       src/rule.rs
M       src/webhook.rs
";
    let lines: Vec<Option<String>> = name_status_text.lines().map(|l| Some(l.to_owned())).collect();
    let actual = parse_name_status(&lines);
    let expected = vec![
        (FileStatus::Modified, "Cargo.lock".to_owned()),
        (FileStatus::Modified, "Cargo.toml".to_owned()),
        (FileStatus::Modified, "README.md".to_owned()),
        (FileStatus::Modified, "core/Cargo.toml".to_owned()),
        (FileStatus::Modified, "core/src/webhook.rs".to_owned()),
        (FileStatus::Modified, "src/configuration.rs".to_owned()),
        (FileStatus::Modified, "src/git.rs".to_owned()),
        (FileStatus::Modified, "src/main.rs".to_owned()),
        (FileStatus::Added, "src/rule.rs".to_owned()),
        (FileStatus::Modified, "src/webhook.rs".to_owned()),
    ];
    assert_eq!(actual, expected);
}

#[test]
fn name_status_skips_lines_that_are_not_entries() {
    let out = b"  D\tgone.txt  \r\nZ odd\nM one two\n\nR\tnew.rs\n".to_vec();
    assert_eq!(
        diff_name_status(Some(out)),
        vec![(FileStatus::Deleted, s("gone.txt")), (FileStatus::Renamed, s("new.rs"))]
    );
    assert!(diff_name_status(None).is_empty());
}

#[test]
fn lines_split_like_bufread() {
    let lines = split_lines(&b"a\r\nb\n\nc".to_vec());
    assert_eq!(lines, vec![b"a".to_vec(), b"b".to_vec(), b"".to_vec(), b"c".to_vec()]);
    assert!(split_lines(&Vec::new()).is_empty());
    assert_eq!(read_lines(&vec![b'o', b'k', b'\n', 0xff, b'\n']), vec![Some(s("ok")), None]);
}

#[test]
fn dates_are_normalised_to_utc() {
    let d = convert_to_utc_rfc3339("2024-01-02T03:04:05+02:00").unwrap();
    assert_eq!(d.seconds, 1704157445);
    assert_eq!(d.nanos, 0);
    assert!(convert_to_utc_rfc3339("yesterday").is_none());
}

const LOG: &str = "commit
1111
aaaa
bbbb

Ann <ann@example.com>
2024-01-02T03:04:05+02:00
Bob <bob@example.com>
2024-01-02T04:04:05+02:00
ABCD
    Subject line
    
    Body text

commit
2222

Ann <ann@example.com>
not a date
Bob <bob@example.com>
2024-01-02T04:04:05+02:00

    broken

commit
3333
1111

Ann <ann@example.com>
2024-01-03T00:00:00Z
Bob <bob@example.com>
2024-01-03T00:00:00Z

    Second

";

#[test]
fn log_records_are_parsed() {
    let entries = git_log(Some(LOG.as_bytes().to_vec()));
    assert_eq!(entries.len(), 2);
    let first = &entries[0];
    assert_eq!(first.hash, "1111");
    assert_eq!(first.parents, vec![s("aaaa"), s("bbbb")]);
    assert_eq!(first.author, "Ann <ann@example.com>");
    assert_eq!(first.author_date.seconds, 1704157445);
    assert_eq!(first.committer_date.seconds, 1704161045);
    assert_eq!(first.signed_by_key_id, Some(s("ABCD")));
    assert_eq!(first.message, "Subject line\n\nBody text");
    let second = &entries[1];
    assert_eq!(second.hash, "3333");
    assert_eq!(second.parents, vec![s("1111")]);
    assert_eq!(second.signed_by_key_id, None);
    assert_eq!(second.message, "Second");
    assert_eq!(second.author_date.seconds, 1704240000);
    assert!(git_log(None).is_empty());
    assert!(parse_log(&vec![Some(s("noise")), None]).is_empty());
}

#[test]
fn command_output_is_decoded_and_trimmed() {
    assert_eq!(diff(Some(b"patch\n".to_vec())), Some(s("patch\n")));
    assert_eq!(diff(Some(vec![0xff])), None);
    assert_eq!(diff(None), None);
    assert_eq!(merge_base(Some(b"  abc123\n".to_vec())), Some(s("abc123")));
    assert_eq!(merge_base(None), None);
    assert_eq!(get_default_branch(Some(b"  main\n".to_vec())), Some(s("  main")));
}

#[test]
fn show_file_distinguishes_missing_from_failure() {
    assert_eq!(git_show_file_from_default_branch(Ok(Some(b"{}".to_vec()))), Ok(Some(s("{}"))));
    assert_eq!(git_show_file_from_default_branch(Ok(None)), Ok(None));
    assert_eq!(git_show_file_from_default_branch(Ok(Some(vec![0xc3]))), Err(ShowFileError::InvalidUtf8));
    assert_eq!(git_show_file_from_default_branch(Err(s("no git"))), Err(ShowFileError::Io(s("no git"))));
}
