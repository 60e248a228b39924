use codex_monitor_daemon::files::{collect_file_list, read_file_content, validate_file_path};

#[test]
fn oversized_file_is_truncated_to_the_limit() {
    let bytes = vec![b'a'; 400_001];
    let (content, truncated) = read_file_content(bytes).unwrap();
    assert!(truncated);
    assert_eq!(content.len(), 400_000);
}

#[test]
fn file_at_the_limit_is_not_truncated() {
    let bytes = vec![b'a'; 400_000];
    let (content, truncated) = read_file_content(bytes).unwrap();
    assert!(!truncated);
    assert_eq!(content.len(), 400_000);
}

#[test]
fn small_file_round_trips() {
    let (content, truncated) = read_file_content(b"hello".to_vec()).unwrap();
    assert!(!truncated);
    assert_eq!(content, "hello");
}

#[test]
fn invalid_utf8_is_rejected() {
    let err = read_file_content(vec![0xFF, 0xFE, 0x00]).unwrap_err();
    assert_eq!(err, "File is not valid UTF-8");
}

#[test]
fn escaping_path_is_invalid() {
    // `../etc/passwd` under `/workspace` resolves outside the root.
    let err = validate_file_path("/etc/passwd", "/workspace").unwrap_err();
    assert_eq!(err, "Invalid file path");
}

#[test]
fn contained_paths_are_accepted() {
    assert!(validate_file_path("/workspace/src/main.rs", "/workspace").is_ok());
    assert!(validate_file_path("/workspace", "/workspace").is_ok());
    // A sibling with the root as a name prefix is still outside.
    assert!(validate_file_path("/workspace2/file", "/workspace").is_err());
}

#[test]
fn file_list_is_normalised_capped_and_sorted() {
    let raw = vec![
        "b\\nested\\file.txt".to_string(),
        "".to_string(),
        "a.txt".to_string(),
        "c.txt".to_string(),
    ];
    let r = collect_file_list(&raw, 2);
    assert_eq!(r, vec!["a.txt".to_string(), "b/nested/file.txt".to_string()]);

    let all = collect_file_list(&raw, 100);
    assert_eq!(
        all,
        vec!["a.txt".to_string(), "b/nested/file.txt".to_string(), "c.txt".to_string()]
    );
}
