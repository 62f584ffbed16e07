use secrets_rs::{EnvSource, FileSource, ReadError, SourceError};

#[test]
fn returns_bytes_for_present_var() {
    let result = EnvSource
        .lookup_result("SECRETS_RS_TEST_PRESENT", Some("hello".to_string()))
        .unwrap();
    assert_eq!(result, b"hello");
}

#[test]
fn returns_not_found_for_absent_var() {
    let err = EnvSource
        .lookup_result("SECRETS_RS_TEST_ABSENT", None)
        .unwrap_err();
    assert!(matches!(err, SourceError::NotFound { .. }));
}

#[test]
fn with_base_resolves_relative_against_base() {
    let src = FileSource::with_base("/tmp/dir");
    assert_eq!(src.resolve("secret.txt"), "/tmp/dir/secret.txt");
    let src = FileSource::with_base("/tmp/dir/");
    assert_eq!(src.resolve("secret.txt"), "/tmp/dir/secret.txt");
}

#[test]
fn with_base_absolute_name_ignores_base() {
    let src = FileSource::with_base("/base");
    assert_eq!(src.resolve("/other/abs.txt"), "/other/abs.txt");
}

#[test]
fn with_base_not_found_uses_original_name_in_error() {
    let err = FileSource::read_result("missing.key", Err(ReadError::NotFound)).unwrap_err();
    assert!(
        matches!(&err, SourceError::NotFound { name } if name == "missing.key"),
        "unexpected error: {err:?}"
    );
}

#[test]
fn other_error_uses_original_name_not_resolved_path() {
    let src = FileSource::with_base("/tmp/base-dir");
    let path = src.resolve("subdir");
    assert_eq!(path, "/tmp/base-dir/subdir");
    let err = FileSource::read_result(
        "subdir",
        Err(ReadError::Other("Is a directory (os error 21)".to_string())),
    )
    .unwrap_err();
    let msg = match &err {
        SourceError::Other(m) => m.clone(),
        other => panic!("expected Other, got {other:?}"),
    };
    assert!(msg.contains("subdir"), "original name missing from: {msg}");
    assert!(
        !msg.contains("/tmp/base-dir"),
        "base directory disclosed in: {msg}"
    );
}

// Further cases.

#[test]
fn env_value_bytes_are_utf8() {
    let result = EnvSource.lookup_result("K", Some("é".to_string())).unwrap();
    assert_eq!(result, vec![0xc3, 0xa9]);
}

#[test]
fn not_found_names_the_variable() {
    assert_eq!(
        EnvSource.lookup_result("MISSING", None),
        Err(SourceError::NotFound {
            name: "MISSING".to_string()
        })
    );
}

#[test]
fn new_leaves_relative_names_as_written() {
    let src = FileSource::new();
    assert_eq!(src.resolve("certs/ca.crt"), "certs/ca.crt");
    assert_eq!(src.resolve("/etc/k"), "/etc/k");
    assert_eq!(FileSource::default().resolve("a"), "a");
}

#[test]
fn relative_base_and_parent_components_are_kept() {
    let src = FileSource::with_base("base");
    assert_eq!(src.resolve("../x"), "base/../x");
    let src = FileSource::with_base("");
    assert_eq!(src.resolve("x"), "x");
}

#[test]
fn read_failure_message_is_exact() {
    assert_eq!(
        FileSource::read_result("k", Err(ReadError::Other("denied".to_string()))),
        Err(SourceError::Other("failed to read file `k`: denied".to_string()))
    );
    assert_eq!(FileSource::read_result("k", Ok(vec![1, 2])), Ok(vec![1, 2]));
}

#[test]
fn returns_bytes_for_existing_file() {
    let result = FileSource::new()
        .resolve("/tmp/secret-file");
    assert_eq!(result, "/tmp/secret-file");
    let result = FileSource::read_result(&result, Ok(b"file-secret".to_vec())).unwrap();
    assert_eq!(result, b"file-secret");
}

#[test]
fn returns_not_found_for_missing_file() {
    let missing = FileSource::new().resolve("/tmp/dir/nonexistent.key");
    let err = FileSource::read_result(&missing, Err(ReadError::NotFound)).unwrap_err();
    assert!(matches!(err, SourceError::NotFound { .. }));
}
