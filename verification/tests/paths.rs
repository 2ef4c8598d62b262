use intel_candidate_app::paths::{
    output_parent_dirs, output_record_path, validate_object_prefix, validate_output_dir, validate_output_key,
    validate_unambiguous_absolute_path,
};

#[test]
fn output_key_validation_accepts_normal_partitioned_key() {
    validate_output_key(
        "candidate-screening/schema=intel_candidate_screening_v1/dt=2026-05-29/hour=12/screening_event_id=screen_001/part-000001.jsonl",
    )
    .unwrap();
}

#[test]
fn output_key_validation_rejects_escape_shapes() {
    for key in [
        "/tmp/part-000001.jsonl",
        "candidate-screening/./part-000001.jsonl",
        "candidate-screening/../part-000001.jsonl",
        "candidate-screening\\part-000001.jsonl",
        "candidate-screening/\n/part-000001.jsonl",
    ] {
        let error = validate_output_key(key).unwrap_err().to_string();
        assert!(
            error.contains("output key"),
            "expected output key error for {key:?}, got {error}"
        );
    }
}

#[test]
fn output_key_validation_rejects_empty_segments_and_trailing_slash() {
    for key in ["", "a//b.jsonl", "a/b/", "..", ".", "a/.."] {
        assert!(validate_output_key(key).is_err(), "{key:?} accepted");
    }
    for key in ["a", "a/b.c/d..e/.hidden", "x=1/y_2"] {
        assert!(validate_output_key(key).is_ok(), "{key:?} rejected");
    }
}

#[test]
fn object_prefix_validation_allows_trailing_slash_only() {
    assert!(validate_object_prefix("structured-intel-packet/schema=v1/", "--p").is_ok());
    assert!(validate_object_prefix("custom-prefix", "--p").is_ok());
    let error = validate_object_prefix("s3://bucket/x/", "--p").unwrap_err().to_string();
    assert!(error.starts_with("--p must be a relative object key prefix"));
    assert!(error.ends_with(": s3://bucket/x/"));
    assert!(validate_object_prefix("", "--p").is_err());
    assert!(validate_object_prefix("/abs/", "--p").is_err());
}

#[test]
fn absolute_path_validation_and_output_dir() {
    assert!(validate_unambiguous_absolute_path("/tmp/a.json", "--f").is_ok());
    assert!(validate_unambiguous_absolute_path("/tmp/..a/b.", "--f").is_ok());
    let relative = validate_output_dir("relative-output").unwrap_err().to_string();
    assert!(relative.contains("absolute path"));
    assert_eq!(relative, "output dir must be an absolute path: relative-output");
    let ambiguous = validate_output_dir("/tmp/../out").unwrap_err().to_string();
    assert!(ambiguous.contains("relative path components"));
    assert!(validate_output_dir("/tmp/x/.").is_err());
}

#[test]
fn output_records_and_their_parent_directories() {
    assert_eq!(
        output_record_path("/out", "screening/dt=2024-01-01/a.json"),
        "/out/screening/dt=2024-01-01/a.json"
    );
    assert_eq!(output_record_path("/out/", "a.json"), "/out/a.json");
    assert_eq!(
        output_parent_dirs("/out", "screening/dt=2024-01-01/a.json"),
        vec!["/out/screening".to_owned(), "/out/screening/dt=2024-01-01".to_owned()]
    );
    assert_eq!(output_parent_dirs("/out/", "x/y"), vec!["/out/x".to_owned()]);
    assert!(output_parent_dirs("/out", "a.json").is_empty());
}

// The checks that run before any record is written: the output directory
// must be an unambiguous absolute path, the key a safe relative key.

#[test]
fn write_record_rejects_relative_output_dir() {
    let error = validate_output_dir("relative-output").unwrap_err().to_string();
    assert!(error.contains("absolute path"));
}

#[test]
fn write_record_rejects_ambiguous_absolute_output_dir() {
    let error = validate_output_dir("/tmp/../intel-candidate-ambiguous-output")
        .unwrap_err()
        .to_string();
    assert!(error.contains("relative path components"));
}

#[test]
fn write_record_rejects_traversal_key() {
    let error = validate_output_key("../escape.jsonl").unwrap_err().to_string();
    assert!(error.contains("output key"));
}
