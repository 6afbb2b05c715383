//! Behavior of the error taxonomy: construction, messages, keyword
//! classification of collaborator messages.

use pq::error::PqError;
use pq::error::ResultExt;
use pq::error::categorize;
use pq::error::classify_open_error;
use pq::error::simplify_parquet_error;
use pq::error::simplify_sql_error;
use pq::text::is_glob_pattern;

#[test]
fn test_error_display() {
    let err = PqError::file_not_found("/tmp/missing.parquet");
    assert!(err.message().contains("missing.parquet"));
    assert!(err.message().contains("not found"));
}

#[test]
fn test_simplify_parquet_error() {
    assert_eq!(
        simplify_parquet_error("not a valid Parquet file: missing magic"),
        "File does not have valid Parquet magic bytes"
    );
    assert_eq!(
        simplify_parquet_error("unexpected eof while reading"),
        "File is truncated or incomplete"
    );
}

#[test]
fn edge_nonexistent_file() {
    let err = categorize(
        "this_file_does_not_exist.parquet",
        "No such file or directory (os error 2)",
    );
    let msg = err.message();
    assert!(
        msg.contains("not found")
            || msg.contains("No such file")
            || msg.contains("does not exist")
            || msg.contains("error"),
        "Expected helpful error message, got: {}",
        msg
    );
}

#[test]
fn edge_not_parquet_file() {
    let err = classify_open_error(
        "Cargo.toml",
        "Parquet error: Invalid Parquet file. Corrupt footer",
    );
    let msg = err.message();
    assert!(
        msg.contains("Parquet")
            || msg.contains("magic")
            || msg.contains("invalid")
            || msg.contains("error"),
        "Expected helpful error message, got: {}",
        msg
    );
}

#[test]
fn edge_empty_path() {
    let err = categorize("", "No such file or directory (os error 2)");
    assert!(
        matches!(err, PqError::FileNotFound { .. }),
        "Should have error for empty path"
    );
}

#[test]
fn edge_directory_as_file() {
    let err = categorize("src/", "Is a directory (os error 21)");
    let msg = err.message();
    assert!(
        msg.contains("directory") || msg.contains("Is a directory") || msg.contains("error"),
        "Expected helpful error message for directory, got: {}",
        msg
    );
}

#[test]
fn edge_glob_no_matches() {
    let pattern = "nonexistent_pattern_*.parquet";
    assert!(is_glob_pattern(pattern));
    let err = PqError::NoFilesMatched {
        pattern: pattern.to_string(),
    };
    let msg = err.message();
    assert!(
        msg.contains("no files")
            || msg.contains("No files")
            || msg.contains("matched")
            || msg.contains("not found"),
        "Expected helpful error for no glob matches, got: {}",
        msg
    );
}

#[test]
fn glob_detection_plain_path_is_no_pattern() {
    assert!(!is_glob_pattern("plain/file.parquet"));
    assert!(is_glob_pattern("data-?.parquet"));
    assert!(is_glob_pattern("data-[01].parquet"));
}

#[test]
fn messages_per_variant() {
    assert_eq!(
        PqError::file_not_found("a.parquet").message(),
        "File not found: a.parquet"
    );
    assert_eq!(
        PqError::invalid_parquet("a.parquet", "bad header").message(),
        "Not a valid Parquet file: a.parquet\n  bad header"
    );
    assert_eq!(
        PqError::corrupted("a.parquet", "unexpected eof").message(),
        "File appears corrupted: a.parquet\n  File is truncated or incomplete"
    );
    assert_eq!(
        PqError::read_error("a.parquet", "boom").message(),
        "Cannot read file: a.parquet\n  boom"
    );
    assert_eq!(
        PqError::write_error("out.csv", "disk full").message(),
        "Cannot write file: out.csv\n  disk full"
    );
    assert_eq!(
        PqError::invalid_sql("bad query").message(),
        "Invalid SQL query: bad query"
    );
    assert_eq!(
        PqError::query_failed("bad plan").message(),
        "Query execution failed: bad plan"
    );
    assert_eq!(
        PqError::is_directory("src").message(),
        "Path is a directory, not a file: src"
    );
    assert_eq!(PqError::empty_file("e.parquet").message(), "Empty file: e.parquet");
    let mismatch = PqError::SchemaMismatch {
        file1: "a.parquet".to_string(),
        file2: "b.parquet".to_string(),
        details: "Column names or types differ".to_string(),
    };
    assert_eq!(
        mismatch.message(),
        "Schema mismatch between files:\n  a.parquet\n  b.parquet\n  Column names or types differ"
    );
    let unsupported = PqError::UnsupportedFormat {
        format: "xml".to_string(),
        supported: "csv, json, jsonl".to_string(),
    };
    assert_eq!(
        unsupported.message(),
        "Unsupported format: xml\n  Supported formats: csv, json, jsonl"
    );
    let column = PqError::ColumnNotFound {
        column: "amount".to_string(),
        available: "id, name".to_string(),
    };
    assert_eq!(
        column.message(),
        "Column not found: amount\n  Available columns: id, name"
    );
    assert_eq!(PqError::Other("plain".to_string()).message(), "plain");
}

#[test]
fn simplify_sql_error_strips_prefixes() {
    assert_eq!(
        simplify_sql_error("Arrow error: External error: Execution error: boom"),
        "boom"
    );
    assert_eq!(simplify_sql_error("Execution error: table tbl not found"), "table tbl not found");
    assert_eq!(simplify_sql_error("plain message"), "plain message");
}

#[test]
fn categorize_covers_each_keyword_category() {
    assert!(matches!(
        categorize("f", "Permission denied (os error 13)"),
        PqError::ReadError { .. }
    ));
    assert!(matches!(
        categorize("f", "thrift protocol mishap"),
        PqError::InvalidParquet { .. }
    ));
    assert!(matches!(
        categorize("f", "data looks corrupt here"),
        PqError::CorruptedFile { .. }
    ));
    assert!(matches!(
        categorize("f", "some other failure"),
        PqError::ReadError { .. }
    ));
}

#[test]
fn path_context_categorizes_and_passes_values_through() {
    let ok: Result<i32, String> = Ok(7);
    assert_eq!(ok.with_path_context("f.parquet"), Ok(7));
    let missing: Result<i32, String> = Err("No such file or directory".to_string());
    match missing.with_path_context("f.parquet") {
        Err(PqError::FileNotFound { path }) => assert_eq!(path, "f.parquet"),
        other => panic!("expected file-not-found, got: {:?}", other),
    }
}

#[test]
fn truncated_file_classifies_as_corrupted() {
    // Header magic present, body absent: the reader reports a premature
    // end of file, which must classify as corruption, not crash.
    let err = classify_open_error(
        "truncated.parquet",
        "EOF: file size of 12 is less than footer",
    );
    match &err {
        PqError::CorruptedFile { path, details } => {
            assert_eq!(path, "truncated.parquet");
            assert_eq!(details, "File is truncated or incomplete");
        }
        other => panic!("expected corruption classification, got: {:?}", other),
    }
    let msg = err.message();
    assert!(msg.contains("corrupted"));
}
