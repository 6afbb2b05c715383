//! The error taxonomy, and its construction from collaborator messages.
//!
//! Errors surfaced by the file and query collaborators carry no structured
//! codes, so they are sorted into this closed set of categories as early as
//! possible, by inspecting the message text for keywords; matching is
//! insensitive to ASCII letter case where the wording may vary.

use vstd::prelude::*;

use crate::text::contains_seq;
use crate::text::lower_seq;
use crate::text::str_contains;
use crate::text::str_contains_ci;
use crate::text::strip_all_spec;
use crate::text::strip_prefix_all;

verus! {

/// A user-facing error with context.
#[derive(Debug, Clone, PartialEq, Eq)]
pub enum PqError {
    FileNotFound { path: String },
    InvalidParquet { path: String, details: String },
    CorruptedFile { path: String, details: String },
    ReadError { path: String, details: String },
    WriteError { path: String, details: String },
    NoFilesMatched { pattern: String },
    InvalidSql { details: String },
    QueryFailed { details: String },
    SchemaMismatch { file1: String, file2: String, details: String },
    UnsupportedFormat { format: String, supported: String },
    ColumnNotFound { column: String, available: String },
    IsDirectory { path: String },
    EmptyFile { path: String },
    Other(String),
}

/// A collaborator's message about an unreadable file, reduced to a stable,
/// user-friendly wording where a known pattern occurs.
pub open spec fn simplify_parquet_spec(msg: Seq<char>) -> Seq<char> {
    if contains_seq(msg, "not a valid Parquet file"@) || contains_seq(
        msg,
        "Invalid Parquet file"@,
    ) {
        "File does not have valid Parquet magic bytes"@
    } else if contains_seq(msg, "eof"@) || contains_seq(msg, "EOF"@) || contains_seq(
        msg,
        "unexpected end"@,
    ) {
        "File is truncated or incomplete"@
    } else if contains_seq(msg, "Invalid thrift"@) || contains_seq(msg, "thrift"@) {
        "File metadata is corrupted"@
    } else if contains_seq(msg, "out of spec"@) || contains_seq(msg, "out-of-spec"@) {
        "File contains invalid or out-of-spec data"@
    } else {
        msg
    }
}

/// A query collaborator's message with its internal prefixes removed.
pub open spec fn simplify_sql_spec(msg: Seq<char>) -> Seq<char> {
    strip_all_spec(
        strip_all_spec(strip_all_spec(msg, "Arrow error: "@), "External error: "@),
        "Execution error: "@,
    )
}

/// Simplify a columnar-file collaborator's error message.
pub fn simplify_parquet_error(msg: &str) -> (r: String)
    ensures
        r@ == simplify_parquet_spec(msg@),
{
    if str_contains(msg, "not a valid Parquet file") || str_contains(msg, "Invalid Parquet file") {
        "File does not have valid Parquet magic bytes".to_owned()
    } else if str_contains(msg, "eof") || str_contains(msg, "EOF") || str_contains(
        msg,
        "unexpected end",
    ) {
        "File is truncated or incomplete".to_owned()
    } else if str_contains(msg, "Invalid thrift") || str_contains(msg, "thrift") {
        "File metadata is corrupted".to_owned()
    } else if str_contains(msg, "out of spec") || str_contains(msg, "out-of-spec") {
        "File contains invalid or out-of-spec data".to_owned()
    } else {
        msg.to_owned()
    }
}

/// Simplify a SQL collaborator's error message.
pub fn simplify_sql_error(msg: &str) -> (r: String)
    ensures
        r@ == simplify_sql_spec(msg@),
{
    let r = strip_prefix_all(msg, "Arrow error: ");
    let r = strip_prefix_all(r, "External error: ");
    let r = strip_prefix_all(r, "Execution error: ");
    r.to_owned()
}

impl PqError {
    /// A file-not-found error with path context.
    pub fn file_not_found(path: &str) -> (e: PqError)
        ensures
            e matches PqError::FileNotFound { path: p } && p@ == path@,
    {
        PqError::FileNotFound { path: path.to_owned() }
    }

    /// An invalid-file error built from a collaborator's message, which is
    /// simplified on the way in.
    pub fn invalid_parquet(path: &str, details: &str) -> (e: PqError)
        ensures
            e matches PqError::InvalidParquet { path: p, details: d } && p@ == path@ && d@
                == simplify_parquet_spec(details@),
    {
        PqError::InvalidParquet { path: path.to_owned(), details: simplify_parquet_error(details) }
    }

    /// A corrupted-file error built from a collaborator's message, which is
    /// simplified on the way in.
    pub fn corrupted(path: &str, details: &str) -> (e: PqError)
        ensures
            e matches PqError::CorruptedFile { path: p, details: d } && p@ == path@ && d@
                == simplify_parquet_spec(details@),
    {
        PqError::CorruptedFile { path: path.to_owned(), details: simplify_parquet_error(details) }
    }

    /// A read error with path context.
    pub fn read_error(path: &str, details: &str) -> (e: PqError)
        ensures
            e matches PqError::ReadError { path: p, details: d } && p@ == path@ && d@ == details@,
    {
        PqError::ReadError { path: path.to_owned(), details: details.to_owned() }
    }

    /// A write error with path context.
    pub fn write_error(path: &str, details: &str) -> (e: PqError)
        ensures
            e matches PqError::WriteError { path: p, details: d } && p@ == path@ && d@ == details@,
    {
        PqError::WriteError { path: path.to_owned(), details: details.to_owned() }
    }

    /// An invalid-SQL error; the message's internal prefixes are removed.
    pub fn invalid_sql(details: &str) -> (e: PqError)
        ensures
            e matches PqError::InvalidSql { details: d } && d@ == simplify_sql_spec(details@),
    {
        PqError::InvalidSql { details: simplify_sql_error(details) }
    }

    /// A query-execution error; the message's internal prefixes are removed.
    pub fn query_failed(details: &str) -> (e: PqError)
        ensures
            e matches PqError::QueryFailed { details: d } && d@ == simplify_sql_spec(details@),
    {
        PqError::QueryFailed { details: simplify_sql_error(details) }
    }

    /// An error for a path that names a directory.
    pub fn is_directory(path: &str) -> (e: PqError)
        ensures
            e matches PqError::IsDirectory { path: p } && p@ == path@,
    {
        PqError::IsDirectory { path: path.to_owned() }
    }

    /// An error for an empty file.
    pub fn empty_file(path: &str) -> (e: PqError)
        ensures
            e matches PqError::EmptyFile { path: p } && p@ == path@,
    {
        PqError::EmptyFile { path: path.to_owned() }
    }
}

/// What `categorize` owes: the first category, in fixed priority order,
/// whose keywords occur in the message read without regard to ASCII letter
/// case.
pub open spec fn categorized(path: Seq<char>, msg: Seq<char>, e: PqError) -> bool {
    let m = lower_seq(msg);
    if contains_seq(m, "no such file"@) || contains_seq(m, "not found"@) || contains_seq(
        m,
        "does not exist"@,
    ) {
        e matches PqError::FileNotFound { path: p } && p@ == path
    } else if contains_seq(m, "is a directory"@) {
        e matches PqError::IsDirectory { path: p } && p@ == path
    } else if contains_seq(m, "permission denied"@) {
        e matches PqError::ReadError { path: p, details: d } && p@ == path && d@
            == "Permission denied"@
    } else if contains_seq(m, "parquet"@) || contains_seq(m, "magic"@) || contains_seq(
        m,
        "thrift"@,
    ) {
        e matches PqError::InvalidParquet { path: p, details: d } && p@ == path && d@
            == simplify_parquet_spec(msg)
    } else if contains_seq(m, "eof"@) || contains_seq(m, "truncat"@) || contains_seq(
        m,
        "corrupt"@,
    ) {
        e matches PqError::CorruptedFile { path: p, details: d } && p@ == path && d@
            == simplify_parquet_spec(msg)
    } else {
        e matches PqError::ReadError { path: p, details: d } && p@ == path && d@ == msg
    }
}

/// Sort a collaborator's message about a file into the error taxonomy by
/// its keywords.
pub fn categorize(path: &str, msg: &str) -> (e: PqError)
    ensures
        categorized(path@, msg@, e),
{
    if str_contains_ci(msg, "no such file") || str_contains_ci(msg, "not found")
        || str_contains_ci(msg, "does not exist") {
        PqError::file_not_found(path)
    } else if str_contains_ci(msg, "is a directory") {
        PqError::is_directory(path)
    } else if str_contains_ci(msg, "permission denied") {
        PqError::read_error(path, "Permission denied")
    } else if str_contains_ci(msg, "parquet") || str_contains_ci(msg, "magic") || str_contains_ci(
        msg,
        "thrift",
    ) {
        PqError::invalid_parquet(path, msg)
    } else if str_contains_ci(msg, "eof") || str_contains_ci(msg, "truncat") || str_contains_ci(
        msg,
        "corrupt",
    ) {
        PqError::corrupted(path, msg)
    } else {
        PqError::read_error(path, msg)
    }
}

/// What `classify_open_error` owes: the triage applied to a failure while
/// opening a file for reading, in fixed priority order.
pub open spec fn open_error_classified(path: Seq<char>, msg: Seq<char>, e: PqError) -> bool {
    let m = lower_seq(msg);
    if contains_seq(m, "magic"@) || contains_seq(m, "not a valid parquet"@) {
        e matches PqError::InvalidParquet { path: p, details: d } && p@ == path && d@
            == simplify_parquet_spec(msg)
    } else if contains_seq(m, "eof"@) || contains_seq(m, "truncat"@) {
        e matches PqError::CorruptedFile { path: p, details: d } && p@ == path && d@
            == simplify_parquet_spec(msg)
    } else {
        e matches PqError::ReadError { path: p, details: d } && p@ == path && d@ == msg
    }
}

/// Triage a failure reported while opening a columnar file: bad magic
/// bytes mean an invalid file, a premature end means a truncated one, and
/// anything else stays a plain read error.
pub fn classify_open_error(path: &str, msg: &str) -> (e: PqError)
    ensures
        open_error_classified(path@, msg@, e),
{
    if str_contains_ci(msg, "magic") || str_contains_ci(msg, "not a valid parquet") {
        PqError::invalid_parquet(path, msg)
    } else if str_contains_ci(msg, "eof") || str_contains_ci(msg, "truncat") {
        PqError::corrupted(path, msg)
    } else {
        PqError::read_error(path, msg)
    }
}

/// Adds path context to a result whose error is already a plain message,
/// sorting the message into the taxonomy by its keywords.
pub trait ResultExt<T>: Sized {
    /// Add path context to an error, converting it to a categorized,
    /// user-friendly error.
    fn with_path_context(self, path: &str) -> Result<T, PqError>;
}

impl<T> ResultExt<T> for Result<T, String> {
    fn with_path_context(self, path: &str) -> (r: Result<T, PqError>)
        ensures
            self matches Ok(v) ==> r matches Ok(w) && w == v,
            self matches Err(m) ==> r matches Err(e) && categorized(path@, m@, e),
    {
        match self {
            Ok(v) => Ok(v),
            Err(msg) => Err(categorize(path, msg.as_str())),
        }
    }
}

/// The user-facing message of each error, exactly.
pub open spec fn message_spec(e: PqError) -> Seq<char> {
    match e {
        PqError::FileNotFound { path } => "File not found: "@ + path@,
        PqError::InvalidParquet { path, details } => "Not a valid Parquet file: "@ + path@ + "\n  "@
            + details@,
        PqError::CorruptedFile { path, details } => "File appears corrupted: "@ + path@ + "\n  "@
            + details@,
        PqError::ReadError { path, details } => "Cannot read file: "@ + path@ + "\n  "@ + details@,
        PqError::WriteError { path, details } => "Cannot write file: "@ + path@ + "\n  "@
            + details@,
        PqError::NoFilesMatched { pattern } => "No files matched pattern: "@ + pattern@,
        PqError::InvalidSql { details } => "Invalid SQL query: "@ + details@,
        PqError::QueryFailed { details } => "Query execution failed: "@ + details@,
        PqError::SchemaMismatch { file1, file2, details } => "Schema mismatch between files:\n  "@
            + file1@ + "\n  "@ + file2@ + "\n  "@ + details@,
        PqError::UnsupportedFormat { format, supported } => "Unsupported format: "@ + format@
            + "\n  Supported formats: "@ + supported@,
        PqError::ColumnNotFound { column, available } => "Column not found: "@ + column@
            + "\n  Available columns: "@ + available@,
        PqError::IsDirectory { path } => "Path is a directory, not a file: "@ + path@,
        PqError::EmptyFile { path } => "Empty file: "@ + path@,
        PqError::Other(msg) => msg@,
    }
}

impl PqError {
    /// The user-facing message of this error.
    pub fn message(&self) -> (r: String)
        ensures
            r@ == message_spec(*self),
    {
        match self {
            PqError::FileNotFound { path } => String::from_str("File not found: ").concat(
                path.as_str(),
            ),
            PqError::InvalidParquet { path, details } => String::from_str(
                "Not a valid Parquet file: ",
            ).concat(path.as_str()).concat("\n  ").concat(details.as_str()),
            PqError::CorruptedFile { path, details } => String::from_str(
                "File appears corrupted: ",
            ).concat(path.as_str()).concat("\n  ").concat(details.as_str()),
            PqError::ReadError { path, details } => String::from_str("Cannot read file: ").concat(
                path.as_str(),
            ).concat("\n  ").concat(details.as_str()),
            PqError::WriteError { path, details } => String::from_str("Cannot write file: ").concat(
                path.as_str(),
            ).concat("\n  ").concat(details.as_str()),
            PqError::NoFilesMatched { pattern } => String::from_str(
                "No files matched pattern: ",
            ).concat(pattern.as_str()),
            PqError::InvalidSql { details } => String::from_str("Invalid SQL query: ").concat(
                details.as_str(),
            ),
            PqError::QueryFailed { details } => String::from_str("Query execution failed: ").concat(
                details.as_str(),
            ),
            PqError::SchemaMismatch { file1, file2, details } => String::from_str(
                "Schema mismatch between files:\n  ",
            ).concat(file1.as_str()).concat("\n  ").concat(file2.as_str()).concat("\n  ").concat(
                details.as_str(),
            ),
            PqError::UnsupportedFormat { format, supported } => String::from_str(
                "Unsupported format: ",
            ).concat(format.as_str()).concat("\n  Supported formats: ").concat(supported.as_str()),
            PqError::ColumnNotFound { column, available } => String::from_str(
                "Column not found: ",
            ).concat(column.as_str()).concat("\n  Available columns: ").concat(available.as_str()),
            PqError::IsDirectory { path } => String::from_str(
                "Path is a directory, not a file: ",
            ).concat(path.as_str()),
            PqError::EmptyFile { path } => String::from_str("Empty file: ").concat(path.as_str()),
            PqError::Other(msg) => msg.as_str().to_owned(),
        }
    }
}

} // verus!
