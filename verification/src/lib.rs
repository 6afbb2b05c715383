//! Verified core of a command-line inspector for columnar (Parquet) files.
//!
//! The library holds the logic worth proving: windowed row extraction
//! (head/tail over row-group batches), cross-row-group statistics
//! aggregation, display-string classification for typed output, and the
//! error taxonomy built from keyword inspection of collaborator messages.

use vstd::prelude::*;

pub mod batch;
pub mod error;
pub mod render;
pub mod stats;
pub mod text;
pub mod window;

verus! {

/// The output formats a command can render to.
#[derive(Clone, Copy, Debug, PartialEq, Eq, Structural)]
pub enum OutputFormat {
    Table,
    Json,
    Jsonl,
    Csv,
}

/// The commands the inspector offers, with their parsed arguments; paths
/// are carried as plain text.
#[derive(Clone, Debug, PartialEq, Eq)]
pub enum Commands {
    /// Show schema: column names, types, nullability.
    Schema { files: Vec<String>, output: OutputFormat, quiet: bool },
    /// Show the first N rows.
    Head { files: Vec<String>, rows: usize, output: OutputFormat, quiet: bool },
    /// Show the last N rows.
    Tail { files: Vec<String>, rows: usize, output: OutputFormat, quiet: bool },
    /// Count total rows.
    Count { files: Vec<String>, quiet: bool },
    /// Column statistics: min, max, nulls.
    Stats { files: Vec<String>, column: Option<String>, output: OutputFormat, quiet: bool },
    /// Run a SQL query against the files.
    Query { sql: String, files: Vec<String>, output: OutputFormat, quiet: bool },
    /// Convert a file to CSV, JSON or JSONL.
    Convert { input: String, output_path: String },
    /// Merge several files into one.
    Merge { files: Vec<String>, output: String },
    /// File metadata: row groups, compression, size.
    Info { files: Vec<String>, output: OutputFormat, quiet: bool },
}

} // verus!
