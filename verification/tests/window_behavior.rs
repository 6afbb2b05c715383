//! Behavior of the window extractor over real columnar batches.

use std::sync::Arc;

use arrow::array::Int64Array;
use arrow::array::RecordBatch;
use arrow::array::StringArray;
use arrow::datatypes::DataType;
use arrow::datatypes::Field;
use arrow::datatypes::Schema;

use pq::batch::Batch;
use pq::render::batch_cells;
use pq::window::HeadWindow;
use pq::window::take_head;
use pq::window::take_tail;

/// A five-row file with columns `(id: int64, name: utf8)`, split into two
/// batches of three and two rows.
fn five_row_file() -> Vec<Batch> {
    let schema = Arc::new(Schema::new(vec![
        Field::new("id", DataType::Int64, false),
        Field::new("name", DataType::Utf8, false),
    ]));
    let first = RecordBatch::try_new(
        schema.clone(),
        vec![
            Arc::new(Int64Array::from(vec![1, 2, 3])),
            Arc::new(StringArray::from(vec!["Alice", "Bob", "Charlie"])),
        ],
    )
    .unwrap();
    let second = RecordBatch::try_new(
        schema,
        vec![
            Arc::new(Int64Array::from(vec![4, 5])),
            Arc::new(StringArray::from(vec!["Diana", "Eve"])),
        ],
    )
    .unwrap();
    vec![Batch { inner: first }, Batch { inner: second }]
}

fn flatten(batches: &[Batch]) -> Vec<Vec<String>> {
    let mut rows = Vec::new();
    for b in batches {
        rows.extend(batch_cells(b).expect("cells should display"));
    }
    rows
}

fn row(id: &str, name: &str) -> Vec<String> {
    vec![id.to_string(), name.to_string()]
}

#[test]
fn head_takes_the_first_rows() {
    let file = five_row_file();
    let out = take_head(&file, 2);
    assert_eq!(flatten(&out), vec![row("1", "Alice"), row("2", "Bob")]);
}

#[test]
fn tail_takes_the_last_rows() {
    let file = five_row_file();
    let out = take_tail(&file, 2);
    assert_eq!(flatten(&out), vec![row("4", "Diana"), row("5", "Eve")]);
}

#[test]
fn oversized_quota_returns_the_whole_file() {
    let file = five_row_file();
    let all = vec![
        row("1", "Alice"),
        row("2", "Bob"),
        row("3", "Charlie"),
        row("4", "Diana"),
        row("5", "Eve"),
    ];
    assert_eq!(flatten(&take_head(&file, 10)), all);
    assert_eq!(flatten(&take_tail(&file, 10)), all);
}

#[test]
fn zero_quota_returns_nothing() {
    let file = five_row_file();
    assert_eq!(flatten(&take_head(&file, 0)), Vec::<Vec<String>>::new());
    assert_eq!(flatten(&take_tail(&file, 0)), Vec::<Vec<String>>::new());
}

#[test]
fn empty_file_yields_empty_windows() {
    let file: Vec<Batch> = Vec::new();
    assert_eq!(flatten(&take_head(&file, 3)), Vec::<Vec<String>>::new());
    assert_eq!(flatten(&take_tail(&file, 3)), Vec::<Vec<String>>::new());
}

#[test]
fn tail_straddling_a_batch_keeps_the_suffix() {
    let file = five_row_file();
    // Three rows: one from the end of the first batch, the whole second.
    let out = take_tail(&file, 3);
    assert_eq!(
        flatten(&out),
        vec![row("3", "Charlie"), row("4", "Diana"), row("5", "Eve")]
    );
}

#[test]
fn streaming_head_stops_early() {
    let mut file = five_row_file().into_iter();
    let mut w = HeadWindow::new(2);
    let mut pulled = 0;
    while w.wants_more() {
        match file.next() {
            Some(b) => {
                pulled += 1;
                w.push(b);
            }
            None => break,
        }
    }
    // The quota fits inside the first batch: the second is never pulled.
    assert_eq!(pulled, 1);
    let out = w.into_batches();
    assert_eq!(flatten(&out), vec![row("1", "Alice"), row("2", "Bob")]);
}

#[test]
fn cells_render_nulls_as_empty_strings() {
    let schema = Arc::new(Schema::new(vec![Field::new("id", DataType::Int64, true)]));
    let batch = RecordBatch::try_new(
        schema,
        vec![Arc::new(Int64Array::from(vec![Some(7), None]))],
    )
    .unwrap();
    let rows = batch_cells(&Batch { inner: batch }).unwrap();
    assert_eq!(rows, vec![vec!["7".to_string()], vec!["".to_string()]]);
}
