//! Trusted boundary to the columnar batch representation.
//!
//! A batch is an ordered chunk of rows sharing one schema, one typed array
//! per column. Verus refuses a declaration of the columnar library's batch
//! type (its impls involve trait objects), so the library holds it inside
//! an opaque struct. Verified code sees a batch through two names — the
//! sequence of its rows, each row the sequence of its cells' display
//! strings, and its column count — and through the small wrappers below,
//! which are the only places that call into the columnar library.

use vstd::prelude::*;

verus! {

/// An ordered chunk of rows with one typed array per column, opaque to
/// verification but for the names and wrappers of this module. The field
/// is public so that unverified callers can wrap the batches a file reader
/// yields and hand the windowed batches back to their writers.
#[verifier::external_body]
pub struct Batch {
    pub inner: arrow::array::RecordBatch,
}

/// The rows a batch holds, in order; each row is the sequence of its cells'
/// canonical display strings, one per column. The display string of a cell
/// is a function of the stored column data alone.
pub uninterp spec fn batch_rows(b: Batch) -> Seq<Seq<Seq<char>>>;

/// The number of columns a batch holds.
pub uninterp spec fn batch_width(b: Batch) -> nat;

/// Whether the display formatter supports every column type of the batch;
/// this depends on the column types alone, not on any row.
pub uninterp spec fn batch_displayable(b: Batch) -> bool;

impl Batch {
    /// Relies on `arrow::array::RecordBatch::num_rows`: the common length
    /// of the batch's column arrays.
    #[verifier::external_body]
    pub fn num_rows(&self) -> (n: usize)
        ensures
            n == batch_rows(*self).len(),
    {
        self.inner.num_rows()
    }

    /// Relies on `arrow::array::RecordBatch::num_columns`; a batch is
    /// rectangular, so every row has exactly that many cells.
    #[verifier::external_body]
    pub fn num_columns(&self) -> (n: usize)
        ensures
            n == batch_width(*self),
            forall|i: int|
                0 <= i < batch_rows(*self).len() ==> (#[trigger] batch_rows(*self)[i]).len() == n,
    {
        self.inner.num_columns()
    }

    /// Relies on `arrow::array::RecordBatch::slice`: the result holds rows
    /// `offset .. offset + length` of this batch, as zero-copy views of
    /// the same column data, so their cells display identically.
    #[verifier::external_body]
    pub fn slice(&self, offset: usize, length: usize) -> (r: Batch)
        requires
            offset + length <= batch_rows(*self).len(),
        ensures
            batch_rows(r) == batch_rows(*self).subrange(offset as int, offset + length),
            batch_width(r) == batch_width(*self),
            batch_displayable(r) == batch_displayable(*self),
    {
        Batch { inner: self.inner.slice(offset, length) }
    }

    /// Relies on `arrow::array::RecordBatch`'s `Clone`: the clone shares
    /// the same schema and column data.
    #[verifier::external_body]
    pub fn duplicate(&self) -> (r: Batch)
        ensures
            batch_rows(r) == batch_rows(*self),
            batch_width(r) == batch_width(*self),
            batch_displayable(r) == batch_displayable(*self),
    {
        Batch { inner: self.inner.clone() }
    }

    /// Relies on `arrow::util::display::array_value_to_string` with default
    /// format options: the display string of one cell, a null rendered as
    /// the empty string. It fails only when the formatter does not support
    /// a column's type; with the error-displaying option set, a value that
    /// cannot be formatted is written into the string instead.
    #[verifier::external_body]
    pub fn cell_text(&self, row: usize, col: usize) -> (r: Result<String, String>)
        requires
            row < batch_rows(*self).len(),
            col < batch_width(*self),
        ensures
            r matches Ok(s) ==> s@ == batch_rows(*self)[row as int][col as int],
            batch_displayable(*self) ==> r is Ok,
    {
        match arrow::util::display::array_value_to_string(self.inner.column(col), row) {
            Ok(s) => Ok(s),
            Err(e) => Err(e.to_string()),
        }
    }
}

} // verus!
