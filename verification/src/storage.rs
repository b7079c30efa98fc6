//! Trusted boundary to the columnar storage reader.
//!
//! A parquet file is handled as an in-memory byte image. For a given image,
//! the parquet format determines a logical grid of cells: `file_grid` names
//! that grid, and every wrapper below states its result against it. Decoding
//! an image is a pure computation, so the same image always yields the same
//! grid, the same column names, the same counts, and the same success or
//! failure; the `..._ok` predicates name those success conditions.

use vstd::prelude::*;

use arrow::record_batch::RecordBatch;
use parquet::errors::ParquetError;
use parquet::file::reader::FileReader;

verus! {

#[verifier::external_type_specification]
#[verifier::external_body]
pub struct ExParquetError(ParquetError);

/// An opaque materialized batch of rows, as the storage reader returned it.
/// Verus sees nothing inside it; `batch_grid` names what it holds.
#[verifier::external_body]
pub struct Batch {
    inner: RecordBatch,
}

/// The logical contents of a parquet file image, as the record-batch reader
/// decodes them: one sequence per row, one entry per column; a null cell is
/// `None`, any other cell is `Some` of the storage format's canonical text
/// for the value. The grid's length is the total row count the image's row
/// groups declare — the count that drives the reader — not the separate
/// count the footer declares (`file_declared_rows`); a selection inside the
/// grid either fails or returns exactly the selected rows.
pub uninterp spec fn file_grid(data: Seq<u8>) -> Seq<Seq<Option<Seq<char>>>>;

/// The column names of a parquet file image, read from the schema of its
/// first materializable batch; empty when the file has no row groups.
pub uninterp spec fn file_column_names(data: Seq<u8>) -> Seq<Seq<char>>;

/// The row count the image's footer metadata declares. An image whose
/// footer disagrees with its row groups is corrupt: for it this differs
/// from `file_grid(data).len()`.
pub uninterp spec fn file_declared_rows(data: Seq<u8>) -> nat;

/// The row count the image's `i`-th row group declares.
pub uninterp spec fn group_rows(data: Seq<u8>, i: int) -> nat;

/// The total row count that row groups `0 .. n` declare.
pub open spec fn total_group_rows(data: Seq<u8>, n: int) -> nat
    decreases n,
{
    if n <= 0 {
        0
    } else {
        total_group_rows(data, n - 1) + group_rows(data, n - 1)
    }
}

/// Whether the image's footer metadata parses at all: the success condition
/// of opening a metadata reader on the image.
pub uninterp spec fn meta_ok(data: Seq<u8>) -> bool;

/// Whether the image's schema converts and its first batch decodes: the
/// success condition of the column-name probe.
pub uninterp spec fn schema_ok(data: Seq<u8>) -> bool;

/// Whether rows `[start, start + limit)` of the image decode: the success
/// condition of a selective read of that range.
pub uninterp spec fn range_ok(data: Seq<u8>, start: int, limit: int) -> bool;

/// The cells a materialized batch holds, in row-major order, with the same
/// encoding of nulls and values as `file_grid`.
pub uninterp spec fn batch_grid(b: Batch) -> Seq<Seq<Option<Seq<char>>>>;

/// Whether every column of a batch has a type the text formatter supports,
/// so that each of its cells renders as text.
pub uninterp spec fn batch_formats(b: Batch) -> bool;

/// Whether every column of the image's schema has a type the text
/// formatter supports.
pub uninterp spec fn file_formats(data: Seq<u8>) -> bool;

/// The pretty-printed table of the first `limit` rows of the image, or
/// `None` when those rows do not decode or do not render.
pub uninterp spec fn file_pretty(data: Seq<u8>, limit: int) -> Option<Seq<char>>;

/// The rows that a sequence of batches holds, in order.
pub open spec fn batches_cells(batches: Seq<Batch>) -> Seq<Seq<Option<Seq<char>>>>
    decreases batches.len(),
{
    if batches.len() == 0 {
        Seq::empty()
    } else {
        batches_cells(batches.drop_last()) + batch_grid(batches.last())
    }
}

/// Relies on parquet's `SerializedFileReader`: the file metadata gives the
/// footer's declared row count and each row group's declared row count,
/// without materializing row data. The rows the record-batch reader decodes
/// are exactly the rows the row groups declare, so the grid's length is
/// their total; the footer's count is unvalidated and reported separately.
#[verifier::external_body]
pub(crate) fn read_row_metadata(data: &Vec<u8>) -> (r: Result<(usize, Vec<usize>), ParquetError>)
    ensures
        (r is Ok) == meta_ok(data@),
        r matches Ok(meta) ==> {
            &&& meta.0 == file_declared_rows(data@)
            &&& forall|i: int| 0 <= i < meta.1@.len() ==> meta.1@[i] == group_rows(data@, i)
            &&& file_grid(data@).len() == total_group_rows(data@, meta.1@.len() as int)
        },
{
    let image = bytes::Bytes::copy_from_slice(data.as_slice());
    let reader = parquet::file::reader::SerializedFileReader::new(image)?;
    let meta = reader.metadata();
    let sizes = meta.row_groups().iter().map(|rg| rg.num_rows() as usize).collect();
    Ok((meta.file_metadata().num_rows() as usize, sizes))
}

/// Relies on parquet's `ParquetError::General` to report an image whose
/// footer row count disagrees with what its row groups declare.
#[verifier::external_body]
pub(crate) fn row_count_mismatch_error() -> (r: ParquetError)
{
    ParquetError::General(
        "file footer row count does not match its row groups".to_string(),
    )
}

/// Relies on parquet's `ParquetRecordBatchReaderBuilder`: the schema of the
/// first materializable batch names the columns, and every row of the file
/// decodes to exactly one cell per named column.
#[verifier::external_body]
pub(crate) fn read_column_names(data: &Vec<u8>) -> (r: Result<Vec<String>, ParquetError>)
    ensures
        (r is Ok) == schema_ok(data@),
        r matches Ok(names) ==> {
            &&& names.deep_view() == file_column_names(data@)
            &&& forall|i: int|
                0 <= i < file_grid(data@).len() ==> #[trigger] file_grid(data@)[i].len()
                    == file_column_names(data@).len()
        },
{
    let image = bytes::Bytes::copy_from_slice(data.as_slice());
    let mut reader =
        parquet::arrow::arrow_reader::ParquetRecordBatchReaderBuilder::try_new(image)?.build()?;
    match reader.next() {
        Some(batch) => Ok(batch?.schema().fields().iter().map(|f| f.name().clone()).collect()),
        None => Ok(Vec::new()),
    }
}

/// Relies on parquet's `ParquetRecordBatchReader` driven by a `RowSelection`
/// that skips `start` rows and selects `limit`: the reader materializes
/// exactly the selected rows, in order, without scanning the skipped
/// prefix. The batches carry the file's schema, so when the file's column
/// types all format as text, so do every batch's.
#[verifier::external_body]
pub(crate) fn read_batches(data: &Vec<u8>, start: usize, limit: usize) -> (r: Result<
    Vec<Batch>,
    ParquetError,
>)
    requires
        1 <= limit,
        start + limit <= file_grid(data@).len(),
    ensures
        (r is Ok) == range_ok(data@, start as int, limit as int),
        r matches Ok(batches) ==> {
            &&& batches_cells(batches@) == file_grid(data@).subrange(
                start as int,
                start as int + limit as int,
            )
            &&& file_formats(data@) ==> forall|k: int|
                0 <= k < batches@.len() ==> #[trigger] batch_formats(batches@[k])
        },
{
    let selection = parquet::arrow::arrow_reader::RowSelection::from(vec![
        parquet::arrow::arrow_reader::RowSelector::skip(start),
        parquet::arrow::arrow_reader::RowSelector::select(limit),
    ]);
    let image = bytes::Bytes::copy_from_slice(data.as_slice());
    let reader = parquet::arrow::arrow_reader::ParquetRecordBatchReaderBuilder::try_new(image)?
        .with_row_selection(selection)
        .with_batch_size(limit)
        .build()?;
    let mut batches = Vec::new();
    for batch in reader {
        batches.push(Batch { inner: batch? });
    }
    Ok(batches)
}

/// Relies on arrow's `RecordBatch::num_rows`.
#[verifier::external_body]
pub(crate) fn batch_row_count(b: &Batch) -> (n: usize)
    ensures
        n == batch_grid(*b).len(),
{
    b.inner.num_rows()
}

/// Relies on arrow's `RecordBatch::num_columns`: every column of a batch has
/// the batch's row count, so every row has one cell per column.
#[verifier::external_body]
pub(crate) fn batch_column_count(b: &Batch) -> (n: usize)
    ensures
        forall|i: int| 0 <= i < batch_grid(*b).len() ==> #[trigger] batch_grid(*b)[i].len() == n,
{
    b.inner.num_columns()
}

/// Relies on arrow's `Array::is_null` on the column's array.
#[verifier::external_body]
pub(crate) fn batch_cell_is_null(b: &Batch, row: usize, col: usize) -> (r: bool)
    requires
        row < batch_grid(*b).len(),
        col < batch_grid(*b)[row as int].len(),
    ensures
        r == (batch_grid(*b)[row as int][col as int] is None),
{
    b.inner.column(col).is_null(row)
}

/// Relies on arrow's `array_value_to_string`: the canonical, deterministic
/// human-readable text of a non-null cell. It fails only when the column's
/// type has no text formatter, so on a batch whose columns all format it
/// succeeds.
#[verifier::external_body]
pub(crate) fn batch_cell_text(b: &Batch, row: usize, col: usize) -> (r: Result<
    String,
    ParquetError,
>)
    requires
        row < batch_grid(*b).len(),
        col < batch_grid(*b)[row as int].len(),
        batch_grid(*b)[row as int][col as int] is Some,
    ensures
        r matches Ok(text) ==> text@ == batch_grid(*b)[row as int][col as int].unwrap(),
        batch_formats(*b) ==> r is Ok,
{
    arrow::util::display::array_value_to_string(b.inner.column(col).as_ref(), row).map_err(
        ParquetError::from,
    )
}

/// Relies on parquet's record-batch reader and arrow's
/// `pretty_format_batches`: the pretty-printed table of the image's first
/// `limit` rows, a deterministic function of the image and the limit (the
/// table's layout adapts to its content, never to a terminal).
#[verifier::external_body]
pub(crate) fn read_pretty(data: &Vec<u8>, limit: usize) -> (r: Result<String, ParquetError>)
    requires
        1 <= limit,
        limit <= file_grid(data@).len(),
    ensures
        (r is Ok) == (file_pretty(data@, limit as int) is Some),
        r matches Ok(text) ==> file_pretty(data@, limit as int) == Some(text@),
{
    let selection = parquet::arrow::arrow_reader::RowSelection::from(vec![
        parquet::arrow::arrow_reader::RowSelector::select(limit),
    ]);
    let image = bytes::Bytes::copy_from_slice(data.as_slice());
    let reader = parquet::arrow::arrow_reader::ParquetRecordBatchReaderBuilder::try_new(image)?
        .with_row_selection(selection)
        .with_batch_size(limit)
        .build()?;
    let batches: Vec<RecordBatch> = reader.collect::<Result<Vec<RecordBatch>, _>>()?;
    match arrow::util::pretty::pretty_format_batches(batches.as_slice()) {
        Ok(table) => Ok(format!("{}", table)),
        Err(e) => Err(ParquetError::from(e)),
    }
}

} // verus!
