use std::sync::Arc;

use arrow::array::{Int32Array, StringArray};
use arrow::datatypes::{DataType, Field, Schema};
use arrow::record_batch::RecordBatch;
use parquet::arrow::arrow_writer::ArrowWriter;
use parquet::file::properties::WriterProperties;

use parquet_viewer::{batches_to_rows, headless_preview, load_preview, ViewerError};

fn write_parquet_rows(ids: Vec<i32>, names: Vec<String>) -> Vec<u8> {
    let schema = Arc::new(Schema::new(vec![
        Field::new("id", DataType::Int32, false),
        Field::new("name", DataType::Utf8, false),
    ]));
    let batch = RecordBatch::try_new(
        schema.clone(),
        vec![
            Arc::new(Int32Array::from(ids)),
            Arc::new(StringArray::from(names)),
        ],
    )
    .expect("record batch should build");

    let mut buffer: Vec<u8> = Vec::new();
    let props = WriterProperties::builder().build();
    let mut writer =
        ArrowWriter::try_new(&mut buffer, schema, Some(props)).expect("parquet write should succeed");
    writer.write(&batch).expect("parquet write should succeed");
    writer.close().expect("parquet write should succeed");
    buffer
}

fn write_test_parquet(rows: usize) -> Vec<u8> {
    let ids: Vec<i32> = (0..rows as i32).collect();
    let names: Vec<String> = ids.iter().map(|v| format!("name-{v}")).collect();
    write_parquet_rows(ids, names)
}

#[test]
fn load_preview_reports_metadata() {
    let image = write_test_parquet(4);

    let preview = load_preview(image, 10).expect("preview should load");

    assert_eq!(preview.row_count, 4);
    assert_eq!(preview.column_count, 2);
    assert!(preview.formatted_rows.contains("id"));
    assert!(preview.formatted_rows.contains("name-0"));
    assert_eq!(preview.columns, vec!["id".to_string(), "name".to_string()]);
    assert_eq!(preview.rows.len(), 4);
    assert_eq!(preview.rows[0], vec!["0".to_string(), "name-0".to_string()]);
}

#[test]
fn load_preview_respects_row_limit() {
    let image = write_test_parquet(5);

    let preview = load_preview(image, 2).expect("preview should load");

    assert!(preview.formatted_rows.contains("name-0"));
    assert!(preview.formatted_rows.contains("name-1"));
    assert!(!preview.formatted_rows.contains("name-2"));
    assert_eq!(preview.rows.len(), 2);
}

#[test]
fn rows_for_range_fetches_requested_slice() {
    let image = write_test_parquet(6);

    let preview = load_preview(image, 6).expect("preview should load");

    let rows = preview.rows_for_range(2..5).expect("range fetch should succeed");

    assert_eq!(rows.len(), 3);
    assert_eq!(rows[0], vec!["2".to_string(), "name-2".to_string()]);
    assert_eq!(rows[2], vec!["4".to_string(), "name-4".to_string()]);
}

#[test]
fn rows_for_range_returns_empty_when_start_out_of_bounds() {
    let image = write_test_parquet(2);

    let preview = load_preview(image, 2).expect("preview should load");

    let rows = preview.rows_for_range(5..8).expect("range fetch should succeed");

    assert!(rows.is_empty());
}

#[test]
fn batches_to_rows_stops_at_limit() {
    let image = write_parquet_rows(
        vec![1, 2, 3],
        vec![
            "name-1".to_string(),
            "name-2".to_string(),
            "name-3".to_string(),
        ],
    );
    let preview = load_preview(image, 3).expect("preview should load");
    let batches = preview.load_batches(0, 3).expect("record batch should build");

    let rows = batches_to_rows(&batches, 2).expect("rows should convert");

    assert_eq!(rows.len(), 2);
    assert_eq!(rows[0], vec!["1".to_string(), "name-1".to_string()]);
    assert_eq!(rows[1], vec!["2".to_string(), "name-2".to_string()]);
}

#[test]
fn fetch_spans_multiple_row_groups() {
    let schema = Arc::new(Schema::new(vec![
        Field::new("id", DataType::Int32, false),
        Field::new("name", DataType::Utf8, false),
    ]));
    let ids: Vec<i32> = (0..5).collect();
    let names: Vec<String> = ids.iter().map(|v| format!("name-{v}")).collect();
    let batch = RecordBatch::try_new(
        schema.clone(),
        vec![
            Arc::new(Int32Array::from(ids)),
            Arc::new(StringArray::from(names)),
        ],
    )
    .expect("record batch should build");
    let mut buffer: Vec<u8> = Vec::new();
    let props = WriterProperties::builder().set_max_row_group_row_count(Some(2)).build();
    let mut writer =
        ArrowWriter::try_new(&mut buffer, schema, Some(props)).expect("parquet write should succeed");
    writer.write(&batch).expect("parquet write should succeed");
    writer.close().expect("parquet write should succeed");

    let preview = load_preview(buffer, 10).expect("preview should load");
    assert_eq!(preview.row_count, 5);

    let rows = preview.fetch(1, 3).expect("fetch should succeed");
    assert_eq!(
        rows,
        vec![
            vec!["1".to_string(), "name-1".to_string()],
            vec!["2".to_string(), "name-2".to_string()],
            vec!["3".to_string(), "name-3".to_string()],
        ]
    );
}

#[test]
fn fetch_past_the_end_is_empty_not_an_error() {
    let image = write_test_parquet(3);
    let preview = load_preview(image, 3).expect("preview should load");

    let at_end = preview.fetch(3, 4).expect("fetch at the end should succeed");
    assert!(at_end.is_empty());

    let far_past = preview.fetch(100, 5).expect("fetch past the end should succeed");
    assert!(far_past.is_empty());
}

#[test]
fn fetch_of_zero_rows_is_empty() {
    let image = write_test_parquet(3);
    let preview = load_preview(image, 3).expect("preview should load");

    let none = preview.fetch(1, 0).expect("zero-count fetch should succeed");
    assert!(none.is_empty());

    let none_at_zero = preview.fetch(0, 0).expect("zero-count fetch should succeed");
    assert!(none_at_zero.is_empty());
}

#[test]
fn fetch_is_idempotent_on_an_unmodified_source() {
    let image = write_test_parquet(6);
    let preview = load_preview(image, 6).expect("preview should load");

    let first = preview.fetch(1, 3).expect("fetch should succeed");
    let second = preview.fetch(1, 3).expect("fetch should succeed");

    assert_eq!(first, second);
    assert_eq!(first.len(), 3);
}

#[test]
fn fetch_returns_exact_cells() {
    let image = write_test_parquet(6);
    let preview = load_preview(image, 6).expect("preview should load");

    let rows = preview.fetch(2, 3).expect("fetch should succeed");

    assert_eq!(
        rows,
        vec![
            vec!["2".to_string(), "name-2".to_string()],
            vec!["3".to_string(), "name-3".to_string()],
            vec!["4".to_string(), "name-4".to_string()],
        ]
    );
}

#[test]
fn fetch_truncates_to_available_rows() {
    let image = write_test_parquet(6);
    let preview = load_preview(image, 6).expect("preview should load");

    let rows = preview.fetch(5, 8).expect("fetch should succeed");

    assert_eq!(rows, vec![vec!["5".to_string(), "name-5".to_string()]]);
}

#[test]
fn null_cells_render_as_the_literal_null_string() {
    let schema = Arc::new(Schema::new(vec![
        Field::new("id", DataType::Int32, true),
        Field::new("name", DataType::Utf8, false),
    ]));
    let batch = RecordBatch::try_new(
        schema.clone(),
        vec![
            Arc::new(Int32Array::from(vec![Some(7), None])),
            Arc::new(StringArray::from(vec!["first".to_string(), "second".to_string()])),
        ],
    )
    .expect("record batch should build");
    let mut buffer: Vec<u8> = Vec::new();
    let mut writer =
        ArrowWriter::try_new(&mut buffer, schema, None).expect("parquet write should succeed");
    writer.write(&batch).expect("parquet write should succeed");
    writer.close().expect("parquet write should succeed");

    let preview = load_preview(buffer, 10).expect("preview should load");

    assert_eq!(preview.rows[0][0], "7");
    assert_eq!(preview.rows[1][0], "null");
    assert_ne!(preview.rows[1][0], "");
    assert_eq!(preview.rows[1][1], "second");
}

#[test]
fn probe_counts_match_a_full_scan() {
    let image = write_test_parquet(6);
    let preview = load_preview(image, 100).expect("preview should load");

    let everything = preview.fetch(0, 1000).expect("full fetch should succeed");

    assert_eq!(everything.len(), preview.row_count);
    for row in &everything {
        assert_eq!(row.len(), preview.column_count);
    }
}

#[test]
fn garbage_bytes_fail_with_a_metadata_error() {
    let result = load_preview(b"this is not a parquet file".to_vec(), 5);

    assert!(matches!(result, Err(ViewerError::MetadataFailure(_))));
}

#[test]
fn headless_mode_reports_counts_and_table() {
    let image = write_test_parquet(6);

    let (rows, columns, table) = headless_preview(image, 3).expect("preview should load");

    assert_eq!(rows, 6);
    assert_eq!(columns, 2);
    assert!(table.contains("name-0"));
    assert!(table.contains("name-2"));
    assert!(!table.contains("name-3"));
}

#[test]
fn empty_preview_has_a_placeholder_table() {
    let image = write_test_parquet(0);

    let preview = load_preview(image, 5).expect("preview should load");

    assert_eq!(preview.row_count, 0);
    assert!(preview.rows.is_empty());
    assert_eq!(preview.formatted_rows, "(no rows found)");
}
