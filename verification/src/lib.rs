//! A bounded-window previewer for columnar (parquet) file images.
//!
//! The library probes a file image for its metadata, materializes any
//! contiguous range of rows as display-ready cell text, and keeps a single
//! bounded window of rows synchronized with scroll and resize events.

pub mod session;
pub mod storage;
pub mod viewport;

pub use session::{batches_to_rows, headless_preview, load_preview, DataPreview, ViewerError};
pub use viewport::{
    run_preview, rows_per_view, table_height_for_window, PreviewEvent, PreviewView, ROW_HEIGHT,
};
