//! The preview session: metadata probe output plus the source image, and the
//! range fetcher that materializes any contiguous row range as cell text.

use vstd::math::min;
use vstd::prelude::*;

use crate::storage;
use crate::storage::{
    batch_formats, batch_grid, batches_cells, file_column_names, file_declared_rows, file_formats,
    file_grid, file_pretty, meta_ok, range_ok, schema_ok, total_group_rows, Batch,
};
use parquet::errors::ParquetError;

verus! {

/// Why a probe or a fetch failed.
#[derive(Debug)]
pub enum ViewerError {
    /// The file image's structure or metadata could not be decoded, or its
    /// footer disagrees with its row groups.
    MetadataFailure(ParquetError),
    /// A selected row range could not be read from the image.
    ReadFailure(ParquetError),
    /// A materialized value could not be rendered as text.
    DecodeFailure(ParquetError),
}

/// The text a cell displays as: a null cell displays as the literal string
/// `"null"`, any other cell as its canonical text.
pub open spec fn render_cell(c: Option<Seq<char>>) -> Seq<char> {
    match c {
        Option::Some(t) => t,
        Option::None => "null"@,
    }
}

/// One row of cells, rendered.
pub open spec fn render_row(r: Seq<Option<Seq<char>>>) -> Seq<Seq<char>> {
    r.map_values(|c: Option<Seq<char>>| render_cell(c))
}

/// A grid of cells, rendered row by row.
pub open spec fn render_grid(g: Seq<Seq<Option<Seq<char>>>>) -> Seq<Seq<Seq<char>>> {
    g.map_values(|r: Seq<Option<Seq<char>>>| render_row(r))
}

/// Every condition under which the probe owes a session: the metadata
/// parses, the footer's row count matches the row groups', the schema
/// converts, and — when a sample is to be materialized — the sample range
/// decodes, its columns format, and the pretty printer renders it.
pub open spec fn probe_ok(data: Seq<u8>, row_limit: int) -> bool {
    let pl = min(row_limit, file_grid(data).len() as int);
    &&& meta_ok(data)
    &&& file_declared_rows(data) == file_grid(data).len()
    &&& schema_ok(data)
    &&& (pl > 0 ==> range_ok(data, 0, pl))
    &&& (pl > 0 ==> file_formats(data))
    &&& (pl > 0 ==> file_pretty(data, pl) is Some)
}

/// Totals of row-group counts only grow with the number of groups.
pub proof fn lemma_total_group_rows_mono(data: Seq<u8>, i: int, j: int)
    requires
        0 <= i <= j,
    ensures
        total_group_rows(data, i) <= total_group_rows(data, j),
    decreases j - i,
{
    if i < j {
        lemma_total_group_rows_mono(data, i, j - 1);
    }
}

/// Splitting a sequence of batches splits the rows they hold.
pub proof fn lemma_batches_cells_cat(a: Seq<Batch>, b: Seq<Batch>)
    ensures
        batches_cells(a + b) == batches_cells(a) + batches_cells(b),
    decreases b.len(),
{
    if b.len() == 0 {
        assert(a + b =~= a);
        assert(batches_cells(a) + batches_cells(b) =~= batches_cells(a));
    } else {
        assert((a + b).drop_last() =~= a + b.drop_last());
        lemma_batches_cells_cat(a, b.drop_last());
        assert(batches_cells(a) + batches_cells(b.drop_last()) + batch_grid(b.last()) =~= batches_cells(
            a,
        ) + batches_cells(b));
    }
}

/// A single batch holds exactly its own rows.
pub proof fn lemma_batches_cells_one(b: Batch)
    ensures
        batches_cells(seq![b]) == batch_grid(b),
{
    assert(seq![b].drop_last() =~= Seq::<Batch>::empty());
    assert(batches_cells(Seq::<Batch>::empty()) + batch_grid(b) =~= batch_grid(b));
}

/// Rendering commutes with taking a subrange of the grid.
pub proof fn lemma_render_grid_subrange(g: Seq<Seq<Option<Seq<char>>>>, a: int, b: int)
    requires
        0 <= a <= b <= g.len(),
    ensures
        render_grid(g.subrange(a, b)) == render_grid(g).subrange(a, b),
{
    assert(render_grid(g.subrange(a, b)) =~= render_grid(g).subrange(a, b));
}

/// Converts materialized batches into display rows, truncating once the
/// cumulative row total reaches `row_limit`: the result is the rendered
/// prefix of the rows the batches hold, of length `min(row_limit, total)`.
/// When every batch's columns format as text, the conversion succeeds.
#[verifier::loop_isolation(false)]
pub fn batches_to_rows(batches: &Vec<Batch>, row_limit: usize) -> (r: Result<
    Vec<Vec<String>>,
    ViewerError,
>)
    ensures
        r matches Ok(rows) ==> rows.deep_view() == render_grid(batches_cells(batches@)).take(
            min(row_limit as int, batches_cells(batches@).len() as int),
        ),
        r matches Err(e) ==> e is DecodeFailure,
        (forall|k: int| 0 <= k < batches@.len() ==> #[trigger] batch_formats(batches@[k]))
            ==> r is Ok,
{
    let ghost all = batches_cells(batches@);
    let mut rows: Vec<Vec<String>> = Vec::new();
    let mut i: usize = 0;
    proof {
        assert(batches@.take(0) =~= Seq::<Batch>::empty());
    }
    while i < batches.len()
        invariant
            i <= batches@.len(),
            rows@.len() == min(row_limit as int, batches_cells(batches@.take(i as int)).len() as int),
            rows.deep_view() == render_grid(all).take(rows@.len() as int),
            batches_cells(batches@.take(i as int)).len() <= all.len(),
        decreases batches@.len() - i,
    {
        let nrows = storage::batch_row_count(&batches[i]);
        let ncols = storage::batch_column_count(&batches[i]);
        let ghost before = batches_cells(batches@.take(i as int));
        let ghost gi = batch_grid(batches@[i as int]);
        proof {
            assert(batches@ =~= batches@.take(i as int) + batches@.skip(i as int));
            lemma_batches_cells_cat(batches@.take(i as int), batches@.skip(i as int));
            assert(batches@.skip(i as int) =~= seq![batches@[i as int]] + batches@.skip(
                i as int + 1,
            ));
            lemma_batches_cells_cat(seq![batches@[i as int]], batches@.skip(i as int + 1));
            lemma_batches_cells_one(batches@[i as int]);
            assert(all == before + gi + batches_cells(batches@.skip(i as int + 1)));
        }
        let mut j: usize = 0;
        while j < nrows
            invariant
                j <= gi.len(),
                rows@.len() == min(row_limit as int, before.len() + j),
                rows.deep_view() == render_grid(all).take(rows@.len() as int),
            decreases nrows - j,
        {
            if rows.len() == row_limit {
                proof {
                    assert(before.len() + j <= all.len());
                    assert(rows@.len() == min(row_limit as int, all.len() as int));
                }
                return Ok(rows);
            }
            let mut row: Vec<String> = Vec::new();
            let mut c: usize = 0;
            while c < ncols
                invariant
                    c <= ncols,
                    j < gi.len(),
                    row.deep_view() == render_row(gi[j as int]).take(c as int),
                decreases ncols - c,
            {
                let cell = if storage::batch_cell_is_null(&batches[i], j, c) {
                    "null".to_owned()
                } else {
                    match storage::batch_cell_text(&batches[i], j, c) {
                        Ok(t) => t,
                        Err(e) => {
                            proof {
                                assert(!batch_formats(batches@[i as int]));
                            }
                            return Err(ViewerError::DecodeFailure(e));
                        },
                    }
                };
                row.push(cell);
                proof {
                    assert(row.deep_view() =~= render_row(gi[j as int]).take(c as int + 1));
                }
                c = c + 1;
            }
            proof {
                assert(row.deep_view() =~= render_row(gi[j as int]));
            }
            rows.push(row);
            proof {
                assert(all[before.len() + j as int] == gi[j as int]);
                assert(rows.deep_view() =~= render_grid(all).take(rows@.len() as int));
            }
            j = j + 1;
        }
        proof {
            assert(batches@.take(i as int + 1).drop_last() =~= batches@.take(i as int));
            assert(batches@.take(i as int + 1).last() == batches@[i as int]);
            assert(batches_cells(batches@.take(i as int + 1)) == before + gi);
        }
        i = i + 1;
    }
    proof {
        assert(batches@.take(batches@.len() as int) =~= batches@);
    }
    Ok(rows)
}

/// The immutable aggregate built once at startup: the source image, its
/// probed metadata, and a small pretty-printed sample of its first rows.
pub struct DataPreview {
    /// The raw bytes of the columnar file.
    pub data: Vec<u8>,
    /// A pretty-printed sample of the first rows, for one-shot display.
    pub formatted_rows: String,
    /// The column names, in schema order.
    pub columns: Vec<String>,
    /// The first rows of the file, rendered, up to the probe's row limit.
    pub rows: Vec<Vec<String>>,
    /// The row count of the file, validated against its row groups.
    pub row_count: usize,
    /// The column count of the schema the rows carry.
    pub column_count: usize,
}

impl DataPreview {
    /// The whole file as rendered display text, row by row.
    pub open spec fn grid(self) -> Seq<Seq<Seq<char>>> {
        render_grid(file_grid(self.data@))
    }

    /// The session faithfully reflects the file image it holds.
    pub open spec fn wf(self) -> bool {
        &&& self.row_count == file_grid(self.data@).len()
        &&& self.column_count == self.columns@.len()
        &&& self.columns.deep_view() == file_column_names(self.data@)
        &&& forall|i: int|
            0 <= i < file_grid(self.data@).len() ==> #[trigger] file_grid(self.data@)[i].len()
                == file_column_names(self.data@).len()
        &&& self.rows@.len() <= self.row_count
        &&& self.rows.deep_view() == self.grid().take(self.rows@.len() as int)
    }

    /// The rendered rows a fetch of `[start, start + count)` must return:
    /// the requested range, clamped to the rows the file has.
    pub open spec fn window(self, start: int, count: int) -> Seq<Seq<Seq<char>>> {
        let total = self.grid().len() as int;
        self.grid().subrange(min(start, total), min(start + count, total))
    }

    /// Materializes the batches holding rows `[start, start + limit)` of the
    /// source, clamped to the rows the file has. A start at or past the end,
    /// or a zero limit, yields no batches without touching storage; for an
    /// in-range request the read succeeds exactly when the range decodes.
    pub fn load_batches(&self, start: usize, limit: usize) -> (r: Result<Vec<Batch>, ViewerError>)
        requires
            self.wf(),
        ensures
            r matches Ok(batches) ==> {
                &&& batches_cells(batches@) == file_grid(self.data@).subrange(
                    min(start as int, self.row_count as int),
                    min(start as int + limit as int, self.row_count as int),
                )
                &&& file_formats(self.data@) ==> forall|k: int|
                    0 <= k < batches@.len() ==> #[trigger] batch_formats(batches@[k])
            },
            start >= self.row_count ==> (r matches Ok(batches) && batches@.len() == 0),
            limit == 0 ==> (r matches Ok(batches) && batches@.len() == 0),
            r matches Err(e) ==> e is ReadFailure,
            (start < self.row_count && limit > 0 && range_ok(
                self.data@,
                start as int,
                min(limit as int, self.row_count - start),
            )) ==> r is Ok,
    {
        if start >= self.row_count || limit == 0 {
            let none: Vec<Batch> = Vec::new();
            proof {
                assert(none@ =~= Seq::<Batch>::empty());
                assert(batches_cells(none@) =~= file_grid(self.data@).subrange(
                    min(start as int, self.row_count as int),
                    min(start as int + limit as int, self.row_count as int),
                ));
            }
            return Ok(none);
        }
        let remaining = self.row_count - start;
        let available = if limit < remaining {
            limit
        } else {
            remaining
        };
        match storage::read_batches(&self.data, start, available) {
            Ok(batches) => Ok(batches),
            Err(e) => Err(ViewerError::ReadFailure(e)),
        }
    }

    /// Materializes rows `[start, start + count)` of the source as display
    /// text, independent of any prior fetch. A start at or past the end, or
    /// a zero count, yields an empty grid without touching storage; an
    /// in-range fetch succeeds when the range decodes and the file's
    /// columns format as text.
    pub fn fetch(&self, start: usize, count: usize) -> (r: Result<Vec<Vec<String>>, ViewerError>)
        requires
            self.wf(),
        ensures
            r matches Ok(rows) ==> rows.deep_view() == self.window(start as int, count as int),
            start >= self.row_count ==> (r matches Ok(rows) && rows@.len() == 0),
            count == 0 ==> (r matches Ok(rows) && rows@.len() == 0),
            r matches Err(e) ==> (e is ReadFailure || e is DecodeFailure),
            (start < self.row_count && count > 0 && range_ok(
                self.data@,
                start as int,
                min(count as int, self.row_count - start),
            ) && file_formats(self.data@)) ==> r is Ok,
    {
        if start >= self.row_count {
            let empty: Vec<Vec<String>> = Vec::new();
            proof {
                assert(empty.deep_view() =~= self.window(start as int, count as int));
            }
            return Ok(empty);
        }
        let remaining = self.row_count - start;
        let available = if count < remaining {
            count
        } else {
            remaining
        };
        if available == 0 {
            let empty: Vec<Vec<String>> = Vec::new();
            proof {
                assert(empty.deep_view() =~= self.window(start as int, count as int));
            }
            return Ok(empty);
        }
        let batches = match self.load_batches(start, available) {
            Ok(b) => b,
            Err(e) => {
                return Err(e);
            },
        };
        let rows = match batches_to_rows(&batches, available) {
            Ok(r) => r,
            Err(e) => {
                return Err(e);
            },
        };
        proof {
            lemma_render_grid_subrange(
                file_grid(self.data@),
                start as int,
                start as int + available as int,
            );
            assert(rows.deep_view() =~= self.window(start as int, count as int));
        }
        Ok(rows)
    }

    /// Range-shaped entry to the fetcher: materializes the rows of the
    /// half-open `range`, clamped to the rows the file has. An empty or
    /// inverted range yields an empty grid without touching storage.
    pub fn rows_for_range(&self, range: core::ops::Range<usize>) -> (r: Result<
        Vec<Vec<String>>,
        ViewerError,
    >)
        requires
            self.wf(),
        ensures
            r matches Ok(rows) ==> rows.deep_view() == self.window(
                range.start as int,
                if range.end > range.start {
                    range.end - range.start
                } else {
                    0
                },
            ),
            range.start >= self.row_count ==> (r matches Ok(rows) && rows@.len() == 0),
            range.end <= range.start ==> (r matches Ok(rows) && rows@.len() == 0),
            r matches Err(e) ==> (e is ReadFailure || e is DecodeFailure),
            (range.start < self.row_count && range.end > range.start && range_ok(
                self.data@,
                range.start as int,
                min(range.end - range.start, self.row_count - range.start),
            ) && file_formats(self.data@)) ==> r is Ok,
    {
        let start = range.start;
        let count = if range.end > range.start {
            range.end - range.start
        } else {
            0
        };
        self.fetch(start, count)
    }
}

/// Two fetches of the same range against the same unmodified source that
/// both succeed return the same cell grid: a successful fetch is pinned to
/// `window`, a function of the image and the range alone.
pub proof fn lemma_fetch_idempotent(
    p: DataPreview,
    start: int,
    count: int,
    r1: Seq<Seq<Seq<char>>>,
    r2: Seq<Seq<Seq<char>>>,
)
    requires
        r1 == p.window(start, count),
        r2 == p.window(start, count),
    ensures
        r1 == r2,
{
}

/// The metadata probe agrees with a full scan: for a well-formed session, a
/// fetch of the whole file yields exactly as many rows as the probe
/// reported, each with one cell per probed column.
pub proof fn lemma_probe_counts_match_full_scan(p: DataPreview, rows: Seq<Seq<Seq<char>>>)
    requires
        p.wf(),
        rows == p.window(0, p.row_count as int),
    ensures
        rows.len() == p.row_count,
        forall|i: int| 0 <= i < rows.len() ==> #[trigger] rows[i].len() == p.column_count,
{
    assert(forall|i: int|
        0 <= i < rows.len() ==> #[trigger] rows[i].len() == file_grid(p.data@)[i].len());
}

/// Probes the file image for its metadata and materializes the first
/// `row_limit` rows as the initial sample. The resulting session reflects
/// the image: its row count is the length of the file's logical grid,
/// checked against the footer's declared count, and its column count is
/// the width of the rows. The probe succeeds on every image that decodes
/// (`probe_ok`), and an image whose metadata does not parse is refused.
#[verifier::loop_isolation(false)]
pub fn load_preview(data: Vec<u8>, row_limit: usize) -> (r: Result<DataPreview, ViewerError>)
    ensures
        r matches Ok(p) ==> {
            &&& p.wf()
            &&& p.data@ == data@
            &&& p.row_count == file_grid(data@).len()
            &&& p.column_count == file_column_names(data@).len()
            &&& p.columns.deep_view() == file_column_names(data@)
            &&& p.rows@.len() == min(row_limit as int, file_grid(data@).len() as int)
            &&& p.rows.deep_view() == render_grid(file_grid(data@)).take(
                min(row_limit as int, file_grid(data@).len() as int),
            )
            &&& p.formatted_rows@ == if min(row_limit as int, file_grid(data@).len() as int) > 0 {
                file_pretty(data@, min(row_limit as int, file_grid(data@).len() as int)).unwrap()
            } else {
                "(no rows found)"@
            }
        },
        probe_ok(data@, row_limit as int) ==> r is Ok,
        !meta_ok(data@) ==> (r matches Err(e) && e is MetadataFailure),
{
    let meta = match storage::read_row_metadata(&data) {
        Ok(m) => m,
        Err(e) => {
            return Err(ViewerError::MetadataFailure(e));
        },
    };
    let row_count = meta.0;
    let sizes = meta.1;
    let ghost n_groups = sizes@.len() as int;
    let mut remaining: usize = row_count;
    let mut i: usize = 0;
    while i < sizes.len()
        invariant
            i <= sizes@.len(),
            remaining <= row_count,
            row_count - remaining == total_group_rows(data@, i as int),
        decreases sizes@.len() - i,
    {
        let size = sizes[i];
        if size > remaining {
            proof {
                if probe_ok(data@, row_limit as int) {
                    lemma_total_group_rows_mono(data@, i as int + 1, n_groups);
                }
            }
            return Err(ViewerError::MetadataFailure(storage::row_count_mismatch_error()));
        }
        remaining = remaining - size;
        i = i + 1;
    }
    if remaining > 0 {
        return Err(ViewerError::MetadataFailure(storage::row_count_mismatch_error()));
    }
    let columns = match storage::read_column_names(&data) {
        Ok(c) => c,
        Err(e) => {
            return Err(ViewerError::MetadataFailure(e));
        },
    };
    let column_count = columns.len();
    let preview_limit = if row_limit < row_count {
        row_limit
    } else {
        row_count
    };
    let batches: Vec<Batch> = if preview_limit == 0 {
        Vec::new()
    } else {
        match storage::read_batches(&data, 0, preview_limit) {
            Ok(b) => b,
            Err(e) => {
                return Err(ViewerError::ReadFailure(e));
            },
        }
    };
    proof {
        if preview_limit == 0 {
            assert(batches@ =~= Seq::<Batch>::empty());
            assert(batches_cells(batches@) =~= file_grid(data@).subrange(0, 0));
        }
    }
    let rows = match batches_to_rows(&batches, preview_limit) {
        Ok(r) => r,
        Err(e) => {
            return Err(e);
        },
    };
    let formatted_rows = if preview_limit == 0 {
        "(no rows found)".to_owned()
    } else {
        match storage::read_pretty(&data, preview_limit) {
            Ok(s) => s,
            Err(e) => {
                return Err(ViewerError::DecodeFailure(e));
            },
        }
    };
    proof {
        lemma_render_grid_subrange(file_grid(data@), 0, preview_limit as int);
        assert(rows.deep_view() =~= render_grid(file_grid(data@)).take(preview_limit as int));
    }
    Ok(
        DataPreview {
            data,
            formatted_rows,
            columns,
            rows,
            row_count,
            column_count,
        },
    )
}

/// The headless text mode: probe the image and render up to `row_limit`
/// rows once, returning the counts and the pretty-printed table. Succeeds
/// on every image that decodes; refuses one whose metadata does not parse.
pub fn headless_preview(data: Vec<u8>, row_limit: usize) -> (r: Result<
    (usize, usize, String),
    ViewerError,
>)
    ensures
        r matches Ok(out) ==> {
            &&& out.0 == file_grid(data@).len()
            &&& out.1 == file_column_names(data@).len()
            &&& out.2@ == if min(row_limit as int, file_grid(data@).len() as int) > 0 {
                file_pretty(data@, min(row_limit as int, file_grid(data@).len() as int)).unwrap()
            } else {
                "(no rows found)"@
            }
        },
        probe_ok(data@, row_limit as int) ==> r is Ok,
        !meta_ok(data@) ==> (r matches Err(e) && e is MetadataFailure),
{
    let preview = match load_preview(data, row_limit) {
        Ok(p) => p,
        Err(e) => {
            return Err(e);
        },
    };
    Ok((preview.row_count, preview.column_count, preview.formatted_rows))
}

} // verus!
