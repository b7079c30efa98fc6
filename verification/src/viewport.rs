//! The viewport controller: a bounded window of rows kept in sync with
//! scroll and resize events, as verified state transitions.

use vstd::math::{max, min};
use vstd::prelude::*;

use crate::session::{load_preview, probe_ok, DataPreview, ViewerError};
use crate::storage::{file_formats, file_grid, meta_ok, range_ok};

verus! {

/// Height of one table row, in device-independent units.
pub const ROW_HEIGHT: usize = 28;

/// The page size a display area of the given height gives: the height
/// divided by the row height, floored, but at least one row.
pub open spec fn spec_rows_per_view(height: int) -> int {
    if height / (ROW_HEIGHT as int) >= 1 {
        height / (ROW_HEIGHT as int)
    } else {
        1
    }
}

/// Number of rows that fit a content area of the given height.
pub fn rows_per_view(height: usize) -> (n: usize)
    ensures
        n == spec_rows_per_view(height as int),
        n >= 1,
{
    let n = height / ROW_HEIGHT;
    if n >= 1 {
        n
    } else {
        1
    }
}

/// An event from the display surface, in row units.
#[derive(Clone, Copy, Debug)]
pub enum PreviewEvent {
    /// The surface scrolled by this many rows (negative scrolls up).
    Scroll(isize),
    /// The surface's content height changed to this many units.
    Resize(usize),
    /// A cell was clicked, by window-local row offset and column index.
    Click(usize, usize),
}

/// The controller's one mutable piece of state: the current window, the
/// page size, and the advisory cell selection.
pub struct PreviewView {
    /// The immutable session this view reads from.
    pub preview: DataPreview,
    /// The rows of the current window, rendered.
    pub visible_rows: Vec<Vec<String>>,
    /// The global index of the window's first row.
    pub range_start: usize,
    /// Rows that fit the display area at its current height.
    pub rows_per_view: usize,
    /// The highlighted cell, in global row index space.
    pub selected_cell: Option<(usize, usize)>,
}

/// Minimum content height granted to the table, in device-independent units.
pub const MIN_TABLE_HEIGHT: usize = 200;

/// Fixed chrome around the table inside a window, in device-independent units.
pub const TABLE_PADDING: usize = 260;

/// Content height left for the table in a window of the given height: the
/// window height minus the fixed chrome, but at least the minimum height.
pub fn table_height_for_window(window_height: usize) -> (h: usize)
    ensures
        h as int == max(window_height as int - TABLE_PADDING as int, MIN_TABLE_HEIGHT as int),
{
    if window_height >= TABLE_PADDING + MIN_TABLE_HEIGHT {
        window_height - TABLE_PADDING
    } else {
        MIN_TABLE_HEIGHT
    }
}

/// Where a window asked to start at `start` actually starts: clamped to the
/// last row of the file, and to zero for an empty file.
pub open spec fn spec_clamped_start(start: int, total: int) -> int {
    if total == 0 {
        0
    } else if start < total {
        start
    } else {
        total - 1
    }
}

/// How many rows a window starting at `start` holds: a full page, unless
/// the end of the file cuts it short.
pub open spec fn spec_window_len(start: int, page: int, total: int) -> int {
    min(page, total - start)
}

/// The largest start a scroll may reach: the start of the last full page.
pub open spec fn spec_max_start(total: int, page: int) -> int {
    if total > page {
        total - page
    } else {
        0
    }
}

/// `x` forced into the closed interval `[lo, hi]`.
pub open spec fn spec_clamp(x: int, lo: int, hi: int) -> int {
    if x < lo {
        lo
    } else if x > hi {
        hi
    } else {
        x
    }
}

/// Where a scroll of `delta` rows moves a window that starts at `start`:
/// the new start, clamped between the top and the last page start.
pub open spec fn scroll_target(start: int, delta: int, total: int, page: int) -> int {
    spec_clamp(start + delta, 0, spec_max_start(total, page))
}

impl PreviewView {
    /// The view is coherent: its session is well formed, its page size is
    /// positive, and whatever window it shows is a true window of the file.
    pub open spec fn wf(self) -> bool {
        &&& self.preview.wf()
        &&& 1 <= self.rows_per_view
        &&& self.range_start + self.visible_rows@.len() <= self.preview.row_count
        &&& self.visible_rows.deep_view() == self.preview.grid().subrange(
            self.range_start as int,
            self.range_start as int + self.visible_rows@.len() as int,
        )
        &&& (self.preview.row_count == 0 ==> self.range_start == 0)
        &&& (self.preview.row_count > 0 ==> self.range_start < self.preview.row_count)
    }

    /// The initial view state: the window at the top of the file, nothing
    /// materialized yet, page size derived from the display height.
    pub fn new(preview: DataPreview, height: usize) -> (v: PreviewView)
        requires
            preview.wf(),
        ensures
            v.wf(),
            v.preview == preview,
            v.range_start == 0,
            v.visible_rows@.len() == 0,
            v.rows_per_view == spec_rows_per_view(height as int),
            v.selected_cell is None,
    {
        let v = PreviewView {
            preview,
            visible_rows: Vec::new(),
            range_start: 0,
            rows_per_view: rows_per_view(height),
            selected_cell: None,
        };
        proof {
            assert(v.visible_rows.deep_view() =~= v.preview.grid().subrange(0, 0));
        }
        v
    }

    /// Replaces the window with the page of rows starting at `start`
    /// (clamped into the file). On a fetch failure the previous window is
    /// kept unchanged: stale display over broken display.
    pub fn load_visible_rows(&mut self, start: usize) -> (r: Result<(), ViewerError>)
        requires
            old(self).wf(),
        ensures
            final(self).wf(),
            final(self).preview == old(self).preview,
            final(self).rows_per_view == old(self).rows_per_view,
            final(self).selected_cell == old(self).selected_cell,
            old(self).preview.row_count == 0 ==> (r matches Ok(u) && final(self).range_start == 0
                && final(self).visible_rows@.len() == 0),
            r matches Ok(u) ==> {
                &&& final(self).range_start == spec_clamped_start(
                    start as int,
                    old(self).preview.row_count as int,
                )
                &&& final(self).visible_rows@.len() == spec_window_len(
                    final(self).range_start as int,
                    old(self).rows_per_view as int,
                    old(self).preview.row_count as int,
                )
            },
            r matches Err(e) ==> (*final(self) == *old(self) && (e is ReadFailure
                || e is DecodeFailure)),
            old(self).preview.row_count > 0 ==> {
                let s = spec_clamped_start(start as int, old(self).preview.row_count as int);
                ((range_ok(
                    old(self).preview.data@,
                    s,
                    spec_window_len(
                        s,
                        old(self).rows_per_view as int,
                        old(self).preview.row_count as int,
                    ),
                ) && file_formats(old(self).preview.data@)) ==> r is Ok)
            },
    {
        if self.preview.row_count == 0 {
            self.visible_rows = Vec::new();
            self.range_start = 0;
            proof {
                assert(self.visible_rows.deep_view() =~= self.preview.grid().subrange(0, 0));
            }
            return Ok(());
        }
        let total = self.preview.row_count;
        let s = if start < total {
            start
        } else {
            total - 1
        };
        let e = match s.checked_add(self.rows_per_view) {
            Some(t) => if t < total {
                t
            } else {
                total
            },
            None => total,
        };
        match self.preview.rows_for_range(s..e) {
            Ok(rows) => {
                self.range_start = s;
                self.visible_rows = rows;
                proof {
                    assert(s < total && s + 1 <= e <= total);
                    assert(self.visible_rows.deep_view() == self.preview.grid().subrange(
                        s as int,
                        e as int,
                    ));
                    assert(self.visible_rows@.len() == e - s);
                }
                Ok(())
            },
            Err(err) => Err(err),
        }
    }

    /// Recomputes the page size from the new display height; when it
    /// changed, re-derives the window at the current start. Resizing never
    /// moves the window's start.
    pub fn update_rows_for_resize(&mut self, new_height: usize) -> (r: Result<(), ViewerError>)
        requires
            old(self).wf(),
        ensures
            final(self).wf(),
            final(self).preview == old(self).preview,
            final(self).selected_cell == old(self).selected_cell,
            final(self).rows_per_view == spec_rows_per_view(new_height as int),
            final(self).range_start == old(self).range_start,
            spec_rows_per_view(new_height as int) == old(self).rows_per_view ==> (r matches Ok(u)
                && *final(self) == *old(self)),
            (r matches Ok(u) && spec_rows_per_view(new_height as int) != old(self).rows_per_view)
                ==> final(self).visible_rows@.len() == spec_window_len(
                old(self).range_start as int,
                spec_rows_per_view(new_height as int),
                old(self).preview.row_count as int,
            ),
            r matches Err(e) ==> (final(self).visible_rows == old(self).visible_rows && (
            e is ReadFailure || e is DecodeFailure)),
            old(self).preview.row_count == 0 ==> r is Ok,
            (old(self).preview.row_count > 0 && range_ok(
                old(self).preview.data@,
                old(self).range_start as int,
                spec_window_len(
                    old(self).range_start as int,
                    spec_rows_per_view(new_height as int),
                    old(self).preview.row_count as int,
                ),
            ) && file_formats(old(self).preview.data@)) ==> r is Ok,
    {
        let page = rows_per_view(new_height);
        if page == self.rows_per_view {
            return Ok(());
        }
        self.rows_per_view = page;
        let start = self.range_start;
        self.load_visible_rows(start)
    }

    /// Scrolls the window by a signed number of rows, clamped between the
    /// top and the last page start. A scroll that would not move the window
    /// issues no fetch; a fetch failure keeps the previous window.
    pub fn scroll_view(&mut self, delta_rows: isize) -> (r: Result<(), ViewerError>)
        requires
            old(self).wf(),
        ensures
            final(self).wf(),
            final(self).preview == old(self).preview,
            final(self).rows_per_view == old(self).rows_per_view,
            final(self).selected_cell == old(self).selected_cell,
            old(self).preview.row_count == 0 ==> (r matches Ok(u) && *final(self) == *old(self)),
            old(self).preview.row_count > 0 ==> {
                let target = scroll_target(
                    old(self).range_start as int,
                    delta_rows as int,
                    old(self).preview.row_count as int,
                    old(self).rows_per_view as int,
                );
                &&& (target == old(self).range_start ==> (r matches Ok(u)
                    && *final(self) == *old(self)))
                &&& ((r matches Ok(u) && target != old(self).range_start)
                    ==> final(self).range_start == target
                    && final(self).visible_rows@.len() == spec_window_len(
                    target,
                    old(self).rows_per_view as int,
                    old(self).preview.row_count as int,
                ))
                &&& (r matches Err(e) ==> (*final(self) == *old(self) && (e is ReadFailure
                    || e is DecodeFailure)))
                &&& ((target != old(self).range_start && range_ok(
                    old(self).preview.data@,
                    target,
                    spec_window_len(
                        target,
                        old(self).rows_per_view as int,
                        old(self).preview.row_count as int,
                    ),
                ) && file_formats(old(self).preview.data@)) ==> r is Ok)
            },
    {
        if self.preview.row_count == 0 {
            return Ok(());
        }
        let total = self.preview.row_count;
        let max_start = if total > self.rows_per_view {
            total - self.rows_per_view
        } else {
            0
        };
        let current = self.range_start;
        let target: usize = if delta_rows >= 0 {
            match current.checked_add(delta_rows as usize) {
                Some(t) => if t > max_start {
                    max_start
                } else {
                    t
                },
                None => max_start,
            }
        } else {
            let magnitude: usize = if delta_rows == isize::MIN {
                (isize::MAX as usize) + 1
            } else {
                (-delta_rows) as usize
            };
            let lowered = if magnitude > current {
                0
            } else {
                current - magnitude
            };
            if lowered > max_start {
                max_start
            } else {
                lowered
            }
        };
        if target == current {
            return Ok(());
        }
        self.load_visible_rows(target)
    }

    /// Selects the clicked cell, translating the window-local row offset
    /// into the file's global row index space. The selection is advisory:
    /// it is never validated against later windows and survives them.
    pub fn on_cell_click(&mut self, window_local_row: usize, column: usize)
        requires
            old(self).wf(),
            window_local_row < old(self).visible_rows@.len(),
        ensures
            final(self).wf(),
            final(self).preview == old(self).preview,
            final(self).visible_rows == old(self).visible_rows,
            final(self).range_start == old(self).range_start,
            final(self).rows_per_view == old(self).rows_per_view,
            final(self).selected_cell matches Some(sel) && sel.0 == old(self).range_start
                + window_local_row && sel.1 == column,
    {
        self.selected_cell = Some((self.range_start + window_local_row, column));
    }
}

/// The mathematical image of the view's mutable state: window start, page
/// size, window length, and the advisory selection.
pub struct ViewModel {
    pub start: int,
    pub page: int,
    pub len: int,
    pub selection: Option<(int, int)>,
}

impl PreviewView {
    /// The model of this view's current state.
    pub open spec fn model(self) -> ViewModel {
        ViewModel {
            start: self.range_start as int,
            page: self.rows_per_view as int,
            len: self.visible_rows@.len() as int,
            selection: match self.selected_cell {
                Option::Some(s) => Option::Some((s.0 as int, s.1 as int)),
                Option::None => Option::None,
            },
        }
    }
}

/// The view model a session starts from: the window at the top, a page
/// size derived from the display height, and the first page shown.
pub open spec fn initial_model(height: int, total: int) -> ViewModel {
    let page = spec_rows_per_view(height);
    ViewModel { start: 0, page, len: spec_window_len(0, page, total), selection: None }
}

/// One surface event applied to a view model over a file of `total` rows,
/// assuming any fetch the event issues succeeds.
pub open spec fn step_view(m: ViewModel, ev: PreviewEvent, total: int) -> ViewModel {
    match ev {
        PreviewEvent::Scroll(d) => {
            if total == 0 {
                m
            } else {
                let t = scroll_target(m.start, d as int, total, m.page);
                if t == m.start {
                    m
                } else {
                    ViewModel { start: t, len: spec_window_len(t, m.page, total), ..m }
                }
            }
        },
        PreviewEvent::Resize(h) => {
            let p2 = spec_rows_per_view(h as int);
            if p2 == m.page {
                m
            } else {
                ViewModel { page: p2, len: spec_window_len(m.start, p2, total), ..m }
            }
        },
        PreviewEvent::Click(r, c) => {
            if (r as int) < m.len {
                ViewModel { selection: Some((m.start + r, c as int)), ..m }
            } else {
                m
            }
        },
    }
}

/// A sequence of surface events applied in order.
pub open spec fn fold_events(m: ViewModel, events: Seq<PreviewEvent>, total: int) -> ViewModel
    decreases events.len(),
{
    if events.len() == 0 {
        m
    } else {
        fold_events(step_view(m, events[0], total), events.drop_first(), total)
    }
}

/// Folding one more event steps the fold's result once.
pub proof fn lemma_fold_events_snoc(
    m: ViewModel,
    events: Seq<PreviewEvent>,
    ev: PreviewEvent,
    total: int,
)
    ensures
        fold_events(m, events.push(ev), total) == step_view(
            fold_events(m, events, total),
            ev,
            total,
        ),
    decreases events.len(),
{
    if events.len() == 0 {
        assert(events.push(ev)[0] == ev);
        assert(events.push(ev).drop_first() =~= Seq::<PreviewEvent>::empty());
        assert(fold_events(step_view(m, ev, total), events.push(ev).drop_first(), total)
            == step_view(m, ev, total));
    } else {
        assert(events.push(ev)[0] == events[0]);
        assert(events.push(ev).drop_first() =~= events.drop_first().push(ev));
        lemma_fold_events_snoc(step_view(m, events[0], total), events.drop_first(), ev, total);
    }
}

/// Every in-bounds row range of the image decodes.
pub open spec fn all_ranges_ok(data: Seq<u8>) -> bool {
    forall|a: int, l: int|
        0 <= a && 1 <= l && a + l <= file_grid(data).len() ==> #[trigger] range_ok(data, a, l)
}

/// Loads a preview from a file image and drives the view through a
/// sequence of surface events in order, applying the stale-window policy:
/// a failed re-fetch keeps the previous window and the session goes on.
/// On an image that probes and fully decodes, the run succeeds and the
/// final state is exactly the events folded over the step model.
pub fn run_preview(
    data: Vec<u8>,
    row_limit: usize,
    height: usize,
    events: &Vec<PreviewEvent>,
) -> (r: Result<PreviewView, ViewerError>)
    ensures
        r matches Ok(v) ==> (v.wf() && v.preview.data@ == data@),
        (probe_ok(data@, row_limit as int) && all_ranges_ok(data@) && file_formats(data@)) ==> (
        r matches Ok(v) && v.model() == fold_events(
            initial_model(height as int, file_grid(data@).len() as int),
            events@,
            file_grid(data@).len() as int,
        )),
        !meta_ok(data@) ==> (r matches Err(e) && e is MetadataFailure),
{
    let ghost image = data@;
    let ghost total = file_grid(data@).len() as int;
    let ghost lucky = probe_ok(data@, row_limit as int) && all_ranges_ok(data@) && file_formats(
        data@,
    );
    let ghost m0 = initial_model(height as int, total);
    let preview = match load_preview(data, row_limit) {
        Ok(p) => p,
        Err(e) => {
            return Err(e);
        },
    };
    let mut view = PreviewView::new(preview, height);
    let first = view.load_visible_rows(0);
    proof {
        if lucky {
            if total > 0 {
                assert(range_ok(image, 0, spec_window_len(0, view.rows_per_view as int, total)));
            }
            assert(first is Ok);
            assert(view.model() == m0);
        }
    }
    let mut i: usize = 0;
    while i < events.len()
        invariant
            view.wf(),
            view.preview.data@ == image,
            i <= events@.len(),
            total == file_grid(image).len(),
            lucky == (probe_ok(image, row_limit as int) && all_ranges_ok(image) && file_formats(
                image,
            )),
            m0 == initial_model(height as int, total),
            lucky ==> view.model() == fold_events(m0, events@.take(i as int), total),
        decreases events@.len() - i,
    {
        let ev = events[i];
        let ghost pre = view.model();
        match ev {
            PreviewEvent::Scroll(d) => {
                let ghost target = scroll_target(pre.start, d as int, total, pre.page);
                proof {
                    if lucky && total > 0 && target != pre.start {
                        assert(range_ok(image, target, spec_window_len(target, pre.page, total)));
                    }
                }
                let outcome = view.scroll_view(d);
                proof {
                    if lucky {
                        assert(outcome is Ok);
                        assert(view.model() == step_view(pre, ev, total));
                    }
                }
            },
            PreviewEvent::Resize(h) => {
                proof {
                    if lucky && total > 0 && spec_rows_per_view(h as int) != pre.page {
                        assert(range_ok(
                            image,
                            pre.start,
                            spec_window_len(pre.start, spec_rows_per_view(h as int), total),
                        ));
                    }
                }
                let outcome = view.update_rows_for_resize(h);
                proof {
                    if lucky {
                        assert(outcome is Ok);
                        assert(view.model() == step_view(pre, ev, total));
                    }
                }
            },
            PreviewEvent::Click(row, col) => {
                if row < view.visible_rows.len() {
                    view.on_cell_click(row, col);
                }
                proof {
                    if lucky {
                        assert(view.model() == step_view(pre, ev, total));
                    }
                }
            },
        }
        proof {
            if lucky {
                lemma_fold_events_snoc(m0, events@.take(i as int), events@[i as int], total);
                assert(events@.take(i as int + 1) =~= events@.take(i as int).push(
                    events@[i as int],
                ));
            }
        }
        i = i + 1;
    }
    proof {
        assert(events@.take(events@.len() as int) =~= events@);
    }
    Ok(view)
}

/// The window start reached after `n` single-row downward scrolls from the
/// top of a file with `total` rows under page size `page`.
pub open spec fn iterated_scroll(n: nat, total: int, page: int) -> int
    decreases n,
{
    if n == 0 {
        0
    } else {
        scroll_target(iterated_scroll((n - 1) as nat, total, page), 1, total, page)
    }
}

/// After `n` single-row scrolls from the top, the window start is exactly
/// the smaller of `n` and the last page start.
pub proof fn lemma_iterated_scroll_value(n: nat, total: int, page: int)
    requires
        0 <= total,
        1 <= page,
    ensures
        iterated_scroll(n, total, page) == min(n as int, spec_max_start(total, page)),
    decreases n,
{
    if n > 0 {
        lemma_iterated_scroll_value((n - 1) as nat, total, page);
    }
}

/// Windowing correctness: starting from the top of a file with `total`
/// rows, `total` repeated one-row scrolls leave the window start exactly at
/// `max(0, total - page)`, and no intermediate position ever exceeds that
/// bound.
pub proof fn lemma_scroll_to_end(total: int, page: int)
    requires
        0 <= total,
        1 <= page,
    ensures
        iterated_scroll(total as nat, total, page) == spec_max_start(total, page),
        forall|n: nat|
            n <= total ==> #[trigger] iterated_scroll(n, total, page) <= spec_max_start(
                total,
                page,
            ),
{
    lemma_iterated_scroll_value(total as nat, total, page);
    assert forall|n: nat|
        n <= total implies #[trigger] iterated_scroll(n, total, page) <= spec_max_start(
        total,
        page,
    ) by {
        lemma_iterated_scroll_value(n, total, page);
    }
}

} // verus!
