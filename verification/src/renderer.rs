//! The buffering renderer: layout registration, deferred writes, and the
//! ordered flush.
//!
//! Writes never render anything.  Each write records the visible width of
//! every value in the row's column cells and parks the raw strings in
//! per-column queues; a global write log remembers which layout each row went
//! to.  `flush` renders every buffered row — each against its columns' fully
//! aggregated batch extrema — in exactly the order the rows were written,
//! interleaved across layouts, and then resets all width statistics.

use vstd::prelude::*;
use crate::column::{Column, ColumnLayout, spec_cell, spec_observe, spec_reset};
use crate::row::{ColumnSlot, RowLayout};
use crate::text::{visible_len, visible_width};

verus! {

/// One registered layout: its framing tokens, the arena indices of its
/// column cells, and one pending-value queue per column.
#[derive(Debug)]
pub struct LayoutEntry {
    pub start: String,
    pub end: String,
    pub sep: String,
    pub col_ids: Vec<usize>,
    pub queues: Vec<Vec<String>>,
}

/// The buffering renderer.  `cols` is the arena of every column cell
/// reachable from a registered layout; entries of `write_log` are indices
/// into `layouts`, one per buffered row, in submission order.
#[derive(Debug)]
pub struct Renderer {
    pub cols: Vec<Column>,
    pub layouts: Vec<LayoutEntry>,
    pub newline: String,
    pub begin: String,
    pub end: String,
    pub write_log: Vec<usize>,
}

/// Number of entries equal to `h` in `log`.
pub open spec fn occ(log: Seq<usize>, h: int) -> nat
    decreases log.len(),
{
    if log.len() == 0 {
        0
    } else {
        occ(log.drop_last(), h) + (if log.last() as int == h {
            1nat
        } else {
            0nat
        })
    }
}

/// A count never exceeds the log length.
pub proof fn lemma_occ_le_len(log: Seq<usize>, h: int)
    ensures
        occ(log, h) <= log.len(),
    decreases log.len(),
{
    if log.len() > 0 {
        lemma_occ_le_len(log.drop_last(), h);
    }
}

/// Appending one entry raises exactly that entry's count by one.
pub proof fn lemma_occ_push(log: Seq<usize>, h: int, x: usize)
    ensures
        occ(log.push(x), h) == occ(log, h) + (if x as int == h {
            1nat
        } else {
            0nat
        }),
{
    assert(log.push(x).drop_last() =~= log);
}

/// Extending a prefix by one position raises the count by one exactly when
/// the new position carries `h`.
pub proof fn lemma_occ_take_step(log: Seq<usize>, h: int, i: int)
    requires
        0 <= i < log.len(),
    ensures
        occ(log.take(i + 1), h) == occ(log.take(i), h) + (if log[i] as int == h {
            1nat
        } else {
            0nat
        }),
{
    assert(log.take(i + 1).drop_last() =~= log.take(i));
    assert(log.take(i + 1).last() == log[i]);
}

/// Counts grow with the prefix.
pub proof fn lemma_occ_take_le(log: Seq<usize>, h: int, i: int, j: int)
    requires
        0 <= i <= j <= log.len(),
    ensures
        occ(log.take(i), h) <= occ(log.take(j), h),
    decreases j - i,
{
    if i < j {
        lemma_occ_take_le(log, h, i, j - 1);
        lemma_occ_take_step(log, h, j - 1);
    }
}

/// A handle no entry carries has count zero.
pub proof fn lemma_occ_absent(log: Seq<usize>, h: int)
    requires
        forall|i: int| 0 <= i < log.len() ==> (log[i] as int) != h,
    ensures
        occ(log, h) == 0,
    decreases log.len(),
{
    if log.len() > 0 {
        assert(forall|i: int|
            0 <= i < log.drop_last().len() ==> (log.drop_last()[i] as int) != h);
        lemma_occ_absent(log.drop_last(), h);
    }
}

/// Whether a slot's shared index, if any, falls inside an arena of `ncols`
/// cells.
pub open spec fn slot_ok(s: ColumnSlot, ncols: int) -> bool {
    match s {
        ColumnSlot::Shared(id) => (id as int) < ncols,
        ColumnSlot::Fresh(_) => true,
    }
}

/// Number of `Fresh` slots among the first `c` slots.
pub open spec fn fresh_count(slots: Seq<ColumnSlot>, c: int) -> nat
    decreases c,
{
    if c <= 0 {
        0
    } else {
        fresh_count(slots, c - 1) + (if slots[c - 1] is Fresh {
            1nat
        } else {
            0nat
        })
    }
}

/// The arena cells after the columns of one row, with visible widths
/// `vals[c]`, have been observed in order, one cell per id; a cell mentioned
/// twice sees both observations.
pub open spec fn observe_cols(
    cols: Seq<Column>,
    ids: Seq<usize>,
    vals: Seq<String>,
    c: int,
) -> Seq<Column>
    decreases c,
{
    if c <= 0 {
        cols
    } else {
        let prev = observe_cols(cols, ids, vals, c - 1);
        let id = ids[c - 1] as int;
        prev.update(id, spec_observe(prev[id], visible_len(vals[c - 1]@) as usize))
    }
}

/// In a run of slots that are all `Fresh`, the number of fresh slots among
/// the first `c` is `c` itself.
pub proof fn lemma_fresh_count_all(slots: Seq<ColumnSlot>, c: int)
    requires
        0 <= c <= slots.len(),
        forall|j: int| 0 <= j < c ==> (#[trigger] slots[j]) is Fresh,
    ensures
        fresh_count(slots, c) == c,
    decreases c,
{
    if c > 0 {
        lemma_fresh_count_all(slots, c - 1);
    }
}

/// When the ids form the identity mapping, observing one row touches each
/// cell exactly once: cell `j` of the first `k` sees the visible width of
/// value `j`, and the cells beyond `k` stay as they were.
pub proof fn lemma_observe_cols_identity(
    cols: Seq<Column>,
    ids: Seq<usize>,
    vals: Seq<String>,
    k: int,
)
    requires
        0 <= k <= ids.len(),
        ids.len() <= cols.len(),
        ids.len() <= vals.len(),
        forall|c: int| 0 <= c < ids.len() ==> (#[trigger] ids[c]) as int == c,
    ensures
        observe_cols(cols, ids, vals, k).len() == cols.len(),
        forall|j: int|
            0 <= j < k ==> #[trigger] observe_cols(cols, ids, vals, k)[j] == spec_observe(
                cols[j],
                visible_len(vals[j]@) as usize,
            ),
        forall|j: int|
            k <= j < cols.len() ==> #[trigger] observe_cols(cols, ids, vals, k)[j] == cols[j],
    decreases k,
{
    if k > 0 {
        lemma_observe_cols_identity(cols, ids, vals, k - 1);
    }
}

/// Whether `e` is `e0` with all pending-value queues drained and everything
/// else untouched.
pub open spec fn entry_cleared(e: LayoutEntry, e0: LayoutEntry) -> bool {
    &&& e.start == e0.start
    &&& e.end == e0.end
    &&& e.sep == e0.sep
    &&& e.col_ids == e0.col_ids
    &&& e.queues@.len() == e0.queues@.len()
    &&& forall|c: int| 0 <= c < e.queues@.len() ==> e.queues@[c]@ == Seq::<String>::empty()
}

impl Default for Renderer {
    /// Same as `Renderer::new`.
    fn default() -> (r: Renderer)
        ensures
            r.cols@ == Seq::<Column>::empty(),
            r.layouts@ == Seq::<LayoutEntry>::empty(),
            r.newline@ == seq!['\n'],
            r.begin@ == Seq::<char>::empty(),
            r.end@ == Seq::<char>::empty(),
            r.write_log@ == Seq::<usize>::empty(),
            r.wf(),
    {
        Renderer::new()
    }
}

impl Renderer {
    /// Structural soundness: every log entry names a registered layout, every
    /// column id of every layout falls inside the arena, and every
    /// pending-value queue of a layout holds exactly one value per write
    /// logged for that layout.
    pub open spec fn wf(self) -> bool {
        &&& forall|h: int| 0 <= h < self.layouts@.len() ==> self.layout_wf(h)
        &&& forall|i: int|
            0 <= i < self.write_log@.len() ==> (self.write_log@[i] as int) < self.layouts@.len()
    }

    pub open spec fn layout_wf(self, h: int) -> bool {
        let e = self.layouts@[h];
        &&& e.queues@.len() == e.col_ids@.len()
        &&& forall|c: int|
            0 <= c < e.col_ids@.len() ==> (e.col_ids@[c] as int) < self.cols@.len()
        &&& forall|c: int|
            0 <= c < e.queues@.len() ==> e.queues@[c]@.len() == occ(self.write_log@, h)
    }

    /// A renderer with no layouts, newline `"\n"`, and empty framing.
    pub fn new() -> (r: Renderer)
        ensures
            r.cols@ == Seq::<Column>::empty(),
            r.layouts@ == Seq::<LayoutEntry>::empty(),
            r.newline@ == seq!['\n'],
            r.begin@ == Seq::<char>::empty(),
            r.end@ == Seq::<char>::empty(),
            r.write_log@ == Seq::<usize>::empty(),
            r.wf(),
    {
        let newline = "\n".to_owned();
        proof {
            reveal_strlit("\n");
            assert(newline@ =~= seq!['\n']);
        }
        Renderer {
            cols: Vec::new(),
            layouts: Vec::new(),
            newline,
            begin: String::new(),
            end: String::new(),
            write_log: Vec::new(),
        }
    }

    /// Sets the string put between two rendered rows.
    pub fn set_newline(&mut self, newline: String)
        ensures
            *final(self) == (Renderer { newline, ..*old(self) }),
    {
        self.newline = newline;
    }

    /// Sets the stored block-framing head string.  The flush format emits
    /// rows and newlines only, so this string never enters the output; it is
    /// kept as configured.
    pub fn set_begin(&mut self, begin: String)
        ensures
            *final(self) == (Renderer { begin, ..*old(self) }),
    {
        self.begin = begin;
    }

    /// Sets the stored block-framing tail string; like the head string it is
    /// kept but not emitted by the flush format.
    pub fn set_end(&mut self, end: String)
        ensures
            *final(self) == (Renderer { end, ..*old(self) }),
    {
        self.end = end;
    }

    /// Allocates a column cell in the renderer's arena and returns its index.
    /// The index can be linked into any number of row layouts with
    /// `RowLayout::push_column`, so that all of them aggregate width
    /// statistics in this one cell.
    pub fn share_column(&mut self, layout: ColumnLayout) -> (id: usize)
        requires
            old(self).wf(),
        ensures
            final(self).wf(),
            id == old(self).cols@.len(),
            final(self).cols@ == old(self).cols@.push(
                Column { layout, min: usize::MAX, max: 0 },
            ),
            final(self).layouts == old(self).layouts,
            final(self).newline == old(self).newline,
            final(self).begin == old(self).begin,
            final(self).end == old(self).end,
            final(self).write_log == old(self).write_log,
    {
        let id = self.cols.len();
        self.cols.push(Column::new(layout));
        proof {
            assert(forall|h: int| 0 <= h < self.layouts@.len() ==> self.layout_wf(h)) by {
                assert(forall|h: int|
                    0 <= h < self.layouts@.len() ==> old(self).layout_wf(h) ==> self.layout_wf(
                        h,
                    ));
            }
        }
        id
    }

    /// Registers a row layout and returns its handle: the index subsequent
    /// `write_to_layout` calls use.  Fresh column slots move into the arena
    /// as new cells, one per slot, in order; shared slots keep the arena cell
    /// they name.  One empty pending-value queue is set up per column.
    pub fn register_layout(&mut self, layout: RowLayout) -> (h: usize)
        requires
            old(self).wf(),
            forall|i: int|
                0 <= i < layout.columns@.len() ==> slot_ok(
                    layout.columns@[i],
                    old(self).cols@.len() as int,
                ),
        ensures
            final(self).wf(),
            h == old(self).layouts@.len(),
            final(self).layouts@.len() == old(self).layouts@.len() + 1,
            forall|j: int|
                0 <= j < old(self).layouts@.len() ==> final(self).layouts@[j] == old(self).layouts@[j],
            final(self).layouts@[h as int].start == layout.start,
            final(self).layouts@[h as int].end == layout.end,
            final(self).layouts@[h as int].sep == layout.sep,
            final(self).layouts@[h as int].col_ids@.len() == layout.columns@.len(),
            final(self).layouts@[h as int].queues@.len() == layout.columns@.len(),
            forall|c: int|
                0 <= c < layout.columns@.len() ==> final(self).layouts@[h as int].queues@[c]@ == Seq::<String>::empty(),
            final(self).cols@.len() == old(self).cols@.len() + fresh_count(
                layout.columns@,
                layout.columns@.len() as int,
            ),
            forall|i: int|
                0 <= i < old(self).cols@.len() ==> final(self).cols@[i] == old(self).cols@[i],
            forall|c: int|
                0 <= c < layout.columns@.len() ==> match #[trigger] layout.columns@[c] {
                    ColumnSlot::Shared(id) => final(self).layouts@[h as int].col_ids@[c] == id,
                    ColumnSlot::Fresh(col) => {
                        &&& final(self).layouts@[h as int].col_ids@[c] as int == old(self).cols@.len() + fresh_count(layout.columns@, c)
                        &&& final(self).cols@[final(self).layouts@[h as int].col_ids@[c] as int] == col
                    },
                },
            final(self).newline == old(self).newline,
            final(self).begin == old(self).begin,
            final(self).end == old(self).end,
            final(self).write_log == old(self).write_log,
    {
        let ghost slots = layout.columns@;
        let n = layout.columns.len();
        let mut col_ids: Vec<usize> = Vec::new();
        let mut queues: Vec<Vec<String>> = Vec::new();
        let mut c: usize = 0;
        while c < n
            invariant
                n == slots.len(),
                slots == layout.columns@,
                c <= n,
                col_ids@.len() == c,
                queues@.len() == c,
                forall|i: int| 0 <= i < n ==> slot_ok(slots[i], old(self).cols@.len() as int),
                self.cols@.len() == old(self).cols@.len() + fresh_count(slots, c as int),
                forall|i: int|
                    0 <= i < old(self).cols@.len() ==> self.cols@[i] == old(self).cols@[i],
                forall|j: int|
                    0 <= j < c ==> match #[trigger] slots[j] {
                        ColumnSlot::Shared(id) => col_ids@[j] == id,
                        ColumnSlot::Fresh(col) => {
                            &&& col_ids@[j] as int == old(self).cols@.len() + fresh_count(
                                slots,
                                j,
                            )
                            &&& self.cols@[col_ids@[j] as int] == col
                        },
                    },
                forall|j: int| 0 <= j < c ==> (col_ids@[j] as int) < self.cols@.len(),
                forall|j: int| 0 <= j < c ==> queues@[j]@ == Seq::<String>::empty(),
                self.layouts == old(self).layouts,
                self.newline == old(self).newline,
                self.begin == old(self).begin,
                self.end == old(self).end,
                self.write_log == old(self).write_log,
            decreases n - c,
        {
            let slot = layout.columns[c];
            match slot {
                ColumnSlot::Shared(id) => {
                    col_ids.push(id);
                },
                ColumnSlot::Fresh(col) => {
                    let id = self.cols.len();
                    self.cols.push(col);
                    col_ids.push(id);
                },
            }
            queues.push(Vec::new());
            c = c + 1;
        }
        let h = self.layouts.len();
        let entry = LayoutEntry {
            start: layout.start,
            end: layout.end,
            sep: layout.sep,
            col_ids,
            queues,
        };
        self.layouts.push(entry);
        proof {
            assert(forall|i: int|
                0 <= i < self.write_log@.len() ==> (self.write_log@[i] as int) < h as int);
            lemma_occ_absent(self.write_log@, h as int);
            assert forall|h2: int| 0 <= h2 < h as int implies self.layout_wf(h2) by {
                assert(old(self).layout_wf(h2));
                assert(self.layouts@[h2] == old(self).layouts@[h2]);
                assert(self.write_log@ == old(self).write_log@);
                assert(old(self).cols@.len() <= self.cols@.len());
            }
            assert(self.layout_wf(h as int));
        }
        h
    }

    /// Buffers one row for the layout at `handle`.
    ///
    /// When `handle` names no registered layout, or the number of values
    /// disagrees with the layout's column count, the write is silently
    /// dropped: no value is queued, no width observed, no log entry made.
    /// Otherwise the visible width of each value is recorded in that
    /// column's cell, the raw values are queued, and the handle is appended
    /// to the write log.
    pub fn write_to_layout(&mut self, handle: usize, data: &[String])
        requires
            old(self).wf(),
        ensures
            final(self).wf(),
            ((handle as int) >= old(self).layouts@.len() || data@.len() != old(self).layouts@[handle as int].col_ids@.len()) ==> *final(self) == *old(self),
            ((handle as int) < old(self).layouts@.len() && data@.len() == old(self).layouts@[handle as int].col_ids@.len()) ==> {
                &&& final(self).write_log@ == old(self).write_log@.push(handle)
                &&& final(self).layouts@.len() == old(self).layouts@.len()
                &&& forall|h: int|
                    0 <= h < old(self).layouts@.len() && h != handle as int ==> final(self).layouts@[h] == old(self).layouts@[h]
                &&& final(self).layouts@[handle as int].start == old(self).layouts@[handle as int].start
                &&& final(self).layouts@[handle as int].end == old(self).layouts@[handle as int].end
                &&& final(self).layouts@[handle as int].sep == old(self).layouts@[handle as int].sep
                &&& final(self).layouts@[handle as int].col_ids == old(self).layouts@[handle as int].col_ids
                &&& final(self).layouts@[handle as int].queues@.len() == data@.len()
                &&& forall|c: int|
                    0 <= c < data@.len() ==> final(self).layouts@[handle as int].queues@[c]@
                        == old(self).layouts@[handle as int].queues@[c]@.push(data@[c])
                &&& final(self).cols@ == observe_cols(
                    old(self).cols@,
                    old(self).layouts@[handle as int].col_ids@,
                    data@,
                    data@.len() as int,
                )
            },
            final(self).newline == old(self).newline,
            final(self).begin == old(self).begin,
            final(self).end == old(self).end,
    {
        if handle >= self.layouts.len() {
            return;
        }
        let n = self.layouts[handle].col_ids.len();
        if n != data.len() {
            return;
        }
        let ghost ids = self.layouts@[handle as int].col_ids@;
        proof {
            assert(old(self).layout_wf(handle as int));
        }
        let mut c: usize = 0;
        while c < n
            invariant
                old(self).wf(),
                (handle as int) < old(self).layouts@.len(),
                n == data@.len(),
                c <= n,
                ids == old(self).layouts@[handle as int].col_ids@,
                ids.len() == n,
                forall|j: int| 0 <= j < n ==> (ids[j] as int) < old(self).cols@.len(),
                self.cols@ == observe_cols(old(self).cols@, ids, data@, c as int),
                self.cols@.len() == old(self).cols@.len(),
                self.layouts@.len() == old(self).layouts@.len(),
                forall|h: int|
                    0 <= h < old(self).layouts@.len() && h != handle as int ==> self.layouts@[h]
                        == old(self).layouts@[h],
                self.layouts@[handle as int].start == old(self).layouts@[handle as int].start,
                self.layouts@[handle as int].end == old(self).layouts@[handle as int].end,
                self.layouts@[handle as int].sep == old(self).layouts@[handle as int].sep,
                self.layouts@[handle as int].col_ids == old(self).layouts@[handle as int].col_ids,
                self.layouts@[handle as int].queues@.len() == n,
                forall|c2: int|
                    0 <= c2 < c ==> self.layouts@[handle as int].queues@[c2]@ == old(self).layouts@[handle as int].queues@[c2]@.push(data@[c2]),
                forall|c2: int|
                    c <= c2 < n ==> self.layouts@[handle as int].queues@[c2] == old(self).layouts@[handle as int].queues@[c2],
                self.write_log == old(self).write_log,
                self.newline == old(self).newline,
                self.begin == old(self).begin,
                self.end == old(self).end,
            decreases n - c,
        {
            let cid = self.layouts[handle].col_ids[c];
            let w = visible_width(data[c].as_str());
            proof {
                assert(visible_len(data@[c as int]@) as usize == w);
            }
            self.cols[cid].observe(w);
            self.layouts[handle].queues[c].push(data[c].clone());
            c = c + 1;
        }
        self.write_log.push(handle);
        proof {
            assert(self.write_log@ == old(self).write_log@.push(handle));
            assert forall|h2: int| 0 <= h2 < self.layouts@.len() implies self.layout_wf(h2) by {
                assert(old(self).layout_wf(h2));
                lemma_occ_push(old(self).write_log@, h2, handle);
                if h2 == handle as int {
                    assert forall|c2: int|
                        0 <= c2 < self.layouts@[h2].queues@.len() implies self.layouts@[
                        h2].queues@[c2]@.len() == occ(self.write_log@, h2) by {
                        assert(self.layouts@[h2].queues@[c2]@ == old(self).layouts@[
                        h2].queues@[c2]@.push(data@[c2]));
                        assert(old(self).layouts@[h2].queues@[c2]@.len() == occ(
                            old(self).write_log@,
                            h2,
                        ));
                    }
                } else {
                    assert(self.layouts@[h2] == old(self).layouts@[h2]);
                }
            }
        }
    }

    /// The rendered text of column `c` of the `k`-th buffered row of layout
    /// `h`: the queued value, rendered under the cell's policy against the
    /// cell's aggregated batch maximum.
    pub open spec fn spec_cell_at(self, h: int, c: int, k: int) -> Seq<char> {
        let e = self.layouts@[h];
        let col = self.cols@[e.col_ids@[c] as int];
        spec_cell(col.layout, col.max as nat, e.queues@[c]@[k]@)
    }

    /// The first `c` cells of the `k`-th buffered row of layout `h`, joined
    /// by the layout's separator.
    pub open spec fn spec_cells(self, h: int, k: int, c: int) -> Seq<char>
        decreases c,
    {
        if c <= 0 {
            Seq::empty()
        } else if c == 1 {
            self.spec_cell_at(h, 0, k)
        } else {
            self.spec_cells(h, k, c - 1) + self.layouts@[h].sep@ + self.spec_cell_at(h, c - 1, k)
        }
    }

    /// The `k`-th buffered row of layout `h`, fully rendered: start token,
    /// separated cells, end token.
    pub open spec fn spec_row(self, h: int, k: int) -> Seq<char> {
        self.layouts@[h].start@ + self.spec_cells(
            h,
            k,
            self.layouts@[h].col_ids@.len() as int,
        ) + self.layouts@[h].end@
    }

    /// The flush output of the first `i` write-log entries: each entry is
    /// rendered as the next pending row of its layout, rows joined by the
    /// newline string, with no trailing newline.
    pub open spec fn spec_flush_upto(self, i: int) -> Seq<char>
        decreases i,
    {
        if i <= 0 {
            Seq::empty()
        } else {
            let h = self.write_log@[i - 1] as int;
            let k = occ(self.write_log@.take(i - 1), h) as int;
            let row = self.spec_row(h, k);
            if i == 1 {
                row
            } else {
                self.spec_flush_upto(i - 1) + self.newline@ + row
            }
        }
    }

    /// The complete flush output: every buffered row, in the exact order the
    /// rows were written, interleaved across layouts.
    pub open spec fn spec_flush_output(self) -> Seq<char> {
        self.spec_flush_upto(self.write_log@.len() as int)
    }

    /// Renders the `k`-th buffered row of layout `h` onto the end of `buf`.
    fn render_row(&self, h: usize, k: usize, buf: &mut String)
        requires
            self.wf(),
            (h as int) < self.layouts@.len(),
            (k as nat) < occ(self.write_log@, h as int),
        ensures
            final(buf)@ == old(buf)@ + self.spec_row(h as int, k as int),
    {
        let ghost buf0 = old(buf)@;
        let ghost hh = h as int;
        proof {
            assert(self.layout_wf(hh));
        }
        buf.append(self.layouts[h].start.as_str());
        let ghost started = buf0 + self.layouts@[hh].start@;
        let n = self.layouts[h].col_ids.len();
        proof {
            assert(started + self.spec_cells(hh, k as int, 0) =~= started);
        }
        let mut c: usize = 0;
        while c < n
            invariant
                self.wf(),
                hh == h as int,
                hh < self.layouts@.len(),
                n == self.layouts@[hh].col_ids@.len(),
                n == self.layouts@[hh].queues@.len(),
                (k as nat) < occ(self.write_log@, hh),
                c <= n,
                started == buf0 + self.layouts@[hh].start@,
                buf@ == started + self.spec_cells(hh, k as int, c as int),
            decreases n - c,
        {
            let ghost before = buf@;
            if c > 0 {
                buf.append(self.layouts[h].sep.as_str());
            }
            let cid = self.layouts[h].col_ids[c];
            proof {
                assert(self.layout_wf(hh));
                assert((cid as int) < self.cols@.len());
                assert((k as nat) < self.layouts@[hh].queues@[c as int]@.len());
            }
            self.cols[cid].render(self.layouts[h].queues[c][k].as_str(), buf);
            proof {
                let cell = self.spec_cell_at(hh, c as int, k as int);
                let sep = self.layouts@[hh].sep@;
                let cells = self.spec_cells(hh, k as int, c as int);
                if c == 0 {
                    assert(buf@ == before + cell);
                    assert(self.spec_cells(hh, k as int, 1) == cell);
                    assert((started + self.spec_cells(hh, k as int, 0)) + cell =~= started
                        + cell);
                } else {
                    assert(buf@ == (before + sep) + cell);
                    assert(self.spec_cells(hh, k as int, c as int + 1) == cells + sep + cell);
                    assert(((started + cells) + sep) + cell =~= started + (cells + sep
                        + cell));
                }
            }
            c = c + 1;
        }
        buf.append(self.layouts[h].end.as_str());
        proof {
            let cells = self.spec_cells(hh, k as int, n as int);
            let endtok = self.layouts@[hh].end@;
            assert((started + cells) + endtok =~= buf0 + (self.layouts@[hh].start@ + cells
                + endtok));
        }
    }

    /// Renders every buffered row, in write order, joined by the newline
    /// string; then drains the write log and all pending-value queues and
    /// resets the width extrema of every column cell of the arena.  Flushing
    /// with nothing buffered yields the empty string.
    pub fn flush(&mut self) -> (out: String)
        requires
            old(self).wf(),
        ensures
            out@ == old(self).spec_flush_output(),
            final(self).wf(),
            final(self).write_log@ == Seq::<usize>::empty(),
            final(self).cols@.len() == old(self).cols@.len(),
            forall|i: int|
                0 <= i < old(self).cols@.len() ==> final(self).cols@[i] == spec_reset(
                    old(self).cols@[i],
                ),
            final(self).layouts@.len() == old(self).layouts@.len(),
            forall|h: int|
                0 <= h < old(self).layouts@.len() ==> entry_cleared(
                    #[trigger] final(self).layouts@[h],
                    old(self).layouts@[h],
                ),
            final(self).newline == old(self).newline,
            final(self).begin == old(self).begin,
            final(self).end == old(self).end,
    {
        let ghost r0 = *old(self);
        let mut buf = String::new();
        let mut cursors: Vec<usize> = Vec::new();
        let nlay = self.layouts.len();
        let mut j: usize = 0;
        while j < nlay
            invariant
                j <= nlay,
                cursors@.len() == j,
                forall|t: int| 0 <= t < j ==> cursors@[t] == 0,
                *self == r0,
                nlay == r0.layouts@.len(),
            decreases nlay - j,
        {
            cursors.push(0);
            j = j + 1;
        }
        let m = self.write_log.len();
        proof {
            assert(r0.write_log@.take(0) =~= Seq::<usize>::empty());
            assert(buf@ =~= r0.spec_flush_upto(0));
        }
        let mut i: usize = 0;
        while i < m
            invariant
                *self == r0,
                r0.wf(),
                m == r0.write_log@.len(),
                i <= m,
                cursors@.len() == r0.layouts@.len(),
                forall|t: int|
                    0 <= t < cursors@.len() ==> cursors@[t] as nat == occ(
                        r0.write_log@.take(i as int),
                        t,
                    ),
                buf@ == r0.spec_flush_upto(i as int),
            decreases m - i,
        {
            let h = self.write_log[i];
            let k = cursors[h];
            proof {
                lemma_occ_take_step(r0.write_log@, h as int, i as int);
                lemma_occ_take_le(r0.write_log@, h as int, i as int + 1, m as int);
                assert(r0.write_log@.take(m as int) =~= r0.write_log@);
                lemma_occ_le_len(r0.write_log@.take(i as int), h as int);
            }
            let ghost rows_before = buf@;
            if i > 0 {
                buf.append(self.newline.as_str());
            }
            self.render_row(h, k, &mut buf);
            proof {
                let row = r0.spec_row(h as int, k as int);
                if i == 0 {
                    assert(buf@ == rows_before + row);
                    assert(Seq::<char>::empty() + row =~= row);
                } else {
                    assert(buf@ == (rows_before + r0.newline@) + row);
                }
                assert(buf@ == r0.spec_flush_upto(i as int + 1));
            }
            cursors[h] = k + 1;
            proof {
                assert forall|t: int| 0 <= t < cursors@.len() implies cursors@[t] as nat == occ(
                    r0.write_log@.take(i as int + 1),
                    t,
                ) by {
                    lemma_occ_take_step(r0.write_log@, t, i as int);
                }
            }
            i = i + 1;
        }
        proof {
            assert(r0.write_log@.take(m as int) =~= r0.write_log@);
        }
        let ncols = self.cols.len();
        let mut t: usize = 0;
        while t < ncols
            invariant
                ncols == r0.cols@.len(),
                t <= ncols,
                self.cols@.len() == ncols,
                forall|x: int| 0 <= x < t ==> self.cols@[x] == spec_reset(r0.cols@[x]),
                forall|x: int| t <= x < ncols ==> self.cols@[x] == r0.cols@[x],
                self.layouts == r0.layouts,
                self.write_log == r0.write_log,
                self.newline == r0.newline,
                self.begin == r0.begin,
                self.end == r0.end,
            decreases ncols - t,
        {
            self.cols[t].reset();
            t = t + 1;
        }
        self.write_log.clear();
        let mut h2: usize = 0;
        while h2 < nlay
            invariant
                nlay == r0.layouts@.len(),
                h2 <= nlay,
                self.layouts@.len() == nlay,
                forall|x: int|
                    0 <= h2 <= x < nlay ==> self.layouts@[x] == r0.layouts@[x],
                forall|x: int|
                    0 <= x < h2 ==> entry_cleared(#[trigger] self.layouts@[x], r0.layouts@[x]),
                self.cols@.len() == r0.cols@.len(),
                forall|x: int|
                    0 <= x < r0.cols@.len() ==> self.cols@[x] == spec_reset(r0.cols@[x]),
                self.write_log@ == Seq::<usize>::empty(),
                self.newline == r0.newline,
                self.begin == r0.begin,
                self.end == r0.end,
            decreases nlay - h2,
        {
            let nq = self.layouts[h2].queues.len();
            let mut c2: usize = 0;
            while c2 < nq
                invariant
                    h2 < nlay,
                    nlay == r0.layouts@.len(),
                    self.layouts@.len() == nlay,
                    nq == r0.layouts@[h2 as int].queues@.len(),
                    self.layouts@[h2 as int].queues@.len() == nq,
                    c2 <= nq,
                    self.layouts@[h2 as int].start == r0.layouts@[h2 as int].start,
                    self.layouts@[h2 as int].end == r0.layouts@[h2 as int].end,
                    self.layouts@[h2 as int].sep == r0.layouts@[h2 as int].sep,
                    self.layouts@[h2 as int].col_ids == r0.layouts@[h2 as int].col_ids,
                    forall|y: int|
                        0 <= y < c2 ==> self.layouts@[h2 as int].queues@[y]@ == Seq::<
                            String,
                        >::empty(),
                    forall|y: int|
                        c2 <= y < nq ==> self.layouts@[h2 as int].queues@[y] == r0.layouts@[
                            h2 as int].queues@[y],
                    forall|x: int|
                        h2 < x < nlay ==> self.layouts@[x] == r0.layouts@[x],
                    forall|x: int|
                        0 <= x < h2 ==> entry_cleared(
                            #[trigger] self.layouts@[x],
                            r0.layouts@[x],
                        ),
                    self.cols@.len() == r0.cols@.len(),
                    forall|x: int|
                        0 <= x < r0.cols@.len() ==> self.cols@[x] == spec_reset(r0.cols@[x]),
                    self.write_log@ == Seq::<usize>::empty(),
                    self.newline == r0.newline,
                    self.begin == r0.begin,
                    self.end == r0.end,
                decreases nq - c2,
            {
                self.layouts[h2].queues[c2].clear();
                c2 = c2 + 1;
            }
            h2 = h2 + 1;
        }
        proof {
            assert forall|h3: int| 0 <= h3 < self.layouts@.len() implies self.layout_wf(h3) by {
                assert(r0.layout_wf(h3));
                assert(entry_cleared(self.layouts@[h3], r0.layouts@[h3]));
            }
        }
        buf
    }
}

} // verus!
