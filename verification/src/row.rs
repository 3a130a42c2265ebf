//! Row composition: an ordered sequence of column cells plus the framing
//! tokens (start, end, separator) used when a row is rendered.
//!
//! A row layout holds each of its columns either as a fresh cell of its own
//! (`ColumnSlot::Fresh`) or as a reference, by index, to a shared cell
//! allocated from the renderer's arena (`ColumnSlot::Shared`).  A shared cell
//! may be linked into several row layouts, so its width statistics aggregate
//! across every row written to any layout that mentions it — that keeps
//! visually aligned columns in sync across heterogeneous row shapes.

use vstd::prelude::*;
use crate::column::{Column, ColumnLayout, spec_reset};

verus! {

/// One column position of a row layout: a cell of the layout's own, or an
/// index into the renderer's arena of shared cells.
#[derive(Clone, Copy, Debug)]
pub enum ColumnSlot {
    Fresh(Column),
    Shared(usize),
}

/// A slot after a width-statistics reset: a fresh cell loses its extrema, a
/// shared reference is untouched (the arena cell is reset by the renderer).
pub open spec fn spec_reset_slot(s: ColumnSlot) -> ColumnSlot {
    match s {
        ColumnSlot::Fresh(c) => ColumnSlot::Fresh(spec_reset(c)),
        ColumnSlot::Shared(id) => ColumnSlot::Shared(id),
    }
}

/// Purely structural description of one row shape: framing tokens and the
/// ordered column slots.  No buffered data lives here.
#[derive(Debug)]
pub struct RowLayout {
    pub start: String,
    pub end: String,
    pub sep: String,
    pub columns: Vec<ColumnSlot>,
}

impl Default for RowLayout {
    /// Same as `RowLayout::new`.
    fn default() -> (r: RowLayout)
        ensures
            r.start@ == Seq::<char>::empty(),
            r.end@ == Seq::<char>::empty(),
            r.sep@ == Seq::<char>::empty(),
            r.columns@ == Seq::<ColumnSlot>::empty(),
    {
        RowLayout::new()
    }
}

impl RowLayout {
    /// An empty row layout: no columns, empty framing tokens.
    pub fn new() -> (r: RowLayout)
        ensures
            r.start@ == Seq::<char>::empty(),
            r.end@ == Seq::<char>::empty(),
            r.sep@ == Seq::<char>::empty(),
            r.columns@ == Seq::<ColumnSlot>::empty(),
    {
        RowLayout { start: String::new(), end: String::new(), sep: String::new(), columns: Vec::new() }
    }

    /// A row of `N` columns that all carry the same policy, each with a fresh
    /// cell of its own, separated by `sep`.
    pub fn with_cols<const N: usize>(column: ColumnLayout, sep: String) -> (r: RowLayout)
        ensures
            r.start@ == Seq::<char>::empty(),
            r.end@ == Seq::<char>::empty(),
            r.sep == sep,
            r.columns@.len() == N,
            forall|i: int|
                0 <= i < N ==> r.columns@[i] == ColumnSlot::Fresh(
                    Column { layout: column, min: usize::MAX, max: 0 },
                ),
    {
        let mut columns: Vec<ColumnSlot> = Vec::new();
        let mut k: usize = 0;
        while k < N
            invariant
                k <= N,
                columns@.len() == k,
                forall|i: int|
                    0 <= i < k ==> columns@[i] == ColumnSlot::Fresh(
                        Column { layout: column, min: usize::MAX, max: 0 },
                    ),
            decreases N - k,
        {
            columns.push(ColumnSlot::Fresh(Column::new(column)));
            k = k + 1;
        }
        RowLayout { start: String::new(), end: String::new(), sep, columns }
    }

    pub fn set_start_token(&mut self, token: String)
        ensures
            *final(self) == (RowLayout { start: token, ..*old(self) }),
    {
        self.start = token;
    }

    pub fn set_end_token(&mut self, token: String)
        ensures
            *final(self) == (RowLayout { end: token, ..*old(self) }),
    {
        self.end = token;
    }

    pub fn set_separator(&mut self, token: String)
        ensures
            *final(self) == (RowLayout { sep: token, ..*old(self) }),
    {
        self.sep = token;
    }

    /// Links a shared cell of the renderer's arena, by the index that
    /// `Renderer::share_column` returned, enabling cross-layout width
    /// aggregation.
    pub fn push_column(&mut self, column: usize)
        ensures
            final(self).columns@ == old(self).columns@.push(ColumnSlot::Shared(column)),
            final(self).start == old(self).start,
            final(self).end == old(self).end,
            final(self).sep == old(self).sep,
    {
        self.columns.push(ColumnSlot::Shared(column));
    }

    /// Appends a fresh, unshared cell wrapping the given policy.
    pub fn push_column_layout(&mut self, column: ColumnLayout)
        ensures
            final(self).columns@ == old(self).columns@.push(
                ColumnSlot::Fresh(Column { layout: column, min: usize::MAX, max: 0 }),
            ),
            final(self).start == old(self).start,
            final(self).end == old(self).end,
            final(self).sep == old(self).sep,
    {
        self.columns.push(ColumnSlot::Fresh(Column::new(column)));
    }

    /// Appends one fresh cell per policy, in order.
    pub fn extend_column_layouts(&mut self, columns: &[ColumnLayout])
        ensures
            final(self).columns@ == old(self).columns@ + columns@.map_values(
                |cl: ColumnLayout| ColumnSlot::Fresh(Column { layout: cl, min: usize::MAX, max: 0 }),
            ),
            final(self).start == old(self).start,
            final(self).end == old(self).end,
            final(self).sep == old(self).sep,
    {
        let ghost mapped = columns@.map_values(
            |cl: ColumnLayout| ColumnSlot::Fresh(Column { layout: cl, min: usize::MAX, max: 0 }),
        );
        let n = columns.len();
        let mut k: usize = 0;
        while k < n
            invariant
                k <= n,
                n == columns@.len(),
                mapped == columns@.map_values(
                    |cl: ColumnLayout| ColumnSlot::Fresh(
                        Column { layout: cl, min: usize::MAX, max: 0 },
                    ),
                ),
                self.columns@ == old(self).columns@ + mapped.take(k as int),
                self.start == old(self).start,
                self.end == old(self).end,
                self.sep == old(self).sep,
            decreases n - k,
        {
            self.columns.push(ColumnSlot::Fresh(Column::new(columns[k])));
            proof {
                assert((old(self).columns@ + mapped.take(k as int)).push(mapped[k as int])
                    =~= old(self).columns@ + mapped.take(k as int + 1));
            }
            k = k + 1;
        }
        proof {
            assert(mapped.take(n as int) =~= mapped);
        }
    }

    /// Resets the width extrema of every fresh cell of this layout.  Shared
    /// cells live in the renderer's arena and are reset by `Renderer::flush`.
    pub fn reset(&mut self)
        ensures
            final(self).columns@ == old(self).columns@.map_values(
                |s: ColumnSlot| spec_reset_slot(s),
            ),
            final(self).start == old(self).start,
            final(self).end == old(self).end,
            final(self).sep == old(self).sep,
    {
        let ghost mapped = old(self).columns@.map_values(|s: ColumnSlot| spec_reset_slot(s));
        let n = self.columns.len();
        let mut k: usize = 0;
        while k < n
            invariant
                k <= n,
                n == self.columns@.len(),
                self.columns@.len() == old(self).columns@.len(),
                mapped == old(self).columns@.map_values(|s: ColumnSlot| spec_reset_slot(s)),
                forall|i: int| 0 <= i < k ==> self.columns@[i] == mapped[i],
                forall|i: int| k <= i < n ==> self.columns@[i] == old(self).columns@[i],
                self.start == old(self).start,
                self.end == old(self).end,
                self.sep == old(self).sep,
            decreases n - k,
        {
            let slot = self.columns[k];
            match slot {
                ColumnSlot::Fresh(mut c) => {
                    c.reset();
                    self.columns[k] = ColumnSlot::Fresh(c);
                },
                ColumnSlot::Shared(_) => {},
            }
            k = k + 1;
        }
        proof {
            assert(self.columns@ =~= mapped);
        }
    }
}

} // verus!
