//! A convenience layer for homogeneous tables: one row shape, named columns,
//! values pulled from a data source, absent values substituted with a
//! placeholder.

use vstd::prelude::*;
use crate::column::ColumnLayout;
use crate::renderer::{Renderer, lemma_fresh_count_all, lemma_observe_cols_identity};
use crate::row::RowLayout;
use crate::column::{Column, spec_observe, spec_reset};
use crate::text::visible_len;

verus! {

/// A pluggable per-column text transform, applied to a value immediately
/// before it is handed to the renderer.
pub trait TextFormatter {
    fn format_text(&self, source: String) -> String;
}

/// The identity transform.
pub struct IdFormatter();

impl TextFormatter for IdFormatter {
    fn format_text(&self, source: String) -> (r: String)
        ensures
            r == source,
    {
        source
    }
}

/// A column heading: the text shown in the header row, the key used to pull
/// values from a data source, and the column's text transform.
pub struct Title {
    pub title: String,
    pub id: String,
    pub formatter: Box<dyn TextFormatter>,
}

impl Title {
    /// A heading with the identity transform.
    pub fn new(title: &str, id: &str) -> (t: Title)
        ensures
            t.title@ == title@,
            t.id@ == id@,
    {
        Title { title: title.to_owned(), id: id.to_owned(), formatter: Box::new(IdFormatter()) }
    }

    /// A heading with the given transform.
    pub fn new_fmt(title: &str, id: &str, formatter: impl TextFormatter + 'static) -> (t: Title)
        ensures
            t.title@ == title@,
            t.id@ == id@,
    {
        Title { title: title.to_owned(), id: id.to_owned(), formatter: Box::new(formatter) }
    }
}

/// A row data source: maps a column key to that row's value, or to nothing.
pub trait TableSource {
    fn value_for_column(&self, column: &str) -> Option<String>;
}

/// The value a table cell receives from a data source lookup: the source's
/// value where it has one, else the `"N/A"` placeholder.
pub fn resolve_value(value: Option<String>) -> (r: String)
    ensures
        match value {
            Some(v) => r == v,
            None => r@ == "N/A"@,
        },
{
    match value {
        None => "N/A".to_owned(),
        Some(v) => v,
    }
}

/// A single-layout table over one renderer: writes pull one value per
/// registered column from a data source, and the header row, when enabled,
/// is re-buffered after every flush so the next batch carries it again.
pub struct TableLayout {
    pub permutation: Vec<Title>,
    pub renderer: Renderer,
    pub row_id: usize,
    pub print_header: bool,
    pub titles: Vec<String>,
}

impl TableLayout {
    /// The table's structural soundness: its renderer holds exactly one
    /// registered layout with one column per heading, each heading's cell
    /// standing at its own position in the arena.
    pub open spec fn wf(self) -> bool {
        &&& self.renderer.wf()
        &&& self.renderer.layouts@.len() == 1
        &&& (self.row_id as int) < self.renderer.layouts@.len()
        &&& self.renderer.layouts@[0].col_ids@.len() == self.permutation@.len()
        &&& self.renderer.cols@.len() == self.permutation@.len()
        &&& forall|c: int|
            0 <= c < self.permutation@.len() ==> (
            #[trigger] self.renderer.layouts@[0].col_ids@[c]) as int == c
        &&& self.titles@.len() == self.permutation@.len()
    }

    /// Builds the table: one column per `(heading, policy)` pair, in order,
    /// separated by `separator`, with empty start and end tokens.  With
    /// `print_header` set, the heading texts are buffered as the first row,
    /// so the first flush begins with the header and the heading widths
    /// count toward the first batch's extrema.
    pub fn new(separator: &str, print_header: bool, layout: Vec<(Title, ColumnLayout)>) -> (t:
        TableLayout)
        ensures
            t.wf(),
            t.print_header == print_header,
            t.row_id == 0,
            t.permutation@.len() == layout@.len(),
            forall|i: int|
                0 <= i < layout@.len() ==> #[trigger] t.permutation@[i].title == layout@[i].0.title
                    && t.permutation@[i].id == layout@[i].0.id,
            t.titles@.len() == layout@.len(),
            forall|i: int| 0 <= i < layout@.len() ==> t.titles@[i] == layout@[i].0.title,
            t.renderer.layouts@.len() == 1,
            t.renderer.layouts@[0].sep@ == separator@,
            t.renderer.layouts@[0].start@ == Seq::<char>::empty(),
            t.renderer.layouts@[0].end@ == Seq::<char>::empty(),
            t.renderer.layouts@[0].col_ids@.len() == layout@.len(),
            t.renderer.cols@.len() == layout@.len(),
            forall|i: int|
                0 <= i < layout@.len() ==> (#[trigger] t.renderer.cols@[i]).layout == layout@[
                    i].1,
            t.renderer.newline@ == seq!['\n'],
            print_header ==> t.renderer.write_log@ == seq![0usize],
            print_header ==> forall|c: int|
                0 <= c < layout@.len() ==> #[trigger] t.renderer.layouts@[0].queues@[c]@ == seq![
                    layout@[c].0.title,
                ],
            print_header ==> forall|i: int|
                0 <= i < layout@.len() ==> (#[trigger] t.renderer.cols@[i]).min == visible_len(
                    layout@[i].0.title@,
                ) as usize && t.renderer.cols@[i].max == visible_len(layout@[i].0.title@) as usize,
            !print_header ==> t.renderer.write_log@ == Seq::<usize>::empty(),
            !print_header ==> forall|c: int|
                0 <= c < layout@.len() ==> #[trigger] t.renderer.layouts@[0].queues@[c]@ == Seq::<
                    String,
                >::empty(),
            !print_header ==> forall|i: int|
                0 <= i < layout@.len() ==> (#[trigger] t.renderer.cols@[i]).min == usize::MAX
                    && t.renderer.cols@[i].max == 0,
    {
        let ghost layout0 = layout@;
        let mut layout = layout;
        let mut permutation: Vec<Title> = Vec::new();
        let mut titles: Vec<String> = Vec::new();
        let mut row_layout = RowLayout::new();
        row_layout.set_separator(separator.to_owned());
        while layout.len() > 0
            invariant
                permutation@.len() + layout@.len() == layout0.len(),
                titles@.len() == permutation@.len(),
                row_layout.columns@.len() == permutation@.len(),
                row_layout.start@ == Seq::<char>::empty(),
                row_layout.end@ == Seq::<char>::empty(),
                row_layout.sep@ == separator@,
                forall|i: int|
                    0 <= i < row_layout.columns@.len() ==> #[trigger] row_layout.columns@[i]
                        == crate::row::ColumnSlot::Fresh(
                        Column { layout: layout0[i].1, min: usize::MAX, max: 0 },
                    ),
                forall|i: int|
                    0 <= i < layout@.len() ==> layout@[i] == layout0[permutation@.len() + i],
                forall|i: int|
                    0 <= i < permutation@.len() ==> #[trigger] permutation@[i].title == layout0[
                        i].0.title && permutation@[i].id == layout0[i].0.id,
                forall|i: int| 0 <= i < titles@.len() ==> titles@[i] == layout0[i].0.title,
            decreases layout@.len(),
        {
            let pair = layout.remove(0);
            let (title, col) = pair;
            row_layout.push_column_layout(col);
            titles.push(title.title.clone());
            permutation.push(title);
        }
        let ghost slots = row_layout.columns@;
        let ghost n = layout0.len() as int;
        let mut renderer = Renderer::new();
        let row_id = renderer.register_layout(row_layout);
        proof {
            lemma_fresh_count_all(slots, n);
            assert forall|c: int|
                0 <= c < n implies (#[trigger] renderer.layouts@[0].col_ids@[c]) as int == c by {
                lemma_fresh_count_all(slots, c);
                assert(slots[c] == crate::row::ColumnSlot::Fresh(
                    Column { layout: layout0[c].1, min: usize::MAX, max: 0 },
                ));
            }
            assert forall|i: int|
                0 <= i < n implies #[trigger] renderer.cols@[i] == (Column {
                layout: layout0[i].1,
                min: usize::MAX,
                max: 0,
            }) by {
                lemma_fresh_count_all(slots, i);
                assert(slots[i] == crate::row::ColumnSlot::Fresh(
                    Column { layout: layout0[i].1, min: usize::MAX, max: 0 },
                ));
            }
        }
        let ghost cols_fresh = renderer.cols@;
        if print_header {
            renderer.write_to_layout(row_id, titles.as_slice());
            proof {
                assert(renderer.write_log@ =~= seq![0usize]);
                assert forall|c: int|
                    0 <= c < n implies #[trigger] renderer.layouts@[0].queues@[c]@ == seq![
                    layout0[c].0.title,
                ] by {
                    assert(Seq::<String>::empty().push(titles@[c]) =~= seq![titles@[c]]);
                }
                lemma_observe_cols_identity(
                    cols_fresh,
                    renderer.layouts@[0].col_ids@,
                    titles@,
                    n,
                );
                assert forall|i: int|
                    0 <= i < n implies (#[trigger] renderer.cols@[i]).min == visible_len(
                    layout0[i].0.title@,
                ) as usize && renderer.cols@[i].max == visible_len(layout0[i].0.title@) as usize
                    && renderer.cols@[i].layout == layout0[i].1 by {
                    assert(renderer.cols@[i] == spec_observe(
                        cols_fresh[i],
                        visible_len(titles@[i]@) as usize,
                    ));
                }
            }
        }
        TableLayout { permutation, renderer, row_id, print_header, titles }
    }

    /// Buffers one row: for each heading, in order, the data source's value
    /// for the heading's key — `resolve_value` substitutes the `"N/A"`
    /// placeholder where the source has none — passed through the heading's
    /// transform and written to the renderer: widths observed, values
    /// queued, the write logged.
    pub fn append_data(&mut self, source: impl TableSource)
        requires
            old(self).wf(),
        ensures
            final(self).wf(),
            final(self).renderer.write_log@ == old(self).renderer.write_log@.push(
                old(self).row_id,
            ),
            final(self).row_id == old(self).row_id,
            final(self).print_header == old(self).print_header,
            final(self).titles == old(self).titles,
            final(self).permutation == old(self).permutation,
            final(self).renderer.layouts@[0].start == old(self).renderer.layouts@[0].start,
            final(self).renderer.layouts@[0].end == old(self).renderer.layouts@[0].end,
            final(self).renderer.layouts@[0].sep == old(self).renderer.layouts@[0].sep,
            final(self).renderer.layouts@[0].col_ids == old(self).renderer.layouts@[0].col_ids,
            forall|c: int|
                0 <= c < old(self).permutation@.len() ==> (#[trigger] final(self).renderer.layouts@[0].queues@[c]@).len() == old(
                    self,
                ).renderer.layouts@[0].queues@[c]@.len() + 1,
            final(self).renderer.cols@.len() == old(self).renderer.cols@.len(),
    {
        let mut dat: Vec<String> = Vec::new();
        let n = self.permutation.len();
        let mut i: usize = 0;
        while i < n
            invariant
                n == self.permutation@.len(),
                i <= n,
                dat@.len() == i,
                *self == *old(self),
            decreases n - i,
        {
            let value = resolve_value(source.value_for_column(self.permutation[i].id.as_str()));
            let formatted = self.permutation[i].formatter.format_text(value);
            dat.push(formatted);
            i = i + 1;
        }
        let ghost cols0 = self.renderer.cols@;
        let ghost ids = self.renderer.layouts@[0].col_ids@;
        self.renderer.write_to_layout(self.row_id, dat.as_slice());
        proof {
            assert(old(self).row_id == 0);
            assert(old(self).renderer.layout_wf(0));
            lemma_observe_cols_identity(cols0, ids, dat@, n as int);
            assert forall|c: int|
                0 <= c < old(self).permutation@.len() implies (#[trigger] self.renderer.layouts@[
                0].queues@[c]@).len() == old(self).renderer.layouts@[0].queues@[c]@.len() + 1 by {
                assert(self.renderer.layouts@[0].queues@[c]@ == old(self).renderer.layouts@[
                0].queues@[c]@.push(dat@[c]));
            }
        }
    }

    /// Renders and drains everything buffered, in write order; afterwards
    /// every column cell's width extrema are reset, and with `print_header`
    /// set the heading texts are immediately re-buffered as the sole pending
    /// row of the table's own layout, their widths seeding the new batch's
    /// extrema.
    pub fn flush(&mut self) -> (r: String)
        requires
            old(self).wf(),
        ensures
            r@ == old(self).renderer.spec_flush_output(),
            final(self).wf(),
            final(self).row_id == old(self).row_id,
            final(self).print_header == old(self).print_header,
            final(self).titles == old(self).titles,
            final(self).permutation == old(self).permutation,
            final(self).renderer.layouts@[0].start == old(self).renderer.layouts@[0].start,
            final(self).renderer.layouts@[0].end == old(self).renderer.layouts@[0].end,
            final(self).renderer.layouts@[0].sep == old(self).renderer.layouts@[0].sep,
            final(self).renderer.layouts@[0].col_ids == old(self).renderer.layouts@[0].col_ids,
            old(self).print_header ==> {
                &&& final(self).renderer.write_log@ == seq![old(self).row_id]
                &&& forall|c: int|
                    0 <= c < old(self).titles@.len() ==> #[trigger] final(self).renderer.layouts@[0].queues@[c]@ == seq![old(self).titles@[c]]
                &&& forall|i: int|
                    0 <= i < old(self).renderer.cols@.len() ==> (#[trigger] final(self).renderer.cols@[i]).min == visible_len(old(self).titles@[i]@) as usize
                        && final(self).renderer.cols@[i].max == visible_len(
                        old(self).titles@[i]@,
                    ) as usize && final(self).renderer.cols@[i].layout == old(
                        self,
                    ).renderer.cols@[i].layout
            },
            !old(self).print_header ==> {
                &&& final(self).renderer.write_log@ == Seq::<usize>::empty()
                &&& forall|c: int|
                    0 <= c < old(self).titles@.len() ==> #[trigger] final(self).renderer.layouts@[0].queues@[c]@ == Seq::<String>::empty()
                &&& forall|i: int|
                    0 <= i < old(self).renderer.cols@.len() ==> #[trigger] final(self).renderer.cols@[i] == spec_reset(old(self).renderer.cols@[i])
            },
    {
        let ret = self.renderer.flush();
        proof {
            assert(old(self).row_id == 0);
            assert(old(self).renderer.layout_wf(0));
            assert(crate::renderer::entry_cleared(
                self.renderer.layouts@[0],
                old(self).renderer.layouts@[0],
            ));
            assert(self.renderer.layouts@[0].queues@.len() == old(self).titles@.len());
            assert forall|c: int|
                0 <= c < old(self).titles@.len() implies #[trigger] self.renderer.layouts@[
                0].queues@[c]@ == Seq::<String>::empty() by {}
        }
        if self.print_header {
            let ghost cols_mid = self.renderer.cols@;
            let ghost ids = self.renderer.layouts@[0].col_ids@;
            let ghost queues_mid = self.renderer.layouts@[0].queues@;
            self.renderer.write_to_layout(self.row_id, self.titles.as_slice());
            proof {
                assert(self.renderer.write_log@ =~= seq![old(self).row_id]);
                assert forall|c: int|
                    0 <= c < old(self).titles@.len() implies #[trigger] self.renderer.layouts@[
                    0].queues@[c]@ == seq![old(self).titles@[c]] by {
                    assert(queues_mid[c]@ == Seq::<String>::empty());
                    assert(self.renderer.layouts@[0].queues@[c]@ == queues_mid[c]@.push(
                        old(self).titles@[c],
                    ));
                    assert(Seq::<String>::empty().push(old(self).titles@[c]) =~= seq![
                        old(self).titles@[c],
                    ]);
                }
                lemma_observe_cols_identity(
                    cols_mid,
                    ids,
                    old(self).titles@,
                    old(self).titles@.len() as int,
                );
                assert forall|i: int|
                    0 <= i < old(self).renderer.cols@.len() implies (#[trigger] self.renderer.cols@[
                    i]).min == visible_len(old(self).titles@[i]@) as usize
                    && self.renderer.cols@[i].max == visible_len(old(self).titles@[i]@) as usize
                    && self.renderer.cols@[i].layout == old(self).renderer.cols@[i].layout by {
                    assert(cols_mid[i] == spec_reset(old(self).renderer.cols@[i]));
                    assert(self.renderer.cols@[i] == spec_observe(
                        cols_mid[i],
                        visible_len(old(self).titles@[i]@) as usize,
                    ));
                }
            }
        }
        ret
    }
}

} // verus!
