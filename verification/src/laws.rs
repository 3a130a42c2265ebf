//! The engine's general guarantees, stated and proved once, over the same
//! spec functions its contracts use.

use vstd::prelude::*;
use crate::column::{
    ColumnLayout, Pos, spec_cell, spec_content, spec_lower, spec_pad, spec_pads,
};
use crate::renderer::{Renderer, occ};
use crate::text::{
    ScanState, end_state, lemma_visible_append, visible_count_from, visible_len,
};

verus! {

/// A run of a pad character other than ESC is entirely visible and leaves
/// the scanner in ordinary text.
proof fn lemma_pad_scan(c: char, n: nat)
    requires
        c != '\u{1b}',
    ensures
        visible_count_from(spec_pad(c, n), ScanState::Text) == n,
        end_state(spec_pad(c, n), ScanState::Text) == ScanState::Text,
    decreases n,
{
    if n > 0 {
        assert(spec_pad(c, n)[0] == c);
        assert(spec_pad(c, n).drop_first() =~= spec_pad(c, (n - 1) as nat));
        lemma_pad_scan(c, (n - 1) as nat);
    }
}

/// A column without an upper bound never truncates: whenever the batch
/// maximum is at least the value's own visible width — as it always is for a
/// value that was observed in the batch — the rendered content is the value
/// itself.
pub proof fn lemma_unbound_never_truncates(cl: ColumnLayout, max: nat, value: Seq<char>)
    requires
        cl.upper_bound is None,
        visible_len(value) <= max,
    ensures
        spec_content(cl, max, value) == value,
{
}

/// For a column without an upper bound, with its floor at or below the batch
/// maximum, a left- or right-aligned cell renders every batch value at
/// exactly the batch's maximum observed visible width.
///
/// The value's escape sequences must be closed (the scan ends in ordinary
/// text) and the pad character must itself be visible, else padding could be
/// swallowed by an unfinished escape sequence.  Middle alignment is excluded
/// on purpose: its parity rule can emit one extra trailing pad character
/// (for instance a two-character value padded to a batch maximum of eight
/// comes out nine wide).
pub proof fn lemma_unbound_renders_batch_width(cl: ColumnLayout, max: nat, value: Seq<char>)
    requires
        cl.upper_bound is None,
        visible_len(value) <= max,
        (cl.lower_bound as nat) <= max,
        cl.pad_char != '\u{1b}',
        end_state(value, ScanState::Text) == ScanState::Text,
        cl.pos is Left || cl.pos is Right,
    ensures
        spec_content(cl, max, value) == value,
        visible_len(spec_cell(cl, max, value)) == max,
{
    let pads = spec_pads(cl, max, value);
    let padseq = spec_pad(cl.pad_char, pads);
    lemma_pad_scan(cl.pad_char, pads);
    if cl.pos is Right {
        lemma_visible_append(padseq, value, ScanState::Text);
    } else {
        lemma_visible_append(value, padseq, ScanState::Text);
    }
}

/// For `Left` and `Right` alignment the cell carries exactly
/// `effective_lower_bound - visible_width(value)` pad characters, in one run
/// before (`Right`) or after (`Left`) the content.
pub proof fn lemma_side_padding_exact(cl: ColumnLayout, max: nat, value: Seq<char>)
    requires
        visible_len(value) <= spec_lower(cl, max),
    ensures
        spec_pads(cl, max, value) == spec_lower(cl, max) - visible_len(value),
        cl.pos is Right ==> spec_cell(cl, max, value) == spec_pad(
            cl.pad_char,
            (spec_lower(cl, max) - visible_len(value)) as nat,
        ) + spec_content(cl, max, value),
        cl.pos is Left ==> spec_cell(cl, max, value) == spec_content(cl, max, value) + spec_pad(
            cl.pad_char,
            (spec_lower(cl, max) - visible_len(value)) as nat,
        ),
{
}

/// `Middle` alignment splits `pads` needed pad characters as `pads / 2`
/// before the content and `pads / 2` after it, with exactly one extra pad
/// character appended after the trailing run when `pads / 2` is odd.
pub proof fn lemma_middle_padding_split(cl: ColumnLayout, max: nat, value: Seq<char>)
    requires
        cl.pos is Middle,
    ensures
        ({
            let pads = spec_pads(cl, max, value);
            let half = pads / 2;
            spec_cell(cl, max, value) == spec_pad(cl.pad_char, half) + spec_content(
                cl,
                max,
                value,
            ) + spec_pad(
                cl.pad_char,
                (half + (if half % 2 == 1 {
                    1nat
                } else {
                    0nat
                })) as nat,
            )
        }),
{
}

/// Flushing a renderer with an empty write log yields the empty string.
pub proof fn lemma_flush_empty(r: Renderer)
    requires
        r.write_log@.len() == 0,
    ensures
        r.spec_flush_output() == Seq::<char>::empty(),
{
}

/// The flush output ends with the row of the last write-log entry — the
/// `k`-th pending row of that entry's layout, where `k` counts that layout's
/// earlier entries — after the output of all earlier entries and one newline.
/// Rows therefore come out in exactly the order the writes were logged,
/// however the layouts interleave.
pub proof fn lemma_flush_order(r: Renderer)
    requires
        r.write_log@.len() > 0,
    ensures
        ({
            let n = r.write_log@.len() as int;
            let h = r.write_log@[n - 1] as int;
            let k = occ(r.write_log@.take(n - 1), h) as int;
            r.spec_flush_output() == if n == 1 {
                r.spec_row(h, k)
            } else {
                r.spec_flush_upto(n - 1) + r.newline@ + r.spec_row(h, k)
            }
        }),
{
}

} // verus!
