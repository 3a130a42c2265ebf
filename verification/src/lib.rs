//! A buffered, multi-schema text table renderer.
//!
//! Rows of string values are written to registered row layouts, visible-width
//! statistics are aggregated per column across all rows since the last flush,
//! and `Renderer::flush` emits every buffered row, aligned and padded, in the
//! exact order the rows were submitted — interleaved across layouts.

pub mod column;
pub mod homogeneous;
pub mod laws;
pub mod renderer;
pub mod row;
pub mod text;

pub use column::{Column, ColumnLayout, Pos};
pub use renderer::{LayoutEntry, Renderer};
pub use row::{ColumnSlot, RowLayout};
pub use text::{visible_width, truncate_visible};
